//! An enumerable, owner-indexed registry of identities and authorized tokens.
//!
//! Every entity carries a 256-bit id. The registry keeps, for each kind of
//! entity, a global enumeration in mint order and a dense list per owner, and
//! keeps these mutually consistent under minting and ownership transfer. Each
//! operation either completes or leaves the registry exactly as it was.
//!
//! The parts, from the leaves up:
//!
//! - [`ids`]: the 256-bit identifier and the keys that can index entities;
//! - [`table`]: a hash table over such keys;
//! - [`entity_store`]: the global table of the entities of one kind;
//! - [`owner_index`]: for each key a dense list of ids, with swap-removal;
//! - [`cross_reference`]: the permanent link from a token to its issuer;
//! - [`transfer`]: the checked move of an id from one key to another;
//! - [`registry`]: the registry itself, its operations and its queries;
//! - [`calls`]: the operations as values, and sequences of them;
//! - [`laws`]: what holds of every registry.
//!
//! Each type has a view, written `@`, that says what a value holds; the
//! contracts of the operations and the laws are stated over the views.

pub mod calls;
pub mod cross_reference;
pub mod entities;
pub mod entity_store;
pub mod error;
pub mod ids;
pub mod laws;
pub mod owner_index;
pub mod registry;
pub mod table;
pub mod transfer;
