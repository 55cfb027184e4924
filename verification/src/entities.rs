//! The records that the registry stores, and the events it emits.

use crate::ids::Hash256;
use vstd::prelude::*;

verus! {

/// A registered principal. The id is the key of the record and is also held
/// in it, so that a stored record reads back equal to the one minted.
#[derive(Clone, Copy, Debug, PartialEq, Eq, Structural)]
pub struct Identity {
    pub id: Hash256,
}

/// A credential issued under an identity and held by an owner.
#[derive(Clone, Copy, Debug, PartialEq, Eq, Structural)]
pub struct AuthorizedToken {
    pub id: Hash256,
    pub cost: u128,
    pub data: u64,
    pub datatype: u64,
    pub expired: u64,
}

/// What the registry reports of an operation that it accepted.
#[derive(Debug, PartialEq, Eq)]
pub enum Event<O> {
    /// An identity was registered for `owner`.
    IdentityCreated { owner: O, id: Hash256 },
    /// A token was issued under `issuer_identity` to `holder`.
    AuthorizedTokenCreated { holder: O, issuer_identity: Hash256, token_id: Hash256 },
    /// A token passed from `from` to `to`.
    AuthorizedTokenTransferred { from: O, to: O, token_id: Hash256 },
    /// `caller` asked for authentication with a token at `url`.
    AuthenticationRequested { caller: O, token_id: Hash256, url: Vec<u8> },
}

/// A source of fresh ids, kept outside the registry: typically it derives
/// each id from a seed of randomness and a count of the owner's earlier
/// requests. The registry asks nothing of the ids it hands out; one that
/// collides with a registered id is rejected.
pub trait IdSource<O> {
    /// The next id for `owner`.
    fn next_id(&mut self, owner: &O) -> Hash256;
}

} // verus!
