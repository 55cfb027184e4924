//! The ways in which a registry operation can be rejected.

use vstd::prelude::*;

verus! {

/// Why an operation was rejected. A rejected operation changes nothing.
#[derive(Clone, Copy, Debug, PartialEq, Eq, Structural)]
pub enum RegistryError {
    /// A mint named an id that is already present.
    DuplicateId,
    /// The operation named an id that does not exist.
    NotFound,
    /// The caller does not currently hold the entity.
    NotOwner,
    /// A token was to be issued under an identity that was never registered.
    IdentityNotFound,
    /// A counter is already at its maximum.
    Overflow,
}

} // verus!
