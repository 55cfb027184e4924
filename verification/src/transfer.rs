//! Moving an id from the key that holds it to another key.

use crate::error::RegistryError;
use crate::ids::{Hash256, IndexKey};
use crate::owner_index::{same_key, OwnerIndex, OwnerIndexView};
use vstd::prelude::*;

verus! {

impl<K> OwnerIndexView<K> {
    /// Why `caller` cannot hand `id` over to `to`, if it cannot: the id is
    /// not filed at all, or it is filed under another key than `caller`, or
    /// the count of `to` is at its maximum.
    pub open spec fn transfer_error(self, caller: K, to: K, id: Hash256) -> Option<RegistryError> {
        if !self.contains(id) {
            Some(RegistryError::NotFound)
        } else if self.key_of(id) != caller {
            Some(RegistryError::NotOwner)
        } else if self.count(to) >= self.max_count {
            Some(RegistryError::Overflow)
        } else {
            None
        }
    }

    /// The index after `caller` handed `id` over to `to`: the id is taken out
    /// of the caller's list by swap-removal and put at the end of the list of `to`.
    pub open spec fn transfer(self, caller: K, to: K, id: Hash256) -> Self {
        self.remove(caller, id).append(to, id)
    }

    /// A transfer that has no reason to be rejected keeps the index well
    /// formed. Afterwards the id is filed under `to`, last in its list; the
    /// counts of the two keys, where they differ, have moved by one; and
    /// every other id is filed under the key it was filed under before.
    pub proof fn transfer_preserves_wf(self, caller: K, to: K, id: Hash256)
        requires
            self.wf(),
            self.transfer_error(caller, to, id) is None,
        ensures
            self.is_member(caller, id),
            self.remove(caller, id).append_error(to, id) is None,
            self.transfer(caller, to, id).wf(),
            self.transfer(caller, to, id).contains(id),
            self.transfer(caller, to, id).key_of(id) == to,
            self.transfer(caller, to, id).position_of(id) == self.transfer(caller, to, id).count(to)
                - 1,
            caller != to ==> self.transfer(caller, to, id).count(caller) == self.count(caller) - 1
                && self.transfer(caller, to, id).count(to) == self.count(to) + 1,
            caller == to ==> self.transfer(caller, to, id).count(to) == self.count(to),
            forall|other: K|
                other != caller && other != to ==> self.transfer(caller, to, id).list(other)
                    == self.list(other),
            forall|e: Hash256|
                #![trigger self.transfer(caller, to, id).contains(e)]
                #![trigger self.contains(e)]
                e != id ==> self.transfer(caller, to, id).contains(e) == self.contains(e),
            forall|e: Hash256|
                e != id && #[trigger] self.contains(e) ==> self.transfer(caller, to, id).key_of(e)
                    == self.key_of(e),
    {
        self.place_holds(id);
        self.remove_preserves_wf(caller, id);
        self.remove(caller, id).append_preserves_wf(to, id);
    }
}

/// Validates a claim of ownership and moves the id from one key's list to
/// another's. Everything that can fail is tested before anything is written,
/// so a transfer is never left half done.
pub struct TransferEngine;

impl TransferEngine {
    /// Hands `id` over from `caller` to `to` in `index`. An id that is not
    /// filed is rejected as not found; one filed under another key than
    /// `caller` as not owned; otherwise a destination whose count is at its
    /// maximum as an overflow. A rejected transfer changes nothing.
    pub fn transfer<K: IndexKey>(index: &mut OwnerIndex<K>, caller: K, to: K, id: Hash256) -> (result:
        Result<(), RegistryError>)
        requires
            old(index).wf(),
        ensures
            final(index).wf(),
            match old(index)@.transfer_error(caller, to, id) {
                Some(e) => result == Err::<(), RegistryError>(e) && *final(index) == *old(index),
                None => result == Ok::<(), RegistryError>(()) && final(index)@ == old(
                    index,
                )@.transfer(caller, to, id),
            },
    {
        match index.key_of(&id) {
            None => {
                return Err(RegistryError::NotFound);
            },
            Some(holder) => {
                if !same_key(&holder, &caller) {
                    return Err(RegistryError::NotOwner);
                }
            },
        }
        if index.count(&to) >= index.max_count() {
            return Err(RegistryError::Overflow);
        }
        proof {
            index.wf_view();
            index@.transfer_preserves_wf(caller, to, id);
        }
        let _ = index.remove(caller, id);
        let _ = index.append(to, id);
        Ok(())
    }
}

} // verus!
