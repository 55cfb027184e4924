//! The global table of entities of one kind.

use crate::error::RegistryError;
use crate::ids::Hash256;
use crate::table::Table;
use vstd::prelude::*;

verus! {

/// What an [`EntityStore`] holds: the ids in the order in which they were
/// minted, the payload of each, and the largest count the store may reach.
pub struct EntityStoreView<P> {
    pub ids: Seq<Hash256>,
    pub payloads: Seq<P>,
    pub max_count: nat,
}

impl<P> EntityStoreView<P> {
    /// Every id has a payload, no id occurs twice, and the count is within
    /// its maximum.
    pub open spec fn wf(self) -> bool {
        &&& self.ids.len() == self.payloads.len()
        &&& self.ids.len() <= self.max_count
        &&& self.ids.no_duplicates()
    }

    /// The store with nothing in it.
    pub open spec fn empty(max_count: nat) -> Self {
        EntityStoreView { ids: Seq::empty(), payloads: Seq::empty(), max_count }
    }

    /// The number of entities minted so far.
    pub open spec fn count(self) -> nat {
        self.ids.len()
    }

    /// Whether `id` was minted.
    pub open spec fn contains(self, id: Hash256) -> bool {
        self.ids.contains(id)
    }

    /// The position of `id` in the global enumeration.
    pub open spec fn index_of(self, id: Hash256) -> int {
        self.ids.index_of(id)
    }

    /// The payload stored under `id`.
    pub open spec fn payload(self, id: Hash256) -> P {
        self.payloads[self.ids.index_of(id)]
    }

    /// Why `id` cannot be minted, if it cannot.
    pub open spec fn insert_error(self, id: Hash256) -> Option<RegistryError> {
        if self.contains(id) {
            Some(RegistryError::DuplicateId)
        } else if self.count() >= self.max_count {
            Some(RegistryError::Overflow)
        } else {
            None
        }
    }

    /// The store after `id` was minted with `payload`.
    pub open spec fn insert(self, id: Hash256, payload: P) -> Self {
        EntityStoreView {
            ids: self.ids.push(id),
            payloads: self.payloads.push(payload),
            max_count: self.max_count,
        }
    }

    /// The store after the ids of `ids` were minted in order, the i-th with
    /// the i-th of `payloads`.
    pub open spec fn insert_all(self, ids: Seq<Hash256>, payloads: Seq<P>) -> Self
        decreases ids.len(),
    {
        if ids.len() == 0 {
            self
        } else {
            self.insert_all(ids.drop_last(), payloads.drop_last()).insert(
                ids.last(),
                payloads.last(),
            )
        }
    }

    /// Whether each of the mints of `ids`, made in order, is accepted.
    pub open spec fn accepts_all(self, ids: Seq<Hash256>, payloads: Seq<P>) -> bool
        decreases ids.len(),
    {
        ids.len() == 0 || (self.accepts_all(ids.drop_last(), payloads.drop_last())
            && self.insert_all(ids.drop_last(), payloads.drop_last()).insert_error(ids.last())
            is None)
    }

    /// Minting an id that has no reason to be rejected keeps the store well
    /// formed, makes the id the last of the enumeration and leaves every
    /// earlier entry where it was.
    pub proof fn insert_preserves_wf(self, id: Hash256, payload: P)
        requires
            self.wf(),
            self.insert_error(id) is None,
        ensures
            self.insert(id, payload).wf(),
            self.insert(id, payload).count() == self.count() + 1,
            self.insert(id, payload).contains(id),
            self.insert(id, payload).index_of(id) == self.count(),
            self.insert(id, payload).payload(id) == payload,
            forall|other: Hash256|
                #![trigger self.insert(id, payload).contains(other)]
                #![trigger self.contains(other)]
                other != id ==> self.insert(id, payload).contains(other) == self.contains(other),
            forall|other: Hash256| #[trigger]
                self.contains(other) ==> self.insert(id, payload).index_of(other) == self.index_of(
                    other,
                ) && self.insert(id, payload).payload(other) == self.payload(other),
    {
        let after = self.insert(id, payload);
        assert(after.ids[self.ids.len() as int] == id);
        assert forall|other: Hash256| other != id implies after.contains(other) == self.contains(
            other,
        ) by {
            if self.contains(other) {
                assert(after.ids[self.ids.index_of(other)] == other);
            }
            if after.contains(other) {
                assert(self.ids[after.ids.index_of(other)] == other);
            }
        }
    }
}

/// The global key-to-payload table of one kind of entity, with a count that
/// only grows and a dense enumeration in mint order.
pub struct EntityStore<P> {
    ids: Vec<Hash256>,
    payloads: Vec<P>,
    index: Table<Hash256, u64>,
    max_count: u64,
}

impl<P> View for EntityStore<P> {
    type V = EntityStoreView<P>;

    closed spec fn view(&self) -> EntityStoreView<P> {
        EntityStoreView {
            ids: self.ids@,
            payloads: self.payloads@,
            max_count: self.max_count as nat,
        }
    }
}

impl<P> EntityStore<P> {
    /// The enumeration, the payloads and the reverse index agree.
    pub closed spec fn wf(&self) -> bool {
        &&& self@.wf()
        &&& forall|i: int|
            0 <= i < self.ids@.len() ==> self.index@.contains_key(#[trigger] self.ids@[i])
                && self.index@[self.ids@[i]] == i
        &&& forall|id: Hash256| #[trigger]
            self.index@.contains_key(id) ==> self.index@[id] < self.ids@.len()
                && self.ids@[self.index@[id] as int] == id
    }

    /// A well-formed store has a well-formed view, whose maximum fits a counter.
    pub proof fn wf_view(&self)
        requires
            self.wf(),
        ensures
            self@.wf(),
            self@.max_count <= u64::MAX,
    {
    }

    /// An empty store whose count may grow to the largest value a counter can hold.
    pub fn new() -> (store: Self)
        ensures
            store.wf(),
            store@ == EntityStoreView::<P>::empty(u64::MAX as nat),
    {
        Self::with_max_count(u64::MAX)
    }

    /// An empty store whose count may grow to `max_count` and no further.
    pub fn with_max_count(max_count: u64) -> (store: Self)
        ensures
            store.wf(),
            store@ == EntityStoreView::<P>::empty(max_count as nat),
    {
        EntityStore { ids: Vec::new(), payloads: Vec::new(), index: Table::new(), max_count }
    }

    /// The number of entities minted so far.
    pub fn count(&self) -> (n: u64)
        requires
            self.wf(),
        ensures
            n == self@.count(),
    {
        self.ids.len() as u64
    }

    /// The largest count this store may reach.
    pub fn max_count(&self) -> (n: u64)
        ensures
            n == self@.max_count,
    {
        self.max_count
    }

    /// Whether `id` was minted.
    pub fn contains(&self, id: &Hash256) -> (found: bool)
        requires
            self.wf(),
        ensures
            found == self@.contains(*id),
    {
        self.index.contains_key(id)
    }

    /// The position of `id` in the global enumeration, if it was minted.
    pub fn global_index(&self, id: &Hash256) -> (position: Option<u64>)
        requires
            self.wf(),
        ensures
            position == (if self@.contains(*id) {
                Some(self@.index_of(*id) as u64)
            } else {
                None
            }),
    {
        match self.index.get(id) {
            Some(position) => Some(*position),
            None => None,
        }
    }

    /// The payload stored under `id`, if it was minted.
    pub fn get(&self, id: &Hash256) -> (payload: Option<&P>)
        requires
            self.wf(),
        ensures
            payload == (if self@.contains(*id) {
                Some(&self@.payload(*id))
            } else {
                None
            }),
    {
        match self.index.get(id) {
            Some(position) => {
                assert(*position < self.ids.len());
                Some(&self.payloads[*position as usize])
            },
            None => None,
        }
    }

    /// The id minted as number `i`, counting from zero, if there were that many.
    pub fn by_global_index(&self, i: u64) -> (id: Option<Hash256>)
        requires
            self.wf(),
        ensures
            id == (if i < self@.count() {
                Some(self@.ids[i as int])
            } else {
                None
            }),
    {
        if i < self.ids.len() as u64 {
            Some(self.ids[i as usize])
        } else {
            None
        }
    }

    /// Mints `id` with `payload`: the id becomes the last of the global
    /// enumeration and the count grows by one. An id already present is
    /// rejected as a duplicate; otherwise a count already at its maximum is
    /// rejected as an overflow. A rejected mint changes nothing.
    pub fn insert(&mut self, id: Hash256, payload: P) -> (result: Result<(), RegistryError>)
        requires
            old(self).wf(),
        ensures
            final(self).wf(),
            match old(self)@.insert_error(id) {
                Some(e) => result == Err::<(), RegistryError>(e) && *final(self) == *old(self),
                None => result == Ok::<(), RegistryError>(()) && final(self)@ == old(self)@.insert(
                    id,
                    payload,
                ),
            },
    {
        if self.index.contains_key(&id) {
            return Err(RegistryError::DuplicateId);
        }
        let position = self.ids.len() as u64;
        if position >= self.max_count {
            return Err(RegistryError::Overflow);
        }
        self.ids.push(id);
        self.payloads.push(payload);
        self.index.insert(id, position);
        proof {
            old(self)@.insert_preserves_wf(id, payload);
        }
        Ok(())
    }
}

} // verus!
