//! Dense, enumerable sets of entity ids, one per key.

use crate::error::RegistryError;
use crate::ids::{Hash256, IndexKey};
use crate::table::Table;
use vstd::prelude::*;

verus! {

/// The list `list` without the element at position `i`: the last element
/// takes the freed position, and the list gets shorter by one.
pub open spec fn swap_removed(list: Seq<Hash256>, i: int) -> Seq<Hash256> {
    list.update(i, list.last()).drop_last()
}

/// What an [`OwnerIndex`] holds: for each key with at least one id, the ids
/// filed under it by position, and the largest count a key may reach.
#[verifier::reject_recursive_types(K)]
pub struct OwnerIndexView<K> {
    pub lists: Map<K, Seq<Hash256>>,
    pub max_count: nat,
}

impl<K> OwnerIndexView<K> {
    /// The index with nothing in it.
    pub open spec fn empty(max_count: nat) -> Self {
        OwnerIndexView { lists: Map::empty(), max_count }
    }

    /// The ids filed under `key`, by position.
    pub open spec fn list(self, key: K) -> Seq<Hash256> {
        if self.lists.contains_key(key) {
            self.lists[key]
        } else {
            Seq::empty()
        }
    }

    /// The number of ids filed under `key`.
    pub open spec fn count(self, key: K) -> nat {
        self.list(key).len()
    }

    /// Whether `id` is filed under `key` at position `i`.
    pub open spec fn holds(self, key: K, i: int, id: Hash256) -> bool {
        0 <= i < self.list(key).len() && self.list(key)[i] == id
    }

    /// Whether `id` is filed under some key.
    pub open spec fn contains(self, id: Hash256) -> bool {
        exists|key: K, i: int| #[trigger] self.holds(key, i, id)
    }

    /// A key and position at which `id` is filed.
    pub open spec fn place(self, id: Hash256) -> (K, int) {
        choose|p: (K, int)| #[trigger] self.holds(p.0, p.1, id)
    }

    /// The key under which `id` is filed.
    pub open spec fn key_of(self, id: Hash256) -> K {
        self.place(id).0
    }

    /// The position of `id` under its key.
    pub open spec fn position_of(self, id: Hash256) -> int {
        self.place(id).1
    }

    /// No list is recorded empty or longer than the maximum, and no id is
    /// filed at two places.
    pub open spec fn wf(self) -> bool {
        &&& forall|key: K| #[trigger]
            self.lists.contains_key(key) ==> 0 < self.lists[key].len() <= self.max_count
        &&& forall|k1: K, i1: int, k2: K, i2: int, id: Hash256|
            #[trigger] self.holds(k1, i1, id) && #[trigger] self.holds(k2, i2, id) ==> k1 == k2
                && i1 == i2
    }

    /// Why `id` cannot be filed under `key`, if it cannot.
    pub open spec fn append_error(self, key: K, id: Hash256) -> Option<RegistryError> {
        if self.contains(id) {
            Some(RegistryError::DuplicateId)
        } else if self.count(key) >= self.max_count {
            Some(RegistryError::Overflow)
        } else {
            None
        }
    }

    /// The index after `id` was filed under `key`, at the end of its list.
    pub open spec fn append(self, key: K, id: Hash256) -> Self {
        OwnerIndexView {
            lists: self.lists.insert(key, self.list(key).push(id)),
            max_count: self.max_count,
        }
    }

    /// Whether `id` is filed under `key`.
    pub open spec fn is_member(self, key: K, id: Hash256) -> bool {
        self.list(key).contains(id)
    }

    /// The index after `id` was taken out of the list of `key` by swap-removal.
    pub open spec fn remove(self, key: K, id: Hash256) -> Self {
        let rest = swap_removed(self.list(key), self.list(key).index_of(id));
        OwnerIndexView {
            lists: if rest.len() == 0 {
                self.lists.remove(key)
            } else {
                self.lists.insert(key, rest)
            },
            max_count: self.max_count,
        }
    }

    /// In a well-formed index an id filed at one place is filed nowhere else.
    pub proof fn place_is_unique(self, key: K, i: int, id: Hash256)
        requires
            self.wf(),
            self.holds(key, i, id),
        ensures
            self.contains(id),
            self.is_member(key, id),
            self.key_of(id) == key,
            self.position_of(id) == i,
            self.list(key).index_of(id) == i,
    {
        assert(self.holds((key, i).0, (key, i).1, id));
        assert(self.holds(key, self.list(key).index_of(id), id));
    }

    /// An id that is filed is filed under its key at its position.
    pub proof fn place_holds(self, id: Hash256)
        requires
            self.contains(id),
        ensures
            self.holds(self.key_of(id), self.position_of(id), id),
            self.is_member(self.key_of(id), id),
    {
        let (key, i) = choose|key: K, i: int| #[trigger] self.holds(key, i, id);
        assert(self.holds((key, i).0, (key, i).1, id));
    }

    /// A member of a key's list is filed under that key.
    pub proof fn member_holds(self, key: K, id: Hash256)
        requires
            self.wf(),
            self.is_member(key, id),
        ensures
            self.contains(id),
            self.key_of(id) == key,
            self.holds(key, self.position_of(id), id),
    {
        self.place_is_unique(key, self.list(key).index_of(id), id);
    }

    /// Filing an id that has no reason to be rejected keeps the index well
    /// formed and puts the id last under its key. Every other id stays filed
    /// where it was, and nothing else gets filed.
    pub proof fn append_preserves_wf(self, key: K, id: Hash256)
        requires
            self.wf(),
            self.append_error(key, id) is None,
        ensures
            self.append(key, id).wf(),
            self.append(key, id).count(key) == self.count(key) + 1,
            self.append(key, id).holds(key, self.count(key) as int, id),
            self.append(key, id).contains(id),
            self.append(key, id).key_of(id) == key,
            self.append(key, id).position_of(id) == self.count(key),
            forall|other: K| other != key ==> self.append(key, id).list(other) == self.list(other),
            forall|e: Hash256|
                #![trigger self.append(key, id).contains(e)]
                #![trigger self.contains(e)]
                e != id ==> self.append(key, id).contains(e) == self.contains(e),
            forall|e: Hash256| #[trigger]
                self.contains(e) ==> self.append(key, id).key_of(e) == self.key_of(e)
                    && self.append(key, id).position_of(e) == self.position_of(e),
    {
        let after = self.append(key, id);
        // every place of the new index but the last of `key` is a place of the old one
        assert forall|k: K, i: int, e: Hash256| #[trigger] after.holds(k, i, e) implies self.holds(
            k,
            i,
            e,
        ) || (k == key && i == self.count(key) && e == id) by {}
        after.place_is_unique(key, self.count(key) as int, id);
        assert forall|e: Hash256| #[trigger] self.contains(e) implies after.contains(e)
            && after.key_of(e) == self.key_of(e) && after.position_of(e) == self.position_of(e) by {
            self.place_holds(e);
            after.place_is_unique(self.key_of(e), self.position_of(e), e);
        }
        assert forall|e: Hash256| e != id && after.contains(e) implies self.contains(e) by {
            after.place_holds(e);
        }
    }

    /// Taking a member out keeps the index well formed. The id is no longer
    /// filed; the id that was last under the key, if it was another, now has
    /// the freed position; every other id stays where it was.
    pub proof fn remove_preserves_wf(self, key: K, id: Hash256)
        requires
            self.wf(),
            self.is_member(key, id),
        ensures
            self.remove(key, id).wf(),
            !self.remove(key, id).contains(id),
            self.remove(key, id).count(key) == self.count(key) - 1,
            self.remove(key, id).list(key) == swap_removed(self.list(key), self.position_of(id)),
            forall|other: K| other != key ==> self.remove(key, id).list(other) == self.list(other),
            forall|e: Hash256|
                #![trigger self.remove(key, id).contains(e)]
                #![trigger self.contains(e)]
                e != id ==> self.remove(key, id).contains(e) == self.contains(e),
            forall|e: Hash256|
                e != id && #[trigger] self.contains(e) ==> self.remove(key, id).key_of(e)
                    == self.key_of(e) && self.remove(key, id).position_of(e) == (if self.key_of(e)
                    == key && self.position_of(e) == self.count(key) - 1 {
                    self.position_of(id)
                } else {
                    self.position_of(e)
                }),
    {
        let after = self.remove(key, id);
        let i = self.list(key).index_of(id);
        let last = self.count(key) - 1;
        self.member_holds(key, id);
        self.place_is_unique(key, i, id);
        // every place of the new index comes from a place of the old one
        assert forall|k: K, j: int, e: Hash256| #[trigger] after.holds(k, j, e) implies e != id && (
        if k == key && j == i {
            self.holds(key, last, e)
        } else {
            self.holds(k, j, e)
        }) by {
            if k != key {
                assert(self.holds(k, j, e));
            } else if j == i {
                assert(self.holds(key, last, e));
            } else {
                assert(self.holds(key, j, e));
            }
        }
        assert forall|e: Hash256| e != id && #[trigger] self.contains(e) implies after.contains(e)
            && after.key_of(e) == self.key_of(e) && after.position_of(e) == (if self.key_of(e)
            == key && self.position_of(e) == last {
            i
        } else {
            self.position_of(e)
        }) by {
            self.place_holds(e);
            if self.key_of(e) == key && self.position_of(e) == last {
                after.place_is_unique(key, i, e);
            } else {
                after.place_is_unique(self.key_of(e), self.position_of(e), e);
            }
        }
        assert forall|e: Hash256| e != id && after.contains(e) implies self.contains(e) by {
            after.place_holds(e);
        }
    }
}

/// Whether two keys are the same key.
pub fn same_key<K: IndexKey>(a: &K, b: &K) -> (same: bool)
    ensures
        same == (*a == *b),
{
    let (a_hi, a_lo) = a.words();
    let (b_hi, b_lo) = b.words();
    proof {
        if a.spec_words() == b.spec_words() {
            K::words_injective(*a, *b);
        }
    }
    a_hi == b_hi && a_lo == b_lo
}

/// For each key a dense, enumerable set of entity ids: an id is appended
/// in constant time and removed in constant time by swap-removal, and the key
/// and position of every id can be looked up.
pub struct OwnerIndex<K: IndexKey> {
    lists: Table<K, Vec<Hash256>>,
    places: Table<Hash256, (K, u64)>,
    max_count: u64,
}

impl<K: IndexKey> View for OwnerIndex<K> {
    type V = OwnerIndexView<K>;

    closed spec fn view(&self) -> OwnerIndexView<K> {
        OwnerIndexView {
            lists: Map::new(|key: K| self.lists@.contains_key(key), |key: K| self.lists@[key]@),
            max_count: self.max_count as nat,
        }
    }
}

impl<K: IndexKey> OwnerIndex<K> {
    /// The lists and the reverse lookup agree, and no list is empty or too long.
    pub closed spec fn wf(&self) -> bool {
        &&& forall|key: K| #[trigger]
            self.lists@.contains_key(key) ==> 0 < self.lists@[key]@.len() <= self.max_count
        &&& forall|key: K, i: int|
            self.lists@.contains_key(key) && 0 <= i < self.lists@[key]@.len()
                ==> self.places@.contains_key(#[trigger] self.lists@[key]@[i])
                && self.places@[self.lists@[key]@[i]] == (key, i as u64)
        &&& forall|id: Hash256| #[trigger]
            self.places@.contains_key(id) ==> self.lists@.contains_key(self.places@[id].0)
                && self.places@[id].1 < self.lists@[self.places@[id].0]@.len()
                && self.lists@[self.places@[id].0]@[self.places@[id].1 as int] == id
    }

    /// A well-formed index has a well-formed view, whose maximum fits a counter.
    pub proof fn wf_view(&self)
        requires
            self.wf(),
        ensures
            self@.wf(),
            self@.max_count <= u64::MAX,
    {
    }

    /// The reverse lookup records exactly the places of the view.
    proof fn places_match(&self, id: Hash256)
        requires
            self.wf(),
        ensures
            self.places@.contains_key(id) == self@.contains(id),
            self@.contains(id) ==> self.places@[id] == (
                self@.key_of(id),
                self@.position_of(id) as u64,
            ),
    {
        self.wf_view();
        if self.places@.contains_key(id) {
            self@.place_is_unique(self.places@[id].0, self.places@[id].1 as int, id);
        }
        if self@.contains(id) {
            self@.place_holds(id);
        }
    }

    /// An empty index whose counts may grow to the largest value a counter can hold.
    pub fn new() -> (index: Self)
        ensures
            index.wf(),
            index@ == OwnerIndexView::<K>::empty(u64::MAX as nat),
    {
        Self::with_max_count(u64::MAX)
    }

    /// An empty index in which the count of a key may grow to `max_count` and no further.
    pub fn with_max_count(max_count: u64) -> (index: Self)
        ensures
            index.wf(),
            index@ == OwnerIndexView::<K>::empty(max_count as nat),
    {
        let index = OwnerIndex { lists: Table::new(), places: Table::new(), max_count };
        assert(index@.lists =~= Map::<K, Seq<Hash256>>::empty());
        index
    }

    /// The largest count a key of this index may reach.
    pub fn max_count(&self) -> (n: u64)
        ensures
            n == self@.max_count,
    {
        self.max_count
    }

    /// The number of ids filed under `key`.
    pub fn count(&self, key: &K) -> (n: u64)
        requires
            self.wf(),
        ensures
            n == self@.count(*key),
    {
        match self.lists.get(key) {
            Some(list) => list.len() as u64,
            None => 0,
        }
    }

    /// The id filed under `key` at position `i`, if the key has that many.
    pub fn by_index(&self, key: &K, i: u64) -> (id: Option<Hash256>)
        requires
            self.wf(),
        ensures
            id == (if i < self@.count(*key) {
                Some(self@.list(*key)[i as int])
            } else {
                None
            }),
    {
        match self.lists.get(key) {
            Some(list) => {
                if i < list.len() as u64 {
                    Some(list[i as usize])
                } else {
                    None
                }
            },
            None => None,
        }
    }

    /// The position of `id` in the list of the key it is filed under, if it is filed.
    pub fn position_of(&self, id: &Hash256) -> (position: Option<u64>)
        requires
            self.wf(),
        ensures
            position == (if self@.contains(*id) {
                Some(self@.position_of(*id) as u64)
            } else {
                None
            }),
    {
        proof {
            self.places_match(*id);
        }
        match self.places.get(id) {
            Some(place) => Some(place.1),
            None => None,
        }
    }

    /// The key under which `id` is filed, if it is filed.
    pub fn key_of(&self, id: &Hash256) -> (key: Option<K>)
        requires
            self.wf(),
        ensures
            key == (if self@.contains(*id) {
                Some(self@.key_of(*id))
            } else {
                None
            }),
    {
        proof {
            self.places_match(*id);
        }
        match self.places.get(id) {
            Some(place) => Some(place.0),
            None => None,
        }
    }

    /// Files `id` under `key`, at the end of its list, and returns the
    /// position it got, which is the count of the key before the call. An id
    /// that is already filed, under any key, is rejected as a duplicate;
    /// otherwise a key whose count is at its maximum is rejected as an
    /// overflow. A rejected call changes nothing.
    pub fn append(&mut self, key: K, id: Hash256) -> (result: Result<u64, RegistryError>)
        requires
            old(self).wf(),
        ensures
            final(self).wf(),
            match old(self)@.append_error(key, id) {
                Some(e) => result == Err::<u64, RegistryError>(e) && *final(self) == *old(self),
                None => result == Ok::<u64, RegistryError>(old(self)@.count(key) as u64)
                    && final(self)@ == old(self)@.append(key, id),
            },
    {
        proof {
            self.places_match(id);
            self.wf_view();
        }
        if self.places.contains_key(&id) {
            return Err(RegistryError::DuplicateId);
        }
        let position = self.count(&key);
        if position >= self.max_count {
            return Err(RegistryError::Overflow);
        }
        let mut list = match self.lists.remove(&key) {
            Some(list) => list,
            None => Vec::new(),
        };
        list.push(id);
        self.lists.insert(key, list);
        self.places.insert(id, (key, position));
        proof {
            assert(self@.lists =~= old(self)@.append(key, id).lists);
        }
        Ok(position)
    }

    /// Takes `id` out of the list of `key` by swap-removal: the id that was
    /// last under the key, if it is another, moves to the freed position, and
    /// the count of the key drops by one. An id that is not filed under `key`
    /// is rejected as not found, and nothing changes.
    pub fn remove(&mut self, key: K, id: Hash256) -> (result: Result<(), RegistryError>)
        requires
            old(self).wf(),
        ensures
            final(self).wf(),
            if old(self)@.is_member(key, id) {
                result == Ok::<(), RegistryError>(()) && final(self)@ == old(self)@.remove(key, id)
            } else {
                result == Err::<(), RegistryError>(RegistryError::NotFound) && *final(self) == *old(
                    self,
                )
            },
    {
        proof {
            self.places_match(id);
            self.wf_view();
            if self@.is_member(key, id) {
                self@.member_holds(key, id);
            }
            if self@.contains(id) {
                self@.place_holds(id);
            }
        }
        let position = match self.places.get(&id) {
            Some(place) => {
                if !same_key(&place.0, &key) {
                    return Err(RegistryError::NotFound);
                }
                place.1
            },
            None => {
                return Err(RegistryError::NotFound);
            },
        };
        let mut list = match self.lists.remove(&key) {
            Some(list) => list,
            None => {
                return Err(RegistryError::NotFound);
            },
        };
        proof {
            old(self)@.place_is_unique(key, position as int, id);
        }
        list.swap_remove(position as usize);
        self.places.remove(&id);
        if (position as usize) < list.len() {
            let moved = list[position as usize];
            self.places.insert(moved, (key, position));
        }
        if list.len() > 0 {
            self.lists.insert(key, list);
        }
        proof {
            assert(self@.lists =~= old(self)@.remove(key, id).lists);
            old(self)@.remove_preserves_wf(key, id);
        }
        Ok(())
    }
}

} // verus!
