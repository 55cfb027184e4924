//! A hash table keyed by any [`IndexKey`].

use crate::ids::IndexKey;
use core::marker::PhantomData;
use std::collections::HashMap;
use vstd::prelude::*;

verus! {

/// A map from keys to values with constant-time lookup, insertion and removal.
///
/// A key is filed under its two words: the first selects a row, the second a
/// cell within the row.
pub struct Table<K: IndexKey, V> {
    rows: HashMap<u128, HashMap<u128, V>>,
    key: PhantomData<K>,
}

impl<K: IndexKey, V> View for Table<K, V> {
    type V = Map<K, V>;

    closed spec fn view(&self) -> Map<K, V> {
        Map::new(
            |k: K| Self::filed(self.rows@, k),
            |k: K| self.rows@[k.spec_words().0]@[k.spec_words().1],
        )
    }
}

impl<K: IndexKey, V> Table<K, V> {
    spec fn filed(rows: Map<u128, HashMap<u128, V>>, k: K) -> bool {
        rows.contains_key(k.spec_words().0) && rows[k.spec_words().0]@.contains_key(
            k.spec_words().1,
        )
    }

    /// An empty table.
    pub fn new() -> (t: Self)
        ensures
            t@ == Map::<K, V>::empty(),
    {
        Table { rows: HashMap::new(), key: PhantomData }
    }

    /// Whether `key` has a value.
    pub fn contains_key(&self, key: &K) -> (found: bool)
        ensures
            found == self@.contains_key(*key),
    {
        let (hi, lo) = key.words();
        match self.rows.get(&hi) {
            Some(row) => row.contains_key(&lo),
            None => false,
        }
    }

    /// The value of `key`, if it has one.
    pub fn get(&self, key: &K) -> (value: Option<&V>)
        ensures
            value == (if self@.contains_key(*key) {
                Some(&self@[*key])
            } else {
                None
            }),
    {
        let (hi, lo) = key.words();
        match self.rows.get(&hi) {
            Some(row) => row.get(&lo),
            None => None,
        }
    }

    /// Gives `key` the value `value` and returns the value it had before, if any.
    pub fn insert(&mut self, key: K, value: V) -> (previous: Option<V>)
        ensures
            final(self)@ == old(self)@.insert(key, value),
            previous == (if old(self)@.contains_key(key) {
                Some(old(self)@[key])
            } else {
                None
            }),
    {
        let (hi, lo) = key.words();
        let mut row = match self.rows.remove(&hi) {
            Some(row) => row,
            None => HashMap::new(),
        };
        let previous = row.insert(lo, value);
        self.rows.insert(hi, row);
        proof {
            assert forall|k: K| k.spec_words() == key.spec_words() implies k == key by {
                K::words_injective(k, key);
            }
        }
        previous
    }

    /// Takes the value of `key` out of the table and returns it, if there is one.
    pub fn remove(&mut self, key: &K) -> (removed: Option<V>)
        ensures
            final(self)@ == old(self)@.remove(*key),
            removed == (if old(self)@.contains_key(*key) {
                Some(old(self)@[*key])
            } else {
                None
            }),
    {
        let (hi, lo) = key.words();
        let mut row = match self.rows.remove(&hi) {
            Some(row) => row,
            None => {
                return None;
            },
        };
        let removed = row.remove(&lo);
        if !row.is_empty() {
            self.rows.insert(hi, row);
        }
        proof {
            assert forall|k: K| k.spec_words() == key.spec_words() implies k == *key by {
                K::words_injective(k, *key);
            }
        }
        removed
    }
}

} // verus!
