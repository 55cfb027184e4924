//! Identifiers, and the keys under which entities are indexed.

use vstd::prelude::*;

verus! {

/// A 256-bit identifier, held as two 128-bit words, the more significant first.
#[derive(Clone, Copy, Debug, PartialEq, Eq, Hash, Structural)]
pub struct Hash256 {
    pub hi: u128,
    pub lo: u128,
}

impl Hash256 {
    /// The identifier made of the two given words.
    pub fn new(hi: u128, lo: u128) -> (h: Self)
        ensures
            h == (Hash256 { hi, lo }),
    {
        Hash256 { hi, lo }
    }

    /// The identifier whose eight least significant bytes are `value` in
    /// big-endian order, all other bytes being zero.
    pub fn from_low_u64_be(value: u64) -> (h: Self)
        ensures
            h == (Hash256 { hi: 0, lo: value as u128 }),
    {
        Hash256 { hi: 0, lo: value as u128 }
    }
}

/// A type whose values can key an index: each value is identified by a pair
/// of 128-bit words, and distinct values have distinct pairs.
pub trait IndexKey: Copy {
    /// The pair of words that identifies this key.
    spec fn spec_words(&self) -> (u128, u128);

    /// Computes the pair of words that identifies this key.
    fn words(&self) -> (w: (u128, u128))
        ensures
            w == self.spec_words(),
    ;

    /// Two keys with the same words are the same key.
    proof fn words_injective(a: Self, b: Self)
        requires
            a.spec_words() == b.spec_words(),
        ensures
            a == b,
    ;
}

impl IndexKey for Hash256 {
    open spec fn spec_words(&self) -> (u128, u128) {
        (self.hi, self.lo)
    }

    fn words(&self) -> (w: (u128, u128)) {
        (self.hi, self.lo)
    }

    proof fn words_injective(a: Self, b: Self) {
    }
}

impl IndexKey for u64 {
    open spec fn spec_words(&self) -> (u128, u128) {
        (0u128, *self as u128)
    }

    fn words(&self) -> (w: (u128, u128)) {
        (0u128, *self as u128)
    }

    proof fn words_injective(a: Self, b: Self) {
    }
}

} // verus!
