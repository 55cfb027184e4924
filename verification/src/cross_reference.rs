//! The link from a derived entity to the entity it originates from.

use crate::error::RegistryError;
use crate::ids::Hash256;
use crate::owner_index::{OwnerIndex, OwnerIndexView};
use vstd::prelude::*;

verus! {

/// Links each derived entity to its originating entity, once and for good,
/// and enumerates the derived entities of each origin. A link is made when
/// the derived entity is minted; nothing here changes or removes it.
pub struct CrossReferenceIndex {
    derived: OwnerIndex<Hash256>,
}

impl View for CrossReferenceIndex {
    type V = OwnerIndexView<Hash256>;

    closed spec fn view(&self) -> OwnerIndexView<Hash256> {
        self.derived@
    }
}

impl CrossReferenceIndex {
    /// The enumeration of each origin and the links agree.
    pub closed spec fn wf(&self) -> bool {
        self.derived.wf()
    }

    /// A well-formed index has a well-formed view, whose maximum fits a counter.
    pub proof fn wf_view(&self)
        requires
            self.wf(),
        ensures
            self@.wf(),
            self@.max_count <= u64::MAX,
    {
        self.derived.wf_view();
    }

    /// An index without links, in which an origin may get as many derived
    /// entities as a counter can hold.
    pub fn new() -> (index: Self)
        ensures
            index.wf(),
            index@ == OwnerIndexView::<Hash256>::empty(u64::MAX as nat),
    {
        CrossReferenceIndex { derived: OwnerIndex::new() }
    }

    /// An index without links, in which an origin may get `max_count`
    /// derived entities and no more.
    pub fn with_max_count(max_count: u64) -> (index: Self)
        ensures
            index.wf(),
            index@ == OwnerIndexView::<Hash256>::empty(max_count as nat),
    {
        CrossReferenceIndex { derived: OwnerIndex::with_max_count(max_count) }
    }

    /// The largest number of derived entities an origin may get.
    pub fn max_count(&self) -> (n: u64)
        ensures
            n == self@.max_count,
    {
        self.derived.max_count()
    }

    /// Links `entity` to `origin` and returns its position among the derived
    /// entities of `origin`. An entity that is already linked is rejected as
    /// a duplicate; otherwise an origin whose count is at its maximum is
    /// rejected as an overflow. A rejected call changes nothing, and an
    /// accepted one leaves every earlier link as it was.
    pub fn link(&mut self, entity: Hash256, origin: Hash256) -> (result: Result<u64, RegistryError>)
        requires
            old(self).wf(),
        ensures
            final(self).wf(),
            match old(self)@.append_error(origin, entity) {
                Some(e) => result == Err::<u64, RegistryError>(e) && *final(self) == *old(self),
                None => result == Ok::<u64, RegistryError>(old(self)@.count(origin) as u64)
                    && final(self)@ == old(self)@.append(origin, entity),
            },
            forall|e: Hash256| #[trigger]
                old(self)@.contains(e) ==> final(self)@.contains(e) && final(self)@.key_of(e)
                    == old(self)@.key_of(e) && final(self)@.position_of(e) == old(
                    self,
                )@.position_of(e),
    {
        proof {
            self.derived.wf_view();
            if self@.append_error(origin, entity) is None {
                self@.append_preserves_wf(origin, entity);
            }
        }
        self.derived.append(origin, entity)
    }

    /// The origin of `entity`, if it is linked.
    pub fn origin_of(&self, entity: &Hash256) -> (origin: Option<Hash256>)
        requires
            self.wf(),
        ensures
            origin == (if self@.contains(*entity) {
                Some(self@.key_of(*entity))
            } else {
                None
            }),
    {
        self.derived.key_of(entity)
    }

    /// The number of entities derived from `origin`.
    pub fn count(&self, origin: &Hash256) -> (n: u64)
        requires
            self.wf(),
        ensures
            n == self@.count(*origin),
    {
        self.derived.count(origin)
    }

    /// The entity derived from `origin` as number `i`, counting from zero,
    /// if there are that many.
    pub fn by_index(&self, origin: &Hash256, i: u64) -> (entity: Option<Hash256>)
        requires
            self.wf(),
        ensures
            entity == (if i < self@.count(*origin) {
                Some(self@.list(*origin)[i as int])
            } else {
                None
            }),
    {
        self.derived.by_index(origin, i)
    }

    /// The position of `entity` among those derived from its origin, if it is linked.
    pub fn position_of(&self, entity: &Hash256) -> (position: Option<u64>)
        requires
            self.wf(),
        ensures
            position == (if self@.contains(*entity) {
                Some(self@.position_of(*entity) as u64)
            } else {
                None
            }),
    {
        self.derived.position_of(entity)
    }
}

} // verus!
