//! The registry of identities and authorized tokens.

use crate::cross_reference::CrossReferenceIndex;
use crate::entities::{AuthorizedToken, Event, IdSource, Identity};
use crate::entity_store::{EntityStore, EntityStoreView};
use crate::error::RegistryError;
use crate::ids::{Hash256, IndexKey};
use crate::owner_index::{OwnerIndex, OwnerIndexView};
use crate::transfer::TransferEngine;
use vstd::prelude::*;

verus! {

/// What a [`Registry`] holds.
#[verifier::reject_recursive_types(O)]
pub struct RegistryView<O> {
    /// The identities, in the order in which they were registered.
    pub identities: EntityStoreView<Identity>,
    /// The identities of each owner.
    pub identity_owners: OwnerIndexView<O>,
    /// The tokens, in the order in which they were issued.
    pub tokens: EntityStoreView<AuthorizedToken>,
    /// The tokens that each owner currently holds.
    pub token_holders: OwnerIndexView<O>,
    /// The tokens issued under each identity.
    pub token_issuers: OwnerIndexView<Hash256>,
    /// The events of the accepted operations, oldest first.
    pub events: Seq<Event<O>>,
}

impl<O> RegistryView<O> {
    /// The registry with nothing in it, every counter of which may grow to `max_count`.
    pub open spec fn empty(max_count: nat) -> Self {
        RegistryView {
            identities: EntityStoreView::empty(max_count),
            identity_owners: OwnerIndexView::empty(max_count),
            tokens: EntityStoreView::empty(max_count),
            token_holders: OwnerIndexView::empty(max_count),
            token_issuers: OwnerIndexView::empty(max_count),
            events: Seq::empty(),
        }
    }

    /// Each part is well formed; an identity is registered exactly if it has
    /// an owner; a token exists exactly if it has a holder, and exactly if it
    /// has an issuer; every issuer is a registered identity; and the record
    /// of an identity holds the id it is stored under.
    pub open spec fn wf(self) -> bool {
        &&& self.identities.wf()
        &&& self.identity_owners.wf()
        &&& self.tokens.wf()
        &&& self.token_holders.wf()
        &&& self.token_issuers.wf()
        &&& forall|id: Hash256|
            #![trigger self.identities.contains(id)]
            #![trigger self.identity_owners.contains(id)]
            self.identities.contains(id) <==> self.identity_owners.contains(id)
        &&& forall|id: Hash256|
            #![trigger self.tokens.contains(id)]
            #![trigger self.token_holders.contains(id)]
            self.tokens.contains(id) <==> self.token_holders.contains(id)
        &&& forall|id: Hash256|
            #![trigger self.tokens.contains(id)]
            #![trigger self.token_issuers.contains(id)]
            self.tokens.contains(id) <==> self.token_issuers.contains(id)
        &&& forall|id: Hash256| #[trigger]
            self.token_issuers.contains(id) ==> self.identities.contains(
                self.token_issuers.key_of(id),
            )
        &&& forall|i: int|
            0 <= i < self.identities.count() ==> (#[trigger] self.identities.payloads[i]).id
                == self.identities.ids[i]
    }

    /// Whether some counter that registering an identity for `owner` would
    /// raise is at its maximum.
    pub open spec fn register_overflows(self, owner: O) -> bool {
        ||| self.identities.count() >= self.identities.max_count
        ||| self.identity_owners.count(owner) >= self.identity_owners.max_count
    }

    /// Why the identity `id` cannot be registered for `owner`, if it cannot.
    pub open spec fn register_error(self, owner: O, id: Hash256) -> Option<RegistryError> {
        if self.identities.contains(id) {
            Some(RegistryError::DuplicateId)
        } else if self.register_overflows(owner) {
            Some(RegistryError::Overflow)
        } else {
            None
        }
    }

    /// The registry after the identity `id` was registered for `owner`.
    pub open spec fn register(self, owner: O, id: Hash256) -> Self {
        RegistryView {
            identities: self.identities.insert(id, Identity { id }),
            identity_owners: self.identity_owners.append(owner, id),
            events: self.events.push(Event::IdentityCreated { owner, id }),
            ..self
        }
    }

    /// Whether some counter that issuing a token under `issuer` to `holder`
    /// would raise is at its maximum.
    pub open spec fn issue_overflows(self, issuer: Hash256, holder: O) -> bool {
        ||| self.tokens.count() >= self.tokens.max_count
        ||| self.token_holders.count(holder) >= self.token_holders.max_count
        ||| self.token_issuers.count(issuer) >= self.token_issuers.max_count
    }

    /// Why the token `id` cannot be issued under `issuer` to `holder`, if it cannot.
    pub open spec fn issue_error(self, issuer: Hash256, holder: O, id: Hash256) -> Option<
        RegistryError,
    > {
        if !self.identities.contains(issuer) {
            Some(RegistryError::IdentityNotFound)
        } else if self.tokens.contains(id) {
            Some(RegistryError::DuplicateId)
        } else if self.issue_overflows(issuer, holder) {
            Some(RegistryError::Overflow)
        } else {
            None
        }
    }

    /// The registry after the token `id` was issued under `issuer` to `holder`.
    pub open spec fn issue(
        self,
        issuer: Hash256,
        holder: O,
        id: Hash256,
        payload: AuthorizedToken,
    ) -> Self {
        RegistryView {
            tokens: self.tokens.insert(id, payload),
            token_holders: self.token_holders.append(holder, id),
            token_issuers: self.token_issuers.append(issuer, id),
            events: self.events.push(
                Event::AuthorizedTokenCreated { holder, issuer_identity: issuer, token_id: id },
            ),
            ..self
        }
    }

    /// Why `caller` cannot hand the token `token_id` over to `to`, if it
    /// cannot: the token is unknown, or `caller` does not hold it, or the
    /// count of `to` is at its maximum.
    pub open spec fn transfer_error(self, caller: O, to: O, token_id: Hash256) -> Option<
        RegistryError,
    > {
        self.token_holders.transfer_error(caller, to, token_id)
    }

    /// The registry after `caller` handed the token `token_id` over to `to`.
    pub open spec fn transfer(self, caller: O, to: O, token_id: Hash256) -> Self {
        RegistryView {
            token_holders: self.token_holders.transfer(caller, to, token_id),
            events: self.events.push(
                Event::AuthorizedTokenTransferred { from: caller, to, token_id },
            ),
            ..self
        }
    }

    /// The registry after `caller` asked for authentication with `token_id` at `url`.
    pub open spec fn request_authentication(
        self,
        caller: O,
        token_id: Hash256,
        url: Vec<u8>,
    ) -> Self {
        RegistryView {
            events: self.events.push(Event::AuthenticationRequested { caller, token_id, url }),
            ..self
        }
    }

    /// Registering an identity that has no reason to be rejected keeps the
    /// registry well formed, and neither the store nor the owner's index
    /// rejects its part.
    pub proof fn register_preserves_wf(self, owner: O, id: Hash256)
        requires
            self.wf(),
            self.register_error(owner, id) is None,
        ensures
            self.identities.insert_error(id) is None,
            self.identity_owners.append_error(owner, id) is None,
            self.register(owner, id).wf(),
    {
        self.identities.insert_preserves_wf(id, Identity { id });
        self.identity_owners.append_preserves_wf(owner, id);
    }

    /// Issuing a token that has no reason to be rejected keeps the registry
    /// well formed, and none of the three parts rejects its share.
    pub proof fn issue_preserves_wf(
        self,
        issuer: Hash256,
        holder: O,
        id: Hash256,
        payload: AuthorizedToken,
    )
        requires
            self.wf(),
            self.issue_error(issuer, holder, id) is None,
        ensures
            self.tokens.insert_error(id) is None,
            self.token_holders.append_error(holder, id) is None,
            self.token_issuers.append_error(issuer, id) is None,
            self.issue(issuer, holder, id, payload).wf(),
    {
        self.tokens.insert_preserves_wf(id, payload);
        self.token_holders.append_preserves_wf(holder, id);
        self.token_issuers.append_preserves_wf(issuer, id);
    }

    /// A transfer that has no reason to be rejected keeps the registry well formed.
    pub proof fn transfer_preserves_wf(self, caller: O, to: O, token_id: Hash256)
        requires
            self.wf(),
            self.transfer_error(caller, to, token_id) is None,
        ensures
            self.transfer(caller, to, token_id).wf(),
    {
        self.token_holders.transfer_preserves_wf(caller, to, token_id);
    }
}

/// The registry: identities with their owners, and tokens with their
/// holders and their issuing identities.
pub struct Registry<O: IndexKey> {
    identities: EntityStore<Identity>,
    identity_owners: OwnerIndex<O>,
    tokens: EntityStore<AuthorizedToken>,
    token_holders: OwnerIndex<O>,
    token_issuers: CrossReferenceIndex,
    events: Vec<Event<O>>,
}

impl<O: IndexKey> View for Registry<O> {
    type V = RegistryView<O>;

    closed spec fn view(&self) -> RegistryView<O> {
        RegistryView {
            identities: self.identities@,
            identity_owners: self.identity_owners@,
            tokens: self.tokens@,
            token_holders: self.token_holders@,
            token_issuers: self.token_issuers@,
            events: self.events@,
        }
    }
}

impl<O: IndexKey> Registry<O> {
    /// Every part is well formed and the parts agree with one another.
    pub closed spec fn wf(&self) -> bool {
        &&& self.identities.wf()
        &&& self.identity_owners.wf()
        &&& self.tokens.wf()
        &&& self.token_holders.wf()
        &&& self.token_issuers.wf()
        &&& self@.wf()
    }

    /// A well-formed registry has a well-formed view, whose maxima fit a counter.
    pub proof fn wf_view(&self)
        requires
            self.wf(),
        ensures
            self@.wf(),
            self@.identities.max_count <= u64::MAX,
            self@.identity_owners.max_count <= u64::MAX,
            self@.tokens.max_count <= u64::MAX,
            self@.token_holders.max_count <= u64::MAX,
            self@.token_issuers.max_count <= u64::MAX,
    {
        self.identities.wf_view();
        self.identity_owners.wf_view();
        self.tokens.wf_view();
        self.token_holders.wf_view();
        self.token_issuers.wf_view();
    }

    /// An empty registry, every counter of which may grow to the largest
    /// value a counter can hold.
    pub fn new() -> (registry: Self)
        ensures
            registry.wf(),
            registry@ == RegistryView::<O>::empty(u64::MAX as nat),
    {
        Self::with_max_count(u64::MAX)
    }

    /// An empty registry, every counter of which may grow to `max_count` and
    /// no further.
    pub fn with_max_count(max_count: u64) -> (registry: Self)
        ensures
            registry.wf(),
            registry@ == RegistryView::<O>::empty(max_count as nat),
    {
        Registry {
            identities: EntityStore::with_max_count(max_count),
            identity_owners: OwnerIndex::with_max_count(max_count),
            tokens: EntityStore::with_max_count(max_count),
            token_holders: OwnerIndex::with_max_count(max_count),
            token_issuers: CrossReferenceIndex::with_max_count(max_count),
            events: Vec::new(),
        }
    }

    /// Registers the identity `id` for `owner`: the identity becomes the last
    /// of the global enumeration and the last of the owner's list, and an
    /// `IdentityCreated` event is recorded. An id already registered is
    /// rejected as a duplicate; otherwise a counter at its maximum is
    /// rejected as an overflow. A rejected call changes nothing.
    pub fn register_identity_with_id(&mut self, owner: O, id: Hash256) -> (result: Result<
        (),
        RegistryError,
    >)
        requires
            old(self).wf(),
        ensures
            final(self).wf(),
            match old(self)@.register_error(owner, id) {
                Some(e) => result == Err::<(), RegistryError>(e) && *final(self) == *old(self),
                None => result == Ok::<(), RegistryError>(()) && final(self)@ == old(
                    self,
                )@.register(owner, id),
            },
    {
        if self.identities.contains(&id) {
            return Err(RegistryError::DuplicateId);
        }
        if self.identities.count() >= self.identities.max_count() || self.identity_owners.count(
            &owner,
        ) >= self.identity_owners.max_count() {
            return Err(RegistryError::Overflow);
        }
        proof {
            self@.register_preserves_wf(owner, id);
        }
        let _ = self.identities.insert(id, Identity { id });
        let _ = self.identity_owners.append(owner, id);
        self.events.push(Event::IdentityCreated { owner, id });
        Ok(())
    }

    /// Registers for `owner` an identity whose id is drawn from `source`, and
    /// returns the id. Whatever id the source hands out, the call does with
    /// it what [`Registry::register_identity_with_id`] does; after a
    /// rejection the caller may try again with a source that has moved on.
    pub fn register_identity<S: IdSource<O>>(&mut self, owner: O, source: &mut S) -> (result:
        Result<Hash256, RegistryError>)
        requires
            old(self).wf(),
        ensures
            final(self).wf(),
            match result {
                Ok(id) => old(self)@.register_error(owner, id) is None && final(self)@ == old(
                    self,
                )@.register(owner, id),
                Err(e) => *final(self) == *old(self) && exists|id: Hash256|
                    old(self)@.register_error(owner, id) == Some(e),
            },
    {
        let id = source.next_id(&owner);
        match self.register_identity_with_id(owner, id) {
            Ok(()) => Ok(id),
            Err(e) => Err(e),
        }
    }

    /// Issues the token `id` under the identity `issuer` to `holder`, with
    /// `payload` as its record: the token becomes the last of the global
    /// enumeration, of the holder's list and of the issuer's list, and an
    /// `AuthorizedTokenCreated` event is recorded. An issuer that was never
    /// registered is rejected as an unknown identity; otherwise an id that
    /// already names a token as a duplicate; otherwise a counter at its
    /// maximum as an overflow. A rejected call changes nothing.
    pub fn issue_token(
        &mut self,
        issuer: Hash256,
        holder: O,
        id: Hash256,
        payload: AuthorizedToken,
    ) -> (result: Result<(), RegistryError>)
        requires
            old(self).wf(),
        ensures
            final(self).wf(),
            match old(self)@.issue_error(issuer, holder, id) {
                Some(e) => result == Err::<(), RegistryError>(e) && *final(self) == *old(self),
                None => result == Ok::<(), RegistryError>(()) && final(self)@ == old(self)@.issue(
                    issuer,
                    holder,
                    id,
                    payload,
                ),
            },
    {
        if !self.identities.contains(&issuer) {
            return Err(RegistryError::IdentityNotFound);
        }
        if self.tokens.contains(&id) {
            return Err(RegistryError::DuplicateId);
        }
        if self.tokens.count() >= self.tokens.max_count() || self.token_holders.count(&holder)
            >= self.token_holders.max_count() || self.token_issuers.count(&issuer)
            >= self.token_issuers.max_count() {
            return Err(RegistryError::Overflow);
        }
        proof {
            self@.issue_preserves_wf(issuer, holder, id, payload);
        }
        let _ = self.tokens.insert(id, payload);
        let _ = self.token_holders.append(holder, id);
        let _ = self.token_issuers.link(id, issuer);
        self.events.push(
            Event::AuthorizedTokenCreated { holder, issuer_identity: issuer, token_id: id },
        );
        Ok(())
    }

    /// Hands the token `token_id` over from `caller` to `to`: the token
    /// leaves the caller's list by swap-removal and becomes the last of the
    /// list of `to`, and an `AuthorizedTokenTransferred` event is recorded.
    /// An unknown token is rejected as not found; otherwise a caller who does
    /// not hold it as not the owner; otherwise a destination whose count is
    /// at its maximum as an overflow. A rejected call changes nothing.
    pub fn transfer_token(&mut self, caller: O, to: O, token_id: Hash256) -> (result: Result<
        (),
        RegistryError,
    >)
        requires
            old(self).wf(),
        ensures
            final(self).wf(),
            match old(self)@.transfer_error(caller, to, token_id) {
                Some(e) => result == Err::<(), RegistryError>(e) && *final(self) == *old(self),
                None => result == Ok::<(), RegistryError>(()) && final(self)@ == old(
                    self,
                )@.transfer(caller, to, token_id),
            },
    {
        proof {
            if self@.transfer_error(caller, to, token_id) is None {
                self@.transfer_preserves_wf(caller, to, token_id);
            }
        }
        match TransferEngine::transfer(&mut self.token_holders, caller, to, token_id) {
            Ok(()) => {
                self.events.push(Event::AuthorizedTokenTransferred { from: caller, to, token_id });
                Ok(())
            },
            Err(e) => Err(e),
        }
    }

    /// Records that `caller` asked for authentication with the token
    /// `token_id` at `url`. Nothing is checked and nothing else changes: the
    /// token need not exist and the caller need not hold it.
    pub fn request_authentication(&mut self, caller: O, token_id: Hash256, url: Vec<u8>)
        requires
            old(self).wf(),
        ensures
            final(self).wf(),
            final(self)@ == old(self)@.request_authentication(caller, token_id, url),
    {
        self.events.push(Event::AuthenticationRequested { caller, token_id, url });
    }
    /// Issues to `holder`, under the identity `issuer`, a token whose id is
    /// drawn from `source` for `caller`, and returns the id. The record of
    /// the token holds the id drawn and the four values given. Whatever id
    /// the source hands out, the call does with it what
    /// [`Registry::issue_token`] does.
    pub fn issue_fresh_token<S: IdSource<O>>(
        &mut self,
        source: &mut S,
        caller: O,
        holder: O,
        issuer: Hash256,
        cost: u128,
        data: u64,
        datatype: u64,
        expired: u64,
    ) -> (result: Result<Hash256, RegistryError>)
        requires
            old(self).wf(),
        ensures
            final(self).wf(),
            match result {
                Ok(id) => old(self)@.issue_error(issuer, holder, id) is None && final(self)@
                    == old(self)@.issue(
                    issuer,
                    holder,
                    id,
                    AuthorizedToken { id, cost, data, datatype, expired },
                ),
                Err(e) => *final(self) == *old(self) && exists|id: Hash256|
                    old(self)@.issue_error(issuer, holder, id) == Some(e),
            },
    {
        let id = source.next_id(&caller);
        let payload = AuthorizedToken { id, cost, data, datatype, expired };
        match self.issue_token(issuer, holder, id, payload) {
            Ok(()) => Ok(id),
            Err(e) => Err(e),
        }
    }

    /// The events recorded so far and not yet taken, oldest first.
    pub fn events(&self) -> (events: &Vec<Event<O>>)
        ensures
            events@ == self@.events,
    {
        &self.events
    }

    /// Hands out the recorded events, oldest first, and leaves none recorded.
    /// Nothing else changes.
    pub fn take_events(&mut self) -> (events: Vec<Event<O>>)
        requires
            old(self).wf(),
        ensures
            final(self).wf(),
            events@ == old(self)@.events,
            final(self)@ == (RegistryView { events: Seq::empty(), ..old(self)@ }),
    {
        let mut events = Vec::new();
        core::mem::swap(&mut events, &mut self.events);
        events
    }

    /// The record of the identity `id`, if it is registered.
    pub fn identity(&self, id: &Hash256) -> (record: Option<Identity>)
        requires
            self.wf(),
        ensures
            record == (if self@.identities.contains(*id) {
                Some(Identity { id: *id })
            } else {
                None
            }),
    {
        proof {
            self.wf_view();
            if self@.identities.contains(*id) {
                assert(self@.identities.payloads[self@.identities.index_of(*id)].id == *id);
            }
        }
        match self.identities.get(id) {
            Some(record) => Some(*record),
            None => None,
        }
    }

    /// The owner of the identity `id`, if it is registered.
    pub fn owner_of_identity(&self, id: &Hash256) -> (owner: Option<O>)
        requires
            self.wf(),
        ensures
            owner == (if self@.identities.contains(*id) {
                Some(self@.identity_owners.key_of(*id))
            } else {
                None
            }),
    {
        proof {
            self.wf_view();
        }
        self.identity_owners.key_of(id)
    }

    /// The number of identities registered so far.
    pub fn identities_count(&self) -> (n: u64)
        requires
            self.wf(),
        ensures
            n == self@.identities.count(),
    {
        self.identities.count()
    }

    /// The identity registered as number `i`, counting from zero, if there
    /// were that many.
    pub fn identity_by_index(&self, i: u64) -> (id: Option<Hash256>)
        requires
            self.wf(),
        ensures
            id == (if i < self@.identities.count() {
                Some(self@.identities.ids[i as int])
            } else {
                None
            }),
    {
        self.identities.by_global_index(i)
    }

    /// The position of the identity `id` in the global enumeration, if it is registered.
    pub fn identity_index(&self, id: &Hash256) -> (position: Option<u64>)
        requires
            self.wf(),
        ensures
            position == (if self@.identities.contains(*id) {
                Some(self@.identities.index_of(*id) as u64)
            } else {
                None
            }),
    {
        self.identities.global_index(id)
    }

    /// The number of identities of `owner`.
    pub fn identities_count_of_owner(&self, owner: &O) -> (n: u64)
        requires
            self.wf(),
        ensures
            n == self@.identity_owners.count(*owner),
    {
        self.identity_owners.count(owner)
    }

    /// The identity at position `i` of the list of `owner`, if the owner has that many.
    pub fn identity_by_index_of_owner(&self, owner: &O, i: u64) -> (id: Option<Hash256>)
        requires
            self.wf(),
        ensures
            id == (if i < self@.identity_owners.count(*owner) {
                Some(self@.identity_owners.list(*owner)[i as int])
            } else {
                None
            }),
    {
        self.identity_owners.by_index(owner, i)
    }

    /// The position of the identity `id` in its owner's list, if it is registered.
    pub fn identity_index_of_owner(&self, id: &Hash256) -> (position: Option<u64>)
        requires
            self.wf(),
        ensures
            position == (if self@.identities.contains(*id) {
                Some(self@.identity_owners.position_of(*id) as u64)
            } else {
                None
            }),
    {
        proof {
            self.wf_view();
        }
        self.identity_owners.position_of(id)
    }

    /// The record of the token `id`, if it exists.
    pub fn token(&self, id: &Hash256) -> (record: Option<AuthorizedToken>)
        requires
            self.wf(),
        ensures
            record == (if self@.tokens.contains(*id) {
                Some(self@.tokens.payload(*id))
            } else {
                None
            }),
    {
        match self.tokens.get(id) {
            Some(record) => Some(*record),
            None => None,
        }
    }

    /// The current holder of the token `id`, if it exists.
    pub fn owner_of_token(&self, id: &Hash256) -> (owner: Option<O>)
        requires
            self.wf(),
        ensures
            owner == (if self@.tokens.contains(*id) {
                Some(self@.token_holders.key_of(*id))
            } else {
                None
            }),
    {
        proof {
            self.wf_view();
        }
        self.token_holders.key_of(id)
    }

    /// The identity under which the token `id` was issued, if it exists.
    pub fn identity_of_token(&self, id: &Hash256) -> (issuer: Option<Hash256>)
        requires
            self.wf(),
        ensures
            issuer == (if self@.tokens.contains(*id) {
                Some(self@.token_issuers.key_of(*id))
            } else {
                None
            }),
    {
        proof {
            self.wf_view();
        }
        self.token_issuers.origin_of(id)
    }

    /// The number of tokens issued so far.
    pub fn tokens_count(&self) -> (n: u64)
        requires
            self.wf(),
        ensures
            n == self@.tokens.count(),
    {
        self.tokens.count()
    }

    /// The token issued as number `i`, counting from zero, if there were that many.
    pub fn token_by_index(&self, i: u64) -> (id: Option<Hash256>)
        requires
            self.wf(),
        ensures
            id == (if i < self@.tokens.count() {
                Some(self@.tokens.ids[i as int])
            } else {
                None
            }),
    {
        self.tokens.by_global_index(i)
    }

    /// The position of the token `id` in the global enumeration, if it exists.
    pub fn token_index(&self, id: &Hash256) -> (position: Option<u64>)
        requires
            self.wf(),
        ensures
            position == (if self@.tokens.contains(*id) {
                Some(self@.tokens.index_of(*id) as u64)
            } else {
                None
            }),
    {
        self.tokens.global_index(id)
    }

    /// The number of tokens that `owner` holds.
    pub fn tokens_count_of_owner(&self, owner: &O) -> (n: u64)
        requires
            self.wf(),
        ensures
            n == self@.token_holders.count(*owner),
    {
        self.token_holders.count(owner)
    }

    /// The token at position `i` of the list of `owner`, if the owner holds that many.
    pub fn token_by_index_of_owner(&self, owner: &O, i: u64) -> (id: Option<Hash256>)
        requires
            self.wf(),
        ensures
            id == (if i < self@.token_holders.count(*owner) {
                Some(self@.token_holders.list(*owner)[i as int])
            } else {
                None
            }),
    {
        self.token_holders.by_index(owner, i)
    }

    /// The position of the token `id` in its holder's list, if it exists.
    pub fn token_index_of_owner(&self, id: &Hash256) -> (position: Option<u64>)
        requires
            self.wf(),
        ensures
            position == (if self@.tokens.contains(*id) {
                Some(self@.token_holders.position_of(*id) as u64)
            } else {
                None
            }),
    {
        proof {
            self.wf_view();
        }
        self.token_holders.position_of(id)
    }

    /// The number of tokens issued under `identity`.
    pub fn tokens_count_of_identity(&self, identity: &Hash256) -> (n: u64)
        requires
            self.wf(),
        ensures
            n == self@.token_issuers.count(*identity),
    {
        self.token_issuers.count(identity)
    }

    /// The token at position `i` among those issued under `identity`, if
    /// there are that many.
    pub fn token_by_index_of_identity(&self, identity: &Hash256, i: u64) -> (id: Option<Hash256>)
        requires
            self.wf(),
        ensures
            id == (if i < self@.token_issuers.count(*identity) {
                Some(self@.token_issuers.list(*identity)[i as int])
            } else {
                None
            }),
    {
        self.token_issuers.by_index(identity, i)
    }

    /// The position of the token `id` among those of its issuer, if it exists.
    pub fn token_index_of_identity(&self, id: &Hash256) -> (position: Option<u64>)
        requires
            self.wf(),
        ensures
            position == (if self@.tokens.contains(*id) {
                Some(self@.token_issuers.position_of(*id) as u64)
            } else {
                None
            }),
    {
        proof {
            self.wf_view();
        }
        self.token_issuers.position_of(id)
    }
}

} // verus!
