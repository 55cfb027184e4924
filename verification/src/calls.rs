//! The operations of the registry as values, applied one at a time.

use crate::entities::AuthorizedToken;
use crate::error::RegistryError;
use crate::ids::{Hash256, IndexKey};
use crate::registry::{Registry, RegistryView};
use vstd::prelude::*;

verus! {

/// One operation on the registry, with the principal it is made for.
#[derive(Debug, PartialEq, Eq)]
pub enum Call<O> {
    /// Register the identity `id` for `owner`.
    RegisterIdentity { owner: O, id: Hash256 },
    /// Issue the token `id` under the identity `issuer` to `holder`.
    IssueToken { issuer: Hash256, holder: O, id: Hash256, payload: AuthorizedToken },
    /// Hand the token `token_id` over from `caller` to `to`.
    TransferToken { caller: O, to: O, token_id: Hash256 },
    /// Record that `caller` asks for authentication with `token_id` at `url`.
    RequestAuthentication { caller: O, token_id: Hash256, url: Vec<u8> },
}

impl<O> RegistryView<O> {
    /// Why `call` is rejected, if it is.
    pub open spec fn call_error(self, call: Call<O>) -> Option<RegistryError> {
        match call {
            Call::RegisterIdentity { owner, id } => self.register_error(owner, id),
            Call::IssueToken { issuer, holder, id, payload } => self.issue_error(
                issuer,
                holder,
                id,
            ),
            Call::TransferToken { caller, to, token_id } => self.transfer_error(
                caller,
                to,
                token_id,
            ),
            Call::RequestAuthentication { caller, token_id, url } => None,
        }
    }

    /// The registry after `call`: unchanged if the call is rejected, and
    /// otherwise as the operation leaves it.
    pub open spec fn after(self, call: Call<O>) -> Self {
        if self.call_error(call) is Some {
            self
        } else {
            match call {
                Call::RegisterIdentity { owner, id } => self.register(owner, id),
                Call::IssueToken { issuer, holder, id, payload } => self.issue(
                    issuer,
                    holder,
                    id,
                    payload,
                ),
                Call::TransferToken { caller, to, token_id } => self.transfer(
                    caller,
                    to,
                    token_id,
                ),
                Call::RequestAuthentication { caller, token_id, url } => {
                    self.request_authentication(caller, token_id, url)
                },
            }
        }
    }

    /// The registry after the calls of `calls`, made in order.
    pub open spec fn after_all(self, calls: Seq<Call<O>>) -> Self
        decreases calls.len(),
    {
        if calls.len() == 0 {
            self
        } else {
            self.after_all(calls.drop_last()).after(calls.last())
        }
    }

    /// Whether `later` still holds all that `self` holds: the global
    /// enumerations and the events of `self` are the beginnings of those of
    /// `later`, every identity has kept its record and its owner, and every
    /// token its record and its issuer.
    pub open spec fn kept_by(self, later: Self) -> bool {
        &&& self.identities.ids.is_prefix_of(later.identities.ids)
        &&& self.identities.payloads.is_prefix_of(later.identities.payloads)
        &&& self.tokens.ids.is_prefix_of(later.tokens.ids)
        &&& self.tokens.payloads.is_prefix_of(later.tokens.payloads)
        &&& self.events.is_prefix_of(later.events)
        &&& forall|id: Hash256| #[trigger]
            self.identities.contains(id) ==> later.identities.contains(id)
                && later.identity_owners.key_of(id) == self.identity_owners.key_of(id)
        &&& forall|id: Hash256| #[trigger]
            self.tokens.contains(id) ==> later.tokens.contains(id) && later.token_issuers.key_of(
                id,
            ) == self.token_issuers.key_of(id)
    }

    /// Whatever the call, accepted or rejected, it leaves a well-formed
    /// registry well formed, and the registry after it still holds all that
    /// it held before: no count drops, no position of a global enumeration is
    /// given out again, no identity changes its owner and no token its issuer.
    pub proof fn call_keeps_the_registry(self, call: Call<O>)
        requires
            self.wf(),
        ensures
            self.after(call).wf(),
            self.kept_by(self.after(call)),
    {
        if self.call_error(call) is None {
            match call {
                Call::RegisterIdentity { owner, id } => {
                    self.register_preserves_wf(owner, id);
                    self.identity_owners.append_preserves_wf(owner, id);
                },
                Call::IssueToken { issuer, holder, id, payload } => {
                    self.issue_preserves_wf(issuer, holder, id, payload);
                    self.token_issuers.append_preserves_wf(issuer, id);
                },
                Call::TransferToken { caller, to, token_id } => {
                    self.transfer_preserves_wf(caller, to, token_id);
                },
                Call::RequestAuthentication { caller, token_id, url } => {},
            }
        }
    }

    /// Whatever the calls, they leave a well-formed registry well formed,
    /// and the registry after them still holds all that it held before.
    pub proof fn calls_keep_the_registry(self, calls: Seq<Call<O>>)
        requires
            self.wf(),
        ensures
            self.after_all(calls).wf(),
            self.kept_by(self.after_all(calls)),
        decreases calls.len(),
    {
        if calls.len() > 0 {
            let before = self.after_all(calls.drop_last());
            self.calls_keep_the_registry(calls.drop_last());
            before.call_keeps_the_registry(calls.last());
        }
    }
}

impl<O: IndexKey> Registry<O> {
    /// Applies `call` to the registry: does what the operation that the call
    /// names does, and returns what it returns. A rejected call changes nothing.
    pub fn apply(&mut self, call: Call<O>) -> (result: Result<(), RegistryError>)
        requires
            old(self).wf(),
        ensures
            final(self).wf(),
            final(self)@ == old(self)@.after(call),
            match old(self)@.call_error(call) {
                Some(e) => result == Err::<(), RegistryError>(e) && *final(self) == *old(self),
                None => result == Ok::<(), RegistryError>(()),
            },
    {
        match call {
            Call::RegisterIdentity { owner, id } => self.register_identity_with_id(owner, id),
            Call::IssueToken { issuer, holder, id, payload } => self.issue_token(
                issuer,
                holder,
                id,
                payload,
            ),
            Call::TransferToken { caller, to, token_id } => self.transfer_token(
                caller,
                to,
                token_id,
            ),
            Call::RequestAuthentication { caller, token_id, url } => {
                self.request_authentication(caller, token_id, url);
                Ok(())
            },
        }
    }
}

} // verus!
