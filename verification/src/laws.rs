//! What holds of every well-formed registry, whatever was done to it.

use crate::calls::Call;
use crate::entities::{AuthorizedToken, Identity};
use crate::entity_store::EntityStoreView;
use crate::error::RegistryError;
use crate::ids::Hash256;
use crate::owner_index::{swap_removed, OwnerIndexView};
use crate::registry::RegistryView;
use vstd::prelude::*;

verus! {

/// No id stands at two positions of the global enumeration.
pub proof fn ids_are_unique<P>(store: EntityStoreView<P>, i: int, j: int)
    requires
        store.wf(),
        0 <= i < store.count(),
        0 <= j < store.count(),
        i != j,
    ensures
        store.ids[i] != store.ids[j],
{
}

/// The global enumeration and the reverse index are inverse to each other:
/// the id at position `i` has index `i`, and a minted id stands at its index.
pub proof fn global_index_is_a_bijection<P>(store: EntityStoreView<P>, i: int, id: Hash256)
    requires
        store.wf(),
    ensures
        0 <= i < store.count() ==> store.contains(store.ids[i]) && store.index_of(store.ids[i])
            == i,
        store.contains(id) ==> 0 <= store.index_of(id) < store.count() && store.ids[store.index_of(
            id,
        )] == id,
{
    if 0 <= i < store.count() {
        assert(store.ids[store.ids.index_of(store.ids[i])] == store.ids[i]);
    }
}

/// The empty registry is well formed, whatever the maximum of its counters.
pub proof fn empty_is_well_formed<O>(max_count: nat)
    ensures
        RegistryView::<O>::empty(max_count).wf(),
{
    let empty = RegistryView::<O>::empty(max_count);
    assert forall|id: Hash256|
        !empty.identity_owners.contains(id) && !empty.token_holders.contains(id)
            && !empty.token_issuers.contains(id) by {}
}

/// Whatever calls are made on an empty registry, accepted or rejected, the
/// registry they lead to is well formed.
pub proof fn reachable_is_well_formed<O>(max_count: nat, calls: Seq<Call<O>>)
    ensures
        RegistryView::<O>::empty(max_count).after_all(calls).wf(),
{
    empty_is_well_formed::<O>(max_count);
    RegistryView::<O>::empty(max_count).calls_keep_the_registry(calls);
}

/// After any number of mints into an empty store, each of them accepted, the
/// count is the number of mints, the global enumeration lists the minted ids
/// in the order of the mints, without a gap, and no id occurs twice.
pub proof fn mints_enumerate<P>(max_count: nat, ids: Seq<Hash256>, payloads: Seq<P>)
    requires
        ids.len() == payloads.len(),
        EntityStoreView::<P>::empty(max_count).accepts_all(ids, payloads),
    ensures
        EntityStoreView::<P>::empty(max_count).insert_all(ids, payloads).wf(),
        EntityStoreView::<P>::empty(max_count).insert_all(ids, payloads).count() == ids.len(),
        EntityStoreView::<P>::empty(max_count).insert_all(ids, payloads).ids == ids,
        EntityStoreView::<P>::empty(max_count).insert_all(ids, payloads).payloads == payloads,
        ids.no_duplicates(),
    decreases ids.len(),
{
    if ids.len() > 0 {
        mints_enumerate(max_count, ids.drop_last(), payloads.drop_last());
        EntityStoreView::<P>::empty(max_count).insert_all(
            ids.drop_last(),
            payloads.drop_last(),
        ).insert_preserves_wf(ids.last(), payloads.last());
        assert(ids.drop_last().push(ids.last()) =~= ids);
        assert(payloads.drop_last().push(payloads.last()) =~= payloads);
    }
}

/// The list of a key holds each of its ids once, and holds exactly the ids
/// that are filed under that key.
pub proof fn list_is_what_the_key_holds<K>(index: OwnerIndexView<K>, key: K)
    requires
        index.wf(),
    ensures
        index.list(key).no_duplicates(),
        forall|id: Hash256|
            index.list(key).contains(id) <==> index.contains(id) && index.key_of(id) == key,
        forall|i: int|
            0 <= i < index.count(key) ==> index.position_of(#[trigger] index.list(key)[i]) == i,
{
    assert forall|id: Hash256|
        index.list(key).contains(id) <==> index.contains(id) && index.key_of(id) == key by {
        if index.list(key).contains(id) {
            index.member_holds(key, id);
        }
        if index.contains(id) && index.key_of(id) == key {
            index.place_holds(id);
        }
    }
    assert forall|i: int| 0 <= i < index.count(key) implies index.position_of(
        #[trigger] index.list(key)[i],
    ) == i by {
        index.place_is_unique(key, i, index.list(key)[i]);
    }
}

/// The list of an owner holds exactly the tokens whose current holder is that
/// owner, each once; and the list of an identity exactly the tokens issued
/// under it, each once.
pub proof fn lists_are_what_is_held<O>(registry: RegistryView<O>, owner: O, identity: Hash256)
    requires
        registry.wf(),
    ensures
        registry.token_holders.list(owner).no_duplicates(),
        forall|id: Hash256|
            registry.token_holders.list(owner).contains(id) <==> registry.tokens.contains(id)
                && registry.token_holders.key_of(id) == owner,
        registry.identity_owners.list(owner).no_duplicates(),
        forall|id: Hash256|
            registry.identity_owners.list(owner).contains(id) <==> registry.identities.contains(id)
                && registry.identity_owners.key_of(id) == owner,
        registry.token_issuers.list(identity).no_duplicates(),
        forall|id: Hash256|
            registry.token_issuers.list(identity).contains(id) <==> registry.tokens.contains(id)
                && registry.token_issuers.key_of(id) == identity,
{
    list_is_what_the_key_holds(registry.token_holders, owner);
    list_is_what_the_key_holds(registry.identity_owners, owner);
    list_is_what_the_key_holds(registry.token_issuers, identity);
}

/// Swap-removal from a list without repeated ids: the list gets shorter by
/// one, the removed id is gone, every other id is still there, the id that
/// was last has the freed position, and every id before the last that was not
/// removed has the position it had.
pub proof fn swap_removal_keeps_the_rest(list: Seq<Hash256>, i: int)
    requires
        list.no_duplicates(),
        0 <= i < list.len(),
    ensures
        swap_removed(list, i).len() == list.len() - 1,
        swap_removed(list, i).no_duplicates(),
        !swap_removed(list, i).contains(list[i]),
        forall|id: Hash256|
            id != list[i] ==> swap_removed(list, i).contains(id) == list.contains(id),
        i < list.len() - 1 ==> swap_removed(list, i)[i] == list.last(),
        forall|j: int| 0 <= j < list.len() - 1 && j != i ==> swap_removed(list, i)[j] == list[j],
{
    let rest = swap_removed(list, i);
    let last = list.len() - 1;
    assert forall|id: Hash256| id != list[i] && list.contains(id) implies rest.contains(id) by {
        let j = list.index_of(id);
        if j == last {
            assert(rest[i] == id);
        } else {
            assert(rest[j] == id);
        }
    }
    assert forall|id: Hash256| rest.contains(id) implies id != list[i] && list.contains(id) by {
        let j = rest.index_of(id);
        if j == i {
            assert(list[last] == id);
        } else {
            assert(list[j] == id);
        }
    }
}

/// A transfer asked for by anyone but the current holder of the token is
/// rejected, the caller being told that it is not the owner.
pub proof fn transfer_by_another_is_rejected<O>(
    registry: RegistryView<O>,
    caller: O,
    to: O,
    token_id: Hash256,
)
    requires
        registry.wf(),
        registry.tokens.contains(token_id),
        registry.token_holders.key_of(token_id) != caller,
    ensures
        registry.transfer_error(caller, to, token_id) == Some(RegistryError::NotOwner),
{
}

/// An accepted transfer makes `to` the holder of the token and puts the token
/// last in the list of `to`. Where the two owners differ, the count of the
/// caller drops by one and that of `to` rises by one. Every other token keeps
/// its holder; the tokens, their issuers and the identities stay as they were.
pub proof fn transfer_moves_one_token<O>(
    registry: RegistryView<O>,
    caller: O,
    to: O,
    token_id: Hash256,
)
    requires
        registry.wf(),
        registry.transfer_error(caller, to, token_id) is None,
    ensures
        registry.transfer(caller, to, token_id).wf(),
        registry.transfer(caller, to, token_id).token_holders.key_of(token_id) == to,
        registry.transfer(caller, to, token_id).token_holders.position_of(token_id)
            == registry.transfer(caller, to, token_id).token_holders.count(to) - 1,
        caller != to ==> registry.transfer(caller, to, token_id).token_holders.count(caller)
            == registry.token_holders.count(caller) - 1 && registry.transfer(
            caller,
            to,
            token_id,
        ).token_holders.count(to) == registry.token_holders.count(to) + 1,
        caller == to ==> registry.transfer(caller, to, token_id).token_holders.count(to)
            == registry.token_holders.count(to),
        forall|other: Hash256|
            other != token_id && #[trigger] registry.tokens.contains(other) ==> registry.transfer(
                caller,
                to,
                token_id,
            ).token_holders.key_of(other) == registry.token_holders.key_of(other),
        registry.transfer(caller, to, token_id).tokens == registry.tokens,
        registry.transfer(caller, to, token_id).token_issuers == registry.token_issuers,
        registry.transfer(caller, to, token_id).identities == registry.identities,
        registry.transfer(caller, to, token_id).identity_owners == registry.identity_owners,
{
    registry.transfer_preserves_wf(caller, to, token_id);
    registry.token_holders.transfer_preserves_wf(caller, to, token_id);
}

/// A mint of an id that is already present is rejected as a duplicate,
/// whatever the counters hold: into a store, as an identity, and, under a
/// registered issuer, as a token.
pub proof fn duplicate_mint_is_rejected<O, P>(
    store: EntityStoreView<P>,
    registry: RegistryView<O>,
    owner: O,
    issuer: Hash256,
    id: Hash256,
)
    ensures
        store.contains(id) ==> store.insert_error(id) == Some(RegistryError::DuplicateId),
        registry.identities.contains(id) ==> registry.register_error(owner, id) == Some(
            RegistryError::DuplicateId,
        ),
        registry.identities.contains(issuer) && registry.tokens.contains(id)
            ==> registry.issue_error(issuer, owner, id) == Some(RegistryError::DuplicateId),
{
}

/// A mint of an id that is not yet present is rejected as an overflow when a
/// counter that it would raise is at its maximum: the global count of a
/// store; for an identity the global count or the count of the owner; for a
/// token under a registered issuer the global count, the count of the holder
/// or the count of the issuer.
pub proof fn mint_at_the_maximum_is_rejected<O, P>(
    store: EntityStoreView<P>,
    registry: RegistryView<O>,
    owner: O,
    issuer: Hash256,
    id: Hash256,
)
    ensures
        !store.contains(id) && store.count() >= store.max_count ==> store.insert_error(id) == Some(
            RegistryError::Overflow,
        ),
        !registry.identities.contains(id) && (registry.identities.count()
            >= registry.identities.max_count || registry.identity_owners.count(owner)
            >= registry.identity_owners.max_count) ==> registry.register_error(owner, id) == Some(
            RegistryError::Overflow,
        ),
        registry.identities.contains(issuer) && !registry.tokens.contains(id) && (
        registry.tokens.count() >= registry.tokens.max_count || registry.token_holders.count(owner)
            >= registry.token_holders.max_count || registry.token_issuers.count(issuer)
            >= registry.token_issuers.max_count) ==> registry.issue_error(issuer, owner, id) == Some(
            RegistryError::Overflow,
        ),
{
}

/// An accepted registration adds one identity, owned by `owner`, last in the
/// global enumeration and last in the owner's list, and leaves every earlier
/// identity with its owner and every token as it was.
pub proof fn register_adds_one_identity<O>(registry: RegistryView<O>, owner: O, id: Hash256)
    requires
        registry.wf(),
        registry.register_error(owner, id) is None,
    ensures
        registry.register(owner, id).wf(),
        registry.register(owner, id).identities.count() == registry.identities.count() + 1,
        registry.register(owner, id).identities.ids[registry.identities.count() as int] == id,
        registry.register(owner, id).identity_owners.key_of(id) == owner,
        registry.register(owner, id).identity_owners.position_of(id)
            == registry.identity_owners.count(owner),
        registry.register(owner, id).identity_owners.count(owner)
            == registry.identity_owners.count(owner) + 1,
        forall|other: Hash256| #[trigger]
            registry.identities.contains(other) ==> registry.register(
                owner,
                id,
            ).identities.contains(other) && registry.register(owner, id).identity_owners.key_of(
                other,
            ) == registry.identity_owners.key_of(other),
        registry.register(owner, id).tokens == registry.tokens,
        registry.register(owner, id).token_holders == registry.token_holders,
        registry.register(owner, id).token_issuers == registry.token_issuers,
{
    registry.register_preserves_wf(owner, id);
    registry.identities.insert_preserves_wf(id, Identity { id });
    registry.identity_owners.append_preserves_wf(owner, id);
}

/// An accepted issue adds one token, held by `holder` and issued under
/// `issuer`, last in the global enumeration and in both lists, and leaves
/// every earlier token with its holder, its issuer and its record.
pub proof fn issue_adds_one_token<O>(
    registry: RegistryView<O>,
    issuer: Hash256,
    holder: O,
    id: Hash256,
    payload: AuthorizedToken,
)
    requires
        registry.wf(),
        registry.issue_error(issuer, holder, id) is None,
    ensures
        registry.issue(issuer, holder, id, payload).wf(),
        registry.issue(issuer, holder, id, payload).tokens.count() == registry.tokens.count() + 1,
        registry.issue(issuer, holder, id, payload).tokens.ids[registry.tokens.count() as int]
            == id,
        registry.issue(issuer, holder, id, payload).tokens.payload(id) == payload,
        registry.issue(issuer, holder, id, payload).token_holders.key_of(id) == holder,
        registry.issue(issuer, holder, id, payload).token_issuers.key_of(id) == issuer,
        registry.issue(issuer, holder, id, payload).token_holders.count(holder)
            == registry.token_holders.count(holder) + 1,
        registry.issue(issuer, holder, id, payload).token_issuers.count(issuer)
            == registry.token_issuers.count(issuer) + 1,
        forall|other: Hash256| #[trigger]
            registry.tokens.contains(other) ==> {
                let after = registry.issue(issuer, holder, id, payload);
                &&& after.tokens.contains(other)
                &&& after.tokens.payload(other) == registry.tokens.payload(other)
                &&& after.token_holders.key_of(other) == registry.token_holders.key_of(other)
                &&& after.token_issuers.key_of(other) == registry.token_issuers.key_of(other)
            },
        registry.issue(issuer, holder, id, payload).identities == registry.identities,
        registry.issue(issuer, holder, id, payload).identity_owners == registry.identity_owners,
{
    registry.issue_preserves_wf(issuer, holder, id, payload);
    registry.tokens.insert_preserves_wf(id, payload);
    registry.token_holders.append_preserves_wf(holder, id);
    registry.token_issuers.append_preserves_wf(issuer, id);
}

} // verus!
