use litentry_registry::calls::Call;
use litentry_registry::entities::{AuthorizedToken, Event, IdSource, Identity};
use litentry_registry::error::RegistryError;
use litentry_registry::ids::Hash256;
use litentry_registry::registry::Registry;

/// Hands out the ids 1000, 1001, ... whatever the owner.
struct Counting {
    next: u64,
}

impl IdSource<u64> for Counting {
    fn next_id(&mut self, _owner: &u64) -> Hash256 {
        let id = Hash256::from_low_u64_be(self.next);
        self.next += 1;
        id
    }
}

/// Hands out the same id every time.
struct Stuck {
    id: Hash256,
}

impl IdSource<u64> for Stuck {
    fn next_id(&mut self, _owner: &u64) -> Hash256 {
        self.id
    }
}

fn id(n: u64) -> Hash256 {
    Hash256::from_low_u64_be(n)
}

fn token(n: u64) -> AuthorizedToken {
    AuthorizedToken { id: id(n), cost: 5, data: 6, datatype: 7, expired: 8 }
}

#[test]
fn tests_it_works_for_default_value() {
    let mut registry: Registry<u64> = Registry::new();
    let mut source = Counting { next: 1000 };
    let destination: u64 = 2;
    let dumb_data: u64 = 1;
    assert!(registry.register_identity(1, &mut source).is_ok());
    assert_eq!(registry.identities_count(), 1 as u64);

    let identity_id = Hash256::from_low_u64_be(16);

    assert!(registry.register_identity_with_id(1, identity_id).is_ok());

    assert_eq!(registry.identities_count(), 2 as u64);

    assert_eq!(registry.identity_by_index(1 as u64), Some(identity_id));

    assert!(registry
        .issue_fresh_token(
            &mut source,
            1,
            destination,
            identity_id,
            dumb_data as u128,
            dumb_data,
            dumb_data,
            dumb_data
        )
        .is_ok());

    assert_eq!(registry.tokens_count_of_owner(&2), 1 as u64);

    assert_eq!(registry.tokens_count_of_identity(&identity_id), 1 as u64);
}

#[test]
fn end_to_end_mint_issue_transfer() {
    let (o1, h1, h2) = (1u64, 11u64, 12u64);
    let (id1, t1) = (id(100), id(200));
    let mut registry: Registry<u64> = Registry::new();

    assert_eq!(registry.register_identity_with_id(o1, id1), Ok(()));
    assert_eq!(registry.identities_count(), 1);
    assert_eq!(registry.identity_by_index(0), Some(id1));

    assert_eq!(registry.issue_token(id1, h1, t1, token(200)), Ok(()));
    assert_eq!(registry.tokens_count_of_owner(&h1), 1);
    assert_eq!(registry.tokens_count_of_identity(&id1), 1);

    assert_eq!(registry.transfer_token(h1, h2, t1), Ok(()));
    assert_eq!(registry.tokens_count_of_owner(&h1), 0);
    assert_eq!(registry.tokens_count_of_owner(&h2), 1);
    assert_eq!(registry.owner_of_token(&t1), Some(h2));
}

#[test]
fn a_new_registry_is_empty() {
    let registry: Registry<u64> = Registry::new();
    assert_eq!(registry.identities_count(), 0);
    assert_eq!(registry.tokens_count(), 0);
    assert_eq!(registry.identity_by_index(0), None);
    assert_eq!(registry.token_by_index(0), None);
    assert_eq!(registry.identity(&id(1)), None);
    assert_eq!(registry.token(&id(1)), None);
    assert_eq!(registry.owner_of_identity(&id(1)), None);
    assert_eq!(registry.owner_of_token(&id(1)), None);
    assert_eq!(registry.identity_of_token(&id(1)), None);
    assert_eq!(registry.identities_count_of_owner(&1), 0);
    assert_eq!(registry.tokens_count_of_owner(&1), 0);
    assert_eq!(registry.tokens_count_of_identity(&id(1)), 0);
    assert!(registry.events().is_empty());
}

#[test]
fn registering_records_the_identity_everywhere() {
    let mut registry: Registry<u64> = Registry::new();
    assert_eq!(registry.register_identity_with_id(7, id(1)), Ok(()));
    assert_eq!(registry.register_identity_with_id(8, id(2)), Ok(()));
    assert_eq!(registry.register_identity_with_id(7, id(3)), Ok(()));

    assert_eq!(registry.identities_count(), 3);
    assert_eq!(registry.identity_by_index(0), Some(id(1)));
    assert_eq!(registry.identity_by_index(1), Some(id(2)));
    assert_eq!(registry.identity_by_index(2), Some(id(3)));
    assert_eq!(registry.identity_by_index(3), None);
    assert_eq!(registry.identity_index(&id(3)), Some(2));
    assert_eq!(registry.identity_index(&id(4)), None);

    assert_eq!(registry.identity(&id(2)), Some(Identity { id: id(2) }));
    assert_eq!(registry.owner_of_identity(&id(1)), Some(7));
    assert_eq!(registry.owner_of_identity(&id(2)), Some(8));
    assert_eq!(registry.owner_of_identity(&id(3)), Some(7));

    assert_eq!(registry.identities_count_of_owner(&7), 2);
    assert_eq!(registry.identities_count_of_owner(&8), 1);
    assert_eq!(registry.identities_count_of_owner(&9), 0);
    assert_eq!(registry.identity_by_index_of_owner(&7, 0), Some(id(1)));
    assert_eq!(registry.identity_by_index_of_owner(&7, 1), Some(id(3)));
    assert_eq!(registry.identity_by_index_of_owner(&7, 2), None);
    assert_eq!(registry.identity_by_index_of_owner(&9, 0), None);
    assert_eq!(registry.identity_index_of_owner(&id(1)), Some(0));
    assert_eq!(registry.identity_index_of_owner(&id(2)), Some(0));
    assert_eq!(registry.identity_index_of_owner(&id(3)), Some(1));
    assert_eq!(registry.identity_index_of_owner(&id(4)), None);
}

#[test]
fn register_identity_returns_the_id_drawn() {
    let mut registry: Registry<u64> = Registry::new();
    let mut source = Counting { next: 1000 };
    assert_eq!(registry.register_identity(1, &mut source), Ok(id(1000)));
    assert_eq!(registry.register_identity(1, &mut source), Ok(id(1001)));
    assert_eq!(registry.identity_by_index(0), Some(id(1000)));
    assert_eq!(registry.identity_by_index(1), Some(id(1001)));
    assert_eq!(registry.owner_of_identity(&id(1001)), Some(1));
}

#[test]
fn register_identity_rejects_a_colliding_id() {
    let mut registry: Registry<u64> = Registry::new();
    let mut source = Stuck { id: id(5) };
    assert_eq!(registry.register_identity(1, &mut source), Ok(id(5)));
    assert_eq!(registry.register_identity(2, &mut source), Err(RegistryError::DuplicateId));
    assert_eq!(registry.identities_count(), 1);
    assert_eq!(registry.identities_count_of_owner(&2), 0);
    assert_eq!(registry.events().len(), 1);
}

#[test]
fn duplicate_identity_is_rejected_and_nothing_changes() {
    let mut registry: Registry<u64> = Registry::new();
    assert_eq!(registry.register_identity_with_id(7, id(1)), Ok(()));
    assert_eq!(registry.register_identity_with_id(8, id(1)), Err(RegistryError::DuplicateId));
    assert_eq!(registry.register_identity_with_id(7, id(1)), Err(RegistryError::DuplicateId));
    assert_eq!(registry.identities_count(), 1);
    assert_eq!(registry.owner_of_identity(&id(1)), Some(7));
    assert_eq!(registry.identities_count_of_owner(&7), 1);
    assert_eq!(registry.identities_count_of_owner(&8), 0);
    assert_eq!(registry.identity_index_of_owner(&id(1)), Some(0));
    assert_eq!(registry.events().len(), 1);
}

#[test]
fn identity_overflow_on_the_global_count() {
    let mut registry: Registry<u64> = Registry::with_max_count(2);
    assert_eq!(registry.register_identity_with_id(1, id(1)), Ok(()));
    assert_eq!(registry.register_identity_with_id(2, id(2)), Ok(()));
    assert_eq!(registry.register_identity_with_id(3, id(3)), Err(RegistryError::Overflow));
    assert_eq!(registry.identities_count(), 2);
    assert_eq!(registry.identities_count_of_owner(&3), 0);
    assert_eq!(registry.identity(&id(3)), None);
    assert_eq!(registry.events().len(), 2);
    // a duplicate is told apart from an overflow even at the maximum
    assert_eq!(registry.register_identity_with_id(3, id(1)), Err(RegistryError::DuplicateId));
}

#[test]
fn a_registry_of_no_capacity_rejects_every_mint() {
    let mut registry: Registry<u64> = Registry::with_max_count(0);
    assert_eq!(registry.register_identity_with_id(1, id(1)), Err(RegistryError::Overflow));
    assert_eq!(registry.identities_count(), 0);
    assert!(registry.events().is_empty());
}

#[test]
fn issuing_records_the_token_everywhere() {
    let mut registry: Registry<u64> = Registry::new();
    assert_eq!(registry.register_identity_with_id(1, id(10)), Ok(()));
    assert_eq!(registry.register_identity_with_id(1, id(11)), Ok(()));
    assert_eq!(registry.issue_token(id(10), 5, id(100), token(100)), Ok(()));
    assert_eq!(registry.issue_token(id(11), 5, id(101), token(101)), Ok(()));
    assert_eq!(registry.issue_token(id(10), 6, id(102), token(102)), Ok(()));

    assert_eq!(registry.tokens_count(), 3);
    assert_eq!(registry.token_by_index(0), Some(id(100)));
    assert_eq!(registry.token_by_index(2), Some(id(102)));
    assert_eq!(registry.token_by_index(3), None);
    assert_eq!(registry.token_index(&id(101)), Some(1));
    assert_eq!(registry.token_index(&id(7)), None);
    assert_eq!(registry.token(&id(101)), Some(token(101)));

    assert_eq!(registry.owner_of_token(&id(100)), Some(5));
    assert_eq!(registry.owner_of_token(&id(102)), Some(6));
    assert_eq!(registry.identity_of_token(&id(100)), Some(id(10)));
    assert_eq!(registry.identity_of_token(&id(101)), Some(id(11)));

    assert_eq!(registry.tokens_count_of_owner(&5), 2);
    assert_eq!(registry.tokens_count_of_owner(&6), 1);
    assert_eq!(registry.token_by_index_of_owner(&5, 0), Some(id(100)));
    assert_eq!(registry.token_by_index_of_owner(&5, 1), Some(id(101)));
    assert_eq!(registry.token_by_index_of_owner(&5, 2), None);
    assert_eq!(registry.token_index_of_owner(&id(101)), Some(1));
    assert_eq!(registry.token_index_of_owner(&id(102)), Some(0));

    assert_eq!(registry.tokens_count_of_identity(&id(10)), 2);
    assert_eq!(registry.tokens_count_of_identity(&id(11)), 1);
    assert_eq!(registry.token_by_index_of_identity(&id(10), 0), Some(id(100)));
    assert_eq!(registry.token_by_index_of_identity(&id(10), 1), Some(id(102)));
    assert_eq!(registry.token_by_index_of_identity(&id(10), 2), None);
    assert_eq!(registry.token_index_of_identity(&id(102)), Some(1));
    assert_eq!(registry.token_index_of_identity(&id(101)), Some(0));
    assert_eq!(registry.token_index_of_identity(&id(7)), None);

    // identities are untouched by tokens, and the two kinds do not share ids
    assert_eq!(registry.identities_count(), 2);
    assert_eq!(registry.identity(&id(100)), None);
    assert_eq!(registry.token(&id(10)), None);
}

#[test]
fn issue_fresh_token_stores_the_id_drawn_in_the_record() {
    let mut registry: Registry<u64> = Registry::new();
    let mut source = Counting { next: 500 };
    assert_eq!(registry.register_identity_with_id(1, id(10)), Ok(()));
    assert_eq!(registry.issue_fresh_token(&mut source, 1, 2, id(10), 9, 8, 7, 6), Ok(id(500)));
    assert_eq!(
        registry.token(&id(500)),
        Some(AuthorizedToken { id: id(500), cost: 9, data: 8, datatype: 7, expired: 6 })
    );
    assert_eq!(registry.owner_of_token(&id(500)), Some(2));
    assert_eq!(registry.identity_of_token(&id(500)), Some(id(10)));
    assert_eq!(
        registry.issue_fresh_token(&mut source, 1, 2, id(99), 9, 8, 7, 6),
        Err(RegistryError::IdentityNotFound)
    );
    assert_eq!(registry.tokens_count(), 1);
}

#[test]
fn token_under_an_unknown_identity_is_rejected() {
    let mut registry: Registry<u64> = Registry::new();
    assert_eq!(
        registry.issue_token(id(10), 5, id(100), token(100)),
        Err(RegistryError::IdentityNotFound)
    );
    assert_eq!(registry.tokens_count(), 0);
    assert_eq!(registry.tokens_count_of_owner(&5), 0);
    assert_eq!(registry.tokens_count_of_identity(&id(10)), 0);
    assert!(registry.events().is_empty());
}

#[test]
fn duplicate_token_is_rejected_and_nothing_changes() {
    let mut registry: Registry<u64> = Registry::new();
    assert_eq!(registry.register_identity_with_id(1, id(10)), Ok(()));
    assert_eq!(registry.issue_token(id(10), 5, id(100), token(100)), Ok(()));
    assert_eq!(
        registry.issue_token(id(10), 6, id(100), token(1)),
        Err(RegistryError::DuplicateId)
    );
    assert_eq!(registry.tokens_count(), 1);
    assert_eq!(registry.token(&id(100)), Some(token(100)));
    assert_eq!(registry.owner_of_token(&id(100)), Some(5));
    assert_eq!(registry.tokens_count_of_owner(&6), 0);
    assert_eq!(registry.tokens_count_of_identity(&id(10)), 1);
    assert_eq!(registry.events().len(), 2);
    // an unknown issuer is reported before a duplicate id
    assert_eq!(
        registry.issue_token(id(11), 6, id(100), token(1)),
        Err(RegistryError::IdentityNotFound)
    );
}

#[test]
fn token_overflow_on_the_holder_count() {
    let mut registry: Registry<u64> = Registry::with_max_count(2);
    assert_eq!(registry.register_identity_with_id(1, id(10)), Ok(()));
    assert_eq!(registry.register_identity_with_id(2, id(11)), Ok(()));
    assert_eq!(registry.issue_token(id(10), 5, id(100), token(100)), Ok(()));
    assert_eq!(registry.issue_token(id(11), 5, id(101), token(101)), Ok(()));
    // the global count of tokens is now at its maximum
    assert_eq!(
        registry.issue_token(id(10), 6, id(102), token(102)),
        Err(RegistryError::Overflow)
    );
    assert_eq!(registry.tokens_count(), 2);
    assert_eq!(registry.tokens_count_of_owner(&6), 0);
    assert_eq!(registry.tokens_count_of_identity(&id(10)), 1);
    assert_eq!(registry.token(&id(102)), None);
    assert_eq!(registry.events().len(), 4);
}

#[test]
fn transfer_overflow_on_the_destination() {
    let mut registry: Registry<u64> = Registry::with_max_count(3);
    assert_eq!(registry.register_identity_with_id(1, id(10)), Ok(()));
    assert_eq!(registry.issue_token(id(10), 5, id(100), token(100)), Ok(()));
    assert_eq!(registry.issue_token(id(10), 5, id(101), token(101)), Ok(()));
    assert_eq!(registry.issue_token(id(10), 5, id(102), token(102)), Ok(()));
    // owner 5 is at the maximum: nothing can be handed to it, not even by itself
    assert_eq!(registry.transfer_token(5, 5, id(100)), Err(RegistryError::Overflow));
    assert_eq!(registry.token_by_index_of_owner(&5, 0), Some(id(100)));
    assert_eq!(registry.token_by_index_of_owner(&5, 2), Some(id(102)));
    assert_eq!(registry.transfer_token(5, 6, id(100)), Ok(()));
    assert_eq!(registry.tokens_count_of_owner(&5), 2);
    assert_eq!(registry.tokens_count_of_owner(&6), 1);
}

#[test]
fn transfer_from_a_non_owner_changes_nothing() {
    let mut registry: Registry<u64> = Registry::new();
    assert_eq!(registry.register_identity_with_id(1, id(10)), Ok(()));
    assert_eq!(registry.issue_token(id(10), 5, id(100), token(100)), Ok(()));
    assert_eq!(registry.issue_token(id(10), 5, id(101), token(101)), Ok(()));
    assert_eq!(registry.issue_token(id(10), 6, id(102), token(102)), Ok(()));

    assert_eq!(registry.transfer_token(6, 7, id(100)), Err(RegistryError::NotOwner));
    assert_eq!(registry.transfer_token(7, 6, id(100)), Err(RegistryError::NotOwner));
    // the owner of the issuing identity is not the holder of the token
    assert_eq!(registry.transfer_token(1, 6, id(100)), Err(RegistryError::NotOwner));

    assert_eq!(registry.tokens_count_of_owner(&5), 2);
    assert_eq!(registry.tokens_count_of_owner(&6), 1);
    assert_eq!(registry.tokens_count_of_owner(&7), 0);
    assert_eq!(registry.token_by_index_of_owner(&5, 0), Some(id(100)));
    assert_eq!(registry.token_by_index_of_owner(&5, 1), Some(id(101)));
    assert_eq!(registry.token_by_index_of_owner(&6, 0), Some(id(102)));
    assert_eq!(registry.token_index_of_owner(&id(100)), Some(0));
    assert_eq!(registry.token_index_of_owner(&id(101)), Some(1));
    assert_eq!(registry.token_index_of_owner(&id(102)), Some(0));
    assert_eq!(registry.owner_of_token(&id(100)), Some(5));
    assert_eq!(registry.events().len(), 4);
}

#[test]
fn transfer_of_an_unknown_token_is_not_found() {
    let mut registry: Registry<u64> = Registry::new();
    assert_eq!(registry.register_identity_with_id(5, id(10)), Ok(()));
    assert_eq!(registry.transfer_token(5, 6, id(100)), Err(RegistryError::NotFound));
    // an identity is no token
    assert_eq!(registry.transfer_token(5, 6, id(10)), Err(RegistryError::NotFound));
    assert_eq!(registry.tokens_count_of_owner(&6), 0);
    assert_eq!(registry.events().len(), 1);
}

#[test]
fn transfer_moves_the_last_token_into_the_freed_place() {
    let mut registry: Registry<u64> = Registry::new();
    assert_eq!(registry.register_identity_with_id(1, id(10)), Ok(()));
    assert_eq!(registry.issue_token(id(10), 5, id(100), token(100)), Ok(()));
    assert_eq!(registry.issue_token(id(10), 5, id(101), token(101)), Ok(()));
    assert_eq!(registry.issue_token(id(10), 5, id(102), token(102)), Ok(()));
    assert_eq!(registry.issue_token(id(10), 6, id(103), token(103)), Ok(()));

    assert_eq!(registry.transfer_token(5, 6, id(100)), Ok(()));

    assert_eq!(registry.tokens_count_of_owner(&5), 2);
    assert_eq!(registry.token_by_index_of_owner(&5, 0), Some(id(102)));
    assert_eq!(registry.token_by_index_of_owner(&5, 1), Some(id(101)));
    assert_eq!(registry.token_by_index_of_owner(&5, 2), None);
    assert_eq!(registry.token_index_of_owner(&id(102)), Some(0));
    assert_eq!(registry.token_index_of_owner(&id(101)), Some(1));

    assert_eq!(registry.tokens_count_of_owner(&6), 2);
    assert_eq!(registry.token_by_index_of_owner(&6, 0), Some(id(103)));
    assert_eq!(registry.token_by_index_of_owner(&6, 1), Some(id(100)));
    assert_eq!(registry.token_index_of_owner(&id(100)), Some(1));
    assert_eq!(registry.owner_of_token(&id(100)), Some(6));

    // the issuer, the record and the global enumeration stay
    assert_eq!(registry.identity_of_token(&id(100)), Some(id(10)));
    assert_eq!(registry.token(&id(100)), Some(token(100)));
    assert_eq!(registry.tokens_count(), 4);
    assert_eq!(registry.token_by_index(0), Some(id(100)));
    assert_eq!(registry.tokens_count_of_identity(&id(10)), 4);
    assert_eq!(registry.token_index_of_identity(&id(100)), Some(0));
}

#[test]
fn transfer_to_oneself_moves_the_token_to_the_end() {
    let mut registry: Registry<u64> = Registry::new();
    assert_eq!(registry.register_identity_with_id(1, id(10)), Ok(()));
    assert_eq!(registry.issue_token(id(10), 5, id(100), token(100)), Ok(()));
    assert_eq!(registry.issue_token(id(10), 5, id(101), token(101)), Ok(()));
    assert_eq!(registry.issue_token(id(10), 5, id(102), token(102)), Ok(()));
    assert_eq!(registry.transfer_token(5, 5, id(100)), Ok(()));
    assert_eq!(registry.tokens_count_of_owner(&5), 3);
    assert_eq!(registry.token_by_index_of_owner(&5, 0), Some(id(102)));
    assert_eq!(registry.token_by_index_of_owner(&5, 1), Some(id(101)));
    assert_eq!(registry.token_by_index_of_owner(&5, 2), Some(id(100)));
    assert_eq!(registry.owner_of_token(&id(100)), Some(5));
}

#[test]
fn transfer_of_the_only_token_empties_the_list() {
    let mut registry: Registry<u64> = Registry::new();
    assert_eq!(registry.register_identity_with_id(1, id(10)), Ok(()));
    assert_eq!(registry.issue_token(id(10), 5, id(100), token(100)), Ok(()));
    assert_eq!(registry.transfer_token(5, 6, id(100)), Ok(()));
    assert_eq!(registry.tokens_count_of_owner(&5), 0);
    assert_eq!(registry.token_by_index_of_owner(&5, 0), None);
    assert_eq!(registry.transfer_token(6, 5, id(100)), Ok(()));
    assert_eq!(registry.tokens_count_of_owner(&5), 1);
    assert_eq!(registry.tokens_count_of_owner(&6), 0);
    assert_eq!(registry.token_by_index_of_owner(&5, 0), Some(id(100)));
}

#[test]
fn events_are_recorded_in_order_and_only_for_accepted_calls() {
    let mut registry: Registry<u64> = Registry::new();
    assert_eq!(registry.register_identity_with_id(1, id(10)), Ok(()));
    assert_eq!(registry.register_identity_with_id(1, id(10)), Err(RegistryError::DuplicateId));
    assert_eq!(registry.issue_token(id(10), 5, id(100), token(100)), Ok(()));
    assert_eq!(registry.transfer_token(6, 5, id(100)), Err(RegistryError::NotOwner));
    assert_eq!(registry.transfer_token(5, 6, id(100)), Ok(()));
    registry.request_authentication(9, id(777), vec![104, 116, 116, 112]);

    let expected = vec![
        Event::IdentityCreated { owner: 1, id: id(10) },
        Event::AuthorizedTokenCreated { holder: 5, issuer_identity: id(10), token_id: id(100) },
        Event::AuthorizedTokenTransferred { from: 5, to: 6, token_id: id(100) },
        Event::AuthenticationRequested {
            caller: 9,
            token_id: id(777),
            url: vec![104, 116, 116, 112],
        },
    ];
    assert_eq!(registry.events(), &expected);

    let taken = registry.take_events();
    assert_eq!(taken, expected);
    assert!(registry.events().is_empty());
    // taking the events leaves the rest alone
    assert_eq!(registry.identities_count(), 1);
    assert_eq!(registry.owner_of_token(&id(100)), Some(6));
}

#[test]
fn request_authentication_changes_no_ownership() {
    let mut registry: Registry<u64> = Registry::new();
    assert_eq!(registry.register_identity_with_id(1, id(10)), Ok(()));
    assert_eq!(registry.issue_token(id(10), 5, id(100), token(100)), Ok(()));
    registry.request_authentication(6, id(100), vec![1, 2, 3]);
    assert_eq!(registry.owner_of_token(&id(100)), Some(5));
    assert_eq!(registry.tokens_count(), 1);
    assert_eq!(registry.tokens_count_of_owner(&6), 0);
    assert_eq!(registry.events().len(), 3);
}

#[test]
fn owners_can_be_256_bit_principals() {
    let alice = Hash256::new(1, 0);
    let bob = Hash256::new(0, 1);
    let mut registry: Registry<Hash256> = Registry::new();
    assert_eq!(registry.register_identity_with_id(alice, id(10)), Ok(()));
    assert_eq!(registry.issue_token(id(10), alice, id(100), token(100)), Ok(()));
    assert_eq!(registry.transfer_token(bob, alice, id(100)), Err(RegistryError::NotOwner));
    assert_eq!(registry.transfer_token(alice, bob, id(100)), Ok(()));
    assert_eq!(registry.owner_of_token(&id(100)), Some(bob));
    assert_eq!(registry.tokens_count_of_owner(&alice), 0);
    assert_eq!(registry.tokens_count_of_owner(&bob), 1);
}

#[test]
fn every_owner_list_holds_exactly_what_the_owner_holds() {
    let mut registry: Registry<u64> = Registry::new();
    assert_eq!(registry.register_identity_with_id(1, id(10)), Ok(()));
    for n in 0..12u64 {
        assert_eq!(registry.issue_token(id(10), n % 3, id(100 + n), token(100 + n)), Ok(()));
    }
    for n in 0..12u64 {
        if n % 2 == 0 {
            assert_eq!(registry.transfer_token(n % 3, (n + 1) % 3, id(100 + n)), Ok(()));
        }
    }
    let mut seen = 0;
    for owner in 0..3u64 {
        let count = registry.tokens_count_of_owner(&owner);
        for i in 0..count {
            let t = registry.token_by_index_of_owner(&owner, i).unwrap();
            assert_eq!(registry.owner_of_token(&t), Some(owner));
            assert_eq!(registry.token_index_of_owner(&t), Some(i));
            seen += 1;
        }
        assert_eq!(registry.token_by_index_of_owner(&owner, count), None);
    }
    assert_eq!(seen, 12);
    for n in 0..12u64 {
        let owner = registry.owner_of_token(&id(100 + n)).unwrap();
        let i = registry.token_index_of_owner(&id(100 + n)).unwrap();
        assert_eq!(registry.token_by_index_of_owner(&owner, i), Some(id(100 + n)));
        assert_eq!(registry.token_by_index(n), Some(id(100 + n)));
    }
}

#[test]
fn calls_are_applied_like_the_operations() {
    let mut applied: Registry<u64> = Registry::new();
    let mut direct: Registry<u64> = Registry::new();

    assert_eq!(applied.apply(Call::RegisterIdentity { owner: 1, id: id(10) }), Ok(()));
    assert_eq!(direct.register_identity_with_id(1, id(10)), Ok(()));
    assert_eq!(
        applied.apply(Call::RegisterIdentity { owner: 2, id: id(10) }),
        Err(RegistryError::DuplicateId)
    );
    assert_eq!(
        applied.apply(Call::IssueToken {
            issuer: id(10),
            holder: 5,
            id: id(100),
            payload: token(100)
        }),
        Ok(())
    );
    assert_eq!(direct.issue_token(id(10), 5, id(100), token(100)), Ok(()));
    assert_eq!(
        applied.apply(Call::IssueToken {
            issuer: id(11),
            holder: 5,
            id: id(101),
            payload: token(101)
        }),
        Err(RegistryError::IdentityNotFound)
    );
    assert_eq!(
        applied.apply(Call::TransferToken { caller: 6, to: 5, token_id: id(100) }),
        Err(RegistryError::NotOwner)
    );
    assert_eq!(
        applied.apply(Call::TransferToken { caller: 5, to: 6, token_id: id(101) }),
        Err(RegistryError::NotFound)
    );
    assert_eq!(applied.apply(Call::TransferToken { caller: 5, to: 6, token_id: id(100) }), Ok(()));
    assert_eq!(direct.transfer_token(5, 6, id(100)), Ok(()));
    assert_eq!(
        applied.apply(Call::RequestAuthentication { caller: 9, token_id: id(1), url: vec![47] }),
        Ok(())
    );
    direct.request_authentication(9, id(1), vec![47]);

    assert_eq!(applied.events(), direct.events());
    assert_eq!(applied.events().len(), 4);
    assert_eq!(applied.identities_count(), 1);
    assert_eq!(applied.tokens_count(), 1);
    assert_eq!(applied.owner_of_token(&id(100)), Some(6));
    assert_eq!(applied.owner_of_identity(&id(10)), Some(1));
    assert_eq!(applied.identity_of_token(&id(100)), Some(id(10)));
}

#[test]
fn what_was_minted_stays_through_later_calls() {
    let mut registry: Registry<u64> = Registry::new();
    assert_eq!(registry.register_identity_with_id(1, id(10)), Ok(()));
    assert_eq!(registry.issue_token(id(10), 5, id(100), token(100)), Ok(()));
    let calls = vec![
        Call::RegisterIdentity { owner: 2, id: id(11) },
        Call::IssueToken { issuer: id(11), holder: 5, id: id(101), payload: token(101) },
        Call::TransferToken { caller: 5, to: 7, token_id: id(100) },
        Call::TransferToken { caller: 5, to: 7, token_id: id(100) },
        Call::RegisterIdentity { owner: 3, id: id(10) },
        Call::TransferToken { caller: 7, to: 8, token_id: id(100) },
    ];
    for call in calls {
        let _ = registry.apply(call);
        assert_eq!(registry.identity_by_index(0), Some(id(10)));
        assert_eq!(registry.owner_of_identity(&id(10)), Some(1));
        assert_eq!(registry.token_by_index(0), Some(id(100)));
        assert_eq!(registry.identity_of_token(&id(100)), Some(id(10)));
        assert_eq!(registry.token(&id(100)), Some(token(100)));
    }
    assert_eq!(registry.identities_count(), 2);
    assert_eq!(registry.tokens_count(), 2);
    assert_eq!(registry.owner_of_token(&id(100)), Some(8));
    assert_eq!(registry.events().len(), 6);
}
