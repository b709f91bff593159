use soulstore::asset::{AccessProof, BadgeRef, Bundle, OwnerCredential};
use soulstore::errors::StoreError;
use soulstore::store::{check_deposit, check_withdrawal_access, Soulstore};

const SOUL: u64 = 100;
const KEY_INSTANCE: u64 = 42;
const FOO: u64 = 1;
const BAR: u64 = 2;

fn new_store() -> Soulstore {
    Soulstore::instantiate_soulstore(OwnerCredential { class: SOUL, instance: KEY_INSTANCE })
}

fn owner_proof() -> AccessProof {
    AccessProof { class: SOUL, ids: vec![KEY_INSTANCE] }
}

fn sorted(mut v: Vec<u64>) -> Vec<u64> {
    v.sort();
    v
}

#[test]
fn fungible_deposit_then_two_withdrawals() {
    let mut store = new_store();
    assert_eq!(store.deposit(Bundle::Fungible { class: FOO, amount: 100 }), Ok(()));
    assert_eq!(store.balance_of(FOO), Some(100));

    let taken = store.withdraw(FOO, 30, &owner_proof());
    assert_eq!(taken, Ok(Bundle::Fungible { class: FOO, amount: 30 }));
    assert_eq!(store.balance_of(FOO), Some(70));

    let refused = store.withdraw(FOO, 71, &owner_proof());
    assert_eq!(refused, Err(StoreError::InsufficientBalance));
    assert_eq!(store.balance_of(FOO), Some(70));
}

#[test]
fn non_fungible_deposit_then_withdrawals() {
    let mut store = new_store();
    assert_eq!(store.deposit(Bundle::NonFungible { class: BAR, ids: vec![1, 2, 3] }), Ok(()));
    assert_eq!(sorted(store.instances_of(BAR).unwrap()), vec![1, 2, 3]);

    let taken = store.withdraw_non_fungibles(BAR, &vec![2], &owner_proof());
    assert_eq!(taken, Ok(Bundle::NonFungible { class: BAR, ids: vec![2] }));
    assert_eq!(sorted(store.instances_of(BAR).unwrap()), vec![1, 3]);

    let refused = store.withdraw_non_fungibles(BAR, &vec![2], &owner_proof());
    assert_eq!(refused, Err(StoreError::MissingInstance));
    assert_eq!(sorted(store.instances_of(BAR).unwrap()), vec![1, 3]);
}

#[test]
fn own_credential_instance_is_refused_other_instance_accepted() {
    let mut store = new_store();
    let own = Bundle::NonFungible { class: SOUL, ids: vec![KEY_INSTANCE] };
    assert_eq!(store.deposit(own), Err(StoreError::OwnSoulboundToken));
    assert!(store.instances_of(SOUL).is_none());

    let other = Bundle::NonFungible { class: SOUL, ids: vec![7] };
    assert_eq!(store.deposit(other), Ok(()));
    assert_eq!(sorted(store.instances_of(SOUL).unwrap()), vec![7]);
}

#[test]
fn own_credential_hidden_in_larger_bundle_is_refused() {
    let mut store = new_store();
    let mixed = Bundle::NonFungible { class: SOUL, ids: vec![7, KEY_INSTANCE, 9] };
    assert_eq!(store.deposit(mixed), Err(StoreError::OwnSoulboundToken));
    assert!(store.instances_of(SOUL).is_none());
}

#[test]
fn empty_bundles_are_refused() {
    let mut store = new_store();
    assert_eq!(
        store.deposit(Bundle::Fungible { class: FOO, amount: 0 }),
        Err(StoreError::EmptyBundle)
    );
    assert_eq!(
        store.deposit(Bundle::NonFungible { class: BAR, ids: vec![] }),
        Err(StoreError::EmptyBundle)
    );
    assert!(store.balance_of(FOO).is_none());
    assert!(store.instances_of(BAR).is_none());
}

#[test]
fn deposit_of_full_exact_balance_leaves_placeholder_container() {
    let mut store = new_store();
    assert_eq!(store.deposit(Bundle::Fungible { class: FOO, amount: 50 }), Ok(()));
    assert_eq!(
        store.withdraw(FOO, 50, &owner_proof()),
        Ok(Bundle::Fungible { class: FOO, amount: 50 })
    );
    // The drained container stays: a zero balance, not NoSuchClass.
    assert!(store.has_class(FOO));
    assert_eq!(store.balance_of(FOO), Some(0));
    assert_eq!(store.withdraw(FOO, 1, &owner_proof()), Err(StoreError::InsufficientBalance));
}

#[test]
fn two_deposits_top_up_one_container() {
    let mut store = new_store();
    assert_eq!(store.deposit(Bundle::Fungible { class: FOO, amount: 30 }), Ok(()));
    assert_eq!(store.deposit(Bundle::Fungible { class: FOO, amount: 40 }), Ok(()));
    assert_eq!(store.balance_of(FOO), Some(70));
}

#[test]
fn withdraw_request_validation_and_proof_checks() {
    let mut store = new_store();
    assert_eq!(store.deposit(Bundle::Fungible { class: FOO, amount: 10 }), Ok(()));

    // Request validation comes before proof verification.
    assert_eq!(store.withdraw(FOO, 0, &owner_proof()), Err(StoreError::NonPositiveAmount));
    assert_eq!(store.withdraw(BAR, 5, &owner_proof()), Err(StoreError::NoSuchClass));

    let wrong_class = AccessProof { class: SOUL + 1, ids: vec![KEY_INSTANCE] };
    assert_eq!(store.withdraw(FOO, 5, &wrong_class), Err(StoreError::WrongCredentialClass));

    let wrong_instance = AccessProof { class: SOUL, ids: vec![KEY_INSTANCE + 1] };
    assert_eq!(store.withdraw(FOO, 5, &wrong_instance), Err(StoreError::WrongCredentialInstance));

    // Nothing was debited by any refused call.
    assert_eq!(store.balance_of(FOO), Some(10));
}

#[test]
fn withdraw_non_fungibles_validation_and_proof_checks() {
    let mut store = new_store();
    assert_eq!(store.deposit(Bundle::NonFungible { class: BAR, ids: vec![5, 6] }), Ok(()));

    assert_eq!(
        store.withdraw_non_fungibles(BAR, &vec![], &owner_proof()),
        Err(StoreError::EmptyRequest)
    );
    assert_eq!(
        store.withdraw_non_fungibles(FOO, &vec![5], &owner_proof()),
        Err(StoreError::NoSuchClass)
    );

    let wrong_class = AccessProof { class: SOUL + 1, ids: vec![KEY_INSTANCE] };
    assert_eq!(
        store.withdraw_non_fungibles(BAR, &vec![5], &wrong_class),
        Err(StoreError::WrongCredentialClass)
    );

    let wrong_instance = AccessProof { class: SOUL, ids: vec![KEY_INSTANCE + 1] };
    assert_eq!(
        store.withdraw_non_fungibles(BAR, &vec![5], &wrong_instance),
        Err(StoreError::WrongCredentialInstance)
    );

    assert_eq!(sorted(store.instances_of(BAR).unwrap()), vec![5, 6]);
}

#[test]
fn withdraw_non_fungibles_ignores_duplicate_requests() {
    let mut store = new_store();
    assert_eq!(store.deposit(Bundle::NonFungible { class: BAR, ids: vec![1, 2] }), Ok(()));
    let taken = store.withdraw_non_fungibles(BAR, &vec![2, 2, 2], &owner_proof()).unwrap();
    match taken {
        Bundle::NonFungible { class, ids } => {
            assert_eq!(class, BAR);
            assert_eq!(sorted(ids), vec![2]);
        }
        Bundle::Fungible { .. } => panic!("expected a non-fungible bundle"),
    }
    assert_eq!(sorted(store.instances_of(BAR).unwrap()), vec![1]);
}

#[test]
fn a_proof_attesting_more_than_the_credential_still_passes() {
    let mut store = new_store();
    assert_eq!(store.deposit(Bundle::Fungible { class: FOO, amount: 8 }), Ok(()));
    let broad = AccessProof { class: SOUL, ids: vec![7, KEY_INSTANCE, 9] };
    assert_eq!(store.withdraw(FOO, 8, &broad), Ok(Bundle::Fungible { class: FOO, amount: 8 }));
}

#[test]
fn deposit_batch_applies_in_order() {
    let mut store = new_store();
    let bundles = vec![
        Bundle::Fungible { class: FOO, amount: 10 },
        Bundle::NonFungible { class: BAR, ids: vec![4] },
        Bundle::Fungible { class: FOO, amount: 5 },
    ];
    assert_eq!(store.deposit_batch(bundles), Ok(()));
    assert_eq!(store.balance_of(FOO), Some(15));
    assert_eq!(sorted(store.instances_of(BAR).unwrap()), vec![4]);
}

#[test]
fn deposit_batch_stops_at_first_rejection_keeping_earlier_deposits() {
    let mut store = new_store();
    let bundles = vec![
        Bundle::Fungible { class: FOO, amount: 10 },
        Bundle::Fungible { class: BAR, amount: 0 },
        Bundle::Fungible { class: FOO, amount: 100 },
    ];
    assert_eq!(store.deposit_batch(bundles), Err(StoreError::EmptyBundle));
    // The first bundle stays deposited; the third was never reached.
    assert_eq!(store.balance_of(FOO), Some(10));
    assert!(store.balance_of(BAR).is_none());
}

#[test]
fn deposit_batch_rejects_own_credential_mid_batch() {
    let mut store = new_store();
    let bundles = vec![
        Bundle::NonFungible { class: SOUL, ids: vec![7] },
        Bundle::NonFungible { class: SOUL, ids: vec![KEY_INSTANCE] },
    ];
    assert_eq!(store.deposit_batch(bundles), Err(StoreError::OwnSoulboundToken));
    assert_eq!(sorted(store.instances_of(SOUL).unwrap()), vec![7]);
}

#[test]
fn try_deposit_variants_ignore_the_accessory() {
    let mut store = new_store();
    assert_eq!(
        store.try_deposit_or_abort(Bundle::Fungible { class: FOO, amount: 1 }, None),
        Ok(())
    );
    assert_eq!(
        store.try_deposit_or_refund(
            Bundle::Fungible { class: FOO, amount: 2 },
            Some(BadgeRef::Resource { class: 77 }),
        ),
        Ok(())
    );
    assert_eq!(
        store.try_deposit_or_abort(
            Bundle::Fungible { class: FOO, amount: 0 },
            Some(BadgeRef::Instance { class: 77, instance: 3 }),
        ),
        Err(StoreError::EmptyBundle)
    );
    assert_eq!(store.balance_of(FOO), Some(3));
}

#[test]
fn try_deposit_batch_variants_match_the_plain_batch() {
    let mut store = new_store();
    assert_eq!(
        store.try_deposit_batch_or_abort(
            vec![Bundle::Fungible { class: FOO, amount: 4 }],
            Some(BadgeRef::Resource { class: 77 }),
        ),
        Ok(())
    );
    assert_eq!(
        store.try_deposit_batch_or_refund(
            vec![
                Bundle::Fungible { class: FOO, amount: 6 },
                Bundle::NonFungible { class: SOUL, ids: vec![KEY_INSTANCE] },
            ],
            None,
        ),
        Err(StoreError::OwnSoulboundToken)
    );
    assert_eq!(store.balance_of(FOO), Some(10));
}

#[test]
fn owner_credential_is_fixed() {
    let store = new_store();
    let credential = store.owner_credential();
    assert_eq!(credential, OwnerCredential { class: SOUL, instance: KEY_INSTANCE });
}

#[test]
fn gate_decisions_match_the_store_operations() {
    let credential = OwnerCredential { class: SOUL, instance: KEY_INSTANCE };
    assert_eq!(check_deposit(&credential, &Bundle::Fungible { class: FOO, amount: 1 }), Ok(()));
    assert_eq!(
        check_deposit(&credential, &Bundle::Fungible { class: FOO, amount: 0 }),
        Err(StoreError::EmptyBundle)
    );
    assert_eq!(
        check_deposit(&credential, &Bundle::NonFungible { class: SOUL, ids: vec![KEY_INSTANCE] }),
        Err(StoreError::OwnSoulboundToken)
    );
    assert_eq!(
        check_deposit(&credential, &Bundle::NonFungible { class: SOUL, ids: vec![7] }),
        Ok(())
    );
    assert_eq!(
        check_withdrawal_access(&credential, &AccessProof { class: SOUL, ids: vec![KEY_INSTANCE] }),
        Ok(())
    );
    assert_eq!(
        check_withdrawal_access(
            &credential,
            &AccessProof { class: SOUL + 1, ids: vec![KEY_INSTANCE] },
        ),
        Err(StoreError::WrongCredentialClass)
    );
    assert_eq!(
        check_withdrawal_access(&credential, &AccessProof { class: SOUL, ids: vec![7] }),
        Err(StoreError::WrongCredentialInstance)
    );
}
