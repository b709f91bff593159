use soulstore::asset::{AccessProof, Bundle, OwnerCredential};
use soulstore::errors::RegistryError;
use soulstore::registry::Soulapi;

const ADMIN: u64 = 900;
const DAPP: u64 = 901;

#[test]
fn a_fresh_registry_is_empty() {
    let api = Soulapi::instantiate_soul_api(ADMIN, DAPP);
    assert_eq!(api.soulstore_count(), 0);
    assert!(api.lookup(OwnerCredential { class: 1, instance: 1 }).is_none());
}

#[test]
fn create_records_the_store_and_counts_it() {
    let mut api = Soulapi::instantiate_soul_api(ADMIN, DAPP);
    let credential = OwnerCredential { class: 5, instance: 42 };
    let store = api.create_soulstore(credential, 1001).unwrap();
    assert_eq!(store.owner_credential(), credential);
    assert!(store.balance_of(7).is_none());
    assert_eq!(api.lookup(credential), Some(1001));
    assert_eq!(api.soulstore_count(), 1);
}

#[test]
fn a_second_store_for_the_same_credential_is_refused() {
    let mut api = Soulapi::instantiate_soul_api(ADMIN, DAPP);
    let credential = OwnerCredential { class: 5, instance: 42 };
    assert!(api.create_soulstore(credential, 1001).is_ok());
    assert_eq!(
        api.create_soulstore(credential, 1002).err(),
        Some(RegistryError::StoreAlreadyExists)
    );
    assert_eq!(api.lookup(credential), Some(1001));
    assert_eq!(api.soulstore_count(), 1);
}

#[test]
fn distinct_credentials_get_distinct_stores() {
    let mut api = Soulapi::instantiate_soul_api(ADMIN, DAPP);
    let first = OwnerCredential { class: 5, instance: 1 };
    let second = OwnerCredential { class: 5, instance: 2 };
    assert!(api.create_soulstore(first, 1001).is_ok());
    assert!(api.create_soulstore(second, 1002).is_ok());
    assert_eq!(api.lookup(first), Some(1001));
    assert_eq!(api.lookup(second), Some(1002));
    assert_eq!(api.soulstore_count(), 2);
}

#[test]
fn a_created_store_accepts_deposits_and_owner_withdrawals() {
    let mut api = Soulapi::instantiate_soul_api(ADMIN, DAPP);
    let credential = OwnerCredential { class: 5, instance: 42 };
    let mut store = api.create_soulstore(credential, 1001).unwrap();
    assert_eq!(store.deposit(Bundle::Fungible { class: 9, amount: 20 }), Ok(()));
    let access_proof = AccessProof { class: 5, ids: vec![42] };
    assert_eq!(
        store.withdraw(9, 20, &access_proof),
        Ok(Bundle::Fungible { class: 9, amount: 20 })
    );
    assert_eq!(store.balance_of(9), Some(0));
}
