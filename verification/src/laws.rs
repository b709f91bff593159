//! Laws the store obeys, stated across operations and proved from the
//! operation outcomes that the methods' contracts are written over.
//!
//! Each law speaks of `deposit_outcome`, `withdraw_outcome`,
//! `withdraw_non_fungibles_outcome` and `put_spec`: the exact functions the
//! executable methods are proved to implement, so each law carries over to
//! the methods themselves. Where a law ends in a rejection, the methods'
//! contracts add that a rejected call leaves the ledger unchanged.

use vstd::prelude::*;
use crate::asset::{AccessProof, Bundle, OwnerCredential};
use crate::errors::StoreError;
use crate::ledger::{holding_or_empty, HoldingView};
use crate::store::{deposit_outcome, withdraw_non_fungibles_outcome, withdraw_outcome};

verus! {

/// Law: deposit, then withdraw by the owner. For any non-empty fungible
/// bundle of a class other than the credential's, a deposit succeeds, and a
/// same-class withdrawal with a correct attestation of any positive amount
/// no greater than the deposited amount succeeds too, debiting the container
/// by exactly that amount and touching no other class.
pub proof fn lemma_deposit_then_withdraw(
    credential: OwnerCredential,
    ledger: Map<u64, HoldingView>,
    single_bundle: Bundle,
    amount: nat,
    access_proof: AccessProof,
)
    requires
        single_bundle matches Bundle::Fungible { .. },
        !single_bundle.spec_is_empty(),
        single_bundle.spec_class() != credential.class,
        0 < amount <= single_bundle.spec_amount(),
        access_proof.names_credential(credential),
    ensures
        ({
            let class = single_bundle.spec_class();
            let dep = deposit_outcome(credential, ledger, single_bundle);
            &&& dep is Ok
            &&& {
                let w = withdraw_outcome(credential, dep->Ok_0, class, amount, access_proof);
                &&& w is Ok
                &&& w->Ok_0 == dep->Ok_0.insert(
                    class,
                    HoldingView {
                        amount: (dep->Ok_0[class].amount - amount) as nat,
                        ids: dep->Ok_0[class].ids,
                    },
                )
                &&& w->Ok_0[class].amount == dep->Ok_0[class].amount - amount
            }
        }),
{
    let class = single_bundle.spec_class();
    let dep = deposit_outcome(credential, ledger, single_bundle);
    assert(dep is Ok);
    assert(dep->Ok_0.contains_key(class));
    assert(dep->Ok_0[class].amount >= amount);
}

/// Law: deposit, then withdraw by the owner, on the non-fungible path. For
/// any non-empty non-fungible bundle of a class other than the credential's,
/// a deposit succeeds, and a same-class withdrawal of exactly the deposited
/// instances with a correct attestation succeeds too, removing exactly those
/// instances from the container.
pub proof fn lemma_deposit_then_withdraw_non_fungibles(
    credential: OwnerCredential,
    ledger: Map<u64, HoldingView>,
    single_bundle: Bundle,
    access_proof: AccessProof,
)
    requires
        single_bundle matches Bundle::NonFungible { .. },
        !single_bundle.spec_is_empty(),
        single_bundle.spec_class() != credential.class,
        access_proof.names_credential(credential),
    ensures
        ({
            let class = single_bundle.spec_class();
            let dep = deposit_outcome(credential, ledger, single_bundle);
            &&& dep is Ok
            &&& {
                let w = withdraw_non_fungibles_outcome(
                    credential,
                    dep->Ok_0,
                    class,
                    single_bundle.spec_ids(),
                    access_proof,
                );
                &&& w is Ok
                &&& w->Ok_0[class].ids == dep->Ok_0[class].ids.difference(single_bundle.spec_ids())
            }
        }),
{
    let class = single_bundle.spec_class();
    match single_bundle {
        Bundle::NonFungible { ids, .. } => {
            assert(ids@.contains(ids@[0])) by {
                assert(0 < ids@.len());
            }
            assert(single_bundle.spec_ids().contains(ids@[0]));
            assert(single_bundle.spec_ids() != Set::<u64>::empty());
        },
        Bundle::Fungible { .. } => {
            assert(false);
        },
    }
    let dep = deposit_outcome(credential, ledger, single_bundle);
    assert(dep->Ok_0.contains_key(class));
    assert(single_bundle.spec_ids().subset_of(dep->Ok_0[class].ids));
}

/// Law: a deposit of an empty bundle is always rejected as EmptyBundle,
/// whatever the ledger and the credential; the deposit contract then leaves
/// the ledger unchanged.
pub proof fn lemma_deposit_empty_rejected(
    credential: OwnerCredential,
    ledger: Map<u64, HoldingView>,
    single_bundle: Bundle,
)
    requires
        single_bundle.spec_is_empty(),
    ensures
        deposit_outcome(credential, ledger, single_bundle) == Err::<
            Map<u64, HoldingView>,
            StoreError,
        >(StoreError::EmptyBundle),
{
}

/// Law, first half: a deposit of a bundle of the credential's class that
/// carries the exact credential instance is always rejected as
/// OwnSoulboundToken (such a bundle is necessarily non-empty).
pub proof fn lemma_deposit_own_credential_rejected(
    credential: OwnerCredential,
    ledger: Map<u64, HoldingView>,
    single_bundle: Bundle,
)
    requires
        single_bundle.spec_class() == credential.class,
        single_bundle.carries_instance(credential.instance),
    ensures
        deposit_outcome(credential, ledger, single_bundle) == Err::<
            Map<u64, HoldingView>,
            StoreError,
        >(StoreError::OwnSoulboundToken),
{
    assert(!single_bundle.spec_is_empty()) by {
        match single_bundle {
            Bundle::NonFungible { ids, .. } => {
                assert(ids@.contains(credential.instance));
                let i = choose|i: int| 0 <= i < ids@.len() && ids@[i] == credential.instance;
                assert(ids@.len() > 0);
            },
            Bundle::Fungible { .. } => {
                assert(!Set::<u64>::empty().contains(credential.instance));
            },
        }
    }
}

/// Law, second half: a non-empty bundle of the credential's class that does
/// not carry the credential's instance is accepted and deposited like any
/// other bundle.
pub proof fn lemma_deposit_other_instance_accepted(
    credential: OwnerCredential,
    ledger: Map<u64, HoldingView>,
    single_bundle: Bundle,
)
    requires
        !single_bundle.spec_is_empty(),
        single_bundle.spec_class() == credential.class,
        !single_bundle.carries_instance(credential.instance),
    ensures
        deposit_outcome(credential, ledger, single_bundle) == Ok::<
            Map<u64, HoldingView>,
            StoreError,
        >(crate::ledger::put_spec(ledger, single_bundle)),
{
}

/// Law: a fungible withdrawal whose attestation names the credential's class
/// but a different instance is always rejected as WrongCredentialInstance;
/// the withdraw contract then leaves the ledger unchanged.
pub proof fn lemma_withdraw_wrong_instance_rejected(
    credential: OwnerCredential,
    ledger: Map<u64, HoldingView>,
    class: u64,
    amount: nat,
    access_proof: AccessProof,
)
    requires
        amount > 0,
        ledger.contains_key(class),
        access_proof.class == credential.class,
        !access_proof.spec_ids().contains(credential.instance),
    ensures
        withdraw_outcome(credential, ledger, class, amount, access_proof) == Err::<
            Map<u64, HoldingView>,
            StoreError,
        >(StoreError::WrongCredentialInstance),
{
}

/// Law: a non-fungible withdrawal whose attestation names the credential's
/// class but a different instance is always rejected as
/// WrongCredentialInstance; the contract then leaves the ledger unchanged.
pub proof fn lemma_withdraw_non_fungibles_wrong_instance_rejected(
    credential: OwnerCredential,
    ledger: Map<u64, HoldingView>,
    class: u64,
    requested: Set<u64>,
    access_proof: AccessProof,
)
    requires
        requested != Set::<u64>::empty(),
        ledger.contains_key(class),
        access_proof.class == credential.class,
        !access_proof.spec_ids().contains(credential.instance),
    ensures
        withdraw_non_fungibles_outcome(credential, ledger, class, requested, access_proof)
            == Err::<Map<u64, HoldingView>, StoreError>(StoreError::WrongCredentialInstance),
{
}

/// Law: a fungible withdrawal of more than the held quantity is rejected as
/// InsufficientBalance, even with a correct attestation; the withdraw
/// contract then leaves the balance unchanged.
pub proof fn lemma_withdraw_insufficient_rejected(
    credential: OwnerCredential,
    ledger: Map<u64, HoldingView>,
    class: u64,
    amount: nat,
    access_proof: AccessProof,
)
    requires
        ledger.contains_key(class),
        amount > ledger[class].amount,
        access_proof.names_credential(credential),
    ensures
        withdraw_outcome(credential, ledger, class, amount, access_proof) == Err::<
            Map<u64, HoldingView>,
            StoreError,
        >(StoreError::InsufficientBalance),
{
}

/// Law: class creation is idempotent. Depositing two fungible bundles of one
/// class tops up a single container — afterwards that container holds the
/// prior quantity plus both amounts, and the ledger's key set has grown by
/// at most that one class.
pub proof fn lemma_deposit_twice_one_container(
    credential: OwnerCredential,
    ledger: Map<u64, HoldingView>,
    first_bundle: Bundle,
    second_bundle: Bundle,
)
    requires
        first_bundle matches Bundle::Fungible { .. },
        second_bundle matches Bundle::Fungible { .. },
        !first_bundle.spec_is_empty(),
        !second_bundle.spec_is_empty(),
        first_bundle.spec_class() == second_bundle.spec_class(),
        first_bundle.spec_class() != credential.class,
    ensures
        ({
            let class = first_bundle.spec_class();
            let dep1 = deposit_outcome(credential, ledger, first_bundle);
            &&& dep1 is Ok
            &&& {
                let dep2 = deposit_outcome(credential, dep1->Ok_0, second_bundle);
                &&& dep2 is Ok
                &&& dep2->Ok_0[class].amount == holding_or_empty(ledger, class).amount
                    + first_bundle.spec_amount() + second_bundle.spec_amount()
                &&& dep2->Ok_0.dom() == ledger.dom().insert(class)
            }
        }),
{
    let class = first_bundle.spec_class();
    let dep1 = deposit_outcome(credential, ledger, first_bundle);
    let dep2 = deposit_outcome(credential, dep1->Ok_0, second_bundle);
    assert(dep2->Ok_0.dom() =~= ledger.dom().insert(class));
}

} // verus!

