//! The custody store: one ledger plus one fixed owner credential, with the
//! ungated deposit family and the proof-gated withdrawal family.

use vstd::prelude::*;
use crate::asset::{contains_id, AccessProof, BadgeRef, Bundle, OwnerCredential};
use crate::errors::StoreError;
use crate::ledger::{
    put_fits, put_spec, take_amount_spec, take_instances_spec, HoldingView, Ledger,
};

verus! {

/// The deposit gate: an empty bundle is rejected, a bundle carrying the
/// store's own credential instance is rejected, anything else is accepted.
/// Other instances of the credential's class pass.
pub open spec fn deposit_gate(
    credential: OwnerCredential,
    single_bundle: Bundle,
) -> Result<(), StoreError> {
    if single_bundle.spec_is_empty() {
        Err(StoreError::EmptyBundle)
    } else if single_bundle.spec_class() == credential.class && single_bundle.carries_instance(
        credential.instance,
    ) {
        Err(StoreError::OwnSoulboundToken)
    } else {
        Ok(())
    }
}

/// The attestation check shared by both withdrawal paths: the attestation
/// must name the credential's class and carry its exact instance id.
pub open spec fn access_gate(
    credential: OwnerCredential,
    access_proof: AccessProof,
) -> Result<(), StoreError> {
    if access_proof.class != credential.class {
        Err(StoreError::WrongCredentialClass)
    } else if !access_proof.spec_ids().contains(credential.instance) {
        Err(StoreError::WrongCredentialInstance)
    } else {
        Ok(())
    }
}

/// The effect of a deposit on the ledger: an accepted bundle tops up its
/// class's container; a rejected one changes nothing.
pub open spec fn deposit_outcome(
    credential: OwnerCredential,
    ledger: Map<u64, HoldingView>,
    single_bundle: Bundle,
) -> Result<Map<u64, HoldingView>, StoreError> {
    match deposit_gate(credential, single_bundle) {
        Ok(()) => Ok(put_spec(ledger, single_bundle)),
        Err(e) => Err(e),
    }
}

/// The deposit gate as the executable decision an execution environment asks
/// before it moves any resources.
pub fn check_deposit(credential: &OwnerCredential, single_bundle: &Bundle) -> (r: Result<
    (),
    StoreError,
>)
    ensures
        r == deposit_gate(*credential, *single_bundle),
{
    if single_bundle.is_empty() {
        return Err(StoreError::EmptyBundle);
    }
    if single_bundle.class() == credential.class && single_bundle.contains_instance(
        credential.instance,
    ) {
        return Err(StoreError::OwnSoulboundToken);
    }
    Ok(())
}

/// The attestation check as the executable decision an execution environment
/// asks before it releases any resources.
pub fn check_withdrawal_access(credential: &OwnerCredential, access_proof: &AccessProof) -> (r:
    Result<(), StoreError>)
    ensures
        r == access_gate(*credential, *access_proof),
{
    if access_proof.class != credential.class {
        return Err(StoreError::WrongCredentialClass);
    }
    if !contains_id(&access_proof.ids, credential.instance) {
        return Err(StoreError::WrongCredentialInstance);
    }
    Ok(())
}

/// The effect of a batch deposit: bundles apply in input order; the first
/// rejection stops the batch, leaving the earlier deposits in place (the
/// enclosing unit of work is expected to undo them on abort).
pub open spec fn batch_outcome(
    credential: OwnerCredential,
    ledger: Map<u64, HoldingView>,
    bundles: Seq<Bundle>,
) -> (Map<u64, HoldingView>, Option<StoreError>)
    decreases bundles.len(),
{
    if bundles.len() == 0 {
        (ledger, None)
    } else {
        match deposit_outcome(credential, ledger, bundles[0]) {
            Ok(m) => batch_outcome(credential, m, bundles.drop_first()),
            Err(e) => (ledger, Some(e)),
        }
    }
}

/// Every fungible top-up a batch performs, up to its first rejection, must
/// fit the containers' machine width.
pub open spec fn batch_fits(
    credential: OwnerCredential,
    ledger: Map<u64, HoldingView>,
    bundles: Seq<Bundle>,
) -> bool
    decreases bundles.len(),
{
    bundles.len() == 0 || {
        &&& put_fits(ledger, bundles[0])
        &&& match deposit_outcome(credential, ledger, bundles[0]) {
            Ok(m) => batch_fits(credential, m, bundles.drop_first()),
            Err(_) => true,
        }
    }
}

/// The withdrawal gate for the fungible path, evaluated fresh each call:
/// validate the request, verify the attestation against the owner
/// credential, then debit.
pub open spec fn withdraw_outcome(
    credential: OwnerCredential,
    ledger: Map<u64, HoldingView>,
    class: u64,
    amount: nat,
    access_proof: AccessProof,
) -> Result<Map<u64, HoldingView>, StoreError> {
    if amount == 0 {
        Err(StoreError::NonPositiveAmount)
    } else if !ledger.contains_key(class) {
        Err(StoreError::NoSuchClass)
    } else {
        match access_gate(credential, access_proof) {
            Ok(()) => take_amount_spec(ledger, class, amount),
            Err(e) => Err(e),
        }
    }
}

/// The withdrawal gate for the non-fungible path: validate the request,
/// verify the attestation, then remove the named instances.
pub open spec fn withdraw_non_fungibles_outcome(
    credential: OwnerCredential,
    ledger: Map<u64, HoldingView>,
    class: u64,
    requested: Set<u64>,
    access_proof: AccessProof,
) -> Result<Map<u64, HoldingView>, StoreError> {
    if requested == Set::<u64>::empty() {
        Err(StoreError::EmptyRequest)
    } else if !ledger.contains_key(class) {
        Err(StoreError::NoSuchClass)
    } else {
        match access_gate(credential, access_proof) {
            Ok(()) => take_instances_spec(ledger, class, requested),
            Err(e) => Err(e),
        }
    }
}

/// An owner-bound custody store: anyone can deposit, only the holder of the
/// owner credential can withdraw.
pub struct Soulstore {
    ledger: Ledger,
    global_id: OwnerCredential,
}

impl View for Soulstore {
    type V = Map<u64, HoldingView>;

    closed spec fn view(&self) -> Map<u64, HoldingView> {
        self.ledger@
    }
}

impl Soulstore {
    /// The owner credential this store is bound to.
    pub closed spec fn credential(&self) -> OwnerCredential {
        self.global_id
    }

    /// Create a new, empty store bound to `global_id`. Address allocation and
    /// global registration belong to the execution environment around the
    /// store.
    pub fn instantiate_soulstore(global_id: OwnerCredential) -> (s: Soulstore)
        ensures
            s@ == Map::<u64, HoldingView>::empty(),
            s.credential() == global_id,
    {
        Soulstore { ledger: Ledger::new(), global_id }
    }

    /// Deposit one bundle. Anyone may call; there is no gate beyond the
    /// empty-bundle check and the self-protection rule.
    pub fn deposit(&mut self, single_bundle: Bundle) -> (r: Result<(), StoreError>)
        requires
            put_fits(old(self)@, single_bundle),
        ensures
            final(self).credential() == old(self).credential(),
            match deposit_outcome(old(self).credential(), old(self)@, single_bundle) {
                Ok(m) => r == Ok::<(), StoreError>(()) && final(self)@ == m,
                Err(e) => r == Err::<(), StoreError>(e) && final(self)@ == old(self)@,
            },
    {
        match check_deposit(&self.global_id, &single_bundle) {
            Ok(()) => {
                self.ledger.put(single_bundle);
                Ok(())
            },
            Err(e) => Err(e),
        }
    }

    /// Deposit a sequence of bundles in order. The first bundle that fails
    /// the deposit gate aborts the call; bundles deposited earlier in the
    /// same call stay deposited.
    pub fn deposit_batch(&mut self, bundles: Vec<Bundle>) -> (r: Result<(), StoreError>)
        requires
            batch_fits(old(self).credential(), old(self)@, bundles@),
        ensures
            final(self).credential() == old(self).credential(),
            ({
                let (m, e) = batch_outcome(old(self).credential(), old(self)@, bundles@);
                &&& final(self)@ == m
                &&& r == match e {
                    None => Ok::<(), StoreError>(()),
                    Some(err) => Err::<(), StoreError>(err),
                }
            }),
    {
        let ghost cred = self.global_id;
        let ghost all = bundles@;
        let mut rest = bundles;
        while rest.len() > 0
            invariant
                self.credential() == cred,
                cred == old(self).credential(),
                all == bundles@,
                batch_fits(cred, self@, rest@),
                batch_outcome(cred, old(self)@, all) == batch_outcome(cred, self@, rest@),
            decreases rest.len(),
        {
            let ghost pre = self@;
            let ghost pre_rest = rest@;
            let single_bundle = rest.remove(0);
            proof {
                assert(rest@ =~= pre_rest.drop_first());
                assert(single_bundle == pre_rest[0]);
            }
            match self.deposit(single_bundle) {
                Ok(()) => {},
                Err(e) => {
                    proof {
                        assert(batch_outcome(cred, pre, pre_rest) == (pre, Some(e)));
                    }
                    return Err(e);
                },
            }
        }
        proof {
            assert(rest@.len() == 0);
            assert(batch_outcome(cred, self@, rest@) == (self@, None::<StoreError>));
        }
        Ok(())
    }

    /// Same algorithm as `deposit`. The accessory badge reference is accepted
    /// for call-signature compatibility with wallet-generated transfers and
    /// is never inspected; it has no effect on the outcome.
    pub fn try_deposit_or_abort(
        &mut self,
        single_bundle: Bundle,
        _placeholder_auth: Option<BadgeRef>,
    ) -> (r: Result<(), StoreError>)
        requires
            put_fits(old(self)@, single_bundle),
        ensures
            final(self).credential() == old(self).credential(),
            match deposit_outcome(old(self).credential(), old(self)@, single_bundle) {
                Ok(m) => r == Ok::<(), StoreError>(()) && final(self)@ == m,
                Err(e) => r == Err::<(), StoreError>(e) && final(self)@ == old(self)@,
            },
    {
        self.deposit(single_bundle)
    }

    /// Same algorithm as `deposit`; named for the refund calling convention,
    /// which this store does not distinguish from abort. The accessory badge
    /// reference is never inspected.
    pub fn try_deposit_or_refund(
        &mut self,
        single_bundle: Bundle,
        _placeholder_auth: Option<BadgeRef>,
    ) -> (r: Result<(), StoreError>)
        requires
            put_fits(old(self)@, single_bundle),
        ensures
            final(self).credential() == old(self).credential(),
            match deposit_outcome(old(self).credential(), old(self)@, single_bundle) {
                Ok(m) => r == Ok::<(), StoreError>(()) && final(self)@ == m,
                Err(e) => r == Err::<(), StoreError>(e) && final(self)@ == old(self)@,
            },
    {
        self.deposit(single_bundle)
    }

    /// Same algorithm as `deposit_batch`. The accessory badge reference is
    /// never inspected.
    pub fn try_deposit_batch_or_abort(
        &mut self,
        bundles: Vec<Bundle>,
        _placeholder_auth: Option<BadgeRef>,
    ) -> (r: Result<(), StoreError>)
        requires
            batch_fits(old(self).credential(), old(self)@, bundles@),
        ensures
            final(self).credential() == old(self).credential(),
            ({
                let (m, e) = batch_outcome(old(self).credential(), old(self)@, bundles@);
                &&& final(self)@ == m
                &&& r == match e {
                    None => Ok::<(), StoreError>(()),
                    Some(err) => Err::<(), StoreError>(err),
                }
            }),
    {
        self.deposit_batch(bundles)
    }

    /// Same algorithm as `deposit_batch`; named for the refund calling
    /// convention, which this store does not distinguish from abort. The
    /// accessory badge reference is never inspected.
    pub fn try_deposit_batch_or_refund(
        &mut self,
        bundles: Vec<Bundle>,
        _placeholder_auth: Option<BadgeRef>,
    ) -> (r: Result<(), StoreError>)
        requires
            batch_fits(old(self).credential(), old(self)@, bundles@),
        ensures
            final(self).credential() == old(self).credential(),
            ({
                let (m, e) = batch_outcome(old(self).credential(), old(self)@, bundles@);
                &&& final(self)@ == m
                &&& r == match e {
                    None => Ok::<(), StoreError>(()),
                    Some(err) => Err::<(), StoreError>(err),
                }
            }),
    {
        self.deposit_batch(bundles)
    }

    /// Withdraw `amount` units of the fungible class `class`. The attestation
    /// must name this store's owner credential: its class and its exact
    /// instance id. On success the returned bundle carries exactly `amount`
    /// units of `class` and the container is debited by the same amount.
    pub fn withdraw(&mut self, class: u64, amount: u128, access_proof: &AccessProof) -> (r: Result<
        Bundle,
        StoreError,
    >)
        ensures
            final(self).credential() == old(self).credential(),
            match withdraw_outcome(
                old(self).credential(),
                old(self)@,
                class,
                amount as nat,
                *access_proof,
            ) {
                Ok(m) => final(self)@ == m && r == Ok::<Bundle, StoreError>(
                    Bundle::Fungible { class, amount },
                ),
                Err(e) => final(self)@ == old(self)@ && r == Err::<Bundle, StoreError>(e),
            },
    {
        if amount == 0 {
            return Err(StoreError::NonPositiveAmount);
        }
        if !self.ledger.contains_class(class) {
            return Err(StoreError::NoSuchClass);
        }
        match check_withdrawal_access(&self.global_id, access_proof) {
            Ok(()) => self.ledger.take_amount(class, amount),
            Err(e) => Err(e),
        }
    }

    /// Withdraw exactly the named non-fungible instances of `class`. The
    /// request must name at least one instance, and the attestation must name
    /// this store's owner credential. Duplicates among the requested ids have
    /// no extra effect.
    pub fn withdraw_non_fungibles(
        &mut self,
        class: u64,
        non_fungible_local_ids: &Vec<u64>,
        access_proof: &AccessProof,
    ) -> (r: Result<Bundle, StoreError>)
        ensures
            final(self).credential() == old(self).credential(),
            match withdraw_non_fungibles_outcome(
                old(self).credential(),
                old(self)@,
                class,
                non_fungible_local_ids@.to_set(),
                *access_proof,
            ) {
                Ok(m) => final(self)@ == m && (r matches Ok(b) && (b matches Bundle::NonFungible {
                    ..
                }) && b.spec_class() == class && b.spec_ids() == non_fungible_local_ids@.to_set()),
                Err(e) => final(self)@ == old(self)@ && r == Err::<Bundle, StoreError>(e),
            },
    {
        if non_fungible_local_ids.len() == 0 {
            proof {
                assert(non_fungible_local_ids@.to_set() =~= Set::<u64>::empty());
            }
            return Err(StoreError::EmptyRequest);
        }
        proof {
            assert(non_fungible_local_ids@.contains(non_fungible_local_ids@[0])) by {
                assert(non_fungible_local_ids@[0] == non_fungible_local_ids@[0]);
            }
            assert(non_fungible_local_ids@.to_set() != Set::<u64>::empty()) by {
                assert(non_fungible_local_ids@.to_set().contains(non_fungible_local_ids@[0]));
                assert(!Set::<u64>::empty().contains(non_fungible_local_ids@[0]));
            }
        }
        if !self.ledger.contains_class(class) {
            return Err(StoreError::NoSuchClass);
        }
        match check_withdrawal_access(&self.global_id, access_proof) {
            Ok(()) => self.ledger.take_instances(class, non_fungible_local_ids),
            Err(e) => Err(e),
        }
    }

    /// The owner credential this store is bound to.
    pub fn owner_credential(&self) -> (g: OwnerCredential)
        ensures
            g == self.credential(),
    {
        self.global_id
    }

    /// Whether a container exists for `class` (a drained container still
    /// counts: it stays as a placeholder).
    pub fn has_class(&self, class: u64) -> (r: bool)
        ensures
            r == self@.contains_key(class),
    {
        self.ledger.contains_class(class)
    }

    /// The fungible quantity held for `class`, or `None` where no container
    /// exists.
    pub fn balance_of(&self, class: u64) -> (r: Option<u128>)
        ensures
            match r {
                Some(a) => self@.contains_key(class) && a as nat == self@[class].amount,
                None => !self@.contains_key(class),
            },
    {
        self.ledger.amount_of(class)
    }

    /// The non-fungible instance ids held for `class`, or `None` where no
    /// container exists.
    pub fn instances_of(&self, class: u64) -> (r: Option<Vec<u64>>)
        ensures
            match r {
                Some(v) => self@.contains_key(class) && v@.to_set() == self@[class].ids,
                None => !self@.contains_key(class),
            },
    {
        self.ledger.instances_of(class)
    }
}

} // verus!
