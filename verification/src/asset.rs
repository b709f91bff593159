//! Plain-value identifiers and moved values: asset classes, bundles, the
//! owner credential, and caller-presented attestations.

use vstd::prelude::*;

verus! {

/// Names one specific instance of one asset class: the unique token whose
/// holder owns a custody store. Fixed at store creation; immutable after.
#[derive(Clone, Copy, Debug, PartialEq, Eq, Structural)]
pub struct OwnerCredential {
    /// The credential's own asset class.
    pub class: u64,
    /// The unique instance id within that class.
    pub instance: u64,
}

/// A quantity of a single asset class moved in one operation: either a scalar
/// amount of a fungible class or a collection of unique instance ids of a
/// non-fungible class. Empty bundles are representable, but every entry point
/// of the store rejects them.
#[derive(Debug, PartialEq, Eq)]
pub enum Bundle {
    Fungible { class: u64, amount: u128 },
    NonFungible { class: u64, ids: Vec<u64> },
}

/// A reference to a resource, or to one specific instance of one, of the kind
/// wallets attach to deposit calls. Accepted for call-signature compatibility
/// only; the store never inspects it.
#[derive(Clone, Copy, Debug, PartialEq, Eq, Structural)]
pub enum BadgeRef {
    Resource { class: u64 },
    Instance { class: u64, instance: u64 },
}

/// A caller-presented attestation of holding specific instances of a specific
/// asset class at the moment of the call. The store verifies it against the
/// owner credential within a single operation and never keeps it.
#[derive(Debug, PartialEq, Eq)]
pub struct AccessProof {
    /// The asset class the attestation speaks of.
    pub class: u64,
    /// The instance ids attested as held.
    pub ids: Vec<u64>,
}

impl Bundle {
    /// The asset class this bundle belongs to.
    pub open spec fn spec_class(&self) -> u64 {
        match self {
            Bundle::Fungible { class, .. } => *class,
            Bundle::NonFungible { class, .. } => *class,
        }
    }

    /// Whether the bundle carries zero units.
    pub open spec fn spec_is_empty(&self) -> bool {
        match self {
            Bundle::Fungible { amount, .. } => *amount == 0,
            Bundle::NonFungible { ids, .. } => ids@.len() == 0,
        }
    }

    /// The scalar amount carried (zero for a non-fungible bundle).
    pub open spec fn spec_amount(&self) -> nat {
        match self {
            Bundle::Fungible { amount, .. } => *amount as nat,
            Bundle::NonFungible { .. } => 0,
        }
    }

    /// The set of unique instance ids carried (empty for a fungible bundle).
    pub open spec fn spec_ids(&self) -> Set<u64> {
        match self {
            Bundle::Fungible { .. } => Set::empty(),
            Bundle::NonFungible { ids, .. } => ids@.to_set(),
        }
    }

    /// Whether the bundle carries the given unique instance.
    pub open spec fn carries_instance(&self, instance: u64) -> bool {
        self.spec_ids().contains(instance)
    }

    /// The asset class this bundle belongs to.
    pub fn class(&self) -> (c: u64)
        ensures
            c == self.spec_class(),
    {
        match self {
            Bundle::Fungible { class, .. } => *class,
            Bundle::NonFungible { class, .. } => *class,
        }
    }

    /// Whether the bundle carries zero units.
    pub fn is_empty(&self) -> (r: bool)
        ensures
            r == self.spec_is_empty(),
    {
        match self {
            Bundle::Fungible { amount, .. } => *amount == 0,
            Bundle::NonFungible { ids, .. } => ids.len() == 0,
        }
    }

    /// Whether the bundle carries the given unique instance.
    pub fn contains_instance(&self, instance: u64) -> (r: bool)
        ensures
            r == self.carries_instance(instance),
    {
        match self {
            Bundle::Fungible { .. } => false,
            Bundle::NonFungible { ids, .. } => contains_id(ids, instance),
        }
    }
}

impl AccessProof {
    /// The set of instance ids the attestation speaks of.
    pub open spec fn spec_ids(&self) -> Set<u64> {
        self.ids@.to_set()
    }

    /// Whether the attestation names the given credential: the credential's
    /// own class, and its exact instance id among the attested ids.
    pub open spec fn names_credential(&self, credential: OwnerCredential) -> bool {
        self.class == credential.class && self.spec_ids().contains(credential.instance)
    }
}

/// Whether `ids` holds the id `x`.
pub fn contains_id(ids: &Vec<u64>, x: u64) -> (r: bool)
    ensures
        r == ids@.contains(x),
{
    let mut i: usize = 0;
    while i < ids.len()
        invariant
            i <= ids.len(),
            forall|j: int| 0 <= j < i ==> ids@[j] != x,
        decreases ids.len() - i,
    {
        if ids[i] == x {
            return true;
        }
        i += 1;
    }
    false
}

} // verus!
