//! The failure conditions that store and registry operations surface.

use vstd::prelude::*;

verus! {

/// Every way a store operation can fail. Each failure aborts the whole
/// operation and is reported as a distinct, named condition; nothing is
/// retried internally.
#[derive(Clone, Copy, Debug, PartialEq, Eq, Structural)]
pub enum StoreError {
    /// A deposited bundle carried zero units.
    EmptyBundle,
    /// A non-fungible withdrawal requested zero instance ids.
    EmptyRequest,
    /// The deposited bundle contained the store's own credential instance.
    OwnSoulboundToken,
    /// The named asset class has no ledger entry.
    NoSuchClass,
    /// A fungible withdrawal asked for a non-positive amount.
    NonPositiveAmount,
    /// The attestation names a different asset class than the credential's.
    WrongCredentialClass,
    /// The attestation does not include the credential's instance id.
    WrongCredentialInstance,
    /// A fungible debit exceeded the held quantity.
    InsufficientBalance,
    /// A requested non-fungible instance is not currently held.
    MissingInstance,
}

/// Every way a registry operation can fail.
#[derive(Clone, Copy, Debug, PartialEq, Eq, Structural)]
pub enum RegistryError {
    /// A store for this credential is already registered.
    StoreAlreadyExists,
}

} // verus!
