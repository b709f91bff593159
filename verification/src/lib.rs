//! An owner-bound multi-asset custody store.
//!
//! A store is a deposit box: anyone may put asset bundles in, but only the
//! holder of the store's single owner credential — one specific instance of
//! one asset class — may take assets out. The store keeps a per-class ledger,
//! tops containers up on repeated deposits, refuses to swallow its own
//! credential token, and releases assets only against an attestation that
//! names the exact owner credential.
//!
//! The execution environment around the store (address allocation, global
//! registration, the attestation mechanics themselves) is out of scope here:
//! classes, instances and addresses appear as plain identifiers.

pub mod asset;
pub mod errors;
pub mod laws;
pub mod ledger;
pub mod registry;
pub mod store;
