//! A device registry with a per-device, append-only energy ledger.
//!
//! An administrator onboards and removes metering devices; each registered
//! device records energy readings under its own identity, indexed by a
//! per-device sequence number.
pub mod laws;
pub mod pallet;
pub mod types;
