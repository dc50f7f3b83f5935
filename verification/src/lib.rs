//! An in-memory account-ledger core.
//!
//! The ledger tracks per-account balances, a global issuance total, a
//! monotonically increasing block counter, and an append-only log of domain
//! events. Every operation is specified by a contract and verified: the
//! issuance total provably equals the sum of all balances after every
//! operation, failed operations provably leave the state untouched, and each
//! successful mutation appends exactly one event.

pub mod ledger;
pub mod sums;
