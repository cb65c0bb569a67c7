//! Ledger-side registry and accounting core for a cross-chain
//! account-management module.
//!
//! The crate keeps, for a set of connections and controllers, which
//! interchain account exists, which transport channel is currently active,
//! and which remote-asset denomination trace corresponds to each locally
//! recognized asset.  It also provides an overflow-safe aggregator that
//! merges duplicate-denomination coin lists into a canonical sorted form.

pub mod coins;
pub mod errors;
pub mod keys;
pub mod minter;
pub mod query;
pub mod registry;
pub mod store;
