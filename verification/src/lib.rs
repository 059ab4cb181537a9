//! A marketplace ledger for uniquely-owned tokens: listings, per-token
//! approvals, owner-wide operator delegations, and atomic buy settlement.
//!
//! The host adapter performs storage, queries against the asset-ownership
//! registry, and message encoding; every rule of the marketplace itself is
//! stated and verified here.

pub mod error;
pub mod msg;
pub mod state;
pub mod contract;
pub mod laws;
