//! A proof-of-stake auction state machine.
//!
//! The crate tracks validator bids, delegator bids, per-era validator
//! credits, unbonding purses and validator-identity bridge records in a
//! deterministic in-memory store, and drives the era-boundary pipeline:
//! unbond maturation with optional redelegation, reward distribution,
//! weight computation and bid pruning.

pub mod assoc;
pub mod bids;
pub mod catalog;
pub mod codec;
pub mod delegation;
pub mod entity_costs;
pub mod entry_points;
pub mod error;
pub mod keys;
pub mod named;
pub mod records;
pub mod rewards;
pub mod signer;
pub mod store;
pub mod unbond;
pub mod vesting;
pub mod whitelist_entry;
