//! Reconciliation of a brokerage event feed into signed, per-security
//! batches of ledger transfers.
//!
//! The feed (accounts, events, changes) is classified into deposit and
//! withdrawal transfers, grouped per security, committed to by a seed,
//! signed, and driven through a submit-and-confirm state machine.

pub mod address;
pub mod classify;
pub mod commitment;
pub mod config;
pub mod error;
pub mod events;
pub mod identity;
pub mod pipeline;
pub mod registry;
pub mod transfer;
pub mod transfer_map;
