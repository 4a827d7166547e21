//! Deployment tooling for an append-only, capacity-constrained ledger program
//! ("magic hat"): a durable record store, a batch planner that respects the
//! per-transaction byte and line ceilings, a bounded-concurrency dispatch state
//! machine with cooperative cancellation, and the validation rules for the
//! configuration and metadata that a deployment carries.

pub mod aggregate;
pub mod cache;
pub mod cli;
pub mod collections;
pub mod config;
pub mod deploy;
pub mod dispatch;
pub mod errors;
pub mod magic_hat;
pub mod mint;
pub mod show;
pub mod update;
pub mod validate;
pub mod verify_data;
pub mod withdraw;
