//! A governance engine for organisational bodies: proposals, simple yes/no
//! voting, a per-block finalisation sweep and the release of treasury funds
//! for accepted withdrawal proposals.
//!
//! Collaborators (membership, campaigns, the currency ledger, randomness,
//! the clock) are reached through the `runtime::Config` trait or handed in
//! as plain values; the fund releases that the engine decides are reported
//! as events for the ledger to carry out.
pub mod types;
pub mod tally;
pub mod ledger;
pub mod registry;
pub mod voting;
pub mod finalize;
pub mod queries;
pub mod runtime;
pub mod laws;
