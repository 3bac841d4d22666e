//! A token-weighted governance engine: stake accounting, per-proposal vote
//! tallies, a status evaluator re-derived from stored counters, and the
//! lifecycle operations that move a proposal from submission to execution.
pub mod status;
pub mod error;
pub mod payment;
pub mod config;
pub mod proposal;
pub mod user;
pub mod proposed_msg;
pub mod court;
pub mod laws;
