//! A contract-agnostic fuzzing and property-testing engine for Soroban
//! contracts, together with the job-runner backend that drives it.
//!
//! The library holds the decisions of the engine (how a contract call's
//! result is classified, which addresses authorized a step, when a run
//! stops), the reusable invariants and generation strategies, and the
//! backend's own logic: campaign validation, the target registry, the
//! lifecycle of campaigns and runs, and the parser that recovers findings
//! from a fuzzer's output.
pub mod violation;
pub mod api;
pub mod auth;
pub mod command;
pub mod config;
pub mod harness;
pub mod ids;
pub mod invariants;
pub mod mock_store;
pub mod instant;
pub mod output;
pub mod progress_hub;
pub mod runner;
pub mod store;
pub mod strategies;
pub mod targets;
pub mod text;
pub mod worker;

use vstd::prelude::*;

verus! {

} // verus!
