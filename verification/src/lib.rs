//! Tracking and reconciliation of instructions sent to a remote chain's
//! validator set over an asynchronous, unreliable channel.
//!
//! The ledger records every outbound instruction, the engine correlates each
//! one with its acknowledgement or timeout, and the projector derives the
//! delegation estimate that dependents query. Beside this core stand the
//! decisions of its collaborators: the registry of chains, the reward
//! splitter and the message types of the withdrawal manager.

pub mod answer;
pub mod config;
pub mod engine;
pub mod error;
pub mod interchain;
pub mod laws;
pub mod ledger;
pub mod locator;
pub mod projector;
pub mod query;
pub mod snapshot;
pub mod splitter;
pub mod state;
pub mod version;
pub mod withdrawal_manager;
