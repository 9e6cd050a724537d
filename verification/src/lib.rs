//! Gas-estimation engine for an Ethereum execution client.
//!
//! Given a transaction request, a block environment and optional state
//! overrides, the engine finds the minimum gas limit at which the
//! transaction executes successfully, by a binary search over repeated
//! executions of an opaque, deterministic executor.

pub mod chain;
pub mod estimate;
pub mod executor;
pub mod outcome;
pub mod state;
pub mod types;
