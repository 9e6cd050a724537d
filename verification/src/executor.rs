//! The opaque virtual-machine adapter the search drives, and a few
//! small verified executors that exercise the engine.

use vstd::prelude::*;
use crate::outcome::{ExecError, ExecResultSpec, ExecutionResult, TransactOutcome, transact_view};
use crate::state::{AccountSpec, StateSnapshot};
use crate::types::{copy_values, Address, EvmEnv, TxEnv, TxEnvSpec};

verus! {

/// The executor adapter: invokes the virtual machine once for a given
/// (environment, transaction, state) triple.
///
/// The adapter must be deterministic: identical inputs always yield
/// identical outcomes. That is captured by `outcome`, a mathematical
/// function of the environment, the transaction and the state view,
/// which every `transact` call is bound to return.
pub trait Executor {
    /// The outcome the adapter yields for the given inputs.
    spec fn outcome(&self, env: EvmEnv, tx: TxEnvSpec, st: Map<Address, AccountSpec>) -> TransactOutcome;

    /// Runs the virtual machine once. The state snapshot is read, never
    /// changed; a successful execution never consumes more gas than the
    /// transaction's gas limit allots.
    fn transact(&self, db: &StateSnapshot, env: &EvmEnv, tx: &TxEnv) -> (r: Result<
        ExecutionResult,
        ExecError,
    >)
        ensures
            transact_view(r) == self.outcome(*env, tx@, db@),
            transact_view(r) matches Ok(o) ==> crate::outcome::spec_gas_used(o) <= tx.gas_limit,
    ;
}

/// A gas-threshold executor: below `floor` the adapter classifies the
/// limit as too low; from `floor` up to below `threshold` the execution
/// halts; at `threshold` and above it succeeds, consuming `gas_used`
/// (capped by the limit) and refunding `gas_refunded`.
#[derive(Clone, Copy, Debug)]
pub struct ThresholdExecutor {
    /// Below this limit the adapter raises its gas-too-low classification.
    pub floor: u64,
    /// The least gas limit at which the execution succeeds.
    pub threshold: u64,
    /// Gas a successful execution consumes, capped by the gas limit.
    pub gas_used: u64,
    /// Gas a successful execution refunds.
    pub gas_refunded: u64,
    /// Halt reason reported between `floor` and `threshold`.
    pub halt_reason: u32,
}

impl Executor for ThresholdExecutor {
    open spec fn outcome(&self, env: EvmEnv, tx: TxEnvSpec, st: Map<Address, AccountSpec>) -> TransactOutcome {
        if tx.gas_limit < self.floor {
            Err(ExecError::GasTooLow)
        } else if tx.gas_limit < self.threshold {
            Ok(ExecResultSpec::Halt { reason: self.halt_reason, gas_used: tx.gas_limit })
        } else {
            Ok(ExecResultSpec::Success {
                gas_used: if self.gas_used <= tx.gas_limit { self.gas_used } else { tx.gas_limit },
                gas_refunded: self.gas_refunded,
            })
        }
    }

    fn transact(&self, db: &StateSnapshot, env: &EvmEnv, tx: &TxEnv) -> (r: Result<
        ExecutionResult,
        ExecError,
    >) {
        if tx.gas_limit < self.floor {
            Err(ExecError::GasTooLow)
        } else if tx.gas_limit < self.threshold {
            Ok(ExecutionResult::Halt { reason: self.halt_reason, gas_used: tx.gas_limit })
        } else {
            let used = if self.gas_used <= tx.gas_limit {
                self.gas_used
            } else {
                tx.gas_limit
            };
            Ok(ExecutionResult::Success { gas_used: used, gas_refunded: self.gas_refunded })
        }
    }
}

/// A classifying executor: any gas limit above `limit_cap` is classified
/// as too high before execution; at or below it the execution succeeds,
/// consuming `gas_used` (capped by the limit).
#[derive(Clone, Copy, Debug)]
pub struct ClassifyingExecutor {
    /// Above this limit the adapter raises its gas-too-high
    /// classification.
    pub limit_cap: u64,
    /// Gas a successful execution consumes, capped by the gas limit.
    pub gas_used: u64,
}

impl Executor for ClassifyingExecutor {
    open spec fn outcome(&self, env: EvmEnv, tx: TxEnvSpec, st: Map<Address, AccountSpec>) -> TransactOutcome {
        if tx.gas_limit > self.limit_cap {
            Err(ExecError::GasTooHigh)
        } else {
            Ok(ExecResultSpec::Success {
                gas_used: if self.gas_used <= tx.gas_limit { self.gas_used } else { tx.gas_limit },
                gas_refunded: 0,
            })
        }
    }

    fn transact(&self, db: &StateSnapshot, env: &EvmEnv, tx: &TxEnv) -> (r: Result<
        ExecutionResult,
        ExecError,
    >) {
        if tx.gas_limit > self.limit_cap {
            Err(ExecError::GasTooHigh)
        } else {
            let used = if self.gas_used <= tx.gas_limit {
                self.gas_used
            } else {
                tx.gas_limit
            };
            Ok(ExecutionResult::Success { gas_used: used, gas_refunded: 0 })
        }
    }
}

/// A revert-threshold executor: below `threshold` the execution reverts
/// with fixed output bytes, at `threshold` and above it succeeds.
#[derive(Debug)]
pub struct RevertThresholdExecutor {
    /// The least gas limit at which the execution succeeds.
    pub threshold: u64,
    /// Gas the execution consumes, capped by the gas limit.
    pub gas_used: u64,
    /// The output returned on revert.
    pub output: Vec<u8>,
}

impl Executor for RevertThresholdExecutor {
    open spec fn outcome(&self, env: EvmEnv, tx: TxEnvSpec, st: Map<Address, AccountSpec>) -> TransactOutcome {
        let used: u64 = if self.gas_used <= tx.gas_limit {
            self.gas_used
        } else {
            tx.gas_limit
        };
        if tx.gas_limit < self.threshold {
            Ok(ExecResultSpec::Revert { gas_used: used, output: self.output@ })
        } else {
            Ok(ExecResultSpec::Success { gas_used: used, gas_refunded: 0 })
        }
    }

    fn transact(&self, db: &StateSnapshot, env: &EvmEnv, tx: &TxEnv) -> (r: Result<
        ExecutionResult,
        ExecError,
    >) {
        let used = if self.gas_used <= tx.gas_limit {
            self.gas_used
        } else {
            tx.gas_limit
        };
        if tx.gas_limit < self.threshold {
            Ok(ExecutionResult::Revert { gas_used: used, output: copy_values(&self.output) })
        } else {
            Ok(ExecutionResult::Success { gas_used: used, gas_refunded: 0 })
        }
    }
}

/// An executor for a contract that always reverts, whatever the gas
/// limit, returning fixed output bytes.
#[derive(Debug)]
pub struct RevertingExecutor {
    /// The output every execution returns on revert.
    pub output: Vec<u8>,
    /// Gas the execution consumes before reverting, capped by the limit.
    pub gas_used: u64,
}

impl Executor for RevertingExecutor {
    open spec fn outcome(&self, env: EvmEnv, tx: TxEnvSpec, st: Map<Address, AccountSpec>) -> TransactOutcome {
        Ok(ExecResultSpec::Revert {
            gas_used: if self.gas_used <= tx.gas_limit { self.gas_used } else { tx.gas_limit },
            output: self.output@,
        })
    }

    fn transact(&self, db: &StateSnapshot, env: &EvmEnv, tx: &TxEnv) -> (r: Result<
        ExecutionResult,
        ExecError,
    >) {
        let used = if self.gas_used <= tx.gas_limit {
            self.gas_used
        } else {
            tx.gas_limit
        };
        Ok(ExecutionResult::Revert { gas_used: used, output: copy_values(&self.output) })
    }
}

} // verus!
