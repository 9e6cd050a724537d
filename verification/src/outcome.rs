//! Executor outcomes and the user-facing error taxonomy of the engine.

use vstd::prelude::*;

verus! {

/// The tagged outcome of one executor invocation.
#[derive(Debug)]
pub enum ExecutionResult {
    /// The transaction executed in full.
    Success {
        /// Gas consumed by the execution.
        gas_used: u64,
        /// Gas credited back for state-clearing operations.
        gas_refunded: u64,
    },
    /// A controlled abort that returns output data.
    Revert {
        /// Gas consumed up to the revert.
        gas_used: u64,
        /// The returned output bytes.
        output: Vec<u8>,
    },
    /// An abnormal termination that consumes all allotted gas.
    Halt {
        /// Implementation-defined halt reason code.
        reason: u32,
        /// Gas consumed, i.e. the whole allotted gas.
        gas_used: u64,
    },
}

/// The mathematical value of an [`ExecutionResult`].
pub enum ExecResultSpec {
    /// The transaction executed in full.
    Success {
        /// Gas consumed by the execution.
        gas_used: u64,
        /// Gas credited back for state-clearing operations.
        gas_refunded: u64,
    },
    /// A controlled abort that returns output data.
    Revert {
        /// Gas consumed up to the revert.
        gas_used: u64,
        /// The returned output bytes.
        output: Seq<u8>,
    },
    /// An abnormal termination that consumes all allotted gas.
    Halt {
        /// Implementation-defined halt reason code.
        reason: u32,
        /// Gas consumed, i.e. the whole allotted gas.
        gas_used: u64,
    },
}

impl View for ExecutionResult {
    type V = ExecResultSpec;

    open spec fn view(&self) -> ExecResultSpec {
        match self {
            ExecutionResult::Success { gas_used, gas_refunded } => ExecResultSpec::Success {
                gas_used: *gas_used,
                gas_refunded: *gas_refunded,
            },
            ExecutionResult::Revert { gas_used, output } => ExecResultSpec::Revert {
                gas_used: *gas_used,
                output: output@,
            },
            ExecutionResult::Halt { reason, gas_used } => ExecResultSpec::Halt {
                reason: *reason,
                gas_used: *gas_used,
            },
        }
    }
}

impl ExecutionResult {
    /// Whether the execution succeeded.
    pub fn is_success(&self) -> (r: bool)
        ensures
            r == (self@ is Success),
    {
        match self {
            ExecutionResult::Success { .. } => true,
            _ => false,
        }
    }

    /// The gas consumed by the execution, whatever its outcome.
    pub fn gas_used(&self) -> (g: u64)
        ensures
            g == spec_gas_used(self@),
    {
        match self {
            ExecutionResult::Success { gas_used, .. } => *gas_used,
            ExecutionResult::Revert { gas_used, .. } => *gas_used,
            ExecutionResult::Halt { gas_used, .. } => *gas_used,
        }
    }
}

/// The gas consumed by an outcome, whatever its kind.
pub open spec fn spec_gas_used(r: ExecResultSpec) -> u64 {
    match r {
        ExecResultSpec::Success { gas_used, .. } => gas_used,
        ExecResultSpec::Revert { gas_used, .. } => gas_used,
        ExecResultSpec::Halt { gas_used, .. } => gas_used,
    }
}

/// An executor-level error, raised before or instead of an outcome.
/// The two gas classifications drive the search's control flow and are
/// never surfaced raw; any other code propagates unchanged.
#[derive(Clone, Copy, Debug, PartialEq, Eq, Structural)]
pub enum ExecError {
    /// The configured gas limit was classified as too high.
    GasTooHigh,
    /// The configured gas cost already exceeds the sender's funds.
    GasTooLow,
    /// Any other executor error, by code.
    Other(u32),
}

impl ExecError {
    /// Whether this is the gas-too-high classification.
    pub fn is_gas_too_high(&self) -> (r: bool)
        ensures
            r == (*self is GasTooHigh),
    {
        match self {
            ExecError::GasTooHigh => true,
            _ => false,
        }
    }

    /// Whether this is the gas-too-low classification.
    pub fn is_gas_too_low(&self) -> (r: bool)
        ensures
            r == (*self is GasTooLow),
    {
        match self {
            ExecError::GasTooLow => true,
            _ => false,
        }
    }
}

/// The abstract outcome of one executor invocation: a result, or an
/// executor-level error.
pub type TransactOutcome = Result<ExecResultSpec, ExecError>;

/// The mathematical value of what an executor call returned.
pub open spec fn transact_view(r: Result<ExecutionResult, ExecError>) -> TransactOutcome {
    match r {
        Ok(res) => Ok(res@),
        Err(e) => Err(e),
    }
}

/// A structured, user-facing estimation error.
#[derive(Debug)]
pub enum EstimateError {
    /// The fee cost at the caller-specified values exceeds the sender's
    /// funds; carries the gas limit that was attempted.
    GasRequiredExceedsAllowance {
        /// The attempted gas limit.
        gas_limit: u64,
    },
    /// The sender's funds are insufficient even at the block's full gas
    /// limit; carries the gas limit the caller requested.
    BasicOutOfGas {
        /// The gas limit the caller requested.
        gas_limit: u64,
    },
    /// The transaction reverted; carries the returned output bytes.
    Revert {
        /// The output the revert returned.
        output: Vec<u8>,
    },
    /// The transaction halted; carries the halt reason and the gas limit
    /// at which it halted.
    Halt {
        /// Implementation-defined halt reason code.
        reason: u32,
        /// The gas limit at which the halt occurred.
        gas_limit: u64,
    },
    /// Malformed override data: an entry both replaces the whole storage
    /// and patches single slots.
    BothStateAndStateDiff,
    /// An executor-level error, propagated unchanged.
    Execution(ExecError),
}

/// The mathematical value of an [`EstimateError`].
pub enum ErrorSpec {
    /// The fee cost at the caller-specified values exceeds the sender's
    /// funds.
    GasRequiredExceedsAllowance {
        /// The attempted gas limit.
        gas_limit: u64,
    },
    /// The sender's funds are insufficient even at the block's full gas
    /// limit.
    BasicOutOfGas {
        /// The gas limit the caller requested.
        gas_limit: u64,
    },
    /// The transaction reverted.
    Revert {
        /// The output the revert returned.
        output: Seq<u8>,
    },
    /// The transaction halted.
    Halt {
        /// Implementation-defined halt reason code.
        reason: u32,
        /// The gas limit at which the halt occurred.
        gas_limit: u64,
    },
    /// Malformed override data.
    BothStateAndStateDiff,
    /// An executor-level error, propagated unchanged.
    Execution(ExecError),
}

impl View for EstimateError {
    type V = ErrorSpec;

    open spec fn view(&self) -> ErrorSpec {
        match self {
            EstimateError::GasRequiredExceedsAllowance { gas_limit } => {
                ErrorSpec::GasRequiredExceedsAllowance { gas_limit: *gas_limit }
            },
            EstimateError::BasicOutOfGas { gas_limit } => ErrorSpec::BasicOutOfGas {
                gas_limit: *gas_limit,
            },
            EstimateError::Revert { output } => ErrorSpec::Revert { output: output@ },
            EstimateError::Halt { reason, gas_limit } => ErrorSpec::Halt {
                reason: *reason,
                gas_limit: *gas_limit,
            },
            EstimateError::BothStateAndStateDiff => ErrorSpec::BothStateAndStateDiff,
            EstimateError::Execution(e) => ErrorSpec::Execution(*e),
        }
    }
}

/// The mathematical value of an estimation result.
pub open spec fn result_view(r: Result<u64, EstimateError>) -> Result<u64, ErrorSpec> {
    match r {
        Ok(g) => Ok(g),
        Err(e) => Err(e@),
    }
}

} // verus!
