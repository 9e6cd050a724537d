//! The gas-range search: a binary search over repeated executions that
//! finds the minimum gas limit at which a transaction succeeds, with a
//! short-circuit for plain transfers, an affordability cap on the search
//! ceiling, and an out-of-gas disambiguator for caller-pinned gas values.

use vstd::prelude::*;
use crate::executor::Executor;
use crate::outcome::{
    ErrorSpec, EstimateError, ExecError, ExecResultSpec, ExecutionResult, TransactOutcome,
    result_view,
};
use crate::state::{
    AccountOverride, AccountSpec, StateOverride, StateSnapshot, account_at, apply_overrides_spec,
    apply_state_overrides, has_override_conflict,
};
use crate::types::{
    Address, CfgEnv, EvmEnv, TransactionRequest, TxEnv, TxEnvSpec, TxKind, CALL_STIPEND_GAS,
    ESTIMATE_GAS_ERROR_DENOM, ESTIMATE_GAS_ERROR_NUMER, MIN_TRANSACTION_GAS,
};

verus! {

/// The environment every estimation runs in: sender account checks and
/// the base-fee floor are ignored, so that accounts without a valid
/// history and blocks with a higher base fee can still be estimated.
pub open spec fn prepare_env(env: EvmEnv) -> EvmEnv {
    EvmEnv {
        cfg_env: CfgEnv { disable_eip3607: true, disable_base_fee: true },
        block_env: env.block_env,
    }
}

/// The override entries of an optional override set, in order.
pub open spec fn override_entries(o: Option<StateOverride>) -> Seq<(Address, AccountOverride)> {
    match o {
        Some(v) => v@,
        None => Seq::empty(),
    }
}

/// The working transaction built from a request: the nonce is cleared so
/// the executor picks a valid one, an unspecified gas limit defaults to
/// the block's, an unspecified gas price to zero.
pub open spec fn base_tx_spec(env: EvmEnv, req: TransactionRequest) -> TxEnvSpec {
    TxEnvSpec {
        caller: req.from,
        kind: req.to,
        gas_limit: if req.gas is Some {
            req.gas->0
        } else {
            env.block_env.gas_limit
        },
        gas_price: if req.gas_price is Some {
            req.gas_price->0
        } else {
            0
        },
        value: req.value,
        input: req.input@,
        nonce: None,
    }
}

/// The first search ceiling: the caller-specified gas limit capped by the
/// block's gas limit, or the block's gas limit.
pub open spec fn initial_highest_spec(req_gas: Option<u64>, block_limit: u64) -> u64 {
    match req_gas {
        Some(g) => if block_limit < g {
            block_limit
        } else {
            g
        },
        None => block_limit,
    }
}

/// The maximum gas the sender can afford at the given price:
/// `(balance - value) / gas_price`, clamped into `u64`; a balance below
/// the transferred value affords nothing.
pub open spec fn allowance_spec(balance: u128, value: u128, gas_price: u128) -> u64
    recommends
        gas_price > 0,
{
    let avail: int = if balance >= value {
        balance - value
    } else {
        0
    };
    let q: int = avail / (gas_price as int);
    if q > u64::MAX {
        u64::MAX
    } else {
        q as u64
    }
}

/// The gas limit of the first, unconstrained probe: the initial ceiling,
/// further capped by the sender's allowance when the gas price is
/// nonzero.
pub open spec fn probe_gas_limit(
    env: EvmEnv,
    req: TransactionRequest,
    st: Map<Address, AccountSpec>,
) -> u64 {
    let ih = initial_highest_spec(req.gas, env.block_env.gas_limit);
    let tx = base_tx_spec(env, req);
    if tx.gas_price > 0 {
        let a = allowance_spec(account_at(st, tx.caller).balance, tx.value, tx.gas_price);
        if a < ih {
            a
        } else {
            ih
        }
    } else {
        ih
    }
}

/// Whether the request is a plain value transfer to an account with no
/// code: empty input, a call target, and an empty (or absent) callee
/// code.
pub open spec fn short_circuit_applies(tx: TxEnvSpec, st: Map<Address, AccountSpec>) -> bool {
    &&& tx.input.len() == 0
    &&& match tx.kind {
        TxKind::Call(to) => account_at(st, to).code.len() == 0,
        TxKind::Create => false,
    }
}

/// Whether an outcome is a success.
pub open spec fn outcome_is_success(o: TransactOutcome) -> bool {
    match o {
        Ok(res) => res is Success,
        Err(_) => false,
    }
}

/// Whether the short-circuit resolves the request: it applies, and the
/// cheap re-verification at the protocol-minimum gas succeeds.
pub open spec fn short_circuit_hits<E: Executor>(
    ex: E,
    env: EvmEnv,
    tx: TxEnvSpec,
    st: Map<Address, AccountSpec>,
) -> bool {
    &&& short_circuit_applies(tx, st)
    &&& outcome_is_success(ex.outcome(env, tx.with_gas_limit(MIN_TRANSACTION_GAS), st))
}

/// Whether the adapter never classifies a gas limit of this transaction
/// as too high; under this hypothesis the search's answer is a limit the
/// transaction is known to succeed at.
pub open spec fn no_gas_too_high<E: Executor>(
    ex: E,
    env: EvmEnv,
    tx: TxEnvSpec,
    st: Map<Address, AccountSpec>,
) -> bool {
    forall|g: u64|
        (#[trigger] ex.outcome(env, tx.with_gas_limit(g), st)) != Err::<
            ExecResultSpec,
            ExecError,
        >(ExecError::GasTooHigh)
}

/// Whether every success of this transaction consumes the same positive
/// amount `c` of gas, whatever the limit. Real transactions behave so
/// when their gas use does not depend on the limit they are given.
pub open spec fn uniform_gas_use<E: Executor>(
    ex: E,
    env: EvmEnv,
    tx: TxEnvSpec,
    st: Map<Address, AccountSpec>,
    c: u64,
) -> bool {
    &&& c > 0
    &&& forall|g: u64|
        match (#[trigger] ex.outcome(env, tx.with_gas_limit(g), st)) {
            Ok(o) => match o {
                ExecResultSpec::Success { gas_used, .. } => gas_used == c && c <= g,
                _ => true,
            },
            Err(_) => true,
        }
}

/// Whether success is upward closed in the gas limit: once the
/// transaction succeeds at a limit, it succeeds at every higher one.
pub open spec fn success_monotone<E: Executor>(
    ex: E,
    env: EvmEnv,
    tx: TxEnvSpec,
    st: Map<Address, AccountSpec>,
) -> bool {
    forall|g1: u64, g2: u64|
        g1 <= g2 && outcome_is_success(#[trigger] ex.outcome(env, tx.with_gas_limit(g1), st))
            ==> outcome_is_success(#[trigger] ex.outcome(env, tx.with_gas_limit(g2), st))
}

/// Whether `m` is the least gas limit at which the transaction succeeds.
pub open spec fn least_success_limit<E: Executor>(
    ex: E,
    env: EvmEnv,
    tx: TxEnvSpec,
    st: Map<Address, AccountSpec>,
    m: u64,
) -> bool {
    &&& outcome_is_success(ex.outcome(env, tx.with_gas_limit(m), st))
    &&& forall|g: u64|
        g < m ==> !outcome_is_success(#[trigger] ex.outcome(env, tx.with_gas_limit(g), st))
}

/// The hypotheses under which the search's answer is minimal within the
/// tolerance: the adapter never classifies a limit of this transaction
/// as too high, success is upward closed, and every success consumes the
/// same positive gas.
pub open spec fn well_behaved_executor<E: Executor>(
    ex: E,
    env: EvmEnv,
    tx: TxEnvSpec,
    st: Map<Address, AccountSpec>,
    c: u64,
) -> bool {
    &&& no_gas_too_high(ex, env, tx, st)
    &&& success_monotone(ex, env, tx, st)
    &&& uniform_gas_use(ex, env, tx, st, c)
}

/// How the disambiguator maps the outcome of one more run at the
/// block's full gas limit to an error. Success means the caller's funds
/// were insufficient at the caller-requested values; revert and halt
/// surface as the user-facing error; an executor-level error propagates
/// unchanged.
pub open spec fn out_of_gas_verdict<E: Executor>(
    ex: E,
    env: EvmEnv,
    tx: TxEnvSpec,
    st: Map<Address, AccountSpec>,
    env_gas_limit: u64,
    req_gas_limit: u64,
) -> ErrorSpec {
    match ex.outcome(env, tx.with_gas_limit(env_gas_limit), st) {
        Ok(o) => match o {
            ExecResultSpec::Success { .. } => ErrorSpec::BasicOutOfGas { gas_limit: req_gas_limit },
            ExecResultSpec::Revert { output, .. } => ErrorSpec::Revert { output },
            ExecResultSpec::Halt { reason, .. } => ErrorSpec::Halt {
                reason,
                gas_limit: req_gas_limit,
            },
        },
        Err(e) => ErrorSpec::Execution(e),
    }
}

/// The bounds after the range-update rule: a success caps the ceiling at
/// the tested limit; a revert or halt (of any reason) raises the floor to
/// it.
pub open spec fn updated_range(result: ExecResultSpec, tx_gas_limit: u64, highest: u64, lowest: u64) -> (
    u64,
    u64,
) {
    match result {
        ExecResultSpec::Success { .. } => (tx_gas_limit, lowest),
        _ => (highest, tx_gas_limit),
    }
}

/// Monotonic narrowing of the range-update rule: a tested limit inside
/// the current bounds never lowers the floor, never raises the ceiling,
/// and keeps the floor at or below the ceiling.
pub proof fn lemma_update_narrows(result: ExecResultSpec, tested: u64, highest: u64, lowest: u64)
    requires
        lowest <= tested <= highest,
    ensures
        ({
            let (h2, l2) = updated_range(result, tested, highest, lowest);
            lowest <= l2 && l2 <= h2 && h2 <= highest
        }),
{
}

/// Whether an estimation of these inputs enters the binary search: no
/// malformed override, no short-circuit, and a successful first probe.
pub open spec fn reaches_search<E: Executor>(
    ex: E,
    evm_env: EvmEnv,
    request: TransactionRequest,
    st0: Map<Address, AccountSpec>,
    state_override: Option<StateOverride>,
) -> bool {
    let env = prepare_env(evm_env);
    let ov = override_entries(state_override);
    let st = apply_overrides_spec(st0, ov);
    let tx = base_tx_spec(env, request);
    &&& !has_override_conflict(ov)
    &&& !short_circuit_hits(ex, env, tx, st)
    &&& outcome_is_success(ex.outcome(env, tx.with_gas_limit(probe_gas_limit(env, request, st)), st))
}

/// Determinism of every path outside the binary search: two estimation
/// results for identical (environment, request, state, overrides) that do
/// not enter the search are equal, because each such path's result is a
/// function of those inputs alone. Inside the search the answer is pinned
/// only up to the tolerance, and is exercised for equality by tests.
pub proof fn lemma_estimate_deterministic_outside_search<E: Executor>(
    ex: E,
    evm_env: EvmEnv,
    request: TransactionRequest,
    st0: Map<Address, AccountSpec>,
    state_override: Option<StateOverride>,
    r1: Result<u64, EstimateError>,
    r2: Result<u64, EstimateError>,
)
    requires
        estimate_ensures(ex, evm_env, request, st0, state_override, r1),
        estimate_ensures(ex, evm_env, request, st0, state_override, r2),
        !reaches_search(ex, evm_env, request, st0, state_override),
    ensures
        result_view(r1) == result_view(r2),
{
}

/// What estimation returns, for every input. The environment is prepared
/// (flags forced, nonce cleared), overrides are applied, the
/// short-circuit is tried, and the first probe at the capped ceiling
/// decides: each failing outcome maps to exactly one error; after a
/// successful probe the answer is a gas limit at most the ceiling — one
/// at which the transaction is known to succeed as long as the adapter
/// never classifies a limit of this transaction as too high, and, for a
/// well-behaved executor with a least success limit, equal to that least
/// limit or above it by less than the configured relative-error
/// tolerance.
pub open spec fn estimate_ensures<E: Executor>(
    ex: E,
    evm_env: EvmEnv,
    request: TransactionRequest,
    st0: Map<Address, AccountSpec>,
    state_override: Option<StateOverride>,
    r: Result<u64, EstimateError>,
) -> bool {
    let env = prepare_env(evm_env);
    let ov = override_entries(state_override);
    if has_override_conflict(ov) {
        result_view(r) == Err::<u64, ErrorSpec>(ErrorSpec::BothStateAndStateDiff)
    } else {
        let st = apply_overrides_spec(st0, ov);
        let tx = base_tx_spec(env, request);
        if short_circuit_hits(ex, env, tx, st) {
            result_view(r) == Ok::<u64, ErrorSpec>(MIN_TRANSACTION_GAS)
        } else {
            let cap = probe_gas_limit(env, request, st);
            let user_specified = request.gas is Some || request.gas_price is Some;
            match ex.outcome(env, tx.with_gas_limit(cap), st) {
                Err(e) => if e is GasTooHigh && user_specified {
                    result_view(r) == Err::<u64, ErrorSpec>(
                        out_of_gas_verdict(ex, env, tx, st, evm_env.block_env.gas_limit, cap),
                    )
                } else if e is GasTooLow {
                    result_view(r) == Err::<u64, ErrorSpec>(
                        ErrorSpec::GasRequiredExceedsAllowance { gas_limit: cap },
                    )
                } else {
                    result_view(r) == Err::<u64, ErrorSpec>(ErrorSpec::Execution(e))
                },
                Ok(o) => match o {
                    ExecResultSpec::Halt { reason, .. } => result_view(r) == Err::<u64, ErrorSpec>(
                        ErrorSpec::Halt { reason, gas_limit: cap },
                    ),
                    ExecResultSpec::Revert { output, .. } => if user_specified {
                        result_view(r) == Err::<u64, ErrorSpec>(
                            out_of_gas_verdict(ex, env, tx, st, evm_env.block_env.gas_limit, cap),
                        )
                    } else {
                        result_view(r) == Err::<u64, ErrorSpec>(ErrorSpec::Revert { output })
                    },
                    ExecResultSpec::Success { .. } => match result_view(r) {
                        Ok(g) => g <= cap && (no_gas_too_high(ex, env, tx, st)
                            ==> outcome_is_success(ex.outcome(env, tx.with_gas_limit(g), st)))
                            && (forall|c: u64, m: u64|
                                (#[trigger] well_behaved_executor(ex, env, tx, st, c))
                                    && (#[trigger] least_success_limit(ex, env, tx, st, m))
                                    ==> m <= g && (g == m || (g as int - m as int)
                                        * (ESTIMATE_GAS_ERROR_DENOM as int) < (
                                    ESTIMATE_GAS_ERROR_NUMER as int) * (g as int))),
                        Err(es) => match es {
                            ErrorSpec::Execution(e2) => exists|g2: u64|
                                (#[trigger] ex.outcome(env, tx.with_gas_limit(g2), st)) == Err::<
                                    ExecResultSpec,
                                    ExecError,
                                >(e2),
                            _ => false,
                        },
                    },
                },
            }
        }
    }
}

/// The provable half of short-circuit idempotence: on a plain transfer to
/// a code-free account whose re-verification at the protocol-minimum gas
/// succeeds, every result the estimation contract admits is exactly the
/// protocol-minimum gas — so the fast path cannot disagree with any other
/// path that meets the contract on such an input.
pub proof fn lemma_short_circuit_pins_answer<E: Executor>(
    ex: E,
    evm_env: EvmEnv,
    request: TransactionRequest,
    st0: Map<Address, AccountSpec>,
    state_override: Option<StateOverride>,
    r: Result<u64, EstimateError>,
)
    requires
        estimate_ensures(ex, evm_env, request, st0, state_override, r),
        !has_override_conflict(override_entries(state_override)),
        short_circuit_hits(
            ex,
            prepare_env(evm_env),
            base_tx_spec(prepare_env(evm_env), request),
            apply_overrides_spec(st0, override_entries(state_override)),
        ),
    ensures
        result_view(r) == Ok::<u64, ErrorSpec>(MIN_TRANSACTION_GAS),
{
}

/// Builds the working transaction environment from a request.
pub fn create_txn_env(evm_env: &EvmEnv, request: TransactionRequest) -> (tx: TxEnv)
    ensures
        tx@ == base_tx_spec(*evm_env, request),
{
    TxEnv {
        caller: request.from,
        kind: request.to,
        gas_limit: match request.gas {
            Some(g) => g,
            None => evm_env.block_env.gas_limit,
        },
        gas_price: match request.gas_price {
            Some(p) => p,
            None => 0,
        },
        value: request.value,
        input: request.input,
        nonce: None,
    }
}

/// The maximum gas the sender can afford at the transaction's gas price,
/// from its balance after overrides. Read-only.
pub fn caller_gas_allowance(db: &StateSnapshot, tx: &TxEnv) -> (a: u64)
    requires
        tx.gas_price > 0,
    ensures
        a == allowance_spec(account_at(db@, tx.caller).balance, tx.value, tx.gas_price),
{
    let balance = db.account_balance(tx.caller);
    let avail: u128 = if balance >= tx.value {
        balance - tx.value
    } else {
        0
    };
    let q: u128 = avail / tx.gas_price;
    if q > u64::MAX as u128 {
        u64::MAX
    } else {
        q as u64
    }
}

/// The tolerance exit test of the search: whether the remaining range is
/// a small enough fraction of the ceiling for the estimation error to be
/// allowed.
fn within_error_ratio(lowest_gas_limit: u64, highest_gas_limit: u64) -> (r: bool)
    requires
        lowest_gas_limit < highest_gas_limit,
    ensures
        r == ((highest_gas_limit - lowest_gas_limit) as int * (ESTIMATE_GAS_ERROR_DENOM as int)
            < (ESTIMATE_GAS_ERROR_NUMER as int) * (highest_gas_limit as int)),
{
    let range = highest_gas_limit - lowest_gas_limit;
    proof {
        assert((range as u128) * (ESTIMATE_GAS_ERROR_DENOM as u128) <= (u64::MAX as u128)
            * 1000) by (nonlinear_arith)
            requires
                range <= u64::MAX,
                ESTIMATE_GAS_ERROR_DENOM == 1000,
        ;
        assert((ESTIMATE_GAS_ERROR_NUMER as u128) * (highest_gas_limit as u128) <= 15
            * (u64::MAX as u128)) by (nonlinear_arith)
            requires
                highest_gas_limit <= u64::MAX,
                ESTIMATE_GAS_ERROR_NUMER == 15,
        ;
    }
    (range as u128) * (ESTIMATE_GAS_ERROR_DENOM as u128) < (ESTIMATE_GAS_ERROR_NUMER as u128)
        * (highest_gas_limit as u128)
}

/// Updates the bounds of the binary search from the outcome of one probe
/// at `tx_gas_limit`: a success lowers the ceiling to the tested limit; a
/// revert or halt raises the floor to it. All halts are treated like
/// reverts here — a policy kept for compatibility, since a non-out-of-gas
/// halt can still flag an insufficient gas limit.
pub fn update_estimated_gas_range(
    result: ExecutionResult,
    tx_gas_limit: u64,
    highest_gas_limit: &mut u64,
    lowest_gas_limit: &mut u64,
) -> (r: Result<(), EstimateError>)
    ensures
        r is Ok,
        (*final(highest_gas_limit), *final(lowest_gas_limit)) == updated_range(
            result@,
            tx_gas_limit,
            *old(highest_gas_limit),
            *old(lowest_gas_limit),
        ),
{
    match result {
        ExecutionResult::Success { .. } => {
            *highest_gas_limit = tx_gas_limit;
        },
        ExecutionResult::Revert { .. } | ExecutionResult::Halt { .. } => {
            *lowest_gas_limit = tx_gas_limit;
        },
    }
    Ok(())
}

/// Gas execution estimates.
pub trait EstimateCall: Executor + Sized {
    /// Estimates the gas usage of the `request` against the given state,
    /// finding the best gas limit via binary search.
    fn estimate_gas_with(
        &self,
        evm_env: EvmEnv,
        request: TransactionRequest,
        state: StateSnapshot,
        state_override: Option<StateOverride>,
    ) -> (r: Result<u64, EstimateError>)
        ensures
            estimate_ensures(*self, evm_env, request, state@, state_override, r),
    ;

    /// Executes the request again at the block's full gas limit after an
    /// out-of-gas-shaped failure, to check whether the failure was gas
    /// related or not.
    fn map_out_of_gas_err(
        &self,
        env_gas_limit: u64,
        evm_env: EvmEnv,
        tx_env: TxEnv,
        db: &StateSnapshot,
    ) -> (e: EstimateError)
        ensures
            e@ == out_of_gas_verdict(*self, evm_env, tx_env@, db@, env_gas_limit, tx_env.gas_limit),
    ;
}

impl<T: Executor> EstimateCall for T {
    fn estimate_gas_with(
        &self,
        evm_env: EvmEnv,
        request: TransactionRequest,
        state: StateSnapshot,
        state_override: Option<StateOverride>,
    ) -> (r: Result<u64, EstimateError>) {
        let ghost env0 = evm_env;
        let ghost req0 = request;
        let ghost st_in = state@;
        let ghost ov = override_entries(state_override);

        let mut evm_env = evm_env;
        // Estimation must also work for senders without a valid account
        // history, and for blocks whose base fee exceeds the caller's.
        evm_env.cfg_env.disable_eip3607 = true;
        evm_env.cfg_env.disable_base_fee = true;
        let ghost env1 = prepare_env(env0);
        proof {
            assert(evm_env == env1);
        }

        // The executor picks the account's correct nonce itself.
        let mut request = request;
        request.nonce = None;

        // Keep a copy of the gas-related request values.
        let tx_request_gas_limit = request.gas;
        let tx_request_gas_price = request.gas_price;
        let block_env_gas_limit = evm_env.block_env.gas_limit;

        // The highest possible gas limit: the request's, capped by the
        // block's.
        let mut highest_gas_limit: u64 = match tx_request_gas_limit {
            Some(tx_gas_limit) => if block_env_gas_limit < tx_gas_limit {
                block_env_gas_limit
            } else {
                tx_gas_limit
            },
            None => block_env_gas_limit,
        };

        let mut db = state;
        let mut tx_env = create_txn_env(&evm_env, request);
        let ghost tx0 = base_tx_spec(env1, req0);
        proof {
            assert(tx_env@ == tx0);
        }

        // Apply any state overrides before the first execution.
        if let Some(overrides) = state_override {
            match apply_state_overrides(overrides, &mut db) {
                Ok(()) => {},
                Err(e) => {
                    return Err(e);
                },
            }
        }
        let ghost st1 = apply_overrides_spec(st_in, ov);
        proof {
            assert(db@ == st1);
        }

        // Short-circuit a plain transfer to a code-free account: returning
        // the minimum gas blindly would be wrong, since other field combos
        // can raise the price, so re-verify at the minimum gas first.
        if tx_env.input.len() == 0 {
            if let TxKind::Call(to) = tx_env.kind {
                if db.has_no_code(to) {
                    let tx_min = TxEnv {
                        caller: tx_env.caller,
                        kind: tx_env.kind,
                        gas_limit: MIN_TRANSACTION_GAS,
                        gas_price: tx_env.gas_price,
                        value: tx_env.value,
                        input: Vec::new(),
                        nonce: tx_env.nonce,
                    };
                    proof {
                        assert(tx_env.input@ =~= Seq::<u8>::empty());
                        assert(tx_min@ == tx0.with_gas_limit(MIN_TRANSACTION_GAS));
                    }
                    if let Ok(res) = self.transact(&db, &evm_env, &tx_min) {
                        if res.is_success() {
                            proof {
                                assert(short_circuit_hits(*self, env1, tx0, st1));
                            }
                            return Ok(MIN_TRANSACTION_GAS);
                        }
                    }
                }
            }
        }
        proof {
            assert(!short_circuit_hits(*self, env1, tx0, st1));
        }

        // Cap the ceiling by what the sender can afford at the given
        // price.
        if tx_env.gas_price > 0 {
            let allowance = caller_gas_allowance(&db, &tx_env);
            if allowance < highest_gas_limit {
                highest_gas_limit = allowance;
            }
        }
        let ghost cap = probe_gas_limit(env1, req0, st1);
        proof {
            assert(highest_gas_limit == cap);
        }

        // If the configured gas limit is less than the computed cap, use
        // that.
        let probe_limit = if tx_env.gas_limit < highest_gas_limit {
            tx_env.gas_limit
        } else {
            highest_gas_limit
        };
        tx_env.set_gas_limit(probe_limit);
        proof {
            assert(probe_limit == cap);
            assert(tx_env@ == tx0.with_gas_limit(cap));
        }

        let user_specified = tx_request_gas_limit.is_some() || tx_request_gas_price.is_some();

        // The first, unconstrained probe at the highest possible limit.
        let probe = self.transact(&db, &evm_env, &tx_env);
        let res = match probe {
            Err(err) => {
                if err.is_gas_too_high() && user_specified {
                    // Retry at the block's gas limit to tell whether the
                    // failure was due to insufficient gas.
                    return Err(
                        self.map_out_of_gas_err(block_env_gas_limit, evm_env, tx_env, &db),
                    );
                } else if err.is_gas_too_low() {
                    // The configured cost already exceeds the sender's
                    // funds at these fee values.
                    return Err(
                        EstimateError::GasRequiredExceedsAllowance { gas_limit: tx_env.gas_limit },
                    );
                } else {
                    return Err(EstimateError::Execution(err));
                }
            },
            Ok(res) => res,
        };

        let (first_gas_used, gas_refund) = match res {
            ExecutionResult::Success { gas_used, gas_refunded } => (gas_used, gas_refunded),
            ExecutionResult::Halt { reason, gas_used: _ } => {
                // The halt occurred even at the maximum gas, so no higher
                // limit would help.
                return Err(EstimateError::Halt { reason, gas_limit: tx_env.gas_limit });
            },
            ExecutionResult::Revert { output, gas_used: _ } => {
                return if user_specified {
                    // Re-execute at the block's gas limit to check whether
                    // the revert is gas related.
                    Err(self.map_out_of_gas_err(block_env_gas_limit, evm_env, tx_env, &db))
                } else {
                    Err(EstimateError::Revert { output })
                };
            },
        };

        // The probe succeeded at its configured limit, so that limit is a
        // sound ceiling even after the affordability capping above.
        highest_gas_limit = tx_env.gas_limit;
        let mut gas_used = first_gas_used;
        let mut lowest_gas_limit: u64 = if gas_used == 0 {
            0
        } else {
            gas_used - 1
        };

        // There is a good chance the transaction passes at the gas used
        // plus the refund, scaled by the 64/63 forwarding rule; try that
        // first.
        let optimistic128: u128 = (gas_used as u128 + gas_refund as u128
            + CALL_STIPEND_GAS as u128) * 64 / 63;
        if optimistic128 < highest_gas_limit as u128 {
            let optimistic_gas_limit = optimistic128 as u64;
            tx_env.set_gas_limit(optimistic_gas_limit);
            let res2 = match self.transact(&db, &evm_env, &tx_env) {
                Ok(res2) => res2,
                Err(err) => {
                    proof {
                        assert(self.outcome(env1, tx0.with_gas_limit(optimistic_gas_limit), st1)
                            == Err::<ExecResultSpec, ExecError>(err));
                    }
                    return Err(EstimateError::Execution(err));
                },
            };
            gas_used = res2.gas_used();
            match update_estimated_gas_range(
                res2,
                optimistic_gas_limit,
                &mut highest_gas_limit,
                &mut lowest_gas_limit,
            ) {
                Ok(()) => {},
                Err(e) => {
                    return Err(e);
                },
            }
        }

        // Pick a first midpoint close to the estimated gas: at most three
        // times the gas used, to avoid probing far above any plausible
        // value.
        let mut mid_gas_limit: u64 = {
            let tripled: u128 = gas_used as u128 * 3;
            let mean: u128 = (highest_gas_limit as u128 + lowest_gas_limit as u128) / 2;
            if tripled < mean {
                tripled as u64
            } else {
                mean as u64
            }
        };

        let ghost mut first_iter: bool = true;
        proof {
            assert forall|c: u64, m: u64|
                (#[trigger] well_behaved_executor(*self, env1, tx0, st1, c)) && (
                #[trigger] least_success_limit(*self, env1, tx0, st1, m))
                implies lowest_gas_limit < m by {
                assert(outcome_is_success(self.outcome(env1, tx0.with_gas_limit(m), st1)));
                assert(self.outcome(env1, tx0.with_gas_limit(cap), st1) == Ok::<
                    ExecResultSpec,
                    ExecError,
                >(ExecResultSpec::Success { gas_used: first_gas_used, gas_refunded: gas_refund }));
            }
        }

        // Binary search narrows the range to the minimum gas limit the
        // transaction needs to succeed.
        #[verifier::loop_isolation(false)]
        while lowest_gas_limit + 1 < highest_gas_limit && !within_error_ratio(
            lowest_gas_limit,
            highest_gas_limit,
        )
            invariant
                lowest_gas_limit < u64::MAX,
                lowest_gas_limit <= cap,
                highest_gas_limit <= cap,
                no_gas_too_high(*self, env1, tx0, st1) ==> outcome_is_success(
                    self.outcome(env1, tx0.with_gas_limit(highest_gas_limit), st1),
                ),
                mid_gas_limit as int <= (highest_gas_limit as int + lowest_gas_limit as int) / 2,
                !first_iter ==> mid_gas_limit as int == (highest_gas_limit as int
                    + lowest_gas_limit as int) / 2,
                forall|c: u64, m: u64|
                    (#[trigger] well_behaved_executor(*self, env1, tx0, st1, c))
                        && (#[trigger] least_success_limit(*self, env1, tx0, st1, m))
                        ==> lowest_gas_limit < m,
                tx_env@.with_gas_limit(0) == tx0.with_gas_limit(0),
                db@ == st1,
                evm_env == env1,
            decreases
                (if first_iter { 1int } else { 0int }),
                (if highest_gas_limit > lowest_gas_limit {
                    highest_gas_limit - lowest_gas_limit
                } else {
                    0int
                }),
        {
            tx_env.set_gas_limit(mid_gas_limit);
            proof {
                assert(tx_env@ == tx0.with_gas_limit(mid_gas_limit));
            }
            match self.transact(&db, &evm_env, &tx_env) {
                Err(err) => {
                    if err.is_gas_too_high() {
                        highest_gas_limit = mid_gas_limit;
                    } else if err.is_gas_too_low() {
                        lowest_gas_limit = mid_gas_limit;
                    } else {
                        proof {
                            assert(self.outcome(env1, tx0.with_gas_limit(mid_gas_limit), st1)
                                == Err::<ExecResultSpec, ExecError>(err));
                        }
                        return Err(EstimateError::Execution(err));
                    }
                },
                Ok(res3) => {
                    match update_estimated_gas_range(
                        res3,
                        mid_gas_limit,
                        &mut highest_gas_limit,
                        &mut lowest_gas_limit,
                    ) {
                        Ok(()) => {},
                        Err(e) => {
                            return Err(e);
                        },
                    }
                },
            }

            mid_gas_limit = ((highest_gas_limit as u128 + lowest_gas_limit as u128) / 2) as u64;
            proof {
                first_iter = false;
            }
        }

        proof {
            assert forall|c: u64, m: u64|
                (#[trigger] well_behaved_executor(*self, env1, tx0, st1, c)) && (
                #[trigger] least_success_limit(*self, env1, tx0, st1, m))
                implies m <= highest_gas_limit && (highest_gas_limit == m || (highest_gas_limit
                as int - m as int) * (ESTIMATE_GAS_ERROR_DENOM as int) < (
            ESTIMATE_GAS_ERROR_NUMER as int) * (highest_gas_limit as int)) by {
                assert(outcome_is_success(
                    self.outcome(env1, tx0.with_gas_limit(highest_gas_limit), st1),
                ));
                assert(outcome_is_success(self.outcome(env1, tx0.with_gas_limit(m), st1)));
            }
        }
        Ok(highest_gas_limit)
    }

    fn map_out_of_gas_err(
        &self,
        env_gas_limit: u64,
        evm_env: EvmEnv,
        tx_env: TxEnv,
        db: &StateSnapshot,
    ) -> (e: EstimateError) {
        let req_gas_limit = tx_env.gas_limit;
        let mut tx_env = tx_env;
        tx_env.set_gas_limit(env_gas_limit);
        let res = match self.transact(db, &evm_env, &tx_env) {
            Ok(res) => res,
            Err(err) => {
                return EstimateError::Execution(err);
            },
        };
        match res {
            ExecutionResult::Success { .. } => {
                // The transaction succeeds once the limit is raised to the
                // block's, so the caller lacks funds at the requested
                // values.
                EstimateError::BasicOutOfGas { gas_limit: req_gas_limit }
            },
            ExecutionResult::Revert { output, .. } => EstimateError::Revert { output },
            ExecutionResult::Halt { reason, .. } => EstimateError::Halt {
                reason,
                gas_limit: req_gas_limit,
            },
        }
    }
}

} // verus!
