use gas_estimate::estimate::{update_estimated_gas_range, EstimateCall};
use gas_estimate::executor::{
    ClassifyingExecutor, Executor, RevertThresholdExecutor, RevertingExecutor, ThresholdExecutor,
};
use gas_estimate::outcome::{EstimateError, ExecError, ExecutionResult};
use gas_estimate::state::{AccountInfo, AccountOverride, StateSnapshot};
use gas_estimate::types::{
    BlockEnv, CfgEnv, EvmEnv, TransactionRequest, TxEnv, TxKind, MIN_TRANSACTION_GAS,
};

const BLOCK_GAS_LIMIT: u64 = 30_000_000;

fn env() -> EvmEnv {
    EvmEnv {
        cfg_env: CfgEnv { disable_eip3607: false, disable_base_fee: false },
        block_env: BlockEnv {
            number: 10,
            timestamp: 1_700_000_000,
            gas_limit: BLOCK_GAS_LIMIT,
            basefee: 7,
        },
    }
}

fn plain_account(balance: u128) -> AccountInfo {
    AccountInfo { balance, nonce: 0, code: Vec::new(), storage: Vec::new() }
}

fn contract_account(balance: u128) -> AccountInfo {
    AccountInfo { balance, nonce: 1, code: vec![0x60, 0x00], storage: Vec::new() }
}

fn request_to(to: u64) -> TransactionRequest {
    TransactionRequest {
        from: 1,
        to: TxKind::Call(to),
        gas: None,
        gas_price: None,
        value: 1_000,
        input: Vec::new(),
        nonce: None,
    }
}

fn state_transfer() -> StateSnapshot {
    let mut s = StateSnapshot::new();
    s.insert_account(1, plain_account(1_000_000_000_000));
    s.insert_account(2, plain_account(0));
    s
}

fn state_contract() -> StateSnapshot {
    let mut s = StateSnapshot::new();
    s.insert_account(1, plain_account(1_000_000_000_000));
    s.insert_account(2, contract_account(0));
    s
}

fn tx_at_limit(gas_limit: u64) -> TxEnv {
    TxEnv {
        caller: 1,
        kind: TxKind::Call(2),
        gas_limit,
        gas_price: 0,
        value: 1_000,
        input: Vec::new(),
        nonce: None,
    }
}

fn refund_executor() -> ThresholdExecutor {
    ThresholdExecutor {
        floor: 21_000,
        threshold: 40_000,
        gas_used: 30_000,
        gas_refunded: 10_000,
        halt_reason: 7,
    }
}

#[test]
fn scenario_a_plain_transfer_returns_minimum_gas() {
    let ex = ThresholdExecutor {
        floor: 0,
        threshold: 21_000,
        gas_used: 21_000,
        gas_refunded: 0,
        halt_reason: 0,
    };
    let r = ex.estimate_gas_with(env(), request_to(2), state_transfer(), None);
    assert_eq!(r.unwrap(), MIN_TRANSACTION_GAS);
}

#[test]
fn scenario_b_revert_without_user_gas_carries_output() {
    let ex = RevertingExecutor { output: vec![0xde, 0xad, 0xbe, 0xef], gas_used: 50_000 };
    let r = ex.estimate_gas_with(env(), request_to(2), state_contract(), None);
    match r {
        Err(EstimateError::Revert { output }) => assert_eq!(output, vec![0xde, 0xad, 0xbe, 0xef]),
        other => panic!("expected a revert error, got {:?}", other),
    }
}

#[test]
fn scenario_c_revert_with_user_gas_goes_through_disambiguator() {
    let ex = RevertingExecutor { output: vec![0x08, 0xc3, 0x79, 0xa0], gas_used: 50_000 };
    let mut req = request_to(2);
    req.gas = Some(1_000_000);
    let r = ex.estimate_gas_with(env(), req, state_contract(), None);
    match r {
        Err(EstimateError::Revert { output }) => assert_eq!(output, vec![0x08, 0xc3, 0x79, 0xa0]),
        other => panic!("expected a revert error, got {:?}", other),
    }
}

#[test]
fn scenario_d_unaffordable_gas_price_cites_capped_limit() {
    let ex = ThresholdExecutor {
        floor: 21_000,
        threshold: 21_000,
        gas_used: 21_000,
        gas_refunded: 0,
        halt_reason: 0,
    };
    let mut s = StateSnapshot::new();
    s.insert_account(1, plain_account(2_100_000));
    s.insert_account(2, contract_account(0));
    let mut req = request_to(2);
    req.value = 100_000;
    req.gas_price = Some(1_000);
    // allowance = (2_100_000 - 100_000) / 1_000 = 2_000
    let r = ex.estimate_gas_with(env(), req, s, None);
    assert!(matches!(
        r,
        Err(EstimateError::GasRequiredExceedsAllowance { gas_limit: 2_000 })
    ));
}

#[test]
fn scenario_e_refund_exercises_optimistic_guess() {
    let ex = refund_executor();
    let r = ex.estimate_gas_with(env(), request_to(2), state_contract(), None);
    // The optimistic probe runs at (30_000 + 10_000 + 2_300) * 64 / 63 =
    // 42_971 and succeeds; the search then narrows to 40_133.
    assert_eq!(r.unwrap(), 40_133);
}

#[test]
fn minimality_within_tolerance_against_linear_search() {
    let ex = refund_executor();
    let estimate = ex
        .estimate_gas_with(env(), request_to(2), state_contract(), None)
        .unwrap();
    // Exhaustive linear search for the true minimum limit that succeeds.
    let mut true_minimum = None;
    let mut g = 39_900u64;
    while g <= 40_100 {
        let res = ex.transact(&state_contract(), &env(), &tx_at_limit(g));
        if matches!(res, Ok(r) if r.is_success()) {
            true_minimum = Some(g);
            break;
        }
        g += 1;
    }
    let true_minimum = true_minimum.unwrap();
    assert_eq!(true_minimum, 40_000);
    assert!(estimate >= true_minimum);
    // (estimate - true_minimum) / estimate < 15 / 1000
    assert!((estimate - true_minimum) * 1_000 < 15 * estimate);
}

#[test]
fn determinism_identical_inputs_identical_result() {
    let ex = refund_executor();
    let r1 = ex.estimate_gas_with(env(), request_to(2), state_contract(), None);
    let r2 = ex.estimate_gas_with(env(), request_to(2), state_contract(), None);
    assert_eq!(r1.unwrap(), r2.unwrap());
}

#[test]
fn answer_validity_reexecution_succeeds() {
    let ex = refund_executor();
    let estimate = ex
        .estimate_gas_with(env(), request_to(2), state_contract(), None)
        .unwrap();
    let res = ex.transact(&state_contract(), &env(), &tx_at_limit(estimate)).unwrap();
    assert!(res.is_success());
}

#[test]
fn short_circuit_and_search_agree_within_tolerance() {
    let ex = ThresholdExecutor {
        floor: 0,
        threshold: 21_000,
        gas_used: 21_000,
        gas_refunded: 0,
        halt_reason: 0,
    };
    // Code-free callee: the short-circuit answers with the minimum gas.
    let short = ex
        .estimate_gas_with(env(), request_to(2), state_transfer(), None)
        .unwrap();
    assert_eq!(short, MIN_TRANSACTION_GAS);
    // Same executor behind a callee with code: the full search runs and
    // stops within the tolerance above the same minimum.
    let searched = ex
        .estimate_gas_with(env(), request_to(2), state_contract(), None)
        .unwrap();
    assert_eq!(searched, 21_165);
    assert!(short <= searched);
    assert!((searched - short) * 1_000 < 15 * searched);
    // Both answers are limits at which the transaction succeeds.
    assert!(ex.transact(&state_transfer(), &env(), &tx_at_limit(short)).unwrap().is_success());
    assert!(ex.transact(&state_contract(), &env(), &tx_at_limit(searched)).unwrap().is_success());
}

#[test]
fn halt_at_full_ceiling_surfaces_halt_error() {
    let ex = ThresholdExecutor {
        floor: 21_000,
        threshold: 40_000_000,
        gas_used: 30_000,
        gas_refunded: 0,
        halt_reason: 9,
    };
    let r = ex.estimate_gas_with(env(), request_to(2), state_contract(), None);
    assert!(matches!(
        r,
        Err(EstimateError::Halt { reason: 9, gas_limit: BLOCK_GAS_LIMIT })
    ));
}

#[test]
fn revert_with_user_limit_but_success_at_block_limit_is_basic_out_of_gas() {
    let ex = RevertThresholdExecutor {
        threshold: 2_000_000,
        gas_used: 1_500_000,
        output: vec![0x01],
    };
    let mut req = request_to(2);
    req.gas = Some(1_000_000);
    let r = ex.estimate_gas_with(env(), req, state_contract(), None);
    assert!(matches!(
        r,
        Err(EstimateError::BasicOutOfGas { gas_limit: 1_000_000 })
    ));
}

#[test]
fn gas_too_high_without_user_values_propagates_raw() {
    let ex = ClassifyingExecutor { limit_cap: 20_000_000, gas_used: 21_000 };
    // The probe runs at the block's 30M limit, above the classifier's
    // cap, and no gas values were caller-specified.
    let r = ex.estimate_gas_with(env(), request_to(2), state_contract(), None);
    assert!(matches!(r, Err(EstimateError::Execution(ExecError::GasTooHigh))));
}

#[test]
fn gas_too_high_with_user_values_goes_through_disambiguator() {
    let ex = ClassifyingExecutor { limit_cap: 20_000_000, gas_used: 21_000 };
    let mut req = request_to(2);
    req.gas = Some(25_000_000);
    // The re-execution at the block's full limit is classified too, and
    // that executor-level error is returned as-is.
    let r = ex.estimate_gas_with(env(), req, state_contract(), None);
    assert!(matches!(r, Err(EstimateError::Execution(ExecError::GasTooHigh))));
}

#[test]
fn classified_limit_below_cap_still_searches() {
    let ex = ClassifyingExecutor { limit_cap: 20_000_000, gas_used: 21_000 };
    let mut req = request_to(2);
    req.gas = Some(10_000_000);
    let estimate = ex.estimate_gas_with(env(), req, state_contract(), None).unwrap();
    assert!(estimate >= 21_000);
    assert!(ex.transact(&state_contract(), &env(), &tx_at_limit(estimate)).unwrap().is_success());
}

#[test]
fn malformed_override_is_rejected() {
    let ex = refund_executor();
    let overrides = vec![(
        5u64,
        AccountOverride {
            balance: None,
            nonce: None,
            code: None,
            state: Some(vec![(1, 2)]),
            state_diff: Some(vec![(3, 4)]),
        },
    )];
    let r = ex.estimate_gas_with(env(), request_to(2), state_contract(), Some(overrides));
    assert!(matches!(r, Err(EstimateError::BothStateAndStateDiff)));
}

#[test]
fn balance_override_caps_the_allowance() {
    let ex = ThresholdExecutor {
        floor: 21_000,
        threshold: 21_000,
        gas_used: 21_000,
        gas_refunded: 0,
        halt_reason: 0,
    };
    let mut req = request_to(2);
    req.value = 100_000;
    req.gas_price = Some(1_000);
    let overrides = vec![(
        1u64,
        AccountOverride {
            balance: Some(2_100_000),
            nonce: None,
            code: None,
            state: None,
            state_diff: None,
        },
    )];
    // The snapshot's huge balance is overridden down to 2_100_000, so the
    // allowance caps the probe at 2_000 gas, below the executor's floor.
    let r = ex.estimate_gas_with(env(), req, state_contract(), Some(overrides));
    assert!(matches!(
        r,
        Err(EstimateError::GasRequiredExceedsAllowance { gas_limit: 2_000 })
    ));
}

#[test]
fn range_update_success_lowers_the_ceiling() {
    let mut highest = 100_000u64;
    let mut lowest = 10_000u64;
    let r = update_estimated_gas_range(
        ExecutionResult::Success { gas_used: 42_000, gas_refunded: 0 },
        50_000,
        &mut highest,
        &mut lowest,
    );
    assert!(r.is_ok());
    assert_eq!(highest, 50_000);
    assert_eq!(lowest, 10_000);
}

#[test]
fn range_update_revert_raises_the_floor() {
    let mut highest = 100_000u64;
    let mut lowest = 10_000u64;
    let r = update_estimated_gas_range(
        ExecutionResult::Revert { gas_used: 50_000, output: vec![] },
        50_000,
        &mut highest,
        &mut lowest,
    );
    assert!(r.is_ok());
    assert_eq!(highest, 100_000);
    assert_eq!(lowest, 50_000);
}

#[test]
fn range_update_halt_is_treated_like_revert() {
    let mut highest = 100_000u64;
    let mut lowest = 10_000u64;
    let r = update_estimated_gas_range(
        ExecutionResult::Halt { reason: 3, gas_used: 50_000 },
        50_000,
        &mut highest,
        &mut lowest,
    );
    assert!(r.is_ok());
    assert_eq!(highest, 100_000);
    assert_eq!(lowest, 50_000);
}

#[test]
fn executor_error_classification_predicates() {
    assert!(ExecError::GasTooHigh.is_gas_too_high());
    assert!(!ExecError::GasTooHigh.is_gas_too_low());
    assert!(ExecError::GasTooLow.is_gas_too_low());
    assert!(!ExecError::GasTooLow.is_gas_too_high());
    assert!(!ExecError::Other(3).is_gas_too_high());
    assert!(!ExecError::Other(3).is_gas_too_low());
}

#[test]
fn execution_result_accessors() {
    let s = ExecutionResult::Success { gas_used: 7, gas_refunded: 1 };
    let r = ExecutionResult::Revert { gas_used: 8, output: vec![1] };
    let h = ExecutionResult::Halt { reason: 2, gas_used: 9 };
    assert!(s.is_success());
    assert!(!r.is_success());
    assert!(!h.is_success());
    assert_eq!(s.gas_used(), 7);
    assert_eq!(r.gas_used(), 8);
    assert_eq!(h.gas_used(), 9);
}
