//! Core value types of the estimation engine: the execution environment,
//! transaction requests and the per-probe transaction environment.

use vstd::prelude::*;

verus! {

/// An account address, modelled as a plain integer key.
pub type Address = u64;

/// The intrinsic cost of a plain transaction: the protocol-minimum gas.
pub const MIN_TRANSACTION_GAS: u64 = 21_000;

/// The fixed gas stipend forwarded to a call.
pub const CALL_STIPEND_GAS: u64 = 2_300;

/// Numerator of the relative-error tolerance at which the search stops
/// (the ratio is 15 / 1000, i.e. 1.5%).
pub const ESTIMATE_GAS_ERROR_NUMER: u64 = 15;

/// Denominator of the relative-error tolerance at which the search stops.
pub const ESTIMATE_GAS_ERROR_DENOM: u64 = 1_000;

/// Copies a vector of plain values element by element.
pub(crate) fn copy_values<T: Copy>(v: &Vec<T>) -> (r: Vec<T>)
    ensures
        r@ == v@,
{
    let mut r: Vec<T> = Vec::new();
    let mut i: usize = 0;
    while i < v.len()
        invariant
            i <= v.len(),
            r@ == v@.take(i as int),
        decreases v.len() - i,
    {
        r.push(v[i]);
        i = i + 1;
        proof {
            assert(r@ =~= v@.take(i as int));
        }
    }
    proof {
        assert(v@.take(v.len() as int) =~= v@);
    }
    r
}

/// Chain-level configuration flags of one execution.
#[derive(Clone, Copy, Debug, PartialEq, Eq, Structural)]
pub struct CfgEnv {
    /// When set, the executor skips the check that the sender has no code.
    pub disable_eip3607: bool,
    /// When set, the executor ignores the block's base-fee floor.
    pub disable_base_fee: bool,
}

/// The block context an execution runs in.
#[derive(Clone, Copy, Debug, PartialEq, Eq, Structural)]
pub struct BlockEnv {
    /// Block number.
    pub number: u64,
    /// Block timestamp.
    pub timestamp: u64,
    /// The block's gas limit: the ceiling of every search.
    pub gas_limit: u64,
    /// The block's base fee per gas.
    pub basefee: u64,
}

/// The immutable-per-call execution environment.
#[derive(Clone, Copy, Debug, PartialEq, Eq, Structural)]
pub struct EvmEnv {
    /// Chain configuration flags.
    pub cfg_env: CfgEnv,
    /// Block context.
    pub block_env: BlockEnv,
}

/// The target of a transaction: a call to an address, or a creation.
#[derive(Clone, Copy, Debug, PartialEq, Eq, Structural)]
pub enum TxKind {
    /// Deploys new code.
    Create,
    /// Calls the account at the given address.
    Call(Address),
}

/// A caller-facing transaction request, before it is turned into a
/// transaction environment.
#[derive(Debug)]
pub struct TransactionRequest {
    /// The sender.
    pub from: Address,
    /// Call target or creation.
    pub to: TxKind,
    /// Caller-specified gas limit, if any.
    pub gas: Option<u64>,
    /// Caller-specified gas price, if any.
    pub gas_price: Option<u128>,
    /// Value transferred with the transaction.
    pub value: u128,
    /// Call input data.
    pub input: Vec<u8>,
    /// Caller-specified nonce, if any; cleared before estimation.
    pub nonce: Option<u64>,
}

/// The working transaction handed to the executor; its `gas_limit` is the
/// one field the search mutates between probes.
#[derive(Debug)]
pub struct TxEnv {
    /// The sender.
    pub caller: Address,
    /// Call target or creation.
    pub kind: TxKind,
    /// Gas limit of this probe.
    pub gas_limit: u64,
    /// Gas price the sender pays.
    pub gas_price: u128,
    /// Value transferred.
    pub value: u128,
    /// Call input data.
    pub input: Vec<u8>,
    /// Nonce; `None` lets the executor pick the account's next nonce.
    pub nonce: Option<u64>,
}

/// The mathematical value of a [`TxEnv`].
pub struct TxEnvSpec {
    /// The sender.
    pub caller: Address,
    /// Call target or creation.
    pub kind: TxKind,
    /// Gas limit of this probe.
    pub gas_limit: u64,
    /// Gas price the sender pays.
    pub gas_price: u128,
    /// Value transferred.
    pub value: u128,
    /// Call input data.
    pub input: Seq<u8>,
    /// Nonce; `None` lets the executor pick the account's next nonce.
    pub nonce: Option<u64>,
}

impl TxEnvSpec {
    /// The same transaction with another gas limit.
    pub open spec fn with_gas_limit(self, gas_limit: u64) -> TxEnvSpec {
        TxEnvSpec { gas_limit, ..self }
    }
}

impl View for TxEnv {
    type V = TxEnvSpec;

    open spec fn view(&self) -> TxEnvSpec {
        TxEnvSpec {
            caller: self.caller,
            kind: self.kind,
            gas_limit: self.gas_limit,
            gas_price: self.gas_price,
            value: self.value,
            input: self.input@,
            nonce: self.nonce,
        }
    }
}

impl TxEnv {
    /// Replaces the gas limit of the working transaction.
    pub fn set_gas_limit(&mut self, gas_limit: u64)
        ensures
            final(self)@ == old(self)@.with_gas_limit(gas_limit),
    {
        self.gas_limit = gas_limit;
    }
}

} // verus!
