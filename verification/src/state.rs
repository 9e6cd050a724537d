//! The state snapshot an estimation runs against: a copy-on-write account
//! store patched once by caller-supplied overrides before any execution.

use vstd::prelude::*;
use std::collections::HashMap;
use crate::types::{copy_values, Address};

verus! {

broadcast use vstd::std_specs::hash::group_hash_axioms;

/// One account of the snapshot.
#[derive(Debug)]
pub struct AccountInfo {
    /// Balance in wei.
    pub balance: u128,
    /// Next nonce.
    pub nonce: u64,
    /// Contract code; empty for a plain account.
    pub code: Vec<u8>,
    /// Storage slots, as (slot, value) writes; a later write shadows an
    /// earlier one for the same slot.
    pub storage: Vec<(u128, u128)>,
}

/// The mathematical value of an [`AccountInfo`].
pub struct AccountSpec {
    /// Balance in wei.
    pub balance: u128,
    /// Next nonce.
    pub nonce: u64,
    /// Contract code; empty for a plain account.
    pub code: Seq<u8>,
    /// Storage slots, as (slot, value) writes.
    pub storage: Seq<(u128, u128)>,
}

impl View for AccountInfo {
    type V = AccountSpec;

    open spec fn view(&self) -> AccountSpec {
        AccountSpec {
            balance: self.balance,
            nonce: self.nonce,
            code: self.code@,
            storage: self.storage@,
        }
    }
}

/// The account every lookup of an absent address yields: zero balance,
/// zero nonce, no code, no storage.
pub open spec fn empty_account() -> AccountSpec {
    AccountSpec { balance: 0, nonce: 0, code: Seq::empty(), storage: Seq::empty() }
}

/// The account the snapshot holds at `addr`, or the empty account.
pub open spec fn account_at(m: Map<Address, AccountSpec>, addr: Address) -> AccountSpec {
    if m.contains_key(addr) {
        m[addr]
    } else {
        empty_account()
    }
}

/// A caching read-only view over one block's account state, owned by a
/// single estimation request.
#[derive(Debug)]
pub struct StateSnapshot {
    /// The accounts of the snapshot, keyed by address.
    pub accounts: HashMap<Address, AccountInfo>,
}

impl View for StateSnapshot {
    type V = Map<Address, AccountSpec>;

    open spec fn view(&self) -> Map<Address, AccountSpec> {
        self.accounts@.map_values(|a: AccountInfo| a@)
    }
}

impl StateSnapshot {
    /// An empty snapshot.
    pub fn new() -> (s: StateSnapshot)
        ensures
            s@ == Map::<Address, AccountSpec>::empty(),
    {
        let s = StateSnapshot { accounts: HashMap::new() };
        proof {
            assert(s@ =~= Map::<Address, AccountSpec>::empty());
        }
        s
    }

    /// Puts an account into the snapshot, replacing any account already
    /// held at that address.
    pub fn insert_account(&mut self, addr: Address, info: AccountInfo)
        ensures
            final(self)@ == old(self)@.insert(addr, info@),
    {
        let ghost pre = self.accounts@;
        self.accounts.insert(addr, info);
        proof {
            assert(final(self)@ =~= old(self)@.insert(addr, info@));
        }
    }

    /// The balance of the account at `addr`; an absent account has balance
    /// zero.
    pub fn account_balance(&self, addr: Address) -> (b: u128)
        ensures
            b == account_at(self@, addr).balance,
    {
        match self.accounts.get(&addr) {
            Some(a) => a.balance,
            None => 0,
        }
    }

    /// The code of the account at `addr`, or `None` for an absent account.
    pub fn account_code(&self, addr: Address) -> (r: Option<&Vec<u8>>)
        ensures
            match r {
                Some(c) => self@.contains_key(addr) && c@ == self@[addr].code,
                None => !self@.contains_key(addr),
            },
    {
        match self.accounts.get(&addr) {
            Some(a) => Some(&a.code),
            None => None,
        }
    }

    /// Whether the account at `addr` has no code; an absent account has
    /// none.
    pub fn has_no_code(&self, addr: Address) -> (r: bool)
        ensures
            r == (account_at(self@, addr).code.len() == 0),
    {
        match self.account_code(addr) {
            Some(c) => c.len() == 0,
            None => true,
        }
    }

    /// The full account at `addr`, or the empty account for an absent one.
    pub fn account_or_default(&self, addr: Address) -> (a: AccountInfo)
        ensures
            a@ == account_at(self@, addr),
    {
        match self.accounts.get(&addr) {
            Some(a) => AccountInfo {
                balance: a.balance,
                nonce: a.nonce,
                code: copy_values(&a.code),
                storage: copy_values(&a.storage),
            },
            None => AccountInfo { balance: 0, nonce: 0, code: Vec::new(), storage: Vec::new() },
        }
    }
}

/// A caller-supplied temporary modification of one account, applied for
/// the duration of a single estimation call.
#[derive(Debug)]
pub struct AccountOverride {
    /// Replaces the balance.
    pub balance: Option<u128>,
    /// Replaces the nonce.
    pub nonce: Option<u64>,
    /// Replaces the code.
    pub code: Option<Vec<u8>>,
    /// Replaces the whole storage.
    pub state: Option<Vec<(u128, u128)>>,
    /// Patches single storage slots, keeping the rest.
    pub state_diff: Option<Vec<(u128, u128)>>,
}

/// A caller-supplied override set: per-address account overrides, applied
/// in order.
pub type StateOverride = Vec<(Address, AccountOverride)>;

/// An override entry is malformed when it replaces the whole storage and
/// patches single slots at the same time.
pub open spec fn override_conflicts(ov: AccountOverride) -> bool {
    ov.state is Some && ov.state_diff is Some
}

/// Whether any entry of the override set is malformed.
pub open spec fn has_override_conflict(s: Seq<(Address, AccountOverride)>) -> bool {
    exists|i: int| 0 <= i < s.len() && override_conflicts(#[trigger] s[i].1)
}

/// The account that results from one override, applied to `a`.
pub open spec fn account_after_override(a: AccountSpec, ov: AccountOverride) -> AccountSpec {
    AccountSpec {
        balance: if ov.balance is Some { ov.balance->0 } else { a.balance },
        nonce: if ov.nonce is Some { ov.nonce->0 } else { a.nonce },
        code: if ov.code is Some { ov.code->0@ } else { a.code },
        storage: if ov.state is Some {
            ov.state->0@
        } else if ov.state_diff is Some {
            a.storage + ov.state_diff->0@
        } else {
            a.storage
        },
    }
}

/// The snapshot view after the override entries of `s` are applied to `m`
/// in order.
pub open spec fn apply_overrides_spec(
    m: Map<Address, AccountSpec>,
    s: Seq<(Address, AccountOverride)>,
) -> Map<Address, AccountSpec>
    decreases s.len(),
{
    if s.len() == 0 {
        m
    } else {
        let prev = apply_overrides_spec(m, s.drop_last());
        let (addr, ov) = s.last();
        prev.insert(addr, account_after_override(account_at(prev, addr), ov))
    }
}

/// Applies a caller-supplied override set to the snapshot, in order.
/// Fails, and leaves the snapshot in an unspecified partially-patched
/// shape, when an entry is malformed; the caller then discards the
/// snapshot.
pub fn apply_state_overrides(overrides: StateOverride, state: &mut StateSnapshot) -> (r: Result<
    (),
    crate::outcome::EstimateError,
>)
    ensures
        r is Ok <==> !has_override_conflict(overrides@),
        r is Ok ==> final(state)@ == apply_overrides_spec(old(state)@, overrides@),
        r is Err ==> r->Err_0 == crate::outcome::EstimateError::BothStateAndStateDiff,
{
    let mut i: usize = 0;
    while i < overrides.len()
        invariant
            i <= overrides.len(),
            !has_override_conflict(overrides@.take(i as int)),
            state@ == apply_overrides_spec(old(state)@, overrides@.take(i as int)),
        decreases overrides.len() - i,
    {
        let addr = overrides[i].0;
        let ov = &overrides[i].1;
        if ov.state.is_some() && ov.state_diff.is_some() {
            proof {
                assert(override_conflicts(overrides@[i as int].1));
            }
            return Err(crate::outcome::EstimateError::BothStateAndStateDiff);
        }
        let cur = state.account_or_default(addr);
        let new_balance = match ov.balance {
            Some(b) => b,
            None => cur.balance,
        };
        let new_nonce = match ov.nonce {
            Some(n) => n,
            None => cur.nonce,
        };
        let new_code = match &ov.code {
            Some(c) => copy_values(c),
            None => cur.code,
        };
        let new_storage = match (&ov.state, &ov.state_diff) {
            (Some(s), _) => copy_values(s),
            (None, Some(d)) => {
                let mut st = cur.storage;
                let mut j: usize = 0;
                while j < d.len()
                    invariant
                        j <= d.len(),
                        st@ == cur.storage@ + d@.take(j as int),
                    decreases d.len() - j,
                {
                    st.push(d[j]);
                    j = j + 1;
                    proof {
                        assert(st@ =~= cur.storage@ + d@.take(j as int));
                    }
                }
                proof {
                    assert(cur.storage@ + d@.take(d@.len() as int) =~= cur.storage@ + d@);
                }
                st
            },
            (None, None) => cur.storage,
        };
        let info = AccountInfo {
            balance: new_balance,
            nonce: new_nonce,
            code: new_code,
            storage: new_storage,
        };
        proof {
            assert(info@ == account_after_override(account_at(state@, addr), overrides@[i as int].1));
        }
        state.insert_account(addr, info);
        i = i + 1;
        proof {
            assert(overrides@.take(i as int).drop_last() =~= overrides@.take(i as int - 1));
            assert(overrides@.take(i as int).last() == overrides@[i as int - 1]);
            assert(forall|k: int| 0 <= k < i ==> overrides@.take(i as int)[k] == overrides@[k]);
        }
    }
    proof {
        assert(overrides@.take(overrides@.len() as int) =~= overrides@);
    }
    Ok(())
}

} // verus!
