//! The vault: the whole pool state in one value, with its invariant.
//!
//! The invariant ties four ghost meters (income settled, fees accrued,
//! rewards paid, fees paid) to the concrete state. Its heart is a debt
//! inequality: the outstanding, not-yet-settled reward debt of all
//! depositors, plus everything already paid or earmarked, never exceeds the
//! income that has been settled in — which is why the pool can never pay
//! out more than it received.

use vstd::prelude::*;
use vstd::arithmetic::div_mod::lemma_fundamental_div_mod;
use crate::fixed::{Ratio, FRAC};
use crate::state::{owed_of, Config, RewardAction, StakingInfo, TokenInfo, MAX_WHOLE};

verus! {

/// One depositor's entry in the stake ledger.
#[derive(Clone, PartialEq, Eq, Debug)]
pub struct StakeEntry {
    /// The depositor's address.
    pub address: String,
    /// The depositor's stake record.
    pub info: StakingInfo,
}

/// Sum of all stakes in the ledger.
pub open spec fn sum_stakes(s: Seq<StakeEntry>) -> int
    decreases s.len(),
{
    if s.len() == 0 {
        0
    } else {
        sum_stakes(s.drop_last()) + s.last().info.stake
    }
}

/// One record's outstanding reward debt under accumulator `power`, in
/// atomic units and before flooring: `(power - snapshot) * stake`.
pub open spec fn debt_of(info: StakingInfo, power: Ratio) -> int {
    if info.power_diff.atomics <= power.atomics {
        (power.atomics - info.power_diff.atomics) * info.stake
    } else {
        0
    }
}

/// Total outstanding reward debt of the ledger under accumulator `power`.
pub open spec fn sum_debt(s: Seq<StakeEntry>, power: Ratio) -> int
    decreases s.len(),
{
    if s.len() == 0 {
        0
    } else {
        sum_debt(s.drop_last(), power) + debt_of(s.last().info, power)
    }
}

/// Whether some entry carries this address.
pub open spec fn has_staker(s: Seq<StakeEntry>, addr: Seq<char>) -> bool {
    exists|i: int| 0 <= i < s.len() && s[i].address@ == addr
}

/// The index carrying this address (meaningful when addresses are unique
/// and `has_staker` holds).
pub open spec fn staker_idx(s: Seq<StakeEntry>, addr: Seq<char>) -> int {
    choose|i: int| 0 <= i < s.len() && s[i].address@ == addr
}

/// The stake record of this address; an absent record reads as the default
/// record (zero stake, snapshot 0).
pub open spec fn stake_info_of(s: Seq<StakeEntry>, addr: Seq<char>) -> StakingInfo {
    if has_staker(s, addr) {
        s[staker_idx(s, addr)].info
    } else {
        StakingInfo { stake: 0, power_diff: Ratio { atomics: 0 } }
    }
}

/// The whole state of one staking pool.
pub struct Vault {
    /// Pool configuration.
    pub config: Config,
    /// Pool totals: total staked, accumulator, pending fee balances.
    pub totals: TokenInfo,
    /// The stake ledger, one entry per depositor, addresses unique.
    pub stakes: Vec<StakeEntry>,
    /// The pending-action slot.
    pub reward_action: RewardAction,
    /// Total income ever settled into the pool (ghost meter).
    pub income_settled: Ghost<int>,
    /// Total treasury+secondary cuts ever taken at settlement (ghost meter).
    pub fees_accrued: Ghost<int>,
    /// Total reward transfers ever emitted to depositors (ghost meter).
    pub rewards_paid: Ghost<int>,
    /// Total fee withdrawals ever transferred out (ghost meter).
    pub fees_paid: Ghost<int>,
}

impl Vault {
    /// The vault invariant. Every handler requires and preserves it.
    pub open spec fn wf(self) -> bool {
        &&& self.config.fees_wf()
        &&& self.totals.staked <= MAX_WHOLE
        &&& sum_stakes(self.stakes@) == self.totals.staked
        &&& (forall|i: int|
            0 <= i < self.stakes@.len() ==> (
            #[trigger] self.stakes@[i]).info.power_diff.atomics <= self.totals.power.atomics)
        &&& (forall|i: int, j: int|
            0 <= i < j < self.stakes@.len() ==> self.stakes@[i].address@
                != self.stakes@[j].address@)
        &&& self.income_settled@ >= 0
        &&& self.fees_accrued@ >= 0
        &&& self.rewards_paid@ >= 0
        &&& self.fees_paid@ >= 0
        &&& self.fees_paid@ + self.totals.pending_treasury_rewards
            + self.totals.pending_syne_staking_rewards <= self.fees_accrued@
        &&& sum_debt(self.stakes@, self.totals.power) + (self.rewards_paid@
            + self.fees_accrued@) * FRAC <= self.income_settled@ * FRAC
    }

    /// Whether the pending-action slot is occupied.
    pub open spec fn slot_busy(self) -> bool {
        !(self.reward_action is NoAction)
    }
}

/// Sums of stakes are non-negative.
pub proof fn lemma_sum_stakes_nonneg(s: Seq<StakeEntry>)
    ensures
        sum_stakes(s) >= 0,
    decreases s.len(),
{
    if s.len() > 0 {
        lemma_sum_stakes_nonneg(s.drop_last());
    }
}

/// Each single stake is at most the sum of all stakes.
pub proof fn lemma_stake_le_sum(s: Seq<StakeEntry>, i: int)
    requires
        0 <= i < s.len(),
    ensures
        s[i].info.stake <= sum_stakes(s),
    decreases s.len(),
{
    if i == s.len() - 1 {
        lemma_sum_stakes_nonneg(s.drop_last());
    } else {
        lemma_stake_le_sum(s.drop_last(), i);
    }
}

/// Replacing one entry shifts the sum of stakes by the difference of the
/// two stakes.
pub proof fn lemma_sum_stakes_update(s: Seq<StakeEntry>, i: int, e: StakeEntry)
    requires
        0 <= i < s.len(),
    ensures
        sum_stakes(s.update(i, e)) == sum_stakes(s) - s[i].info.stake + e.info.stake,
    decreases s.len(),
{
    let t = s.update(i, e);
    if i == s.len() - 1 {
        assert(t.drop_last() =~= s.drop_last());
    } else {
        assert(t.drop_last() =~= s.drop_last().update(i, e));
        lemma_sum_stakes_update(s.drop_last(), i, e);
    }
}

/// Appending an entry adds its stake to the sum.
pub proof fn lemma_sum_stakes_push(s: Seq<StakeEntry>, e: StakeEntry)
    ensures
        sum_stakes(s.push(e)) == sum_stakes(s) + e.info.stake,
{
    assert(s.push(e).drop_last() =~= s);
}

/// Debts are non-negative term by term, hence in sum.
pub proof fn lemma_sum_debt_nonneg(s: Seq<StakeEntry>, power: Ratio)
    ensures
        sum_debt(s, power) >= 0,
    decreases s.len(),
{
    if s.len() > 0 {
        lemma_sum_debt_nonneg(s.drop_last(), power);
        let info = s.last().info;
        if info.power_diff.atomics <= power.atomics {
            assert((power.atomics - info.power_diff.atomics) * info.stake >= 0)
                by (nonlinear_arith)
                requires
                    power.atomics - info.power_diff.atomics >= 0,
                    info.stake >= 0,
            ;
        }
    }
}

/// Replacing one entry shifts the total debt by the difference of the two
/// entries' debts.
pub proof fn lemma_sum_debt_update(s: Seq<StakeEntry>, i: int, e: StakeEntry, power: Ratio)
    requires
        0 <= i < s.len(),
    ensures
        sum_debt(s.update(i, e), power) == sum_debt(s, power) - debt_of(s[i].info, power)
            + debt_of(e.info, power),
    decreases s.len(),
{
    let t = s.update(i, e);
    if i == s.len() - 1 {
        assert(t.drop_last() =~= s.drop_last());
    } else {
        assert(t.drop_last() =~= s.drop_last().update(i, e));
        lemma_sum_debt_update(s.drop_last(), i, e, power);
    }
}

/// Appending an entry adds its debt to the total debt.
pub proof fn lemma_sum_debt_push(s: Seq<StakeEntry>, e: StakeEntry, power: Ratio)
    ensures
        sum_debt(s.push(e), power) == sum_debt(s, power) + debt_of(e.info, power),
{
    assert(s.push(e).drop_last() =~= s);
}

/// Raising the accumulator from `p` to `q` raises the total debt by the
/// rise times the total stake — the accounting heart of a settlement.
pub proof fn lemma_sum_debt_raise(s: Seq<StakeEntry>, p: Ratio, q: Ratio)
    requires
        forall|i: int|
            0 <= i < s.len() ==> (#[trigger] s[i]).info.power_diff.atomics <= p.atomics,
        p.atomics <= q.atomics,
    ensures
        sum_debt(s, q) == sum_debt(s, p) + (q.atomics - p.atomics) * sum_stakes(s),
    decreases s.len(),
{
    let d = q.atomics - p.atomics;
    if s.len() == 0 {
        assert(d * 0 == 0) by (nonlinear_arith);
    } else {
        lemma_sum_debt_raise(s.drop_last(), p, q);
        let info = s.last().info;
        assert((q.atomics - info.power_diff.atomics) * info.stake == (p.atomics
            - info.power_diff.atomics) * info.stake + d * info.stake) by (nonlinear_arith)
            requires
                d == q.atomics - p.atomics,
        ;
        assert(d * sum_stakes(s.drop_last()) + d * info.stake == d * (sum_stakes(s.drop_last())
            + info.stake)) by (nonlinear_arith);
    }
}

/// A floored payout never exceeds the debt it settles: `owed * 10^18` is at
/// most `(power - snapshot) * stake`.
pub proof fn lemma_owed_le_debt(power: Ratio, info: StakingInfo)
    ensures
        owed_of(power, info.power_diff, info.stake) >= 0,
        owed_of(power, info.power_diff, info.stake) * FRAC <= debt_of(info, power),
{
    let diff: int = if info.power_diff.atomics <= power.atomics {
        power.atomics - info.power_diff.atomics
    } else {
        0
    };
    let d = diff * info.stake;
    assert(d >= 0) by (nonlinear_arith)
        requires
            diff >= 0,
            info.stake >= 0,
            d == diff * info.stake,
    ;
    if d <= u128::MAX {
        let f = FRAC as int;
        lemma_fundamental_div_mod(d, f);
        assert(d / f >= 0 && (d / f) * f <= d) by (nonlinear_arith)
            requires
                d >= 0,
                f > 0,
                d == f * (d / f) + d % f,
                0 <= d % f < f,
        ;
    }
}

/// In a ledger with unique addresses, an entry carrying the address pins
/// down `staker_idx`.
pub proof fn lemma_idx_unique(s: Seq<StakeEntry>, addr: Seq<char>, i: int)
    requires
        0 <= i < s.len(),
        s[i].address@ == addr,
        forall|a: int, b: int| 0 <= a < b < s.len() ==> s[a].address@ != s[b].address@,
    ensures
        has_staker(s, addr),
        staker_idx(s, addr) == i,
{
    assert(has_staker(s, addr));
    let k = staker_idx(s, addr);
    assert(0 <= k < s.len() && s[k].address@ == addr);
    if k < i {
        assert(s[k].address@ != s[i].address@);
    } else if i < k {
        assert(s[i].address@ != s[k].address@);
    }
}

/// Find the ledger entry of an address, if any.
pub fn find_staker(stakes: &Vec<StakeEntry>, addr: &String) -> (r: Option<usize>)
    ensures
        match r {
            Some(i) => 0 <= i < stakes@.len() && stakes@[i as int].address@ == addr@,
            None => !has_staker(stakes@, addr@),
        },
{
    let n = stakes.len();
    for i in 0..n
        invariant
            n == stakes@.len(),
            forall|j: int| 0 <= j < i ==> (#[trigger] stakes@[j]).address@ != addr@,
    {
        if stakes[i].address == *addr {
            return Some(i);
        }
    }
    None
}

/// Set up a fresh pool: empty ledger, empty slot, accumulator at 0, and the
/// default fee configuration (treasury fee 0.2, secondary fee 0, cap 0.3,
/// treasury-fee floor 0.05). `min_bond` is raised to at least 1; `sender`
/// becomes the exclusive income trigger.
pub fn instantiate(
    admin: String,
    token: String,
    loop_protocol_staking: String,
    sender: String,
    min_bond: u128,
) -> (v: Vault)
    ensures
        v.wf(),
        !v.slot_busy(),
        v.config.admin == admin,
        v.config.token == token,
        v.config.loop_protocol_staking == loop_protocol_staking,
        v.config.bloop_converter_and_staker == sender,
        v.config.min_bond == if min_bond >= 1 {
            min_bond
        } else {
            1u128
        },
        v.config.treasury_wallet is None,
        v.config.treasury_withdrawer is None,
        v.config.syne_staking_reward_distributor is None,
        v.config.treasury_fee.atomics == 200_000_000_000_000_000u128,
        v.config.syne_staking_fee.atomics == 0,
        v.config.total_fee_cap.atomics == 300_000_000_000_000_000u128,
        v.config.treasury_fee_limit.atomics == 50_000_000_000_000_000u128,
        v.totals.staked == 0,
        v.totals.power.atomics == 0,
        v.totals.pending_treasury_rewards == 0,
        v.totals.pending_syne_staking_rewards == 0,
        v.stakes@.len() == 0,
        v.income_settled@ == 0,
        v.fees_accrued@ == 0,
        v.rewards_paid@ == 0,
        v.fees_paid@ == 0,
{
    let config = Config {
        admin,
        token,
        bloop_converter_and_staker: sender,
        min_bond: if min_bond >= 1 {
            min_bond
        } else {
            1u128
        },
        loop_protocol_staking,
        treasury_wallet: None,
        treasury_withdrawer: None,
        syne_staking_reward_distributor: None,
        treasury_fee: Ratio { atomics: 200_000_000_000_000_000u128 },
        syne_staking_fee: Ratio { atomics: 0 },
        total_fee_cap: Ratio { atomics: 300_000_000_000_000_000u128 },
        treasury_fee_limit: Ratio { atomics: 50_000_000_000_000_000u128 },
        duration: 12u64,
    };
    let v = Vault {
        config,
        totals: TokenInfo {
            staked: 0,
            pending_treasury_rewards: 0,
            pending_syne_staking_rewards: 0,
            power: Ratio { atomics: 0 },
        },
        stakes: Vec::new(),
        reward_action: RewardAction::NoAction,
        income_settled: Ghost(0),
        fees_accrued: Ghost(0),
        rewards_paid: Ghost(0),
        fees_paid: Ghost(0),
    };
    proof {
        assert(0 * (FRAC as int) == 0) by (nonlinear_arith);
    }
    v
}

/// Set up a fresh pool under an explicit configuration whose fees respect
/// the cap: empty ledger, empty slot, accumulator at 0.
pub fn vault_with_config(config: Config) -> (v: Vault)
    requires
        config.fees_wf(),
    ensures
        v.wf(),
        !v.slot_busy(),
        v.config == config,
        v.totals.staked == 0,
        v.totals.power.atomics == 0,
        v.totals.pending_treasury_rewards == 0,
        v.totals.pending_syne_staking_rewards == 0,
        v.stakes@.len() == 0,
        v.income_settled@ == 0,
        v.fees_accrued@ == 0,
        v.rewards_paid@ == 0,
        v.fees_paid@ == 0,
{
    let v = Vault {
        config,
        totals: TokenInfo {
            staked: 0,
            pending_treasury_rewards: 0,
            pending_syne_staking_rewards: 0,
            power: Ratio { atomics: 0 },
        },
        stakes: Vec::new(),
        reward_action: RewardAction::NoAction,
        income_settled: Ghost(0),
        fees_accrued: Ghost(0),
        rewards_paid: Ghost(0),
        fees_paid: Ghost(0),
    };
    proof {
        assert(0 * (FRAC as int) == 0) by (nonlinear_arith);
    }
    v
}

} // verus!
