//! The engine's data model: the immutable/admin-mutable configuration, the
//! pool totals, one depositor's stake record, the pending-action slot, and
//! the outbound instructions a handler emits.

use vstd::prelude::*;
use crate::fixed::{Ratio, FRAC};

verus! {

/// Largest whole number that still fits the fixed-point scale:
/// `x * 10^18` fits in a `u128` exactly when `x <= MAX_WHOLE`.
pub const MAX_WHOLE: u128 = u128::MAX / FRAC;

/// Pool configuration. `admin` may update the fields listed on
/// `execute_update_config`; the rest are fixed at instantiation.
#[derive(Clone, PartialEq, Eq, Debug)]
pub struct Config {
    /// Owning admin address.
    pub admin: String,
    /// Address of the staked-asset token contract.
    pub token: String,
    /// The exclusive upstream-income trigger: only this address is trusted
    /// to report that income has been pushed, and it receives the outbound
    /// withdrawal requests.
    pub bloop_converter_and_staker: String,
    /// Minimum stakeable unit.
    pub min_bond: u128,
    /// Upstream staking-module address (query target).
    pub loop_protocol_staking: String,
    /// Destination of treasury-fee withdrawals, when configured.
    pub treasury_wallet: Option<String>,
    /// The only address allowed to trigger treasury-fee withdrawals.
    pub treasury_withdrawer: Option<String>,
    /// Destination of secondary-fee withdrawals, when configured.
    pub syne_staking_reward_distributor: Option<String>,
    /// Treasury fee ratio, applied to each settled income.
    pub treasury_fee: Ratio,
    /// Secondary fee ratio, applied to each settled income.
    pub syne_staking_fee: Ratio,
    /// Hard cap on `treasury_fee + syne_staking_fee`.
    pub total_fee_cap: Ratio,
    /// Floor at or below which `treasury_fee` may not be set.
    pub treasury_fee_limit: Ratio,
    /// Informational staking duration.
    pub duration: u64,
}

impl Config {
    /// The fee configuration is sound: the two fees together stay within
    /// the cap, and the cap never exceeds 1, so the cuts never exceed the
    /// income they are taken from.
    pub open spec fn fees_wf(self) -> bool {
        &&& self.treasury_fee.atomics + self.syne_staking_fee.atomics
            <= self.total_fee_cap.atomics
        &&& self.total_fee_cap.atomics <= FRAC
    }
}

/// The pool totals (one singleton per pool).
#[derive(Clone, Copy, PartialEq, Eq, Structural, Debug)]
pub struct TokenInfo {
    /// Total currently staked across all depositors.
    pub staked: u128,
    /// Treasury-fee balance accrued by settlements and not yet withdrawn.
    pub pending_treasury_rewards: u128,
    /// Secondary-fee balance accrued by settlements and not yet withdrawn.
    pub pending_syne_staking_rewards: u128,
    /// The monotonically non-decreasing per-share reward accumulator.
    pub power: Ratio,
}

impl Default for TokenInfo {
    /// An empty pool: nothing staked, no pending fees, accumulator at 0.
    fn default() -> (r: TokenInfo)
        ensures
            r.staked == 0,
            r.pending_treasury_rewards == 0,
            r.pending_syne_staking_rewards == 0,
            r.power.atomics == 0,
    {
        TokenInfo {
            staked: 0,
            pending_treasury_rewards: 0,
            pending_syne_staking_rewards: 0,
            power: Ratio { atomics: 0 },
        }
    }
}

/// One depositor's stake record. An absent record is equivalent to the
/// default: zero stake, snapshot at 0.
#[derive(Clone, Copy, PartialEq, Eq, Structural, Debug)]
pub struct StakingInfo {
    /// The depositor's current stake.
    pub stake: u128,
    /// Snapshot of the global accumulator as of this depositor's last
    /// settlement.
    pub power_diff: Ratio,
}

impl Default for StakingInfo {
    /// A fresh record: zero stake, snapshot at 0.
    fn default() -> (r: StakingInfo)
        ensures
            r.stake == 0,
            r.power_diff.atomics == 0,
    {
        StakingInfo { stake: 0, power_diff: Ratio { atomics: 0 } }
    }
}

/// The pending-action slot: at most one user operation waits here while an
/// asynchronous income withdrawal from the upstream module is in flight.
#[derive(Clone, PartialEq, Eq, Debug)]
pub enum RewardAction {
    /// The slot is empty.
    NoAction,
    /// A queued reward claim for `address`.
    Reward { address: String },
    /// A queued stake of `amount` by `address`.
    Stake { address: String, amount: u128 },
    /// A queued treasury-fee withdrawal; `None` means the whole balance.
    TreasuryWithdraw { amount: Option<u128> },
    /// A queued secondary-fee withdrawal; `None` means the whole balance.
    SyneStakingRewardWithdraw { amount: Option<u128> },
    /// A queued unstake of `amount` by `address`.
    Unstake { address: String, amount: u128 },
}

/// One outbound transfer-of-asset instruction.
#[derive(Clone, PartialEq, Eq, Debug)]
pub struct Transfer {
    /// Who receives the tokens.
    pub recipient: String,
    /// How many tokens.
    pub amount: u128,
}

/// What a handler emits: at most one withdrawal request to the upstream
/// trigger, and a list of token transfers, executed in order.
#[derive(Clone, PartialEq, Eq, Debug)]
pub struct VaultResponse {
    /// Whether a withdrawal-request instruction to the income trigger is
    /// emitted.
    pub withdraw_request: bool,
    /// The transfer instructions, in emission order.
    pub transfers: Vec<Transfer>,
}

/// The reward owed to a record under accumulator `power`: the floor of
/// `(power - snapshot) * stake`. A snapshot ahead of the accumulator counts
/// as no difference, and a product that cannot be represented in 128 bits
/// yields 0, exactly as the engine computes it.
pub open spec fn owed_of(power: Ratio, snapshot: Ratio, stake: u128) -> int {
    let diff = if snapshot.atomics <= power.atomics {
        power.atomics - snapshot.atomics
    } else {
        0
    };
    if diff * stake <= u128::MAX {
        (diff * stake) / (FRAC as int)
    } else {
        0
    }
}

/// The treasury or secondary cut of `income` under fee ratio `fee`:
/// floor(income * fee).
pub open spec fn cut_of(fee: Ratio, income: u128) -> int {
    (income * fee.atomics) / (FRAC as int)
}

/// What is left of `income` after both cuts.
pub open spec fn net_of(cfg: Config, income: u128) -> int {
    income - cut_of(cfg.treasury_fee, income) - cut_of(cfg.syne_staking_fee, income)
}

/// The per-share accumulator increment a settlement of `income` adds when
/// `staked` is staked in total: floor(net / staked) at the fixed-point
/// scale, and no increment at all for an empty pool.
pub open spec fn power_inc_of(cfg: Config, income: u128, staked: u128) -> int {
    if staked == 0 {
        0
    } else {
        (net_of(cfg, income) * FRAC) / (staked as int)
    }
}

/// The pool totals after settling `income`: both cuts land in their pending
/// balances and the accumulator rises by the per-share increment. (The
/// casts are exact whenever the settlement fits in 128 bits, which the
/// settlement function requires.)
pub open spec fn settled_totals(cfg: Config, t: TokenInfo, income: u128) -> TokenInfo {
    TokenInfo {
        staked: t.staked,
        pending_treasury_rewards: (t.pending_treasury_rewards + cut_of(
            cfg.treasury_fee,
            income,
        )) as u128,
        pending_syne_staking_rewards: (t.pending_syne_staking_rewards + cut_of(
            cfg.syne_staking_fee,
            income,
        )) as u128,
        power: Ratio {
            atomics: (t.power.atomics + power_inc_of(cfg, income, t.staked)) as u128,
        },
    }
}

} // verus!
