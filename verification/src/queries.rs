//! The read-only queries: config and admin, pool totals, one depositor's
//! record, the pending fee balances with the upstream's not-yet-pushed
//! income added virtually, and a depositor's currently owed reward — also
//! with the virtual share of the not-yet-pushed income — none of which
//! mutates any state.

use vstd::prelude::*;
use vstd::arithmetic::div_mod::{lemma_div_denominator, lemma_div_multiples_vanish};
use crate::fixed::{Ratio, FRAC};
use crate::ledger::{lemma_cut_exact, lemma_mul_whole_cancel, lemma_whole_fits};
use crate::state::{cut_of, Config, StakingInfo, TokenInfo, MAX_WHOLE};
use crate::vault::{debt_of, find_staker, lemma_idx_unique, lemma_stake_le_sum, stake_info_of,
    Vault};

verus! {

/// The current admin address.
pub fn query_admin(v: &Vault) -> (r: &String)
    ensures
        r == v.config.admin,
{
    &v.config.admin
}

/// The current configuration.
pub fn query_config(v: &Vault) -> (r: &Config)
    ensures
        r == v.config,
{
    &v.config
}

/// The pool totals: total staked, the accumulator, and both pending fee
/// balances.
pub fn query_total_staked(v: &Vault) -> (r: TokenInfo)
    ensures
        r == v.totals,
{
    v.totals
}

/// One depositor's record; a depositor without a record reads as the
/// default record.
pub fn query_staked(v: &Vault, address: &String) -> (r: StakingInfo)
    requires
        v.wf(),
    ensures
        r == stake_info_of(v.stakes@, address@),
{
    let idx_opt = find_staker(&v.stakes, address);
    match idx_opt {
        Some(i) => {
            proof {
                lemma_idx_unique(v.stakes@, address@, i as int);
            }
            v.stakes[i].info
        },
        None => StakingInfo::default(),
    }
}

/// The pending treasury balance once the upstream's currently withdrawable
/// income `w` would be settled: the stored balance plus the treasury cut
/// of `w`.
pub fn query_treasury_reward(v: &Vault, withdrawable_amount: u128) -> (r: u128)
    requires
        v.wf(),
        withdrawable_amount <= MAX_WHOLE,
        v.totals.pending_treasury_rewards + cut_of(v.config.treasury_fee, withdrawable_amount)
            <= u128::MAX,
    ensures
        r == v.totals.pending_treasury_rewards + cut_of(
            v.config.treasury_fee,
            withdrawable_amount,
        ),
{
    proof {
        lemma_whole_fits(withdrawable_amount);
        lemma_cut_exact(withdrawable_amount, v.config.treasury_fee.atomics);
    }
    let w_dec = Ratio::from_uint(withdrawable_amount).unwrap();
    let cut = w_dec.checked_mul(v.config.treasury_fee).unwrap().to_uint_floor();
    v.totals.pending_treasury_rewards + cut
}

/// The pending secondary-fee balance once the upstream's currently
/// withdrawable income `w` would be settled.
pub fn query_syne_staking_reward(v: &Vault, withdrawable_amount: u128) -> (r: u128)
    requires
        v.wf(),
        withdrawable_amount <= MAX_WHOLE,
        v.totals.pending_syne_staking_rewards + cut_of(
            v.config.syne_staking_fee,
            withdrawable_amount,
        ) <= u128::MAX,
    ensures
        r == v.totals.pending_syne_staking_rewards + cut_of(
            v.config.syne_staking_fee,
            withdrawable_amount,
        ),
{
    proof {
        lemma_whole_fits(withdrawable_amount);
        lemma_cut_exact(withdrawable_amount, v.config.syne_staking_fee.atomics);
    }
    let w_dec = Ratio::from_uint(withdrawable_amount).unwrap();
    let cut = w_dec.checked_mul(v.config.syne_staking_fee).unwrap().to_uint_floor();
    v.totals.pending_syne_staking_rewards + cut
}

/// What `query_reward` returns: 0 for an empty pool; otherwise the reward
/// already owed on the ledger, plus the depositor's proportional share of
/// the upstream's not-yet-pushed income `w` after fees — both floored
/// exactly as the engine computes them.
pub open spec fn query_reward_spec(cfg: Config, totals: TokenInfo, info: StakingInfo, w: u128) -> int {
    if totals.staked == 0 {
        0
    } else {
        let part1 = ((totals.power.atomics - info.power_diff.atomics) * info.stake) / (
        FRAC as int);
        let rate = FRAC - cfg.treasury_fee.atomics - cfg.syne_staking_fee.atomics;
        let m2 = (w * rate) * info.stake;
        part1 + (m2 / (totals.staked as int)) / (FRAC as int)
    }
}

/// Scaling numerator and denominator by the fixed-point unit leaves a
/// floor division unchanged, and the quotient stays in range.
proof fn lemma_div_both_scaled(x: u128, b: u128)
    requires
        b >= 1,
    ensures
        b * FRAC >= 1,
        (x * FRAC) / ((b * FRAC) as int) == x as int / (b as int),
        x as int / (b as int) <= u128::MAX,
{
    let xi = x as int;
    let f = FRAC as int;
    let bi = b as int;
    assert(b * FRAC >= 1) by (nonlinear_arith)
        requires
            b >= 1,
            FRAC >= 1,
    ;
    lemma_div_denominator(xi * f, f, bi);
    assert((xi * f) / (f * bi) == ((xi * f) / f) / bi);
    assert(xi * f == f * xi) by (nonlinear_arith);
    lemma_div_multiples_vanish(xi, f);
    assert(f * bi == bi * f) by (nonlinear_arith);
    assert(xi / bi <= xi) by (nonlinear_arith)
        requires
            bi >= 1,
            xi >= 0,
    ;
}

/// The machine limits the owed-reward computation must respect for this
/// record: the ledger part's product, the virtual part's product, and
/// their floored sum all fit in 128 bits.
pub open spec fn query_reward_fits(cfg: Config, totals: TokenInfo, info: StakingInfo, w: u128) -> bool {
    &&& debt_of(info, totals.power) <= u128::MAX
    &&& (w * (FRAC - cfg.treasury_fee.atomics - cfg.syne_staking_fee.atomics)) * info.stake
        <= u128::MAX
    &&& query_reward_spec(cfg, totals, info, w) <= u128::MAX
}

/// The reward currently owed to `address`, counting the upstream's
/// not-yet-pushed income `w` virtually, or `None` exactly when the
/// computation would overflow 128 bits.
pub fn try_query_reward(v: &Vault, address: &String, withdrawable_amount: u128) -> (r: Option<
    u128,
>)
    requires
        v.wf(),
        withdrawable_amount <= MAX_WHOLE,
    ensures
        ({
            let info = stake_info_of(v.stakes@, address@);
            if query_reward_fits(v.config, v.totals, info, withdrawable_amount) {
                r == Some(
                    (query_reward_spec(v.config, v.totals, info, withdrawable_amount) as u128),
                )
            } else {
                r is None
            }
        }),
{
    if v.totals.staked == 0 {
        let ghost info = stake_info_of(v.stakes@, address@);
        proof {
            if crate::vault::has_staker(v.stakes@, address@) {
                lemma_stake_le_sum(v.stakes@, crate::vault::staker_idx(v.stakes@, address@));
            }
            assert(info.stake == 0);
            assert(debt_of(info, v.totals.power) == 0) by {
                if info.power_diff.atomics <= v.totals.power.atomics {
                    assert((v.totals.power.atomics - info.power_diff.atomics) * info.stake
                        == 0);
                }
            };
            assert((withdrawable_amount * (FRAC - v.config.treasury_fee.atomics
                - v.config.syne_staking_fee.atomics)) * info.stake == 0);
        }
        return Some(0u128);
    }
    let info = query_staked(v, address);
    proof {
        if crate::vault::has_staker(v.stakes@, address@) {
            lemma_stake_le_sum(v.stakes@, crate::vault::staker_idx(v.stakes@, address@));
        }
        lemma_whole_fits(info.stake);
        lemma_whole_fits(withdrawable_amount);
        lemma_whole_fits(v.totals.staked);
    }
    let stake_dec = Ratio::from_uint(info.stake).unwrap();
    let diff = v.totals.power.checked_sub(info.power_diff).unwrap();
    proof {
        lemma_mul_whole_cancel(diff.atomics, info.stake);
    }
    let part1 = match diff.checked_mul(stake_dec) {
        Some(p) => p.to_uint_floor(),
        None => {
            return None;
        },
    };
    let rate = Ratio::one().checked_sub(v.config.treasury_fee).unwrap().checked_sub(
        v.config.syne_staking_fee,
    ).unwrap();
    proof {
        lemma_cut_exact(withdrawable_amount, rate.atomics);
    }
    let w_dec = Ratio::from_uint(withdrawable_amount).unwrap();
    let m1 = w_dec.checked_mul(rate).unwrap();
    proof {
        lemma_mul_whole_cancel(m1.atomics, info.stake);
    }
    let m2 = match m1.checked_mul(stake_dec) {
        Some(p) => p,
        None => {
            return None;
        },
    };
    let staked_dec = Ratio::from_uint(v.totals.staked).unwrap();
    proof {
        lemma_div_both_scaled(m2.atomics, v.totals.staked);
    }
    let m3 = m2.checked_div(staked_dec).unwrap();
    let part2 = m3.to_uint_floor();
    if part1 > u128::MAX - part2 {
        return None;
    }
    Some(part1 + part2)
}

/// The reward currently owed to `address`, counting the upstream's
/// not-yet-pushed income `w` virtually: the ledger part plus the share of
/// `w` net of fees that `address`'s stake would earn, without touching any
/// state.
pub fn query_reward(v: &Vault, address: &String, withdrawable_amount: u128) -> (r: u128)
    requires
        v.wf(),
        withdrawable_amount <= MAX_WHOLE,
        query_reward_fits(
            v.config,
            v.totals,
            stake_info_of(v.stakes@, address@),
            withdrawable_amount,
        ),
    ensures
        r == query_reward_spec(
            v.config,
            v.totals,
            stake_info_of(v.stakes@, address@),
            withdrawable_amount,
        ),
{
    try_query_reward(v, address, withdrawable_amount).unwrap()
}

} // verus!
