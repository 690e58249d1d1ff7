//! The stake ledger: settlement of one depositor's owed reward against the
//! global accumulator, stake adjustments, reward settlement into the pool
//! totals, and the draining of the two pending fee balances.

use vstd::prelude::*;
use vstd::arithmetic::div_mod::{lemma_div_denominator, lemma_div_multiples_vanish};
use crate::error::ContractError;
use crate::fixed::{Ratio, FRAC};
use crate::state::{cut_of, owed_of, power_inc_of, Config, StakingInfo, TokenInfo, MAX_WHOLE};

verus! {

/// A whole number within [`MAX_WHOLE`] survives the move to the fixed-point
/// scale.
pub proof fn lemma_whole_fits(x: u128)
    requires
        x <= MAX_WHOLE,
    ensures
        x * FRAC <= u128::MAX,
{
    assert(x * FRAC <= (u128::MAX / FRAC) * FRAC <= u128::MAX) by (nonlinear_arith)
        requires
            x <= u128::MAX / FRAC,
            FRAC > 0,
    ;
}

/// Settle one depositor: return the reward owed since their last snapshot
/// and move the snapshot up to the current accumulator, without touching
/// the stake itself. Calling it twice in a row pays the second time
/// exactly 0, since the snapshot then equals the accumulator.
pub fn update_rewards(total: &TokenInfo, info: &mut StakingInfo) -> (r: u128)
    requires
        old(info).stake <= MAX_WHOLE,
    ensures
        r == owed_of(total.power, old(info).power_diff, old(info).stake),
        final(info).stake == old(info).stake,
        final(info).power_diff == total.power,
{
    let diff = match total.power.checked_sub(info.power_diff) {
        Some(d) => d,
        None => Ratio { atomics: 0 },
    };
    proof {
        lemma_whole_fits(info.stake);
    }
    let stake_dec = Ratio::from_uint(info.stake).unwrap();
    proof {
        lemma_mul_whole_cancel(diff.atomics, info.stake);
    }
    let owed: u128 = match diff.checked_mul(stake_dec) {
        Some(p) => p.to_uint_floor(),
        None => 0u128,
    };
    info.power_diff = total.power;
    owed
}

/// Multiplying by a whole number lifted to the fixed-point scale is exact:
/// floor(d * (s * 10^18) / 10^18) == d * s.
pub proof fn lemma_mul_whole_cancel(d: u128, s: u128)
    ensures
        (d * (s * FRAC)) / (FRAC as int) == d * s,
{
    assert(d * (s * FRAC) == FRAC * (d * s)) by (nonlinear_arith);
    lemma_div_multiples_vanish(d * s, FRAC as int);
}

/// Settle the depositor, then add `amount` to both their stake and the pool
/// total. Returns the settled reward.
pub fn add_stake(total: &mut TokenInfo, info: &mut StakingInfo, amount: u128) -> (r: u128)
    requires
        old(info).stake <= MAX_WHOLE,
        old(info).stake + amount <= u128::MAX,
        old(total).staked + amount <= u128::MAX,
    ensures
        r == owed_of(old(total).power, old(info).power_diff, old(info).stake),
        final(info).stake == old(info).stake + amount,
        final(info).power_diff == old(total).power,
        final(total).staked == old(total).staked + amount,
        final(total).power == old(total).power,
        final(total).pending_treasury_rewards == old(total).pending_treasury_rewards,
        final(total).pending_syne_staking_rewards == old(total).pending_syne_staking_rewards,
{
    let t = *total;
    let pending_rewards = update_rewards(&t, info);
    info.stake = info.stake + amount;
    total.staked = total.staked + amount;
    pending_rewards
}

/// Settle the depositor, then remove `amount` from both their stake and the
/// pool total. Rejects with `InvalidAmount` if the depositor has less than
/// `amount` staked, leaving everything unchanged.
pub fn remove_stake(total: &mut TokenInfo, info: &mut StakingInfo, amount: u128) -> (r: Result<
    u128,
    ContractError,
>)
    requires
        old(info).stake <= MAX_WHOLE,
        old(info).stake <= old(total).staked,
    ensures
        amount > old(info).stake ==> r == Err::<u128, ContractError>(ContractError::InvalidAmount)
            && *final(info) == *old(info) && *final(total) == *old(total),
        amount <= old(info).stake ==> {
            &&& r == Ok::<u128, ContractError>(
                (owed_of(old(total).power, old(info).power_diff, old(info).stake) as u128),
            )
            &&& final(info).stake == old(info).stake - amount
            &&& final(info).power_diff == old(total).power
            &&& final(total).staked == old(total).staked - amount
            &&& final(total).power == old(total).power
            &&& final(total).pending_treasury_rewards == old(total).pending_treasury_rewards
            &&& final(total).pending_syne_staking_rewards
                == old(total).pending_syne_staking_rewards
        },
{
    if amount > info.stake {
        return Err(ContractError::InvalidAmount);
    }
    let t = *total;
    let pending_rewards = update_rewards(&t, info);
    info.stake = info.stake - amount;
    total.staked = total.staked - amount;
    Ok(pending_rewards)
}

/// Floors taken fee by fee never exceed the whole: the two cuts together
/// stay within the settled income.
pub proof fn lemma_cuts_within_income(cfg: Config, income: u128)
    requires
        cfg.fees_wf(),
    ensures
        cut_of(cfg.treasury_fee, income) + cut_of(cfg.syne_staking_fee, income) <= income,
        cut_of(cfg.treasury_fee, income) >= 0,
        cut_of(cfg.syne_staking_fee, income) >= 0,
{
    let tf = cfg.treasury_fee.atomics as int;
    let sf = cfg.syne_staking_fee.atomics as int;
    let w = income as int;
    let f = FRAC as int;
    let ct = (w * tf) / f;
    let cs = (w * sf) / f;
    assert(ct >= 0 && cs >= 0) by (nonlinear_arith)
        requires
            w >= 0,
            tf >= 0,
            sf >= 0,
            f > 0,
            ct == (w * tf) / f,
            cs == (w * sf) / f,
    ;
    assert(ct * f <= w * tf) by (nonlinear_arith)
        requires
            f > 0,
            w * tf >= 0,
            ct == (w * tf) / f,
    ;
    assert(cs * f <= w * sf) by (nonlinear_arith)
        requires
            f > 0,
            w * sf >= 0,
            cs == (w * sf) / f,
    ;
    assert(w * tf + w * sf == w * (tf + sf)) by (nonlinear_arith);
    assert(w * (tf + sf) <= w * f) by (nonlinear_arith)
        requires
            w >= 0,
            tf + sf <= f,
    ;
    assert(ct + cs <= w) by (nonlinear_arith)
        requires
            f > 0,
            (ct + cs) * f <= w * f,
    ;
}

/// Settle a freshly received `reward` income into the pool totals: take the
/// treasury and secondary cuts into their pending balances, and spread the
/// remainder over the stakers by raising the accumulator — unless nothing
/// is staked, in which case the remainder is not redistributed.
pub fn update_total_rewards(total: &mut TokenInfo, cfg: &Config, reward: u128)
    requires
        cfg.fees_wf(),
        reward <= MAX_WHOLE,
        old(total).staked <= MAX_WHOLE,
        old(total).pending_treasury_rewards + cut_of(cfg.treasury_fee, reward) <= u128::MAX,
        old(total).pending_syne_staking_rewards + cut_of(cfg.syne_staking_fee, reward)
            <= u128::MAX,
        old(total).power.atomics + power_inc_of(*cfg, reward, old(total).staked) <= u128::MAX,
    ensures
        final(total).staked == old(total).staked,
        final(total).pending_treasury_rewards == old(total).pending_treasury_rewards + cut_of(
            cfg.treasury_fee,
            reward,
        ),
        final(total).pending_syne_staking_rewards == old(total).pending_syne_staking_rewards
            + cut_of(cfg.syne_staking_fee, reward),
        final(total).power.atomics == old(total).power.atomics + power_inc_of(
            *cfg,
            reward,
            old(total).staked,
        ),
{
    proof {
        lemma_whole_fits(reward);
        lemma_cuts_within_income(*cfg, reward);
    }
    let reward_dec = Ratio::from_uint(reward).unwrap();
    proof {
        lemma_cut_exact(reward, cfg.treasury_fee.atomics);
        lemma_cut_exact(reward, cfg.syne_staking_fee.atomics);
    }
    let treasury_rewards = reward_dec.checked_mul(cfg.treasury_fee).unwrap().to_uint_floor();
    let syne_staking_rewards = reward_dec.checked_mul(
        cfg.syne_staking_fee,
    ).unwrap().to_uint_floor();
    total.pending_treasury_rewards = total.pending_treasury_rewards + treasury_rewards;
    total.pending_syne_staking_rewards = total.pending_syne_staking_rewards
        + syne_staking_rewards;
    if total.staked > 0 {
        let net = reward - treasury_rewards - syne_staking_rewards;
        proof {
            lemma_whole_fits(net);
            lemma_whole_fits(total.staked);
            lemma_div_scale_cancel(net, total.staked);
        }
        let net_dec = Ratio::from_uint(net).unwrap();
        let staked_dec = Ratio::from_uint(total.staked).unwrap();
        let inc = net_dec.checked_div(staked_dec).unwrap();
        total.power = total.power.checked_add(inc).unwrap();
    }
}

/// The cut computation is exact at the fixed-point scale: lifting the
/// income to fixed point, multiplying by the fee and flooring back down
/// yields floor(income * fee_atomics / 10^18), and the intermediate
/// product fits in 128 bits whenever the fee is at most 1.
pub proof fn lemma_cut_exact(income: u128, fee: u128)
    requires
        income * FRAC <= u128::MAX,
        fee <= FRAC,
    ensures
        ((income * FRAC) * fee) / (FRAC as int) == income * fee,
        income * fee <= u128::MAX,
        (income * fee) / (FRAC as int) == cut_of(Ratio { atomics: fee }, income),
{
    assert((income * FRAC) * fee == FRAC * (income * fee)) by (nonlinear_arith);
    lemma_div_multiples_vanish(income * fee, FRAC as int);
    assert(income * fee <= income * FRAC) by (nonlinear_arith)
        requires
            fee <= FRAC,
            income >= 0,
    ;
}

/// Dividing two whole numbers lifted to the fixed-point scale gives the
/// fixed-point quotient: floor((a*10^18)*10^18 / (b*10^18)) ==
/// floor(a*10^18 / b), and that quotient fits in 128 bits.
pub proof fn lemma_div_scale_cancel(a: u128, b: u128)
    requires
        a * FRAC <= u128::MAX,
        b >= 1,
    ensures
        ((a * FRAC) * FRAC) / ((b * FRAC) as int) == (a * FRAC) / (b as int),
        (a * FRAC) / (b as int) <= u128::MAX,
        b * FRAC >= 1,
{
    let af = (a * FRAC) as int;
    let f = FRAC as int;
    let bi = b as int;
    assert(b * FRAC >= 1) by (nonlinear_arith)
        requires
            b >= 1,
            FRAC >= 1,
    ;
    lemma_div_denominator(af * f, f, bi);
    assert((af * f) / (f * bi) == ((af * f) / f) / bi);
    assert(af * f == f * af) by (nonlinear_arith);
    lemma_div_multiples_vanish(af, f);
    assert((af * f) / f == af);
    assert(f * bi == bi * f) by (nonlinear_arith);
    assert(af / bi <= af) by (nonlinear_arith)
        requires
            bi >= 1,
            af >= 0,
    ;
}

/// Drain `amount` (default: everything) from the pending treasury balance.
/// Rejects with `InvalidAmount` if more than the balance is requested,
/// leaving everything unchanged.
pub fn update_treasury_amounts(total: &mut TokenInfo, amount: Option<u128>) -> (r: Result<
    u128,
    ContractError,
>)
    ensures
        ({
            let want = if amount is Some {
                amount->0
            } else {
                old(total).pending_treasury_rewards
            };
            if want > old(total).pending_treasury_rewards {
                r == Err::<u128, ContractError>(ContractError::InvalidAmount) && *final(total)
                    == *old(total)
            } else {
                &&& r == Ok::<u128, ContractError>(want)
                &&& final(total).pending_treasury_rewards == old(
                    total,
                ).pending_treasury_rewards - want
                &&& final(total).staked == old(total).staked
                &&& final(total).power == old(total).power
                &&& final(total).pending_syne_staking_rewards == old(
                    total,
                ).pending_syne_staking_rewards
            }
        }),
{
    let want = match amount {
        Some(a) => a,
        None => total.pending_treasury_rewards,
    };
    if want > total.pending_treasury_rewards {
        return Err(ContractError::InvalidAmount);
    }
    total.pending_treasury_rewards = total.pending_treasury_rewards - want;
    Ok(want)
}

/// Drain `amount` (default: everything) from the pending secondary-fee
/// balance. Rejects with `InvalidAmount` if more than the balance is
/// requested, leaving everything unchanged.
pub fn update_syne_staking_amounts(total: &mut TokenInfo, amount: Option<u128>) -> (r: Result<
    u128,
    ContractError,
>)
    ensures
        ({
            let want = if amount is Some {
                amount->0
            } else {
                old(total).pending_syne_staking_rewards
            };
            if want > old(total).pending_syne_staking_rewards {
                r == Err::<u128, ContractError>(ContractError::InvalidAmount) && *final(total)
                    == *old(total)
            } else {
                &&& r == Ok::<u128, ContractError>(want)
                &&& final(total).pending_syne_staking_rewards == old(
                    total,
                ).pending_syne_staking_rewards - want
                &&& final(total).staked == old(total).staked
                &&& final(total).power == old(total).power
                &&& final(total).pending_treasury_rewards == old(total).pending_treasury_rewards
            }
        }),
{
    let want = match amount {
        Some(a) => a,
        None => total.pending_syne_staking_rewards,
    };
    if want > total.pending_syne_staking_rewards {
        return Err(ContractError::InvalidAmount);
    }
    total.pending_syne_staking_rewards = total.pending_syne_staking_rewards - want;
    Ok(want)
}

} // verus!
