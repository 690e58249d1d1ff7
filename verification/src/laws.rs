//! The engine's laws, stated once over every well-formed vault. Every
//! handler requires and re-establishes well-formedness, so by induction
//! these hold across any sequence of operations.

use vstd::prelude::*;
use crate::fixed::{Ratio, FRAC};
use crate::handlers::claim_effect;
use crate::ledger::lemma_cuts_within_income;
use crate::state::{net_of, owed_of, power_inc_of, Config};
use crate::vault::{has_staker, lemma_idx_unique, lemma_sum_debt_nonneg, stake_info_of,
    staker_idx, sum_stakes, StakeEntry, Vault};

verus! {

/// Conservation: in every well-formed vault the stakes on the ledger sum
/// exactly to the pool's recorded total. Stake and unstake move both
/// sides by the same amount, income settlements move neither, so the
/// equality survives any sequence of operations.
pub proof fn lemma_conservation(v: Vault)
    requires
        v.wf(),
    ensures
        sum_stakes(v.stakes@) == v.totals.staked,
{
}

/// No over-payment: everything the pool has ever transferred out — reward
/// payouts to depositors and fee withdrawals together — never exceeds the
/// income ever settled into it.
pub proof fn lemma_no_overpayment(v: Vault)
    requires
        v.wf(),
    ensures
        v.rewards_paid@ + v.fees_paid@ <= v.income_settled@,
{
    lemma_sum_debt_nonneg(v.stakes@, v.totals.power);
    let f = FRAC as int;
    assert(v.rewards_paid@ + v.fees_accrued@ <= v.income_settled@) by (nonlinear_arith)
        requires
            (v.rewards_paid@ + v.fees_accrued@) * f <= v.income_settled@ * f,
            f > 0,
    ;
}

/// The accumulator never decreases: under a sound fee configuration a
/// settlement's per-share increment is non-negative, and no other
/// operation touches the accumulator at all.
pub proof fn lemma_power_monotone(cfg: Config, income: u128, staked: u128)
    requires
        cfg.fees_wf(),
    ensures
        power_inc_of(cfg, income, staked) >= 0,
{
    if staked > 0 {
        lemma_cuts_within_income(cfg, income);
        let n = net_of(cfg, income) * (FRAC as int);
        assert(n >= 0 && n / (staked as int) >= 0) by (nonlinear_arith)
            requires
                net_of(cfg, income) >= 0,
                FRAC > 0,
                staked > 0,
                n == net_of(cfg, income) * (FRAC as int),
        ;
    }
}

/// Idempotent settlement: a record whose snapshot already equals the
/// accumulator is owed exactly 0.
pub proof fn lemma_settle_idempotent(power: Ratio, stake: u128)
    ensures
        owed_of(power, power, stake) == 0,
{
    assert((power.atomics - power.atomics) * stake == 0);
}

/// Idempotent settlement, across two calls: once a claim has settled a
/// depositor, settling the same depositor again — with no accumulator
/// change in between — owes 0.
pub proof fn lemma_claim_idempotent(pre: Vault, post: Vault, addr: String)
    requires
        pre.wf(),
        claim_effect(pre, post, addr),
    ensures
        owed_of(
            post.totals.power,
            stake_info_of(post.stakes@, addr@).power_diff,
            stake_info_of(post.stakes@, addr@).stake,
        ) == 0,
{
    if has_staker(pre.stakes@, addr@) {
        let i = staker_idx(pre.stakes@, addr@);
        assert(post.stakes@[i].address@ == addr@);
        assert forall|a: int, b: int|
            0 <= a < b < post.stakes@.len() implies post.stakes@[a].address@
            != post.stakes@[b].address@ by {
            assert(post.stakes@[a].address == pre.stakes@[a].address);
            assert(post.stakes@[b].address == pre.stakes@[b].address);
        }
        lemma_idx_unique(post.stakes@, addr@, i);
        assert(stake_info_of(post.stakes@, addr@).power_diff == post.totals.power);
    } else {
        let i = pre.stakes@.len() as int;
        assert(post.stakes@[i].address@ == addr@);
        assert forall|a: int, b: int|
            0 <= a < b < post.stakes@.len() implies post.stakes@[a].address@
            != post.stakes@[b].address@ by {
            if b < i {
                assert(pre.stakes@[a].address@ != pre.stakes@[b].address@);
            } else {
                assert(post.stakes@[a] == pre.stakes@[a]);
                assert(!has_staker(pre.stakes@, addr@));
            }
        }
        lemma_idx_unique(post.stakes@, addr@, i);
        assert(stake_info_of(post.stakes@, addr@).power_diff == post.totals.power);
    }
    lemma_settle_idempotent(post.totals.power, stake_info_of(post.stakes@, addr@).stake);
}

} // verus!
