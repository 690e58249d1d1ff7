//! The operation handlers: stake, unstake, claim, the two fee withdrawals,
//! the income notification that settles rewards and drains the
//! pending-action slot, and the admin config update.
//!
//! Every handler is all-or-nothing: it either completes and returns the
//! instructions to emit, or rejects with an error and leaves the vault
//! exactly as it was. The upstream module's currently withdrawable income
//! is passed in as a plain value; whenever it is positive, the operation is
//! queued in the pending-action slot instead of touching the ledger.

use vstd::prelude::*;
use vstd::arithmetic::div_mod::lemma_fundamental_div_mod;
use crate::error::ContractError;
use crate::fixed::{Ratio, FRAC};
use crate::ledger::{add_stake, lemma_cut_exact, lemma_cuts_within_income, lemma_div_scale_cancel,
    lemma_whole_fits,
    remove_stake, update_rewards,
    update_syne_staking_amounts, update_total_rewards, update_treasury_amounts};
use crate::state::{cut_of, net_of, owed_of, power_inc_of, settled_totals, Config, RewardAction,
    StakingInfo, TokenInfo, Transfer, VaultResponse, MAX_WHOLE};
use crate::vault::{debt_of, find_staker, has_staker, lemma_idx_unique, lemma_owed_le_debt,
    lemma_stake_le_sum, lemma_sum_debt_push, lemma_sum_debt_raise, lemma_sum_debt_update,
    lemma_sum_stakes_push,
    lemma_sum_stakes_update, stake_info_of, staker_idx, sum_debt, sum_stakes, StakeEntry, Vault};

verus! {

/// Everything but the pending-action slot agrees between the two states.
pub open spec fn same_core(a: Vault, b: Vault) -> bool {
    &&& b.config == a.config
    &&& b.totals == a.totals
    &&& b.stakes@ == a.stakes@
    &&& b.income_settled@ == a.income_settled@
    &&& b.fees_accrued@ == a.fees_accrued@
    &&& b.rewards_paid@ == a.rewards_paid@
    &&& b.fees_paid@ == a.fees_paid@
}

/// Nothing at all changed between the two states.
pub open spec fn vault_unchanged(a: Vault, b: Vault) -> bool {
    &&& same_core(a, b)
    &&& b.reward_action == a.reward_action
}

/// The response that queues an operation: exactly one withdrawal request
/// to the upstream trigger and no transfers.
pub open spec fn is_withdraw_request(r: VaultResponse) -> bool {
    &&& r.withdraw_request
    &&& r.transfers@.len() == 0
}

/// The transfer list settling a reward claim: one transfer when something
/// is owed, none otherwise.
pub open spec fn reward_transfers(recipient: String, owed: int) -> Seq<Transfer> {
    if owed > 0 {
        seq![Transfer { recipient: recipient, amount: owed as u128 }]
    } else {
        Seq::<Transfer>::empty()
    }
}

/// How a stake of `amount` by `addr` changes the vault: the depositor is
/// settled (snapshot moved to the current accumulator, owed reward counted
/// as paid), then the stake and the pool total both grow by `amount`. The
/// pending-action slot is not part of this effect.
pub open spec fn stake_effect(pre: Vault, post: Vault, addr: String, amount: u128) -> bool {
    let info = stake_info_of(pre.stakes@, addr@);
    let owed = owed_of(pre.totals.power, info.power_diff, info.stake);
    &&& post.config == pre.config
    &&& post.totals.staked == pre.totals.staked + amount
    &&& post.totals.power == pre.totals.power
    &&& post.totals.pending_treasury_rewards == pre.totals.pending_treasury_rewards
    &&& post.totals.pending_syne_staking_rewards == pre.totals.pending_syne_staking_rewards
    &&& (if has_staker(pre.stakes@, addr@) {
        post.stakes@ == pre.stakes@.update(
            staker_idx(pre.stakes@, addr@),
            (StakeEntry {
                address: pre.stakes@[staker_idx(pre.stakes@, addr@)].address,
                info: (StakingInfo {
                    stake: (info.stake + amount) as u128,
                    power_diff: pre.totals.power,
                }),
            }),
        )
    } else {
        post.stakes@ == pre.stakes@.push(
            StakeEntry {
                address: addr,
                info: StakingInfo { stake: amount, power_diff: pre.totals.power },
            },
        )
    })
    &&& post.income_settled@ == pre.income_settled@
    &&& post.fees_accrued@ == pre.fees_accrued@
    &&& post.rewards_paid@ == pre.rewards_paid@ + owed
    &&& post.fees_paid@ == pre.fees_paid@
}

/// How settling the owed reward of `addr` (a claim) changes the vault: the
/// snapshot moves up to the current accumulator, the owed reward is counted
/// as paid, and nothing else moves. A depositor without a record gets a
/// fresh, already-settled record with zero stake. The pending-action slot
/// is not part of this effect.
pub open spec fn claim_effect(pre: Vault, post: Vault, addr: String) -> bool {
    let info = stake_info_of(pre.stakes@, addr@);
    let owed = owed_of(pre.totals.power, info.power_diff, info.stake);
    &&& post.config == pre.config
    &&& post.totals == pre.totals
    &&& (if has_staker(pre.stakes@, addr@) {
        post.stakes@ == pre.stakes@.update(
            staker_idx(pre.stakes@, addr@),
            (StakeEntry {
                address: pre.stakes@[staker_idx(pre.stakes@, addr@)].address,
                info: (StakingInfo { stake: info.stake, power_diff: pre.totals.power }),
            }),
        )
    } else {
        post.stakes@ == pre.stakes@.push(
            StakeEntry {
                address: addr,
                info: StakingInfo { stake: 0, power_diff: pre.totals.power },
            },
        )
    })
    &&& post.income_settled@ == pre.income_settled@
    &&& post.fees_accrued@ == pre.fees_accrued@
    &&& post.rewards_paid@ == pre.rewards_paid@ + owed
    &&& post.fees_paid@ == pre.fees_paid@
}

/// How an unstake of `amount` by `addr` changes the vault: the depositor is
/// settled, then their stake and the pool total both shrink by `amount`.
/// Meaningful only when the depositor has at least `amount` staked. The
/// pending-action slot is not part of this effect.
pub open spec fn unstake_effect(pre: Vault, post: Vault, addr: String, amount: u128) -> bool {
    let info = stake_info_of(pre.stakes@, addr@);
    let owed = owed_of(pre.totals.power, info.power_diff, info.stake);
    &&& post.config == pre.config
    &&& post.totals.staked == pre.totals.staked - amount
    &&& post.totals.power == pre.totals.power
    &&& post.totals.pending_treasury_rewards == pre.totals.pending_treasury_rewards
    &&& post.totals.pending_syne_staking_rewards == pre.totals.pending_syne_staking_rewards
    &&& has_staker(pre.stakes@, addr@)
    &&& post.stakes@ == pre.stakes@.update(
        staker_idx(pre.stakes@, addr@),
        (StakeEntry {
            address: pre.stakes@[staker_idx(pre.stakes@, addr@)].address,
            info: (StakingInfo {
                stake: (info.stake - amount) as u128,
                power_diff: pre.totals.power,
            }),
        }),
    )
    &&& post.income_settled@ == pre.income_settled@
    &&& post.fees_accrued@ == pre.fees_accrued@
    &&& post.rewards_paid@ == pre.rewards_paid@ + owed
    &&& post.fees_paid@ == pre.fees_paid@
}

/// The transfer list of a completed unstake: the principal first, then the
/// settled reward when it is positive.
pub open spec fn unstake_transfers(recipient: String, amount: u128, owed: int) -> Seq<Transfer> {
    if owed > 0 {
        seq![
            Transfer { recipient: recipient, amount },
            Transfer { recipient: recipient, amount: owed as u128 },
        ]
    } else {
        seq![Transfer { recipient: recipient, amount }]
    }
}

/// Queue `action` into the pending-action slot, or reject with
/// `InvalidAction` if the slot is already occupied.
fn try_enqueue(v: &mut Vault, action: RewardAction) -> (r: Result<
    VaultResponse,
    ContractError,
>)
    ensures
        old(v).slot_busy() ==> r == Err::<VaultResponse, ContractError>(
            ContractError::InvalidAction,
        ) && vault_unchanged(*old(v), *final(v)),
        !old(v).slot_busy() ==> same_core(*old(v), *final(v)) && final(v).reward_action == action
            && (r matches Ok(resp) && is_withdraw_request(resp)),
{
    match &v.reward_action {
        RewardAction::NoAction => {
            v.reward_action = action;
            Ok(VaultResponse { withdraw_request: true, transfers: Vec::new() })
        },
        _ => Err(ContractError::InvalidAction),
    }
}

/// Settle `addr` and add `amount` to their stake and the pool total,
/// updating the ghost meters; returns the settled reward. Creates the
/// record if the depositor is new.
fn apply_stake(v: &mut Vault, addr: String, amount: u128) -> (owed: u128)
    requires
        old(v).wf(),
        old(v).totals.staked + amount <= MAX_WHOLE,
    ensures
        final(v).wf(),
        final(v).reward_action == old(v).reward_action,
        stake_effect(*old(v), *final(v), addr, amount),
        owed == owed_of(
            old(v).totals.power,
            stake_info_of(old(v).stakes@, addr@).power_diff,
            stake_info_of(old(v).stakes@, addr@).stake,
        ),
{
    let ghost pre = *v;
    let power = v.totals.power;
    let idx_opt = find_staker(&v.stakes, &addr);
    match idx_opt {
        Some(i) => {
            proof {
                lemma_idx_unique(v.stakes@, addr@, i as int);
                lemma_stake_le_sum(v.stakes@, i as int);
            }
            let mut info = v.stakes[i].info;
            let owed = add_stake(&mut v.totals, &mut info, amount);
            v.stakes[i].info = info;
            v.rewards_paid = Ghost(v.rewards_paid@ + owed);
            proof {
                let e = StakeEntry { address: pre.stakes@[i as int].address, info };
                assert(v.stakes@ =~= pre.stakes@.update(i as int, e));
                lemma_sum_stakes_update(pre.stakes@, i as int, e);
                lemma_sum_debt_update(pre.stakes@, i as int, e, power);
                lemma_owed_le_debt(power, pre.stakes@[i as int].info);
                assert(debt_of(e.info, power) == 0) by {
                    assert((power.atomics - power.atomics) * e.info.stake == 0);
                };
                assert(owed * FRAC <= debt_of(pre.stakes@[i as int].info, power));
                assert((pre.rewards_paid@ + owed + pre.fees_accrued@) * (FRAC as int)
                    == (pre.rewards_paid@ + pre.fees_accrued@) * (FRAC as int) + owed * (
                FRAC as int)) by (nonlinear_arith);
                assert(sum_debt(v.stakes@, power) + (v.rewards_paid@ + v.fees_accrued@) * FRAC
                    <= v.income_settled@ * FRAC);
                assert forall|a: int, b: int|
                    0 <= a < b < v.stakes@.len() implies v.stakes@[a].address@
                    != v.stakes@[b].address@ by {
                    assert(v.stakes@[a].address == pre.stakes@[a].address);
                    assert(v.stakes@[b].address == pre.stakes@[b].address);
                }
            }
            owed
        },
        None => {
            let mut info = StakingInfo::default();
            let owed = add_stake(&mut v.totals, &mut info, amount);
            v.stakes.push(StakeEntry { address: addr, info });
            v.rewards_paid = Ghost(v.rewards_paid@ + owed);
            proof {
                let e = StakeEntry { address: addr, info };
                lemma_sum_stakes_push(pre.stakes@, e);
                lemma_sum_debt_push(pre.stakes@, e, power);
                assert(debt_of(e.info, power) == 0) by {
                    assert((power.atomics - power.atomics) * e.info.stake == 0);
                };
                assert(owed == 0);
                assert forall|a: int, b: int|
                    0 <= a < b < v.stakes@.len() implies v.stakes@[a].address@
                    != v.stakes@[b].address@ by {
                    if b < pre.stakes@.len() {
                        assert(pre.stakes@[a].address@ != pre.stakes@[b].address@);
                    } else {
                        assert(!has_staker(pre.stakes@, addr@));
                        assert(v.stakes@[a] == pre.stakes@[a]);
                    }
                }
            }
            owed
        },
    }
}

/// Stake `amount` for `sender`. With upstream income outstanding the
/// operation is queued (or rejected with `InvalidAction` if the slot is
/// occupied); otherwise the depositor is settled, their stake grows, and
/// any reward owed from before is transferred to them.
pub fn execute_stake(
    v: &mut Vault,
    sender: String,
    amount: u128,
    withdrawable_amount: u128,
) -> (r: Result<VaultResponse, ContractError>)
    requires
        old(v).wf(),
        amount >= 1,
        old(v).totals.staked + amount <= MAX_WHOLE,
    ensures
        final(v).wf(),
        withdrawable_amount > 0 && old(v).slot_busy() ==> r == Err::<
            VaultResponse,
            ContractError,
        >(ContractError::InvalidAction) && vault_unchanged(*old(v), *final(v)),
        withdrawable_amount > 0 && !old(v).slot_busy() ==> same_core(*old(v), *final(v))
            && final(v).reward_action == (RewardAction::Stake { address: sender, amount })
            && (r matches Ok(resp) && is_withdraw_request(resp)),
        withdrawable_amount == 0 ==> stake_effect(*old(v), *final(v), sender, amount)
            && final(v).reward_action == old(v).reward_action && (r matches Ok(resp)
            && !resp.withdraw_request
            && resp.transfers@ == reward_transfers(
            sender,
            owed_of(
                old(v).totals.power,
                stake_info_of(old(v).stakes@, sender@).power_diff,
                stake_info_of(old(v).stakes@, sender@).stake,
            ),
        )),
{
    if withdrawable_amount > 0 {
        let addr = sender;
        return try_enqueue(v, RewardAction::Stake { address: addr, amount });
    }
    let recipient = sender.clone();
    let owed = apply_stake(v, sender, amount);
    let mut transfers: Vec<Transfer> = Vec::new();
    if owed > 0 {
        transfers.push(Transfer { recipient, amount: owed });
    }
    proof {
        assert(transfers@ =~= reward_transfers(sender, owed as int));
    }
    Ok(VaultResponse { withdraw_request: false, transfers })
}

/// Settle `addr`'s owed reward, move their snapshot up, and count the
/// reward as paid; returns it. Creates a settled zero-stake record if the
/// depositor is new.
fn apply_claim(v: &mut Vault, addr: String) -> (owed: u128)
    requires
        old(v).wf(),
    ensures
        final(v).wf(),
        final(v).reward_action == old(v).reward_action,
        claim_effect(*old(v), *final(v), addr),
        owed == owed_of(
            old(v).totals.power,
            stake_info_of(old(v).stakes@, addr@).power_diff,
            stake_info_of(old(v).stakes@, addr@).stake,
        ),
{
    let ghost pre = *v;
    let power = v.totals.power;
    let t = v.totals;
    let idx_opt = find_staker(&v.stakes, &addr);
    match idx_opt {
        Some(i) => {
            proof {
                lemma_idx_unique(v.stakes@, addr@, i as int);
                lemma_stake_le_sum(v.stakes@, i as int);
            }
            let mut info = v.stakes[i].info;
            let owed = update_rewards(&t, &mut info);
            v.stakes[i].info = info;
            v.rewards_paid = Ghost(v.rewards_paid@ + owed);
            proof {
                let e = StakeEntry { address: pre.stakes@[i as int].address, info };
                assert(v.stakes@ =~= pre.stakes@.update(i as int, e));
                lemma_sum_stakes_update(pre.stakes@, i as int, e);
                lemma_sum_debt_update(pre.stakes@, i as int, e, power);
                lemma_owed_le_debt(power, pre.stakes@[i as int].info);
                assert(debt_of(e.info, power) == 0) by {
                    assert((power.atomics - power.atomics) * e.info.stake == 0);
                };
                assert((pre.rewards_paid@ + owed + pre.fees_accrued@) * (FRAC as int)
                    == (pre.rewards_paid@ + pre.fees_accrued@) * (FRAC as int) + owed * (
                FRAC as int)) by (nonlinear_arith);
                assert forall|a: int, b: int|
                    0 <= a < b < v.stakes@.len() implies v.stakes@[a].address@
                    != v.stakes@[b].address@ by {
                    assert(v.stakes@[a].address == pre.stakes@[a].address);
                    assert(v.stakes@[b].address == pre.stakes@[b].address);
                }
            }
            owed
        },
        None => {
            let mut info = StakingInfo::default();
            let owed = update_rewards(&t, &mut info);
            v.stakes.push(StakeEntry { address: addr, info });
            v.rewards_paid = Ghost(v.rewards_paid@ + owed);
            proof {
                let e = StakeEntry { address: addr, info };
                lemma_sum_stakes_push(pre.stakes@, e);
                lemma_sum_debt_push(pre.stakes@, e, power);
                assert(debt_of(e.info, power) == 0) by {
                    assert((power.atomics - power.atomics) * e.info.stake == 0);
                };
                assert(owed == 0);
                assert forall|a: int, b: int|
                    0 <= a < b < v.stakes@.len() implies v.stakes@[a].address@
                    != v.stakes@[b].address@ by {
                    if b < pre.stakes@.len() {
                        assert(pre.stakes@[a].address@ != pre.stakes@[b].address@);
                    } else {
                        assert(!has_staker(pre.stakes@, addr@));
                        assert(v.stakes@[a] == pre.stakes@[a]);
                    }
                }
            }
            owed
        },
    }
}

/// Settle `addr` and remove `amount` from their stake and the pool total,
/// updating the ghost meters; returns the settled reward. The caller has
/// already checked that the depositor has at least `amount` staked.
fn apply_unstake(v: &mut Vault, addr: &String, amount: u128) -> (owed: u128)
    requires
        old(v).wf(),
        amount >= 1,
        amount <= stake_info_of(old(v).stakes@, addr@).stake,
    ensures
        final(v).wf(),
        final(v).reward_action == old(v).reward_action,
        unstake_effect(*old(v), *final(v), *addr, amount),
        owed == owed_of(
            old(v).totals.power,
            stake_info_of(old(v).stakes@, addr@).power_diff,
            stake_info_of(old(v).stakes@, addr@).stake,
        ),
{
    let ghost pre = *v;
    let power = v.totals.power;
    let idx_opt = find_staker(&v.stakes, &addr);
    let i = match idx_opt {
        Some(i) => i,
        None => {
            proof {
                assert(stake_info_of(v.stakes@, addr@).stake == 0);
            }
            unreached()
        },
    };
    proof {
        lemma_idx_unique(v.stakes@, addr@, i as int);
        lemma_stake_le_sum(v.stakes@, i as int);
    }
    let mut info = v.stakes[i].info;
    let owed = match remove_stake(&mut v.totals, &mut info, amount) {
        Ok(o) => o,
        Err(_) => unreached(),
    };
    v.stakes[i].info = info;
    v.rewards_paid = Ghost(v.rewards_paid@ + owed);
    proof {
        let e = StakeEntry { address: pre.stakes@[i as int].address, info };
        assert(v.stakes@ =~= pre.stakes@.update(i as int, e));
        lemma_sum_stakes_update(pre.stakes@, i as int, e);
        lemma_sum_debt_update(pre.stakes@, i as int, e, power);
        lemma_owed_le_debt(power, pre.stakes@[i as int].info);
        assert(debt_of(e.info, power) == 0) by {
            assert((power.atomics - power.atomics) * e.info.stake == 0);
        };
        assert((pre.rewards_paid@ + owed + pre.fees_accrued@) * (FRAC as int) == (
        pre.rewards_paid@ + pre.fees_accrued@) * (FRAC as int) + owed * (FRAC as int))
            by (nonlinear_arith);
        assert forall|a: int, b: int|
            0 <= a < b < v.stakes@.len() implies v.stakes@[a].address@
            != v.stakes@[b].address@ by {
            assert(v.stakes@[a].address == pre.stakes@[a].address);
            assert(v.stakes@[b].address == pre.stakes@[b].address);
        }
    }
    owed
}

/// Unstake `amount` for `sender`: rejected with `InvalidAmount` when zero
/// or above the sender's stake; queued (or rejected with `InvalidAction`)
/// while upstream income is outstanding; otherwise the sender is settled,
/// their stake shrinks, and the principal plus any owed reward is
/// transferred back.
pub fn execute_unstake(
    v: &mut Vault,
    sender: String,
    amount: u128,
    withdrawable_amount: u128,
) -> (r: Result<VaultResponse, ContractError>)
    requires
        old(v).wf(),
    ensures
        final(v).wf(),
        amount == 0 || amount > stake_info_of(old(v).stakes@, sender@).stake ==> r == Err::<
            VaultResponse,
            ContractError,
        >(ContractError::InvalidAmount) && vault_unchanged(*old(v), *final(v)),
        1 <= amount <= stake_info_of(old(v).stakes@, sender@).stake ==> {
            &&& withdrawable_amount > 0 && old(v).slot_busy() ==> r == Err::<
                VaultResponse,
                ContractError,
            >(ContractError::InvalidAction) && vault_unchanged(*old(v), *final(v))
            &&& withdrawable_amount > 0 && !old(v).slot_busy() ==> same_core(
                *old(v),
                *final(v),
            ) && final(v).reward_action == (RewardAction::Unstake { address: sender, amount })
                && (r matches Ok(resp) && is_withdraw_request(resp))
            &&& withdrawable_amount == 0 ==> unstake_effect(*old(v), *final(v), sender, amount)
                && final(v).reward_action == old(v).reward_action && (r matches Ok(resp)
                && !resp.withdraw_request && resp.transfers@ == unstake_transfers(
                sender,
                amount,
                owed_of(
                    old(v).totals.power,
                    stake_info_of(old(v).stakes@, sender@).power_diff,
                    stake_info_of(old(v).stakes@, sender@).stake,
                ),
            ))
        },
{
    let idx_opt = find_staker(&v.stakes, &sender);
    let stake = match idx_opt {
        Some(i) => {
            proof {
                lemma_idx_unique(v.stakes@, sender@, i as int);
            }
            v.stakes[i].info.stake
        },
        None => 0u128,
    };
    if amount == 0 {
        return Err(ContractError::InvalidAmount);
    }
    if amount > stake {
        return Err(ContractError::InvalidAmount);
    }
    if withdrawable_amount > 0 {
        let addr = sender;
        return try_enqueue(v, RewardAction::Unstake { address: addr, amount });
    }
    let owed = apply_unstake(v, &sender, amount);
    let mut transfers: Vec<Transfer> = Vec::new();
    transfers.push(Transfer { recipient: sender.clone(), amount });
    if owed > 0 {
        transfers.push(Transfer { recipient: sender, amount: owed });
        proof {
            assert(transfers@ =~= unstake_transfers(sender, amount, owed as int));
        }
    } else {
        proof {
            assert(transfers@ =~= unstake_transfers(sender, amount, owed as int));
        }
    }
    Ok(VaultResponse { withdraw_request: false, transfers })
}

/// Claim the reward owed to `address`: queued (or rejected with
/// `InvalidAction`) while upstream income is outstanding; otherwise the
/// depositor is settled and the owed reward — possibly zero — is
/// transferred in any case.
pub fn execute_withdraw_rewards(
    v: &mut Vault,
    address: String,
    withdrawable_amount: u128,
) -> (r: Result<VaultResponse, ContractError>)
    requires
        old(v).wf(),
    ensures
        final(v).wf(),
        withdrawable_amount > 0 && old(v).slot_busy() ==> r == Err::<
            VaultResponse,
            ContractError,
        >(ContractError::InvalidAction) && vault_unchanged(*old(v), *final(v)),
        withdrawable_amount > 0 && !old(v).slot_busy() ==> same_core(*old(v), *final(v))
            && final(v).reward_action == (RewardAction::Reward { address })
            && (r matches Ok(resp) && is_withdraw_request(resp)),
        withdrawable_amount == 0 ==> claim_effect(*old(v), *final(v), address)
            && final(v).reward_action == old(v).reward_action && (r matches Ok(resp)
            && !resp.withdraw_request && resp.transfers@ == seq![
            Transfer {
                recipient: address,
                amount: (owed_of(
                    old(v).totals.power,
                    stake_info_of(old(v).stakes@, address@).power_diff,
                    stake_info_of(old(v).stakes@, address@).stake,
                ) as u128),
            },
        ]),
{
    if withdrawable_amount > 0 {
        let addr = address;
        return try_enqueue(v, RewardAction::Reward { address: addr });
    }
    let recipient = address.clone();
    let owed = apply_claim(v, address);
    let mut transfers: Vec<Transfer> = Vec::new();
    transfers.push(Transfer { recipient, amount: owed });
    Ok(VaultResponse { withdraw_request: false, transfers })
}

/// Settle and pay out the reward owed to `address` right away, without
/// consulting the upstream module or the pending-action slot: the owed
/// amount is transferred only when it is positive.
pub fn execute_distribute_user_rewards(v: &mut Vault, address: String) -> (r: Result<
    VaultResponse,
    ContractError,
>)
    requires
        old(v).wf(),
    ensures
        final(v).wf(),
        claim_effect(*old(v), *final(v), address),
        final(v).reward_action == old(v).reward_action,
        r matches Ok(resp) && !resp.withdraw_request && resp.transfers@ == reward_transfers(
            address,
            owed_of(
                old(v).totals.power,
                stake_info_of(old(v).stakes@, address@).power_diff,
                stake_info_of(old(v).stakes@, address@).stake,
            ),
        ),
{
    let recipient = address.clone();
    let owed = apply_claim(v, address);
    let mut transfers: Vec<Transfer> = Vec::new();
    if owed > 0 {
        transfers.push(Transfer { recipient, amount: owed });
    }
    proof {
        assert(transfers@ =~= reward_transfers(address, owed as int));
    }
    Ok(VaultResponse { withdraw_request: false, transfers })
}

/// How settling `income` into the pool changes the vault: both fee cuts
/// land in their pending balances, the accumulator rises by the per-share
/// increment, and the ghost meters record the income and the accrued fees.
pub open spec fn settle_effect(pre: Vault, post: Vault, income: u128) -> bool {
    &&& post.config == pre.config
    &&& post.stakes@ == pre.stakes@
    &&& post.totals == settled_totals(pre.config, pre.totals, income)
    &&& post.income_settled@ == pre.income_settled@ + income
    &&& post.fees_accrued@ == pre.fees_accrued@ + cut_of(pre.config.treasury_fee, income)
        + cut_of(pre.config.syne_staking_fee, income)
    &&& post.rewards_paid@ == pre.rewards_paid@
    &&& post.fees_paid@ == pre.fees_paid@
}

/// The machine limits a settlement of `income` must respect: the income
/// fits the fixed-point scale, neither pending fee balance overflows, and
/// the accumulator itself does not overflow.
pub open spec fn settle_fits(cfg: Config, t: TokenInfo, income: u128) -> bool {
    &&& income <= MAX_WHOLE
    &&& t.pending_treasury_rewards + cut_of(cfg.treasury_fee, income) <= u128::MAX
    &&& t.pending_syne_staking_rewards + cut_of(cfg.syne_staking_fee, income) <= u128::MAX
    &&& t.power.atomics + power_inc_of(cfg, income, t.staked) <= u128::MAX
}

/// For a non-empty pool the accumulator increment never spreads more than
/// the net income: increment times total stake stays within `net * 10^18`.
proof fn lemma_inc_times_staked(cfg: Config, income: u128, staked: u128)
    requires
        cfg.fees_wf(),
        staked >= 1,
    ensures
        power_inc_of(cfg, income, staked) >= 0,
        power_inc_of(cfg, income, staked) * staked <= net_of(cfg, income) * FRAC,
{
    lemma_cuts_within_income(cfg, income);
    let n = net_of(cfg, income) * (FRAC as int);
    let d = staked as int;
    assert(n >= 0) by (nonlinear_arith)
        requires
            net_of(cfg, income) >= 0,
            FRAC > 0,
            n == net_of(cfg, income) * (FRAC as int),
    ;
    lemma_fundamental_div_mod(n, d);
    assert(n / d >= 0 && (n / d) * d <= n) by (nonlinear_arith)
        requires
            n >= 0,
            d > 0,
            n == d * (n / d) + n % d,
            0 <= n % d < d,
    ;
}

/// Settle `income` into the pool totals and the ghost meters.
fn apply_settlement(v: &mut Vault, income: u128)
    requires
        old(v).wf(),
        settle_fits(old(v).config, old(v).totals, income),
    ensures
        final(v).wf(),
        final(v).reward_action == old(v).reward_action,
        settle_effect(*old(v), *final(v), income),
{
    let ghost pre = *v;
    update_total_rewards(&mut v.totals, &v.config, income);
    v.income_settled = Ghost(v.income_settled@ + income);
    v.fees_accrued = Ghost(
        v.fees_accrued@ + cut_of(pre.config.treasury_fee, income) + cut_of(
            pre.config.syne_staking_fee,
            income,
        ),
    );
    proof {
        let p = pre.totals.power;
        let q = v.totals.power;
        let s = pre.stakes@;
        let delta = power_inc_of(pre.config, income, pre.totals.staked);
        let ct = cut_of(pre.config.treasury_fee, income);
        let cs = cut_of(pre.config.syne_staking_fee, income);
        let f = FRAC as int;
        lemma_cuts_within_income(pre.config, income);
        lemma_sum_debt_raise(s, p, q);
        if pre.totals.staked > 0 {
            lemma_inc_times_staked(pre.config, income, pre.totals.staked);
            assert(delta * sum_stakes(s) <= net_of(pre.config, income) * f);
        } else {
            assert(delta * sum_stakes(s) == 0) by (nonlinear_arith)
                requires
                    delta == 0 || sum_stakes(s) == 0,
            ;
            assert(net_of(pre.config, income) * f >= 0) by (nonlinear_arith)
                requires
                    net_of(pre.config, income) >= 0,
                    f > 0,
            ;
        }
        assert(net_of(pre.config, income) * f == income * f - ct * f - cs * f)
            by (nonlinear_arith)
            requires
                net_of(pre.config, income) == income - ct - cs,
        ;
        assert((pre.rewards_paid@ + pre.fees_accrued@ + ct + cs) * f == (pre.rewards_paid@
            + pre.fees_accrued@) * f + ct * f + cs * f) by (nonlinear_arith);
        assert((pre.income_settled@ + income) * f == pre.income_settled@ * f + income * f)
            by (nonlinear_arith);
        assert(sum_debt(s, q) + (v.rewards_paid@ + v.fees_accrued@) * f <= v.income_settled@
            * f);
    }
}

/// How a fee withdrawal of `want` changes the vault: the pending balance
/// named by `treasury` drains by `want`, which is counted as a paid fee.
pub open spec fn fee_withdraw_effect(pre: Vault, post: Vault, want: int, treasury: bool) -> bool {
    &&& post.config == pre.config
    &&& post.stakes@ == pre.stakes@
    &&& post.totals.staked == pre.totals.staked
    &&& post.totals.power == pre.totals.power
    &&& post.totals.pending_treasury_rewards == if treasury {
        pre.totals.pending_treasury_rewards - want
    } else {
        pre.totals.pending_treasury_rewards as int
    }
    &&& post.totals.pending_syne_staking_rewards == if treasury {
        pre.totals.pending_syne_staking_rewards as int
    } else {
        pre.totals.pending_syne_staking_rewards - want
    }
    &&& post.income_settled@ == pre.income_settled@
    &&& post.fees_accrued@ == pre.fees_accrued@
    &&& post.rewards_paid@ == pre.rewards_paid@
    &&& post.fees_paid@ == pre.fees_paid@ + want
}

/// The amount a fee withdrawal asks for: the explicit amount, or the whole
/// pending balance.
pub open spec fn requested(amount: Option<u128>, pending: u128) -> int {
    if amount is Some {
        amount->0 as int
    } else {
        pending as int
    }
}

/// Withdraw treasury fees. Only the configured treasury withdrawer may
/// call this, and only with a treasury wallet configured; the request is
/// queued while upstream income is outstanding; otherwise the amount
/// (default: the whole pending balance) is drained and transferred to the
/// treasury wallet.
pub fn execute_withdraw_treasury_rewards(
    v: &mut Vault,
    sender: String,
    amount: Option<u128>,
    withdrawable_amount: u128,
) -> (r: Result<VaultResponse, ContractError>)
    requires
        old(v).wf(),
    ensures
        final(v).wf(),
        old(v).config.treasury_withdrawer is None || old(v).config.treasury_wallet is None ==> r
            == Err::<VaultResponse, ContractError>(ContractError::InvalidDistributor)
            && vault_unchanged(*old(v), *final(v)),
        ({
            let cfg = old(v).config;
            &&& (cfg.treasury_withdrawer is Some && cfg.treasury_wallet is Some && sender@
                != cfg.treasury_withdrawer->0@) ==> r == Err::<VaultResponse, ContractError>(
                ContractError::Unauthorized,
            ) && vault_unchanged(*old(v), *final(v))
            &&& (cfg.treasury_withdrawer is Some && cfg.treasury_wallet is Some && sender@
                == cfg.treasury_withdrawer->0@) ==> {
                let want = requested(amount, old(v).totals.pending_treasury_rewards);
                &&& withdrawable_amount > 0 && old(v).slot_busy() ==> r == Err::<
                    VaultResponse,
                    ContractError,
                >(ContractError::InvalidAction) && vault_unchanged(*old(v), *final(v))
                &&& withdrawable_amount > 0 && !old(v).slot_busy() ==> same_core(
                    *old(v),
                    *final(v),
                ) && final(v).reward_action == (RewardAction::TreasuryWithdraw { amount })
                    && (r matches Ok(resp) && is_withdraw_request(resp))
                &&& withdrawable_amount == 0 && want > old(v).totals.pending_treasury_rewards
                    ==> r == Err::<VaultResponse, ContractError>(ContractError::InvalidAmount)
                    && vault_unchanged(*old(v), *final(v))
                &&& withdrawable_amount == 0 && want == 0 ==> r == Err::<
                    VaultResponse,
                    ContractError,
                >(ContractError::NoWithdrawable) && vault_unchanged(*old(v), *final(v))
                &&& withdrawable_amount == 0 && 0 < want <= old(
                    v,
                ).totals.pending_treasury_rewards ==> fee_withdraw_effect(
                    *old(v),
                    *final(v),
                    want,
                    true,
                ) && final(v).reward_action == old(v).reward_action && (r matches Ok(resp)
                    && !resp.withdraw_request && resp.transfers@ == seq![
                    Transfer { recipient: cfg.treasury_wallet->0, amount: want as u128 },
                ])
            }
        }),
{
    let withdrawer = match &v.config.treasury_withdrawer {
        Some(w) => w.clone(),
        None => {
            return Err(ContractError::InvalidDistributor);
        },
    };
    let wallet = match &v.config.treasury_wallet {
        Some(w) => w.clone(),
        None => {
            return Err(ContractError::InvalidDistributor);
        },
    };
    if !(sender == withdrawer) {
        return Err(ContractError::Unauthorized);
    }
    if withdrawable_amount > 0 {
        return try_enqueue(v, RewardAction::TreasuryWithdraw { amount });
    }
    let want = match amount {
        Some(a) => a,
        None => v.totals.pending_treasury_rewards,
    };
    if want > v.totals.pending_treasury_rewards {
        return Err(ContractError::InvalidAmount);
    }
    if want == 0 {
        return Err(ContractError::NoWithdrawable);
    }
    let got = match update_treasury_amounts(&mut v.totals, amount) {
        Ok(g) => g,
        Err(_) => unreached(),
    };
    v.fees_paid = Ghost(v.fees_paid@ + got);
    let mut transfers: Vec<Transfer> = Vec::new();
    transfers.push(Transfer { recipient: wallet, amount: got });
    Ok(VaultResponse { withdraw_request: false, transfers })
}

/// Withdraw secondary (staking-reward-distributor) fees. The request is
/// queued while upstream income is outstanding; otherwise the amount
/// (default: the whole pending balance) is drained and transferred to the
/// configured distributor, if one exists.
pub fn execute_withdraw_syne_staking_rewards(
    v: &mut Vault,
    amount: Option<u128>,
    withdrawable_amount: u128,
) -> (r: Result<VaultResponse, ContractError>)
    requires
        old(v).wf(),
    ensures
        final(v).wf(),
        withdrawable_amount > 0 && old(v).slot_busy() ==> r == Err::<
            VaultResponse,
            ContractError,
        >(ContractError::InvalidAction) && vault_unchanged(*old(v), *final(v)),
        withdrawable_amount > 0 && !old(v).slot_busy() ==> same_core(*old(v), *final(v))
            && final(v).reward_action == (RewardAction::SyneStakingRewardWithdraw { amount })
            && (r matches Ok(resp) && is_withdraw_request(resp)),
        withdrawable_amount == 0 ==> ({
            let want = requested(amount, old(v).totals.pending_syne_staking_rewards);
            &&& want > old(v).totals.pending_syne_staking_rewards ==> r == Err::<
                VaultResponse,
                ContractError,
            >(ContractError::InvalidAmount) && vault_unchanged(*old(v), *final(v))
            &&& want <= old(v).totals.pending_syne_staking_rewards && want == 0 ==> r == Err::<
                VaultResponse,
                ContractError,
            >(ContractError::NoWithdrawable) && vault_unchanged(*old(v), *final(v))
            &&& 0 < want <= old(v).totals.pending_syne_staking_rewards && old(
                v,
            ).config.syne_staking_reward_distributor is None ==> r == Err::<
                VaultResponse,
                ContractError,
            >(ContractError::InvalidDistributor) && vault_unchanged(*old(v), *final(v))
            &&& 0 < want <= old(v).totals.pending_syne_staking_rewards && old(
                v,
            ).config.syne_staking_reward_distributor is Some ==> fee_withdraw_effect(
                *old(v),
                *final(v),
                want,
                false,
            ) && final(v).reward_action == old(v).reward_action && (r matches Ok(resp)
                && !resp.withdraw_request && resp.transfers@ == seq![
                Transfer {
                    recipient: old(v).config.syne_staking_reward_distributor->0,
                    amount: want as u128,
                },
            ])
        }),
{
    if withdrawable_amount > 0 {
        return try_enqueue(v, RewardAction::SyneStakingRewardWithdraw { amount });
    }
    let want = match amount {
        Some(a) => a,
        None => v.totals.pending_syne_staking_rewards,
    };
    if want > v.totals.pending_syne_staking_rewards {
        return Err(ContractError::InvalidAmount);
    }
    if want == 0 {
        return Err(ContractError::NoWithdrawable);
    }
    let distributor = match &v.config.syne_staking_reward_distributor {
        Some(d) => d.clone(),
        None => {
            return Err(ContractError::InvalidDistributor);
        },
    };
    let got = match update_syne_staking_amounts(&mut v.totals, amount) {
        Ok(g) => g,
        Err(_) => unreached(),
    };
    v.fees_paid = Ghost(v.fees_paid@ + got);
    let mut transfers: Vec<Transfer> = Vec::new();
    transfers.push(Transfer { recipient: distributor, amount: got });
    Ok(VaultResponse { withdraw_request: false, transfers })
}

/// The configuration as an update request would leave it: each field
/// named in the request replaces the current one, the rest stay.
pub open spec fn updated_config(
    cfg: Config,
    min_bond: Option<u128>,
    treasury_wallet: Option<String>,
    treasury_withdrawer: Option<String>,
    syne_staking_reward_distributor: Option<String>,
    treasury_fee: Option<Ratio>,
    syne_staking_fee: Option<Ratio>,
) -> Config {
    Config {
        min_bond: if min_bond is Some {
            min_bond->0
        } else {
            cfg.min_bond
        },
        treasury_wallet: if treasury_wallet is Some {
            Option::Some(treasury_wallet->0)
        } else {
            cfg.treasury_wallet
        },
        treasury_withdrawer: if treasury_withdrawer is Some {
            Option::Some(treasury_withdrawer->0)
        } else {
            cfg.treasury_withdrawer
        },
        syne_staking_reward_distributor: if syne_staking_reward_distributor is Some {
            Option::Some(syne_staking_reward_distributor->0)
        } else {
            cfg.syne_staking_reward_distributor
        },
        treasury_fee: if treasury_fee is Some {
            treasury_fee->0
        } else {
            cfg.treasury_fee
        },
        syne_staking_fee: if syne_staking_fee is Some {
            syne_staking_fee->0
        } else {
            cfg.syne_staking_fee
        },
        ..cfg
    }
}

/// Update the admin-mutable configuration fields. Only the admin may call
/// this; a treasury fee at or below its floor, or a fee pair that would
/// break `treasury_fee + syne_staking_fee <= total_fee_cap`, is rejected
/// with `InvalidFee`; a request that names no field is rejected with
/// `NoData`. On any rejection the configuration is untouched.
pub fn execute_update_config(
    v: &mut Vault,
    sender: String,
    min_bond: Option<u128>,
    treasury_wallet: Option<String>,
    treasury_withdrawer: Option<String>,
    syne_staking_reward_distributor: Option<String>,
    treasury_fee: Option<Ratio>,
    syne_staking_fee: Option<Ratio>,
) -> (r: Result<(), ContractError>)
    requires
        old(v).wf(),
    ensures
        final(v).wf(),
        ({
            let pre = *old(v);
            let upd = updated_config(
                pre.config,
                min_bond,
                treasury_wallet,
                treasury_withdrawer,
                syne_staking_reward_distributor,
                treasury_fee,
                syne_staking_fee,
            );
            let named = min_bond is Some || treasury_wallet is Some || treasury_withdrawer
                is Some || syne_staking_reward_distributor is Some || treasury_fee is Some
                || syne_staking_fee is Some;
            if sender@ != pre.config.admin@ {
                r == Err::<(), ContractError>(ContractError::Unauthorized) && vault_unchanged(
                    pre,
                    *final(v),
                )
            } else if treasury_fee is Some && treasury_fee->0.atomics
                <= pre.config.treasury_fee_limit.atomics {
                r == Err::<(), ContractError>(ContractError::InvalidFee) && vault_unchanged(
                    pre,
                    *final(v),
                )
            } else if upd.treasury_fee.atomics + upd.syne_staking_fee.atomics
                > pre.config.total_fee_cap.atomics {
                r == Err::<(), ContractError>(ContractError::InvalidFee) && vault_unchanged(
                    pre,
                    *final(v),
                )
            } else if !named {
                r == Err::<(), ContractError>(ContractError::NoData) && vault_unchanged(
                    pre,
                    *final(v),
                )
            } else {
                &&& r == Ok::<(), ContractError>(())
                &&& final(v).config == upd
                &&& final(v).totals == pre.totals
                &&& final(v).stakes@ == pre.stakes@
                &&& final(v).reward_action == pre.reward_action
                &&& final(v).income_settled@ == pre.income_settled@
                &&& final(v).fees_accrued@ == pre.fees_accrued@
                &&& final(v).rewards_paid@ == pre.rewards_paid@
                &&& final(v).fees_paid@ == pre.fees_paid@
            }
        }),
{
    if !(sender == v.config.admin) {
        return Err(ContractError::Unauthorized);
    }
    let named = min_bond.is_some() || treasury_wallet.is_some() || treasury_withdrawer.is_some()
        || syne_staking_reward_distributor.is_some() || treasury_fee.is_some()
        || syne_staking_fee.is_some();
    let new_tf = match treasury_fee {
        Some(f) => {
            if !(f.atomics > v.config.treasury_fee_limit.atomics) {
                return Err(ContractError::InvalidFee);
            }
            f
        },
        None => v.config.treasury_fee,
    };
    let new_sf = match syne_staking_fee {
        Some(f) => f,
        None => v.config.syne_staking_fee,
    };
    if new_tf.atomics > u128::MAX - new_sf.atomics {
        return Err(ContractError::InvalidFee);
    }
    if new_tf.atomics + new_sf.atomics > v.config.total_fee_cap.atomics {
        return Err(ContractError::InvalidFee);
    }
    if !named {
        return Err(ContractError::NoData);
    }
    match min_bond {
        Some(m) => {
            v.config.min_bond = m;
        },
        None => {},
    }
    match treasury_wallet {
        Some(w) => {
            v.config.treasury_wallet = Some(w);
        },
        None => {},
    }
    match treasury_withdrawer {
        Some(w) => {
            v.config.treasury_withdrawer = Some(w);
        },
        None => {},
    }
    match syne_staking_reward_distributor {
        Some(d) => {
            v.config.syne_staking_reward_distributor = Some(d);
        },
        None => {},
    }
    v.config.treasury_fee = new_tf;
    v.config.syne_staking_fee = new_sf;
    Ok(())
}

/// The action the income notification will execute: the stored pending
/// action, unless the notification names a depositor, which turns it into
/// a reward claim for that depositor.
pub open spec fn effective_action(act: RewardAction, address: Option<String>) -> RewardAction {
    if address is Some {
        RewardAction::Reward { address: address->0 }
    } else {
        act
    }
}

/// When the action to execute is a queued stake, its amount must also keep
/// the pool total within the fixed-point scale.
pub open spec fn stake_arm_fits(pre: Vault, address: Option<String>) -> bool {
    match effective_action(pre.reward_action, address) {
        RewardAction::Stake { address: _, amount: a } => pre.totals.staked + a <= MAX_WHOLE,
        _ => true,
    }
}

/// Both fee cuts of `income` under the configured fees.
pub fn compute_cuts(cfg: &Config, income: u128) -> (r: (u128, u128))
    requires
        cfg.fees_wf(),
        income <= MAX_WHOLE,
    ensures
        r.0 == cut_of(cfg.treasury_fee, income),
        r.1 == cut_of(cfg.syne_staking_fee, income),
        r.0 + r.1 <= income,
{
    proof {
        lemma_whole_fits(income);
        lemma_cut_exact(income, cfg.treasury_fee.atomics);
        lemma_cut_exact(income, cfg.syne_staking_fee.atomics);
        lemma_cuts_within_income(*cfg, income);
    }
    let income_dec = Ratio::from_uint(income).unwrap();
    let t_cut = income_dec.checked_mul(cfg.treasury_fee).unwrap().to_uint_floor();
    let s_cut = income_dec.checked_mul(cfg.syne_staking_fee).unwrap().to_uint_floor();
    (t_cut, s_cut)
}

/// Whether a settlement of `income`, followed by whatever action the
/// notification would execute, stays within the machine limits the
/// notification handler requires: the income fits the fixed-point scale,
/// no pending balance and not the accumulator overflows, and a queued
/// stake keeps the pool total within the scale.
pub fn distribute_fits(v: &Vault, income: u128, address: &Option<String>) -> (r: bool)
    requires
        v.wf(),
    ensures
        r == (settle_fits(v.config, v.totals, income) && stake_arm_fits(*v, *address)),
{
    if income > MAX_WHOLE {
        return false;
    }
    let cuts = compute_cuts(&v.config, income);
    if v.totals.pending_treasury_rewards > u128::MAX - cuts.0 {
        return false;
    }
    if v.totals.pending_syne_staking_rewards > u128::MAX - cuts.1 {
        return false;
    }
    let inc: u128 = if v.totals.staked > 0 {
        let net = income - cuts.0 - cuts.1;
        proof {
            lemma_whole_fits(net);
            lemma_whole_fits(v.totals.staked);
            lemma_div_scale_cancel(net, v.totals.staked);
        }
        let net_dec = Ratio::from_uint(net).unwrap();
        let staked_dec = Ratio::from_uint(v.totals.staked).unwrap();
        net_dec.checked_div(staked_dec).unwrap().atomics
    } else {
        0u128
    };
    if v.totals.power.atomics > u128::MAX - inc {
        return false;
    }
    match (address, &v.reward_action) {
        (Option::None, RewardAction::Stake { address: _, amount: a }) => {
            *a <= MAX_WHOLE - v.totals.staked
        },
        _ => true,
    }
}

/// The trusted income notification: `amount` has been pushed into the pool
/// by the configured trigger. Rewards are settled (fee cuts taken, the
/// accumulator raised), then whatever waits in the pending-action slot —
/// or a reward claim for `address`, when one is named — is executed against
/// the freshly settled ledger, and the slot returns to empty. Rejected with
/// `Unauthorized` if `sender` is not the trigger; an action that cannot be
/// executed rejects the whole notification and leaves the vault unchanged.
pub fn execute_distribute_rewards(
    v: &mut Vault,
    sender: String,
    amount: u128,
    address: Option<String>,
) -> (r: Result<VaultResponse, ContractError>)
    requires
        old(v).wf(),
        sender@ == old(v).config.bloop_converter_and_staker@ ==> settle_fits(
            old(v).config,
            old(v).totals,
            amount,
        ) && stake_arm_fits(*old(v), address),
    ensures
        final(v).wf(),
        sender@ != old(v).config.bloop_converter_and_staker@ ==> r == Err::<
            VaultResponse,
            ContractError,
        >(ContractError::Unauthorized) && vault_unchanged(*old(v), *final(v)),
        sender@ == old(v).config.bloop_converter_and_staker@ ==> ({
            let pre = *old(v);
            let act = effective_action(pre.reward_action, address);
            let st = settled_totals(pre.config, pre.totals, amount);
            match act {
                RewardAction::NoAction => settle_effect(pre, *final(v), amount) && final(v).reward_action is NoAction && (r matches Ok(resp) && !resp.withdraw_request
                    && resp.transfers@.len() == 0),
                RewardAction::Reward { address: a } => (exists|mid: Vault|
                    settle_effect(pre, mid, amount) && #[trigger] claim_effect(
                        mid,
                        *final(v),
                        a,
                    )) && final(v).reward_action is NoAction && (r matches Ok(resp)
                    && !resp.withdraw_request && resp.transfers@ == reward_transfers(
                    a,
                    owed_of(
                        st.power,
                        stake_info_of(pre.stakes@, a@).power_diff,
                        stake_info_of(pre.stakes@, a@).stake,
                    ),
                )),
                RewardAction::Stake { address: a, amount: amt } => (exists|mid: Vault|
                    settle_effect(pre, mid, amount) && #[trigger] stake_effect(
                        mid,
                        *final(v),
                        a,
                        amt,
                    )) && final(v).reward_action is NoAction && (r matches Ok(resp)
                    && !resp.withdraw_request && resp.transfers@ == reward_transfers(
                    a,
                    owed_of(
                        st.power,
                        stake_info_of(pre.stakes@, a@).power_diff,
                        stake_info_of(pre.stakes@, a@).stake,
                    ),
                )),
                RewardAction::Unstake { address: a, amount: amt } => {
                    if amt == 0 || amt > stake_info_of(pre.stakes@, a@).stake {
                        r == Err::<VaultResponse, ContractError>(ContractError::InvalidAmount)
                            && vault_unchanged(pre, *final(v))
                    } else {
                        (exists|mid: Vault|
                            settle_effect(pre, mid, amount) && #[trigger] unstake_effect(
                                mid,
                                *final(v),
                                a,
                                amt,
                            )) && final(v).reward_action is NoAction && (r matches Ok(resp)
                            && !resp.withdraw_request && resp.transfers@ == unstake_transfers(
                            a,
                            amt,
                            owed_of(
                                st.power,
                                stake_info_of(pre.stakes@, a@).power_diff,
                                stake_info_of(pre.stakes@, a@).stake,
                            ),
                        ))
                    }
                },
                RewardAction::TreasuryWithdraw { amount: aopt } => {
                    let want = requested(aopt, st.pending_treasury_rewards);
                    if pre.config.treasury_wallet is None {
                        r == Err::<VaultResponse, ContractError>(
                            ContractError::InvalidDistributor,
                        ) && vault_unchanged(pre, *final(v))
                    } else if want > st.pending_treasury_rewards {
                        r == Err::<VaultResponse, ContractError>(ContractError::InvalidAmount)
                            && vault_unchanged(pre, *final(v))
                    } else {
                        (exists|mid: Vault|
                            settle_effect(pre, mid, amount) && #[trigger] fee_withdraw_effect(
                                mid,
                                *final(v),
                                want,
                                true,
                            )) && final(v).reward_action is NoAction && (r matches Ok(resp)
                            && !resp.withdraw_request && resp.transfers@ == seq![
                            Transfer {
                                recipient: pre.config.treasury_wallet->0,
                                amount: want as u128,
                            },
                        ])
                    }
                },
                RewardAction::SyneStakingRewardWithdraw { amount: aopt } => {
                    let want = requested(aopt, st.pending_syne_staking_rewards);
                    if pre.config.syne_staking_reward_distributor is None {
                        r == Err::<VaultResponse, ContractError>(
                            ContractError::InvalidDistributor,
                        ) && vault_unchanged(pre, *final(v))
                    } else if want > st.pending_syne_staking_rewards {
                        r == Err::<VaultResponse, ContractError>(ContractError::InvalidAmount)
                            && vault_unchanged(pre, *final(v))
                    } else {
                        (exists|mid: Vault|
                            settle_effect(pre, mid, amount) && #[trigger] fee_withdraw_effect(
                                mid,
                                *final(v),
                                want,
                                false,
                            )) && final(v).reward_action is NoAction && (r matches Ok(resp)
                            && !resp.withdraw_request && resp.transfers@ == seq![
                            Transfer {
                                recipient: pre.config.syne_staking_reward_distributor->0,
                                amount: want as u128,
                            },
                        ])
                    }
                },
            }
        }),
{
    let ghost pre = *v;
    if !(sender == v.config.bloop_converter_and_staker) {
        return Err(ContractError::Unauthorized);
    }
    let cuts = compute_cuts(&v.config, amount);
    // Pre-validate the stored action so that nothing is mutated on a
    // rejected notification.
    match (&address, &v.reward_action) {
        (Option::None, RewardAction::Unstake { address: a2, amount: amt }) => {
            let idx_opt = find_staker(&v.stakes, a2);
            let stake = match idx_opt {
                Some(i) => {
                    proof {
                        lemma_idx_unique(v.stakes@, a2@, i as int);
                    }
                    v.stakes[i].info.stake
                },
                None => 0u128,
            };
            if *amt == 0 || *amt > stake {
                return Err(ContractError::InvalidAmount);
            }
        },
        (Option::None, RewardAction::TreasuryWithdraw { amount: aopt }) => {
            if v.config.treasury_wallet.is_none() {
                return Err(ContractError::InvalidDistributor);
            }
            let settled_pending = v.totals.pending_treasury_rewards + cuts.0;
            let want = match aopt {
                Some(x) => *x,
                None => settled_pending,
            };
            if want > settled_pending {
                return Err(ContractError::InvalidAmount);
            }
        },
        (Option::None, RewardAction::SyneStakingRewardWithdraw { amount: aopt }) => {
            if v.config.syne_staking_reward_distributor.is_none() {
                return Err(ContractError::InvalidDistributor);
            }
            let settled_pending = v.totals.pending_syne_staking_rewards + cuts.1;
            let want = match aopt {
                Some(x) => *x,
                None => settled_pending,
            };
            if want > settled_pending {
                return Err(ContractError::InvalidAmount);
            }
        },
        _ => {},
    }
    apply_settlement(v, amount);
    let ghost mid = *v;
    let mut stored = RewardAction::NoAction;
    core::mem::swap(&mut stored, &mut v.reward_action);
    let act = match address {
        Some(a) => RewardAction::Reward { address: a },
        None => stored,
    };
    let ghost eff = effective_action(pre.reward_action, address);
    let mut transfers: Vec<Transfer> = Vec::new();
    match act {
        RewardAction::NoAction => {
            proof {
                assert(transfers@.len() == 0);
            }
        },
        RewardAction::Reward { address: a } => {
            let recipient = a.clone();
            let owed = apply_claim(v, a);
            if owed > 0 {
                transfers.push(Transfer { recipient, amount: owed });
            }
            proof {
                assert(settle_effect(pre, mid, amount));
                assert(claim_effect(mid, *v, a));
                assert(transfers@ =~= reward_transfers(a, owed as int));
            }
        },
        RewardAction::Stake { address: a, amount: amt } => {
            let recipient = a.clone();
            let owed = apply_stake(v, a, amt);
            if owed > 0 {
                transfers.push(Transfer { recipient, amount: owed });
            }
            proof {
                assert(settle_effect(pre, mid, amount));
                assert(stake_effect(mid, *v, a, amt));
                assert(transfers@ =~= reward_transfers(a, owed as int));
            }
        },
        RewardAction::Unstake { address: a, amount: amt } => {
            let owed = apply_unstake(v, &a, amt);
            transfers.push(Transfer { recipient: a.clone(), amount: amt });
            if owed > 0 {
                transfers.push(Transfer { recipient: a, amount: owed });
            }
            proof {
                assert(settle_effect(pre, mid, amount));
                assert(unstake_effect(mid, *v, a, amt));
                assert(transfers@ =~= unstake_transfers(a, amt, owed as int));
            }
        },
        RewardAction::TreasuryWithdraw { amount: aopt } => {
            let wallet = match &v.config.treasury_wallet {
                Some(w) => w.clone(),
                None => unreached(),
            };
            let got = match update_treasury_amounts(&mut v.totals, aopt) {
                Ok(g) => g,
                Err(_) => unreached(),
            };
            v.fees_paid = Ghost(v.fees_paid@ + got);
            transfers.push(Transfer { recipient: wallet, amount: got });
            proof {
                let want = requested(aopt, mid.totals.pending_treasury_rewards);
                assert(settle_effect(pre, mid, amount));
                assert(fee_withdraw_effect(mid, *v, want, true));
                assert(transfers@ =~= seq![
                    Transfer { recipient: pre.config.treasury_wallet->0, amount: want as u128 },
                ]);
            }
        },
        RewardAction::SyneStakingRewardWithdraw { amount: aopt } => {
            let distributor = match &v.config.syne_staking_reward_distributor {
                Some(d) => d.clone(),
                None => unreached(),
            };
            let got = match update_syne_staking_amounts(&mut v.totals, aopt) {
                Ok(g) => g,
                Err(_) => unreached(),
            };
            v.fees_paid = Ghost(v.fees_paid@ + got);
            transfers.push(Transfer { recipient: distributor, amount: got });
            proof {
                let want = requested(aopt, mid.totals.pending_syne_staking_rewards);
                assert(settle_effect(pre, mid, amount));
                assert(fee_withdraw_effect(mid, *v, want, false));
                assert(transfers@ =~= seq![
                    Transfer {
                        recipient: pre.config.syne_staking_reward_distributor->0,
                        amount: want as u128,
                    },
                ]);
            }
        },
    }
    Ok(VaultResponse { withdraw_request: false, transfers })
}

} // verus!
