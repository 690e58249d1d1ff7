use bloop_vault::error::ContractError;
use bloop_vault::fixed::Ratio;
use bloop_vault::handlers::{
    execute_distribute_rewards, execute_stake, execute_unstake, execute_withdraw_rewards,
    execute_withdraw_treasury_rewards,
};
use bloop_vault::queries::{query_reward, query_staked, query_total_staked};
use bloop_vault::state::Config;
use bloop_vault::vault::{instantiate, vault_with_config, Vault};

fn default_vault() -> Vault {
    instantiate(
        "admin".to_string(),
        "token".to_string(),
        "loop_protocol".to_string(),
        "converter".to_string(),
        1,
    )
}

fn zero_fee_vault() -> Vault {
    vault_with_config(Config {
        admin: "admin".to_string(),
        token: "token".to_string(),
        bloop_converter_and_staker: "converter".to_string(),
        min_bond: 1,
        loop_protocol_staking: "loop_protocol".to_string(),
        treasury_wallet: None,
        treasury_withdrawer: None,
        syne_staking_reward_distributor: None,
        treasury_fee: Ratio { atomics: 0 },
        syne_staking_fee: Ratio { atomics: 0 },
        total_fee_cap: Ratio { atomics: 300_000_000_000_000_000 },
        treasury_fee_limit: Ratio { atomics: 0 },
        duration: 12,
    })
}

#[test]
fn empty_pool_stake_income_claim() {
    let mut v = default_vault();
    let r = execute_stake(&mut v, "alice".to_string(), 1000, 0).unwrap();
    assert!(!r.withdraw_request);
    assert!(r.transfers.is_empty());
    assert_eq!(v.totals.staked, 1000);

    let r = execute_distribute_rewards(&mut v, "converter".to_string(), 100, None).unwrap();
    assert!(r.transfers.is_empty());
    assert_eq!(v.totals.pending_treasury_rewards, 20);
    assert_eq!(v.totals.pending_syne_staking_rewards, 0);
    assert_eq!(v.totals.power.atomics, 80_000_000_000_000_000);

    let r = execute_withdraw_rewards(&mut v, "alice".to_string(), 0).unwrap();
    assert_eq!(r.transfers.len(), 1);
    assert_eq!(r.transfers[0].recipient, "alice".to_string());
    assert_eq!(r.transfers[0].amount, 80);
}

#[test]
fn two_stakers_split_income_evenly() {
    let mut v = zero_fee_vault();
    execute_stake(&mut v, "alice".to_string(), 1000, 0).unwrap();
    execute_stake(&mut v, "bob".to_string(), 1000, 0).unwrap();
    assert_eq!(v.totals.staked, 2000);

    execute_distribute_rewards(&mut v, "converter".to_string(), 100, None).unwrap();
    assert_eq!(v.totals.power.atomics, 50_000_000_000_000_000);

    let ra = execute_withdraw_rewards(&mut v, "alice".to_string(), 0).unwrap();
    let rb = execute_withdraw_rewards(&mut v, "bob".to_string(), 0).unwrap();
    assert_eq!(ra.transfers[0].amount, 50);
    assert_eq!(rb.transfers[0].amount, 50);
}

#[test]
fn unstake_queued_while_income_pending() {
    let mut v = zero_fee_vault();
    execute_stake(&mut v, "alice".to_string(), 1000, 0).unwrap();

    // Upstream income of 7 is pending: the unstake is queued, nothing moves.
    let r = execute_unstake(&mut v, "alice".to_string(), 500, 7).unwrap();
    assert!(r.withdraw_request);
    assert!(r.transfers.is_empty());
    assert_eq!(v.totals.staked, 1000);
    assert_eq!(query_staked(&v, &"alice".to_string()).stake, 1000);

    // A second operation is rejected while the slot is occupied.
    let e = execute_stake(&mut v, "bob".to_string(), 10, 7).unwrap_err();
    assert_eq!(e, ContractError::InvalidAction);

    // The income lands: the unstake completes against the fresh accumulator.
    let r = execute_distribute_rewards(&mut v, "converter".to_string(), 7, None).unwrap();
    assert_eq!(v.totals.power.atomics, 7_000_000_000_000_000);
    assert_eq!(r.transfers.len(), 2);
    assert_eq!(r.transfers[0].amount, 500);
    assert_eq!(r.transfers[1].amount, 7);
    assert_eq!(v.totals.staked, 500);
    assert_eq!(query_staked(&v, &"alice".to_string()).stake, 500);
}

#[test]
fn settlement_is_idempotent() {
    let mut v = default_vault();
    execute_stake(&mut v, "alice".to_string(), 1000, 0).unwrap();
    execute_distribute_rewards(&mut v, "converter".to_string(), 100, None).unwrap();

    let first = execute_withdraw_rewards(&mut v, "alice".to_string(), 0).unwrap();
    assert_eq!(first.transfers[0].amount, 80);
    let second = execute_withdraw_rewards(&mut v, "alice".to_string(), 0).unwrap();
    assert_eq!(second.transfers[0].amount, 0);
}

#[test]
fn occupied_slot_rejects_every_operation() {
    let mut v = default_vault();
    execute_stake(&mut v, "alice".to_string(), 1000, 0).unwrap();
    // Occupy the slot.
    let r = execute_withdraw_rewards(&mut v, "alice".to_string(), 5).unwrap();
    assert!(r.withdraw_request);

    let e = execute_stake(&mut v, "bob".to_string(), 10, 5).unwrap_err();
    assert_eq!(e, ContractError::InvalidAction);
    let e = execute_unstake(&mut v, "alice".to_string(), 10, 5).unwrap_err();
    assert_eq!(e, ContractError::InvalidAction);
    let e = execute_withdraw_rewards(&mut v, "alice".to_string(), 5).unwrap_err();
    assert_eq!(e, ContractError::InvalidAction);
    let e = execute_withdraw_treasury_rewards(&mut v, "admin".to_string(), None, 5).unwrap_err();
    // Treasury withdraw first fails for want of a configured withdrawer.
    assert_eq!(e, ContractError::InvalidDistributor);
}

#[test]
fn queued_stake_settles_then_applies() {
    let mut v = default_vault();
    execute_stake(&mut v, "alice".to_string(), 1000, 0).unwrap();
    // Alice's second stake arrives while income of 100 is pending upstream.
    let r = execute_stake(&mut v, "alice".to_string(), 500, 100).unwrap();
    assert!(r.withdraw_request);
    assert_eq!(v.totals.staked, 1000);

    let r = execute_distribute_rewards(&mut v, "converter".to_string(), 100, None).unwrap();
    // Settlement first: treasury keeps 20, 80 spread over 1000 staked;
    // Alice's queued stake then settles her 80 and adds the 500.
    assert_eq!(r.transfers.len(), 1);
    assert_eq!(r.transfers[0].amount, 80);
    assert_eq!(v.totals.staked, 1500);
    assert_eq!(query_staked(&v, &"alice".to_string()).stake, 1500);
}

#[test]
fn distribute_from_stranger_is_unauthorized() {
    let mut v = default_vault();
    execute_stake(&mut v, "alice".to_string(), 1000, 0).unwrap();
    let before_power = v.totals.power;
    let e = execute_distribute_rewards(&mut v, "mallory".to_string(), 100, None).unwrap_err();
    assert_eq!(e, ContractError::Unauthorized);
    assert_eq!(v.totals.power, before_power);
    assert_eq!(v.totals.pending_treasury_rewards, 0);
}

#[test]
fn conservation_across_operations() {
    let mut v = zero_fee_vault();
    execute_stake(&mut v, "alice".to_string(), 700, 0).unwrap();
    execute_stake(&mut v, "bob".to_string(), 300, 0).unwrap();
    execute_distribute_rewards(&mut v, "converter".to_string(), 10, None).unwrap();
    execute_unstake(&mut v, "alice".to_string(), 200, 0).unwrap();
    execute_stake(&mut v, "carol".to_string(), 50, 0).unwrap();
    execute_withdraw_rewards(&mut v, "bob".to_string(), 0).unwrap();

    let total = query_total_staked(&v).staked;
    let sum = query_staked(&v, &"alice".to_string()).stake
        + query_staked(&v, &"bob".to_string()).stake
        + query_staked(&v, &"carol".to_string()).stake;
    assert_eq!(total, sum);
    assert_eq!(total, 850);
}

#[test]
fn query_reward_adds_virtual_income() {
    let mut v = default_vault();
    execute_stake(&mut v, "alice".to_string(), 1000, 0).unwrap();
    // Nothing settled yet, but 100 is withdrawable upstream: alice's
    // virtual share is 100 * (1 - 0.2) = 80.
    let r = query_reward(&v, &"alice".to_string(), 100);
    assert_eq!(r, 80);
    // Once it actually settles, the ledger part says the same.
    execute_distribute_rewards(&mut v, "converter".to_string(), 100, None).unwrap();
    let r = query_reward(&v, &"alice".to_string(), 0);
    assert_eq!(r, 80);
}

#[test]
fn income_on_empty_pool_keeps_fees_only() {
    let mut v = default_vault();
    execute_distribute_rewards(&mut v, "converter".to_string(), 100, None).unwrap();
    // 20 goes to the treasury balance; with nothing staked the remaining
    // 80 is not redistributed and the accumulator stays put.
    assert_eq!(v.totals.pending_treasury_rewards, 20);
    assert_eq!(v.totals.power.atomics, 0);
    assert_eq!(v.totals.staked, 0);
}

#[test]
fn notification_override_settles_named_depositor() {
    let mut v = zero_fee_vault();
    execute_stake(&mut v, "alice".to_string(), 1000, 0).unwrap();
    // The notification names alice: her claim is settled even though the
    // slot is empty.
    let r = execute_distribute_rewards(
        &mut v,
        "converter".to_string(),
        10,
        Some("alice".to_string()),
    )
    .unwrap();
    assert_eq!(r.transfers.len(), 1);
    assert_eq!(r.transfers[0].recipient, "alice".to_string());
    assert_eq!(r.transfers[0].amount, 10);
}

#[test]
fn power_accumulates_across_settlements() {
    let mut v = zero_fee_vault();
    execute_stake(&mut v, "alice".to_string(), 1000, 0).unwrap();
    execute_distribute_rewards(&mut v, "converter".to_string(), 3, None).unwrap();
    execute_distribute_rewards(&mut v, "converter".to_string(), 4, None).unwrap();
    assert_eq!(v.totals.power.atomics, 7_000_000_000_000_000);
    let r = execute_withdraw_rewards(&mut v, "alice".to_string(), 0).unwrap();
    assert_eq!(r.transfers[0].amount, 7);
}

#[test]
fn distribute_user_rewards_pays_only_when_owed() {
    let mut v = default_vault();
    bloop_vault::handlers::execute_distribute_user_rewards(&mut v, "alice".to_string()).unwrap();
    execute_stake(&mut v, "alice".to_string(), 1000, 0).unwrap();
    execute_distribute_rewards(&mut v, "converter".to_string(), 100, None).unwrap();

    let r = bloop_vault::handlers::execute_distribute_user_rewards(&mut v, "alice".to_string())
        .unwrap();
    assert_eq!(r.transfers.len(), 1);
    assert_eq!(r.transfers[0].amount, 80);
    // Settled: a second distribution owes nothing and emits nothing.
    let r = bloop_vault::handlers::execute_distribute_user_rewards(&mut v, "alice".to_string())
        .unwrap();
    assert!(r.transfers.is_empty());
}

#[test]
fn payouts_never_exceed_settled_income() {
    let mut v = default_vault();
    bloop_vault::handlers::execute_update_config(
        &mut v,
        "admin".to_string(),
        None,
        Some("treasury".to_string()),
        Some("keeper".to_string()),
        Some("distributor".to_string()),
        None,
        Some(Ratio { atomics: 100_000_000_000_000_000 }),
    )
    .unwrap();

    let mut income: u128 = 0;
    let mut paid: u128 = 0;

    execute_stake(&mut v, "alice".to_string(), 333, 0).unwrap();
    execute_stake(&mut v, "bob".to_string(), 667, 0).unwrap();
    execute_distribute_rewards(&mut v, "converter".to_string(), 101, None).unwrap();
    income += 101;
    let r = execute_withdraw_rewards(&mut v, "alice".to_string(), 0).unwrap();
    paid += r.transfers.iter().map(|t| t.amount).sum::<u128>();
    execute_distribute_rewards(&mut v, "converter".to_string(), 57, None).unwrap();
    income += 57;
    let r = execute_withdraw_rewards(&mut v, "bob".to_string(), 0).unwrap();
    paid += r.transfers.iter().map(|t| t.amount).sum::<u128>();
    let r = execute_withdraw_treasury_rewards(&mut v, "keeper".to_string(), None, 0).unwrap();
    paid += r.transfers.iter().map(|t| t.amount).sum::<u128>();
    let r = bloop_vault::handlers::execute_withdraw_syne_staking_rewards(&mut v, None, 0).unwrap();
    paid += r.transfers.iter().map(|t| t.amount).sum::<u128>();
    let r = execute_withdraw_rewards(&mut v, "alice".to_string(), 0).unwrap();
    paid += r.transfers.iter().map(|t| t.amount).sum::<u128>();

    // Every reward and fee transfer ever emitted stays within the income
    // ever settled in.
    assert!(paid <= income);
}
