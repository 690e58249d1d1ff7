use bloop_vault::error::ContractError;
use bloop_vault::fixed::Ratio;
use bloop_vault::handlers::{
    execute_distribute_rewards, execute_stake, execute_unstake, execute_update_config,
    execute_withdraw_syne_staking_rewards, execute_withdraw_treasury_rewards,
};
use bloop_vault::queries::query_config;
use bloop_vault::vault::{instantiate, Vault};

fn vault() -> Vault {
    instantiate(
        "admin".to_string(),
        "token".to_string(),
        "loop_protocol".to_string(),
        "converter".to_string(),
        1,
    )
}

fn configured_vault() -> Vault {
    let mut v = vault();
    execute_update_config(
        &mut v,
        "admin".to_string(),
        None,
        Some("treasury".to_string()),
        Some("keeper".to_string()),
        Some("distributor".to_string()),
        None,
        Some(Ratio { atomics: 100_000_000_000_000_000 }),
    )
    .unwrap();
    v
}

#[test]
fn unstake_zero_is_invalid() {
    let mut v = vault();
    execute_stake(&mut v, "alice".to_string(), 100, 0).unwrap();
    let e = execute_unstake(&mut v, "alice".to_string(), 0, 0).unwrap_err();
    assert_eq!(e, ContractError::InvalidAmount);
}

#[test]
fn unstake_more_than_staked_is_invalid() {
    let mut v = vault();
    execute_stake(&mut v, "alice".to_string(), 100, 0).unwrap();
    let e = execute_unstake(&mut v, "alice".to_string(), 101, 0).unwrap_err();
    assert_eq!(e, ContractError::InvalidAmount);
    let e = execute_unstake(&mut v, "stranger".to_string(), 1, 0).unwrap_err();
    assert_eq!(e, ContractError::InvalidAmount);
}

#[test]
fn treasury_withdraw_needs_configuration() {
    let mut v = vault();
    let e = execute_withdraw_treasury_rewards(&mut v, "admin".to_string(), None, 0).unwrap_err();
    assert_eq!(e, ContractError::InvalidDistributor);
}

#[test]
fn treasury_withdraw_checks_caller() {
    let mut v = configured_vault();
    let e = execute_withdraw_treasury_rewards(&mut v, "mallory".to_string(), None, 0).unwrap_err();
    assert_eq!(e, ContractError::Unauthorized);
}

#[test]
fn treasury_withdraw_amount_rules() {
    let mut v = configured_vault();
    execute_stake(&mut v, "alice".to_string(), 1000, 0).unwrap();
    execute_distribute_rewards(&mut v, "converter".to_string(), 100, None).unwrap();
    assert_eq!(v.totals.pending_treasury_rewards, 20);
    assert_eq!(v.totals.pending_syne_staking_rewards, 10);

    let e = execute_withdraw_treasury_rewards(&mut v, "keeper".to_string(), Some(21), 0)
        .unwrap_err();
    assert_eq!(e, ContractError::InvalidAmount);
    let e = execute_withdraw_treasury_rewards(&mut v, "keeper".to_string(), Some(0), 0)
        .unwrap_err();
    assert_eq!(e, ContractError::NoWithdrawable);

    let r = execute_withdraw_treasury_rewards(&mut v, "keeper".to_string(), None, 0).unwrap();
    assert_eq!(r.transfers.len(), 1);
    assert_eq!(r.transfers[0].recipient, "treasury".to_string());
    assert_eq!(r.transfers[0].amount, 20);
    assert_eq!(v.totals.pending_treasury_rewards, 0);
}

#[test]
fn syne_withdraw_needs_distributor() {
    let mut v = vault();
    // Put a secondary-fee balance in place first.
    execute_update_config(
        &mut v,
        "admin".to_string(),
        None,
        None,
        None,
        None,
        None,
        Some(Ratio { atomics: 100_000_000_000_000_000 }),
    )
    .unwrap();
    execute_stake(&mut v, "alice".to_string(), 1000, 0).unwrap();
    execute_distribute_rewards(&mut v, "converter".to_string(), 100, None).unwrap();
    assert_eq!(v.totals.pending_syne_staking_rewards, 10);

    let e = execute_withdraw_syne_staking_rewards(&mut v, None, 0).unwrap_err();
    assert_eq!(e, ContractError::InvalidDistributor);
}

#[test]
fn syne_withdraw_pays_distributor() {
    let mut v = configured_vault();
    execute_stake(&mut v, "alice".to_string(), 1000, 0).unwrap();
    execute_distribute_rewards(&mut v, "converter".to_string(), 100, None).unwrap();

    let e = execute_withdraw_syne_staking_rewards(&mut v, Some(11), 0).unwrap_err();
    assert_eq!(e, ContractError::InvalidAmount);
    let r = execute_withdraw_syne_staking_rewards(&mut v, Some(4), 0).unwrap();
    assert_eq!(r.transfers[0].recipient, "distributor".to_string());
    assert_eq!(r.transfers[0].amount, 4);
    assert_eq!(v.totals.pending_syne_staking_rewards, 6);
}

#[test]
fn update_config_rejects_stranger() {
    let mut v = vault();
    let e = execute_update_config(
        &mut v,
        "mallory".to_string(),
        Some(5),
        None,
        None,
        None,
        None,
        None,
    )
    .unwrap_err();
    assert_eq!(e, ContractError::Unauthorized);
}

#[test]
fn update_config_rejects_fee_at_or_below_floor() {
    let mut v = vault();
    // The floor is 0.05; exactly 0.05 is still rejected.
    let e = execute_update_config(
        &mut v,
        "admin".to_string(),
        None,
        None,
        None,
        None,
        Some(Ratio { atomics: 50_000_000_000_000_000 }),
        None,
    )
    .unwrap_err();
    assert_eq!(e, ContractError::InvalidFee);
}

#[test]
fn update_config_rejects_fee_sum_over_cap() {
    let mut v = vault();
    // 0.25 + 0.1 = 0.35 > 0.3.
    let e = execute_update_config(
        &mut v,
        "admin".to_string(),
        None,
        None,
        None,
        None,
        Some(Ratio { atomics: 250_000_000_000_000_000 }),
        Some(Ratio { atomics: 100_000_000_000_000_000 }),
    )
    .unwrap_err();
    assert_eq!(e, ContractError::InvalidFee);
    // The configuration is untouched.
    assert_eq!(query_config(&v).treasury_fee.atomics, 200_000_000_000_000_000);
    assert_eq!(query_config(&v).syne_staking_fee.atomics, 0);
}

#[test]
fn update_config_rejects_empty_update() {
    let mut v = vault();
    let e = execute_update_config(&mut v, "admin".to_string(), None, None, None, None, None, None)
        .unwrap_err();
    assert_eq!(e, ContractError::NoData);
}

#[test]
fn update_config_applies_named_fields() {
    let mut v = vault();
    execute_update_config(
        &mut v,
        "admin".to_string(),
        Some(42),
        Some("treasury".to_string()),
        None,
        None,
        None,
        None,
    )
    .unwrap();
    let cfg = query_config(&v);
    assert_eq!(cfg.min_bond, 42);
    assert_eq!(cfg.treasury_wallet, Some("treasury".to_string()));
    assert_eq!(cfg.treasury_withdrawer, None);
}

#[test]
fn queued_treasury_withdraw_executes_on_notification() {
    let mut v = configured_vault();
    execute_stake(&mut v, "alice".to_string(), 1000, 0).unwrap();
    execute_distribute_rewards(&mut v, "converter".to_string(), 100, None).unwrap();
    // 50 more is pending upstream: the withdrawal is queued.
    let r = execute_withdraw_treasury_rewards(&mut v, "keeper".to_string(), None, 50).unwrap();
    assert!(r.withdraw_request);
    assert_eq!(v.totals.pending_treasury_rewards, 20);

    // The 50 lands: 10 more to the treasury balance, then the whole 30
    // is paid out.
    let r = execute_distribute_rewards(&mut v, "converter".to_string(), 50, None).unwrap();
    assert_eq!(r.transfers.len(), 1);
    assert_eq!(r.transfers[0].recipient, "treasury".to_string());
    assert_eq!(r.transfers[0].amount, 30);
    assert_eq!(v.totals.pending_treasury_rewards, 0);
}
