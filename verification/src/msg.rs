//! Wire types the engine exchanges with its surroundings: its own query
//! interface, the withdrawal-request message it emits toward the income
//! trigger, and the plain configuration records of the contracts around
//! it (the gauge the trigger votes through, the secondary-reward
//! distribution, the vesting token's query responses).

use vstd::prelude::*;

verus! {

/// The read-only queries the engine answers.
#[derive(Clone, PartialEq, Eq, Debug)]
pub enum QueryMsg {
    /// The current admin address.
    Admin,
    /// The current configuration.
    Config,
    /// Total staked, the accumulator, and the pending treasury balance.
    TotalStake,
    /// One depositor's stake record.
    Stake { address: String },
    /// One depositor's currently owed reward, upstream income included
    /// virtually.
    Reward { address: String },
    /// The upstream module's currently withdrawable income.
    TotalPendingReward,
    /// The pending treasury balance, upstream income included virtually.
    TreasuryReward,
    /// The pending secondary-fee balance, upstream income included
    /// virtually.
    SyneStakingReward,
}

/// The one outbound request the engine sends to the income trigger: pull
/// the freshly earned income down from the upstream module.
#[derive(Clone, PartialEq, Eq, Structural, Debug)]
pub enum WithdrawMsg {
    /// Withdraw all currently accrued upstream rewards.
    WithdrawRewards,
}

/// Configuration of the secondary-reward distribution.
#[derive(Clone, PartialEq, Eq, Debug)]
pub struct SyneDistributionConfig {
    /// Address of the distributed token.
    pub syne_addr: String,
    /// How much is distributed per day.
    pub distribution_per_day: u64,
}

/// The gauge contracts the income trigger votes through.
#[derive(Clone, PartialEq, Eq, Debug)]
pub struct GaugeConfig {
    /// The gauge contract itself.
    pub loop_gauge_contract: String,
    /// An optional synergistic gauge beside it.
    pub synergistic_loop_gauge_contract: Option<String>,
}

/// Response carrying the gauge configuration.
#[derive(Clone, PartialEq, Eq, Debug)]
pub struct GaugeConfigResponse {
    /// The configured gauges.
    pub gauge_config: GaugeConfig,
}

/// Response listing the addresses allowed to transfer vesting tokens.
#[derive(Clone, PartialEq, Eq, Debug)]
pub struct VestingAllowListResponse {
    /// The allowed addresses.
    pub allow_list: Vec<String>,
}

/// Response carrying the maximum accepted vesting-schedule complexity.
#[derive(Clone, PartialEq, Eq, Debug)]
pub struct MaxVestingComplexityResponse {
    /// The complexity cap.
    pub complexity: u64,
}

} // verus!
