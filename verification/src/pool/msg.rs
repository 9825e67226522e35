//! What can be asked of a pool, and what it answers.

use vstd::prelude::*;

use crate::asset::{TokenInfo, TokenType};
use crate::chain::Addr;
use crate::error::StdError;
use crate::number::{Decimal, Timestamp};
use crate::pool::state::{PoolAnalytics, RecoveryType};

verus! {

/// A call of the CW20 contract that tokens were sent through.
#[derive(Debug)]
pub struct Cw20ReceiveMsg {
    /// Who sent the tokens.
    pub sender: String,
    pub amount: u128,
}

/// What the sender of CW20 tokens wants done with them.
#[derive(Debug)]
pub enum Cw20HookMsg {
    Swap {
        belief_price: Option<Decimal>,
        max_spread: Option<Decimal>,
        to: Option<String>,
        transaction_deadline: Option<Timestamp>,
    },
}

/// The calls that change a pool.
#[derive(Debug)]
pub enum ExecuteMsg {
    Receive(Cw20ReceiveMsg),
    SimpleSwap {
        offer_asset: TokenInfo,
        belief_price: Option<Decimal>,
        max_spread: Option<Decimal>,
        to: Option<String>,
        transaction_deadline: Option<Timestamp>,
    },
    UpdateConfigFromFactory { update: PoolConfigUpdate },
    RecoverStuckStates { recovery_type: RecoveryType },
    ContinueDistribution {  },
    Pause {  },
    Unpause {  },
    EmergencyWithdraw {  },
    CancelEmergencyWithdraw {  },
    Commit {
        asset: TokenInfo,
        transaction_deadline: Option<Timestamp>,
        belief_price: Option<Decimal>,
        max_spread: Option<Decimal>,
    },
    DepositLiquidity {
        amount0: u128,
        amount1: u128,
        min_amount0: Option<u128>,
        min_amount1: Option<u128>,
        transaction_deadline: Option<Timestamp>,
    },
    CollectFees { position_id: String },
    AddToPosition {
        position_id: String,
        amount0: u128,
        amount1: u128,
        min_amount0: Option<u128>,
        min_amount1: Option<u128>,
        transaction_deadline: Option<Timestamp>,
    },
    RemovePartialLiquidity {
        position_id: String,
        liquidity_to_remove: u128,
        transaction_deadline: Option<Timestamp>,
        min_amount0: Option<u128>,
        min_amount1: Option<u128>,
        max_ratio_deviation_bps: Option<u16>,
    },
    RemovePartialLiquidityByPercent {
        position_id: String,
        percentage: u64,
        transaction_deadline: Option<Timestamp>,
        min_amount0: Option<u128>,
        min_amount1: Option<u128>,
        max_ratio_deviation_bps: Option<u16>,
    },
    RemoveAllLiquidity {
        position_id: String,
        transaction_deadline: Option<Timestamp>,
        min_amount0: Option<u128>,
        min_amount1: Option<u128>,
        max_ratio_deviation_bps: Option<u16>,
    },
    /// Pays out what is locked for the creator, once it is unlocked.
    ClaimCreatorExcessLiquidity { transaction_deadline: Option<Timestamp> },
    /// Empties the creator's fee pot into the creator's wallet.
    ClaimCreatorFees { transaction_deadline: Option<Timestamp> },
    /// Tells the factory once more that the threshold was crossed, where telling it failed.
    RetryFactoryNotify {  },
}

/// What can be asked without changing anything.
#[allow(inconsistent_fields)]
#[derive(Debug)]
pub enum QueryMsg {
    Pair {  },
    Config {  },
    Simulation { offer_asset: TokenInfo },
    ReverseSimulation { ask_asset: TokenInfo },
    CumulativePrices {  },
    FeeInfo {  },
    IsFullyCommited {  },
    CommittingInfo { wallet: String },
    PoolCommits {
        pool_contract_address: Addr,
        min_payment_usd: Option<u128>,
        after_timestamp: Option<u64>,
        start_after: Option<String>,
        limit: Option<u32>,
    },
    PoolState {  },
    FeeState {  },
    Position { position_id: String },
    Positions { start_after: Option<String>, limit: Option<u32> },
    PositionsByOwner { owner: String, start_after: Option<String>, limit: Option<u32> },
    LastCommited { wallet: String },
    PoolInfo {  },
    GetPoolState { pool_contract_address: String },
    GetAllPools {  },
    IsPaused {  },
    /// Whether telling the factory about the threshold has to be tried again.
    FactoryNotifyStatus {  },
}

/// The calls of an upgrade.
#[derive(Clone, Copy, Debug, PartialEq, Eq, Structural)]
pub enum MigrateMsg {
    UpdateFees { new_fees: Decimal },
    UpdateVersion {  },
}

/// What the factory sets up a pool with.
#[derive(Debug)]
pub struct CommitPoolInstantiateMsg {
    pub pool_id: u64,
    pub pool_token_info: [TokenType; 2],
    pub cw20_token_contract_id: u64,
    pub used_factory_addr: Addr,
    /// What is minted at the threshold, read from its wire form, or why it cannot be read.
    pub threshold_payout: Option<Result<crate::pool::state::ThresholdPayoutAmounts, StdError>>,
    pub commit_fee_info: crate::pool::state::CommitFeeInfo,
    pub commit_threshold_limit_usd: u128,
    pub commit_amount_for_threshold: u128,
    pub position_nft_address: Addr,
    pub token_address: Addr,
    pub max_bluechip_lock_per_pool: u128,
    pub creator_excess_liquidity_lock_days: u64,
    pub is_standard_pool: Option<bool>,
}

/// Settings to change; what is not given stays as it is.
#[derive(Debug)]
pub struct PoolConfigUpdate {
    pub lp_fee: Option<Decimal>,
    pub min_commit_interval: Option<u64>,
    pub usd_payment_tolerance_bps: Option<u16>,
    pub oracle_address: Option<String>,
}

#[derive(Clone, Copy, Debug, PartialEq, Eq, Structural)]
pub struct FactoryNotifyStatusResponse {
    pub pending: bool,
}

#[derive(Debug, PartialEq)]
pub struct CommitterInfo {
    pub wallet: String,
    pub last_payment_bluechip: u128,
    pub last_payment_usd: u128,
    pub last_committed: Timestamp,
    pub total_paid_usd: u128,
    pub total_paid_bluechip: u128,
}

#[derive(Debug, PartialEq)]
pub struct PoolCommitResponse {
    pub total_count: u32,
    pub committers: Vec<CommitterInfo>,
}

#[derive(Debug, PartialEq)]
pub struct PoolResponse {
    pub assets: [TokenInfo; 2],
}

#[derive(Debug, PartialEq)]
pub struct ConfigResponse {
    pub block_time_last: u64,
    pub params: Option<Vec<u8>>,
}

#[derive(Clone, Copy, Debug, PartialEq, Eq, Structural)]
pub struct LastCommittedResponse {
    pub has_committed: bool,
    pub last_committed: Option<Timestamp>,
    pub last_payment_bluechip: Option<u128>,
    pub last_payment_usd: Option<u128>,
}

#[derive(Clone, Copy, Debug, PartialEq, Eq, Structural)]
pub struct SimulationResponse {
    pub return_amount: u128,
    pub spread_amount: u128,
    pub commission_amount: u128,
}

#[derive(Clone, Copy, Debug, PartialEq, Eq, Structural)]
pub struct ReverseSimulationResponse {
    pub offer_amount: u128,
    pub spread_amount: u128,
    pub commission_amount: u128,
}

#[derive(Debug, PartialEq)]
pub struct CumulativePricesResponse {
    pub assets: [TokenInfo; 2],
    pub price0_cumulative_last: u128,
    pub price1_cumulative_last: u128,
}

#[derive(Clone, Copy, Debug, PartialEq, Eq, Structural)]
pub enum CommitStatus {
    InProgress { raised: u128, target: u128 },
    FullyCommitted,
}

#[derive(Clone, Copy, Debug, PartialEq, Eq, Structural)]
pub struct PoolStateResponse {
    pub nft_ownership_accepted: bool,
    pub reserve0: u128,
    pub reserve1: u128,
    pub total_liquidity: u128,
    pub block_time_last: u64,
}

#[derive(Clone, Copy, Debug, PartialEq, Eq, Structural)]
pub struct PoolFeeStateResponse {
    pub fee_growth_global_0: Decimal,
    pub fee_growth_global_1: Decimal,
    pub total_fees_collected_0: u128,
    pub total_fees_collected_1: u128,
}

#[derive(Debug, PartialEq)]
pub struct PositionResponse {
    pub position_id: String,
    pub liquidity: u128,
    pub owner: Addr,
    pub fee_growth_inside_0_last: Decimal,
    pub fee_growth_inside_1_last: Decimal,
    pub created_at: u64,
    pub last_fee_collection: u64,
    pub unclaimed_fees_0: u128,
    pub unclaimed_fees_1: u128,
}

#[derive(Debug, PartialEq)]
pub struct PositionsResponse {
    pub positions: Vec<PositionResponse>,
}

#[derive(Clone, Copy, Debug, PartialEq, Eq, Structural)]
pub struct PoolInfoResponse {
    pub pool_state: PoolStateResponse,
    pub fee_state: PoolFeeStateResponse,
    pub total_positions: u64,
}

#[derive(Debug, PartialEq)]
pub struct PoolAnalyticsResponse {
    pub analytics: PoolAnalytics,
    pub current_price_0_to_1: String,
    pub current_price_1_to_0: String,
    pub total_value_locked_0: u128,
    pub total_value_locked_1: u128,
    pub fee_reserve_0: u128,
    pub fee_reserve_1: u128,
    pub threshold_status: CommitStatus,
    pub total_usd_raised: u128,
    pub total_bluechip_raised: u128,
    pub total_positions: u64,
}

} // verus!
