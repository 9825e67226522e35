//! What a pool remembers between calls.

use vstd::prelude::*;

use crate::asset::{PoolPairType, TokenType};
use crate::chain::Addr;
use crate::number::{Decimal, Timestamp};
use crate::table::Table;

verus! {

pub const EMERGENCY_WITHDRAW_DELAY_SECONDS: u64 = 86_400;

pub const REPLY_ID_FACTORY_NOTIFY_INITIAL: u64 = 1;

pub const REPLY_ID_FACTORY_NOTIFY_RETRY: u64 = 2;

pub const DEFAULT_ESTIMATED_GAS_PER_DISTRIBUTION: u64 = 50_000;

pub const DEFAULT_MAX_GAS_PER_TX: u64 = 2_000_000;

pub const MAX_DISTRIBUTIONS_PER_TX: u32 = 40;

/// Reserves below this are not traded, and the first deposit locks as much for good.
pub const MINIMUM_LIQUIDITY: u128 = 1000;

/// How long a distribution may rest between two batches before it needs a recovery.
pub const DISTRIBUTION_TIMEOUT_SECONDS: u64 = 7_200;

/// Metadata of a position token.
#[derive(Debug, PartialEq)]
pub struct TokenMetadata {
    pub name: Option<String>,
    pub description: Option<String>,
}

/// What small positions did not earn, for the creator to claim.
#[derive(Clone, Copy, Debug, PartialEq, Eq, Structural)]
pub struct CreatorFeePot {
    pub amount_0: u128,
    pub amount_1: u128,
}

impl Default for CreatorFeePot {
    fn default() -> (r: CreatorFeePot)
        ensures
            r.amount_0 == 0,
            r.amount_1 == 0,
    {
        CreatorFeePot { amount_0: 0, amount_1: 0 }
    }
}

/// Counters of what went through the pool.
#[derive(Clone, Copy, Debug, PartialEq, Eq, Structural)]
pub struct PoolAnalytics {
    pub total_swap_count: u64,
    pub total_commit_count: u64,
    pub total_volume_0: u128,
    pub total_volume_1: u128,
    pub total_lp_deposit_count: u64,
    pub total_lp_withdrawal_count: u64,
    pub last_trade_block: u64,
    pub last_trade_timestamp: u64,
}

/// The counters of a pool that nothing went through.
pub open spec fn no_analytics() -> PoolAnalytics {
    PoolAnalytics {
        total_swap_count: 0,
        total_commit_count: 0,
        total_volume_0: 0,
        total_volume_1: 0,
        total_lp_deposit_count: 0,
        total_lp_withdrawal_count: 0,
        last_trade_block: 0,
        last_trade_timestamp: 0,
    }
}

impl Default for PoolAnalytics {
    fn default() -> (r: PoolAnalytics)
        ensures
            r == no_analytics(),
    {
        PoolAnalytics {
            total_swap_count: 0,
            total_commit_count: 0,
            total_volume_0: 0,
            total_volume_1: 0,
            total_lp_deposit_count: 0,
            total_lp_withdrawal_count: 0,
            last_trade_block: 0,
            last_trade_timestamp: 0,
        }
    }
}

/// The record of an emergency withdrawal.
#[derive(Debug, PartialEq)]
pub struct EmergencyWithdrawalInfo {
    pub withdrawn_at: u64,
    pub recipient: Addr,
    pub amount0: u128,
    pub amount1: u128,
    pub total_liquidity_at_withdrawal: u128,
}

/// How far the creator tokens have been handed out to the committers.
#[derive(Debug, PartialEq)]
pub struct DistributionState {
    pub is_distributing: bool,
    pub total_to_distribute: u128,
    pub total_committed_usd: u128,
    pub last_processed_key: Option<Addr>,
    pub distributions_remaining: u32,
    pub estimated_gas_per_distribution: u64,
    pub max_gas_per_tx: u64,
    pub last_successful_batch_size: Option<u32>,
    pub consecutive_failures: u32,
    pub started_at: Timestamp,
    pub last_updated: Timestamp,
}

/// What a recovery is to set right.
#[derive(Clone, Copy, Debug, PartialEq, Eq, Structural)]
pub enum RecoveryType {
    StuckThreshold,
    StuckDistribution,
    StuckReentrancyGuard,
    Both,
}

/// What one account has committed.
#[derive(Debug, PartialEq)]
pub struct Committing {
    pub pool_contract_address: Addr,
    pub committer: Addr,
    pub total_paid_usd: u128,
    pub total_paid_bluechip: u128,
    pub last_committed: Timestamp,
    pub last_payment_bluechip: u128,
    pub last_payment_usd: u128,
}

impl Clone for Committing {
    fn clone(&self) -> (r: Committing)
        ensures
            r == *self,
    {
        Committing {
            pool_contract_address: self.pool_contract_address.clone(),
            committer: self.committer.clone(),
            total_paid_usd: self.total_paid_usd,
            total_paid_bluechip: self.total_paid_bluechip,
            last_committed: self.last_committed,
            last_payment_bluechip: self.last_payment_bluechip,
            last_payment_usd: self.last_payment_usd,
        }
    }
}

/// Reserves, shares and the time-weighted price of the pool.
#[derive(Debug, PartialEq)]
pub struct PoolState {
    pub pool_contract_address: Addr,
    pub nft_ownership_accepted: bool,
    pub reserve0: u128,
    pub reserve1: u128,
    pub total_liquidity: u128,
    pub block_time_last: u64,
    pub price0_cumulative_last: u128,
    pub price1_cumulative_last: u128,
}

impl Clone for PoolState {
    fn clone(&self) -> (r: PoolState)
        ensures
            r == *self,
    {
        PoolState {
            pool_contract_address: self.pool_contract_address.clone(),
            nft_ownership_accepted: self.nft_ownership_accepted,
            reserve0: self.reserve0,
            reserve1: self.reserve1,
            total_liquidity: self.total_liquidity,
            block_time_last: self.block_time_last,
            price0_cumulative_last: self.price0_cumulative_last,
            price1_cumulative_last: self.price1_cumulative_last,
        }
    }
}

/// Fees that the pool has taken for its liquidity providers.
#[derive(Clone, Copy, Debug, PartialEq, Eq, Structural)]
pub struct PoolFeeState {
    pub fee_growth_global_0: Decimal,
    pub fee_growth_global_1: Decimal,
    pub total_fees_collected_0: u128,
    pub total_fees_collected_1: u128,
    pub fee_reserve_0: u128,
    pub fee_reserve_1: u128,
}

/// The factory that a pool answers to.
#[derive(Debug, PartialEq)]
pub struct ExpectedFactory {
    pub expected_factory_address: Addr,
}

/// What the factory can tune.
#[derive(Clone, Copy, Debug, PartialEq, Eq, Structural)]
pub struct PoolSpecs {
    pub lp_fee: Decimal,
    pub min_commit_interval: u64,
    pub usd_payment_tolerance_bps: u16,
}

/// Who is who around a pool.
#[derive(Debug, PartialEq)]
pub struct PoolInfo {
    pub pool_id: u64,
    pub pool_info: PoolDetails,
    pub factory_addr: Addr,
    pub token_address: Addr,
    pub position_nft_address: Addr,
}

/// The pair of a pool.
#[derive(Debug, PartialEq)]
pub struct PoolDetails {
    pub asset_infos: [TokenType; 2],
    pub contract_addr: Addr,
    pub pool_type: PoolPairType,
}

/// Where prices come from.
#[derive(Debug, PartialEq)]
pub struct OracleInfo {
    pub oracle_addr: Addr,
}

/// The creator tokens that are minted when the threshold is crossed.
#[derive(Clone, Copy, Debug, PartialEq, Eq, Structural)]
pub struct ThresholdPayoutAmounts {
    pub creator_reward_amount: u128,
    pub bluechip_reward_amount: u128,
    pub pool_seed_amount: u128,
    pub commit_return_amount: u128,
}

/// The threshold, and how much of what was raised may seed the pool.
#[derive(Clone, Copy, Debug, PartialEq, Eq, Structural)]
pub struct CommitLimitInfo {
    pub commit_amount_for_threshold: u128,
    pub commit_amount_for_threshold_usd: u128,
    pub max_bluechip_lock_per_pool: u128,
    pub creator_excess_liquidity_lock_days: u64,
}

/// What was raised beyond what may seed the pool, locked for the creator.
#[derive(Debug, PartialEq)]
pub struct CreatorExcessLiquidity {
    pub creator: Addr,
    pub bluechip_amount: u128,
    pub token_amount: u128,
    pub unlock_time: Timestamp,
    pub excess_nft_id: Option<String>,
}

/// The fees of a commit and who gets them.
#[derive(Debug, PartialEq)]
pub struct CommitFeeInfo {
    pub bluechip_wallet_address: Addr,
    pub creator_wallet_address: Addr,
    pub commit_fee_bluechip: Decimal,
    pub commit_fee_creator: Decimal,
}

/// The shares of one liquidity provider.
#[derive(Debug, PartialEq)]
pub struct Position {
    pub liquidity: u128,
    pub owner: Addr,
    pub fee_growth_inside_0_last: Decimal,
    pub fee_growth_inside_1_last: Decimal,
    pub created_at: u64,
    pub last_fee_collection: u64,
    pub fee_size_multiplier: Decimal,
    /// Fees preserved from past partial removals so they can be collected later.
    pub unclaimed_fees_0: u128,
    pub unclaimed_fees_1: u128,
}

impl Clone for Position {
    fn clone(&self) -> (r: Position)
        ensures
            r == *self,
    {
        Position {
            liquidity: self.liquidity,
            owner: self.owner.clone(),
            fee_growth_inside_0_last: self.fee_growth_inside_0_last,
            fee_growth_inside_1_last: self.fee_growth_inside_1_last,
            created_at: self.created_at,
            last_fee_collection: self.last_fee_collection,
            fee_size_multiplier: self.fee_size_multiplier,
            unclaimed_fees_0: self.unclaimed_fees_0,
            unclaimed_fees_1: self.unclaimed_fees_1,
        }
    }
}

/// All that a pool remembers. A cell that may be unset and reads as `false`, zero or
/// empty is held as that value.
pub struct PoolStore {
    pub usd_raised: u128,
    pub native_raised: u128,
    pub threshold_hit: bool,
    pub threshold_processing: bool,
    pub last_threshold_attempt: Option<Timestamp>,
    pub reentrancy_lock: bool,
    pub paused: bool,
    pub drained: bool,
    pub pending_factory_notify: bool,
    pub pending_emergency_withdraw: Option<Timestamp>,
    pub emergency_withdrawal: Option<EmergencyWithdrawalInfo>,
    pub expected_factory: ExpectedFactory,
    pub pool_info: PoolInfo,
    pub pool_state: PoolState,
    pub pool_specs: PoolSpecs,
    pub fee_state: PoolFeeState,
    pub fee_info: CommitFeeInfo,
    pub commit_limits: CommitLimitInfo,
    pub threshold_payout: ThresholdPayoutAmounts,
    pub oracle_info: OracleInfo,
    pub analytics: PoolAnalytics,
    pub creator_excess: Option<CreatorExcessLiquidity>,
    pub creator_fee_pot: CreatorFeePot,
    pub distribution: Option<DistributionState>,
    pub next_position_id: u64,
    /// What each account has committed.
    pub commit_info: Table<Committing>,
    /// The dollars of each committer who has not been paid out yet.
    pub commit_ledger: Table<u128>,
    /// When each account last committed or swapped, in seconds.
    pub user_last_commit: Table<u64>,
    pub positions: Table<Position>,
    /// The positions of each owner.
    pub owner_positions: Table<Table<bool>>,
}

impl PoolStore {
    /// The tables are in order.
    pub open spec fn wf(&self) -> bool {
        &&& self.commit_info.wf()
        &&& self.commit_ledger.wf()
        &&& self.user_last_commit.wf()
        &&& self.positions.wf()
        &&& self.owner_positions.wf()
        &&& forall|k: Seq<char>| #[trigger]
            self.owner_positions@.dom().contains(k) ==> self.owner_positions@[k].wf()
    }
}

} // verus!
