//! Steps that several calls of the pool share.

use vstd::arithmetic::div_mod::*;
use vstd::prelude::*;
use vstd::string::*;

use crate::chain::{Addr, CosmosMsg, Env};
use crate::error::{OverflowOperation, StdError};
use crate::number::{
    checked_mul_floor, decimal_from_ratio, limb, min, minus_or_zero, multiply_ratio, ratio,
    ratio_defined, wide_checked_div, wide_checked_mul, Decimal, Timestamp, Wide, ONE,
};
use crate::pool::error::{generic, overflow, sum, ContractError};
use crate::pool::liquidity_helpers::{integer_sqrt, sqrt_floor};
use crate::pool::state::{
    CommitFeeInfo, CommitLimitInfo, Committing, CreatorExcessLiquidity, DistributionState,
    PoolFeeState, PoolInfo, PoolSpecs, PoolState, PoolStore, ThresholdPayoutAmounts,
    DEFAULT_ESTIMATED_GAS_PER_DISTRIBUTION, DEFAULT_MAX_GAS_PER_TX, DISTRIBUTION_TIMEOUT_SECONDS,
    MAX_DISTRIBUTIONS_PER_TX,
};
use crate::table::{ascending, is_first_after, Table};

verus! {

/// The fee state after a commission on the side that was asked for. Nothing accrues
/// while nobody holds shares.
pub open spec fn fee_growth(
    fees: PoolFeeState,
    total_liquidity: u128,
    offer_index: usize,
    commission: u128,
) -> Result<PoolFeeState, ContractError> {
    let growth = ratio(commission as int, total_liquidity as int);
    if total_liquidity == 0 || commission == 0 {
        Ok(fees)
    } else if offer_index == 0 {
        if fees.fee_growth_global_1.atomics + growth > u128::MAX {
            Err(generic("Fee growth overflow"))
        } else if fees.total_fees_collected_1 + commission > u128::MAX || fees.fee_reserve_1
            + commission > u128::MAX {
            Err(overflow(OverflowOperation::Add))
        } else {
            Ok(
                PoolFeeState {
                    fee_growth_global_1: Decimal {
                        atomics: (fees.fee_growth_global_1.atomics + growth) as u128,
                    },
                    total_fees_collected_1: (fees.total_fees_collected_1 + commission) as u128,
                    fee_reserve_1: (fees.fee_reserve_1 + commission) as u128,
                    ..fees
                },
            )
        }
    } else {
        if fees.fee_growth_global_0.atomics + growth > u128::MAX {
            Err(generic("Fee growth overflow"))
        } else if fees.total_fees_collected_0 + commission > u128::MAX || fees.fee_reserve_0
            + commission > u128::MAX {
            Err(overflow(OverflowOperation::Add))
        } else {
            Ok(
                PoolFeeState {
                    fee_growth_global_0: Decimal {
                        atomics: (fees.fee_growth_global_0.atomics + growth) as u128,
                    },
                    total_fees_collected_0: (fees.total_fees_collected_0 + commission) as u128,
                    fee_reserve_0: (fees.fee_reserve_0 + commission) as u128,
                    ..fees
                },
            )
        }
    }
}

/// Whether the fees of one share are a decimal in range.
pub open spec fn fee_growth_defined(total_liquidity: u128, commission: u128) -> bool {
    total_liquidity != 0 && commission != 0 ==> ratio_defined(
        commission as int,
        total_liquidity as int,
    )
}

/// Books a commission: token 0 offered pays fees in token 1, token 1 in token 0.
pub fn update_pool_fee_growth(
    pool_fee_state: &mut PoolFeeState,
    pool_state: &PoolState,
    offer_index: usize,
    commission_amt: u128,
) -> (r: Result<(), ContractError>)
    requires
        fee_growth_defined(pool_state.total_liquidity, commission_amt),
    ensures
        match r {
            Ok(_) => fee_growth(
                *old(pool_fee_state),
                pool_state.total_liquidity,
                offer_index,
                commission_amt,
            ) == Ok::<PoolFeeState, ContractError>(*final(pool_fee_state)),
            Err(e) => fee_growth(
                *old(pool_fee_state),
                pool_state.total_liquidity,
                offer_index,
                commission_amt,
            ) == Err::<PoolFeeState, ContractError>(e) && *final(pool_fee_state) == *old(
                pool_fee_state,
            ),
        },
{
    if pool_state.total_liquidity == 0 || commission_amt == 0 {
        return Ok(());
    }
    let growth = decimal_from_ratio(commission_amt, pool_state.total_liquidity);
    if offer_index == 0 {
        let fee_growth_global_1 = match pool_fee_state.fee_growth_global_1.checked_add(growth) {
            Some(total) => total,
            None => {
                return Err(ContractError::Std(StdError::Generic("Fee growth overflow")));
            },
        };
        let collected: u128 = sum(pool_fee_state.total_fees_collected_1, commission_amt)?;
        let reserve: u128 = sum(pool_fee_state.fee_reserve_1, commission_amt)?;
        pool_fee_state.fee_growth_global_1 = fee_growth_global_1;
        pool_fee_state.total_fees_collected_1 = collected;
        pool_fee_state.fee_reserve_1 = reserve;
    } else {
        let fee_growth_global_0 = match pool_fee_state.fee_growth_global_0.checked_add(growth) {
            Some(total) => total,
            None => {
                return Err(ContractError::Std(StdError::Generic("Fee growth overflow")));
            },
        };
        let collected: u128 = sum(pool_fee_state.total_fees_collected_0, commission_amt)?;
        let reserve: u128 = sum(pool_fee_state.fee_reserve_0, commission_amt)?;
        pool_fee_state.fee_growth_global_0 = fee_growth_global_0;
        pool_fee_state.total_fees_collected_0 = collected;
        pool_fee_state.fee_reserve_0 = reserve;
    }
    Ok(())
}

/// How many seconds an account still has to wait, where it has to.
pub open spec fn wait_time(
    last_commits: Map<Seq<char>, u64>,
    now: u64,
    interval: u64,
    sender: Seq<char>,
) -> Option<u64> {
    let elapsed = minus_or_zero(now as int, last_commits[sender] as int);
    if last_commits.dom().contains(sender) && elapsed < interval {
        Some((interval - elapsed) as u64)
    } else {
        None
    }
}

/// What the check that an account does not come too often does, and what it answers.
pub open spec fn rate_limit_outcome(
    before: Table<u64>,
    after: Table<u64>,
    now: u64,
    interval: u64,
    sender: Seq<char>,
    r: Result<(), ContractError>,
) -> bool {
    match wait_time(before@, now, interval, sender) {
        Some(wait_time) => r == Err::<(), ContractError>(
            ContractError::TooFrequentCommits { wait_time },
        ) && after == before,
        None => r is Ok && after@ == before@.insert(sender, now),
    }
}

/// Checks that an account does not come too often, and notes that it came.
pub fn check_rate_limit(
    last_commits: &mut Table<u64>,
    env: &Env,
    pool_specs: &PoolSpecs,
    sender: &Addr,
) -> (r: Result<(), ContractError>)
    requires
        old(last_commits).wf(),
    ensures
        final(last_commits).wf(),
        rate_limit_outcome(
            *old(last_commits),
            *final(last_commits),
            env.time.seconds(),
            pool_specs.min_commit_interval,
            sender@,
            r,
        ),
{
    let now: u64 = env.time.seconds();
    if let Some(last) = last_commits.get(sender.as_str()) {
        let since: u64 = now.saturating_sub(*last);
        if since < pool_specs.min_commit_interval {
            return Err(
                ContractError::TooFrequentCommits {
                    wait_time: pool_specs.min_commit_interval - since,
                },
            );
        }
    }
    last_commits.insert(sender.clone(), now);
    Ok(())
}

/// Checks that a deadline, where there is one, has not passed.
pub fn enforce_transaction_deadline(
    current: Timestamp,
    transaction_deadline: Option<Timestamp>,
) -> (r: Result<(), ContractError>)
    ensures
        r == in_time(current, transaction_deadline),
{
    if let Some(deadline) = transaction_deadline {
        if current.nanos > deadline.nanos {
            return Err(ContractError::TransactionExpired {  });
        }
    }
    Ok(())
}

/// Whether a deadline, where there is one, has not passed.
pub open spec fn in_time(current: Timestamp, deadline: Option<Timestamp>) -> Result<
    (),
    ContractError,
> {
    match deadline {
        Some(d) if current.nanos > d.nanos => Err(ContractError::TransactionExpired {  }),
        _ => Ok(()),
    }
}

/// Checks that a factory is the one that is known.
pub fn validate_factory_address(
    stored_factory_addr: &Addr,
    candidate_factory_addr: &Addr,
) -> (r: Result<(), ContractError>)
    ensures
        r == (if stored_factory_addr@ == candidate_factory_addr@ {
            Ok::<(), ContractError>(())
        } else {
            Err(ContractError::InvalidFactory {  })
        }),
{
    if *stored_factory_addr != *candidate_factory_addr {
        return Err(ContractError::InvalidFactory {  });
    }
    Ok(())
}

/// What the creator, the platform, the pool and the committers are minted, in this order.
pub const EXPECTED_CREATOR: u128 = 325_000_000_000;

pub const EXPECTED_BLUECHIP: u128 = 25_000_000_000;

pub const EXPECTED_POOL: u128 = 350_000_000_000;

pub const EXPECTED_COMMIT: u128 = 500_000_000_000;

pub const EXPECTED_TOTAL: u128 = 1_200_000_000_000;

/// The only payout that a pool is set up with.
pub open spec fn payout_check(params: ThresholdPayoutAmounts) -> Result<(), ContractError> {
    if params.creator_reward_amount != EXPECTED_CREATOR {
        Err(
            ContractError::InvalidThresholdParams { msg: "Creator amount must be 325000000000" },
        )
    } else if params.bluechip_reward_amount != EXPECTED_BLUECHIP {
        Err(
            ContractError::InvalidThresholdParams { msg: "BlueChip amount must be 25000000000" },
        )
    } else if params.pool_seed_amount != EXPECTED_POOL {
        Err(ContractError::InvalidThresholdParams { msg: "Pool amount must be 350000000000" })
    } else if params.commit_return_amount != EXPECTED_COMMIT {
        Err(ContractError::InvalidThresholdParams { msg: "Commit amount must be 500000000000" })
    } else {
        Ok(())
    }
}

/// Checks the payout of a pool that is set up. The four amounts add up to the total that
/// the payout itself is held to.
pub fn validate_pool_threshold_payments(params: &ThresholdPayoutAmounts) -> (r: Result<
    (),
    ContractError,
>)
    ensures
        r == payout_check(*params),
        r is Ok ==> payout_total(*params) == EXPECTED_TOTAL,
{
    if params.creator_reward_amount != EXPECTED_CREATOR {
        return Err(
            ContractError::InvalidThresholdParams { msg: "Creator amount must be 325000000000" },
        );
    }
    if params.bluechip_reward_amount != EXPECTED_BLUECHIP {
        return Err(
            ContractError::InvalidThresholdParams { msg: "BlueChip amount must be 25000000000" },
        );
    }
    if params.pool_seed_amount != EXPECTED_POOL {
        return Err(
            ContractError::InvalidThresholdParams { msg: "Pool amount must be 350000000000" },
        );
    }
    if params.commit_return_amount != EXPECTED_COMMIT {
        return Err(
            ContractError::InvalidThresholdParams { msg: "Commit amount must be 500000000000" },
        );
    }
    Ok(())
}

/// All that a payout mints.
pub open spec fn payout_total(p: ThresholdPayoutAmounts) -> int {
    p.creator_reward_amount + p.bluechip_reward_amount + p.pool_seed_amount
        + p.commit_return_amount
}

/// The message that mints creator tokens.
pub fn mint_tokens(token_addr: &Addr, recipient: &Addr, amount: u128) -> (r: CosmosMsg)
    ensures
        r == (CosmosMsg::Cw20Mint {
            contract_addr: *token_addr,
            recipient: *recipient,
            amount,
        }),
{
    CosmosMsg::Cw20Mint {
        contract_addr: token_addr.clone(),
        recipient: recipient.clone(),
        amount,
    }
}

/// The message that sends native coins.
pub fn get_bank_transfer_to_msg(recipient: &Addr, denom: &String, amount: u128) -> (r: CosmosMsg)
    ensures
        r == (CosmosMsg::BankSend { to_address: *recipient, denom: *denom, amount }),
{
    CosmosMsg::BankSend { to_address: recipient.clone(), denom: denom.clone(), amount }
}

/// A decimal with 128 bits of atomics, as one with 256 bits.
pub fn decimal2decimal256(dec_value: Decimal) -> (r: Wide)
    ensures
        r.val() == dec_value.atomics,
{
    Wide::from_u128(dec_value.atomics)
}

/// The record of an account after another payment.
pub open spec fn committed(
    before: Option<Committing>,
    sender: Addr,
    pool_contract_address: Addr,
    bluechip_amount: u128,
    usd_amount: u128,
    timestamp: Timestamp,
) -> Result<Committing, ContractError> {
    match before {
        Some(c) => if c.total_paid_bluechip + bluechip_amount > u128::MAX || c.total_paid_usd
            + usd_amount > u128::MAX {
            Err(overflow(OverflowOperation::Add))
        } else {
            Ok(
                Committing {
                    total_paid_bluechip: (c.total_paid_bluechip + bluechip_amount) as u128,
                    total_paid_usd: (c.total_paid_usd + usd_amount) as u128,
                    last_payment_bluechip: bluechip_amount,
                    last_payment_usd: usd_amount,
                    last_committed: timestamp,
                    ..c
                },
            )
        },
        None => Ok(
            Committing {
                pool_contract_address,
                committer: sender,
                total_paid_usd: usd_amount,
                total_paid_bluechip: bluechip_amount,
                last_committed: timestamp,
                last_payment_bluechip: bluechip_amount,
                last_payment_usd: usd_amount,
            },
        ),
    }
}

/// What a map holds under a key, where it holds something.
pub open spec fn lookup<V>(m: Map<Seq<char>, V>, k: Seq<char>) -> Option<V> {
    if m.dom().contains(k) {
        Some(m[k])
    } else {
        None
    }
}

/// The record of an account after another payment.
pub fn next_committing(
    before: Option<&Committing>,
    sender: &Addr,
    pool_contract_address: &Addr,
    bluechip_amount: u128,
    usd_amount: u128,
    timestamp: Timestamp,
) -> (r: Result<Committing, ContractError>)
    ensures
        r == committed(
            (match before {
                Some(c) => Some(*c),
                None => None,
            }),
            *sender,
            *pool_contract_address,
            bluechip_amount,
            usd_amount,
            timestamp,
        ),
{
    match before {
        Some(c) => {
            let total_paid_bluechip: u128 = sum(c.total_paid_bluechip, bluechip_amount)?;
            let total_paid_usd: u128 = sum(c.total_paid_usd, usd_amount)?;
            Ok(
                Committing {
                    pool_contract_address: c.pool_contract_address.clone(),
                    committer: c.committer.clone(),
                    total_paid_usd,
                    total_paid_bluechip,
                    last_committed: timestamp,
                    last_payment_bluechip: bluechip_amount,
                    last_payment_usd: usd_amount,
                },
            )
        },
        None => Ok(
            Committing {
                pool_contract_address: pool_contract_address.clone(),
                committer: sender.clone(),
                total_paid_usd: usd_amount,
                total_paid_bluechip: bluechip_amount,
                last_committed: timestamp,
                last_payment_bluechip: bluechip_amount,
                last_payment_usd: usd_amount,
            },
        ),
    }
}

/// What adding a payment to the record of an account does, and what it answers.
pub open spec fn record_outcome(
    before: Table<Committing>,
    after: Table<Committing>,
    sender: Addr,
    pool_contract_address: Addr,
    bluechip_amount: u128,
    usd_amount: u128,
    timestamp: Timestamp,
    r: Result<(), ContractError>,
) -> bool {
    match committed(
        lookup(before@, sender@),
        sender,
        pool_contract_address,
        bluechip_amount,
        usd_amount,
        timestamp,
    ) {
        Ok(c) => r is Ok && after@ == before@.insert(sender@, c),
        Err(e) => r == Err::<(), ContractError>(e) && after == before,
    }
}

/// Adds a payment to the record of an account.
pub fn update_commit_info(
    commit_info: &mut Table<Committing>,
    sender: &Addr,
    pool_contract_address: &Addr,
    bluechip_amount: u128,
    usd_amount: u128,
    timestamp: Timestamp,
) -> (r: Result<(), ContractError>)
    requires
        old(commit_info).wf(),
    ensures
        final(commit_info).wf(),
        record_outcome(
            *old(commit_info),
            *final(commit_info),
            *sender,
            *pool_contract_address,
            bluechip_amount,
            usd_amount,
            timestamp,
            r,
        ),
{
    let next = next_committing(
        commit_info.get(sender.as_str()),
        sender,
        pool_contract_address,
        bluechip_amount,
        usd_amount,
        timestamp,
    )?;
    commit_info.insert(sender.clone(), next);
    Ok(())
}

/// What a crossed threshold changes, and the messages that it sends.
pub struct ThresholdPayout {
    pub messages: Vec<CosmosMsg>,
    /// The distribution to start, where there are committers.
    pub distribution: Option<DistributionState>,
    /// What is locked for the creator, where more was raised than may seed the pool.
    pub excess: Option<CreatorExcessLiquidity>,
    pub pool_state: PoolState,
    pub fee_state: PoolFeeState,
}

/// The bluechips that were raised, less the fees of the commits.
pub open spec fn raised_after_fees(native_raised: int, fee_info: CommitFeeInfo) -> int {
    native_raised * (ONE - fee_info.commit_fee_bluechip.atomics
        - fee_info.commit_fee_creator.atomics) / (ONE as int)
}

/// How much more was raised than may seed the pool.
pub open spec fn excess_bluechip(seed: int, limits: CommitLimitInfo) -> int {
    minus_or_zero(seed, limits.max_bluechip_lock_per_pool as int)
}

/// The creator tokens that go with an excess: the pool tokens in the same proportion.
pub open spec fn excess_tokens(
    seed: int,
    limits: CommitLimitInfo,
    payout: ThresholdPayoutAmounts,
) -> int {
    if excess_bluechip(seed, limits) == 0 {
        0
    } else {
        payout.pool_seed_amount * excess_bluechip(seed, limits) / seed
    }
}

/// The reserves that the pool starts with.
pub open spec fn seed_reserves(
    seed: int,
    limits: CommitLimitInfo,
    payout: ThresholdPayoutAmounts,
) -> (int, int) {
    (
        seed - excess_bluechip(seed, limits),
        payout.pool_seed_amount - excess_tokens(seed, limits, payout),
    )
}

/// Whether the payout and the fees are such that the pool can be seeded.
pub open spec fn can_seed(payout: ThresholdPayoutAmounts, fee_info: CommitFeeInfo) -> bool {
    &&& payout_total(payout) == EXPECTED_TOTAL
    &&& fee_info.commit_fee_bluechip.atomics + fee_info.commit_fee_creator.atomics <= ONE
}

/// Whether the end of the lock on an excess can be represented.
pub open spec fn payout_defined(
    native_raised: u128,
    limits: CommitLimitInfo,
    payout: ThresholdPayoutAmounts,
    fee_info: CommitFeeInfo,
    env: Env,
) -> bool {
    can_seed(payout, fee_info) && excess_bluechip(
        raised_after_fees(native_raised as int, fee_info),
        limits,
    ) > 0 ==> env.time.can_add(limits.creator_excess_liquidity_lock_days * 86400)
}

/// Why a payout fails, where it does.
pub open spec fn payout_error(
    native_raised: u128,
    limits: CommitLimitInfo,
    payout: ThresholdPayoutAmounts,
    fee_info: CommitFeeInfo,
) -> Option<StdError> {
    let fees = fee_info.commit_fee_bluechip.atomics + fee_info.commit_fee_creator.atomics;
    let (reserve0, reserve1) = seed_reserves(
        raised_after_fees(native_raised as int, fee_info),
        limits,
        payout,
    );
    if payout_total(payout) > u128::MAX {
        Some(StdError::Overflow(OverflowOperation::Add))
    } else if payout_total(payout) != EXPECTED_TOTAL {
        Some(StdError::Generic("Threshold payout corruption detected"))
    } else if fees > u128::MAX {
        Some(StdError::Generic("Fee rate overflow"))
    } else if fees > ONE {
        Some(StdError::Generic("Fee rate >= 100%"))
    } else if reserve0 * reserve1 > u128::MAX {
        Some(StdError::Overflow(OverflowOperation::Mul))
    } else {
        None
    }
}

/// The messages of a payout: the factory is told, and the creator, the platform and the
/// pool are minted their tokens.
pub open spec fn payout_msgs(
    pool_info: PoolInfo,
    payout: ThresholdPayoutAmounts,
    fee_info: CommitFeeInfo,
    env: Env,
) -> Seq<CosmosMsg> {
    seq![
        CosmosMsg::NotifyThresholdCrossed {
            factory_addr: pool_info.factory_addr,
            pool_id: pool_info.pool_id,
        },
        CosmosMsg::Cw20Mint {
            contract_addr: pool_info.token_address,
            recipient: fee_info.creator_wallet_address,
            amount: payout.creator_reward_amount,
        },
        CosmosMsg::Cw20Mint {
            contract_addr: pool_info.token_address,
            recipient: fee_info.bluechip_wallet_address,
            amount: payout.bluechip_reward_amount,
        },
        CosmosMsg::Cw20Mint {
            contract_addr: pool_info.token_address,
            recipient: env.contract,
            amount: payout.pool_seed_amount,
        },
    ]
}

/// The distribution that a crossed threshold starts. It ends when the ledger does, not
/// when a count runs out.
pub open spec fn new_distribution(
    payout: ThresholdPayoutAmounts,
    limits: CommitLimitInfo,
    env: Env,
) -> DistributionState {
    DistributionState {
        is_distributing: true,
        total_to_distribute: payout.commit_return_amount,
        total_committed_usd: limits.commit_amount_for_threshold_usd,
        last_processed_key: None,
        distributions_remaining: u32::MAX,
        estimated_gas_per_distribution: DEFAULT_ESTIMATED_GAS_PER_DISTRIBUTION,
        max_gas_per_tx: DEFAULT_MAX_GAS_PER_TX,
        last_successful_batch_size: None,
        consecutive_failures: 0,
        started_at: env.time,
        last_updated: env.time,
    }
}

/// What is locked for the creator, where more was raised than may seed the pool.
pub open spec fn new_excess(
    native_raised: u128,
    limits: CommitLimitInfo,
    payout: ThresholdPayoutAmounts,
    fee_info: CommitFeeInfo,
    env: Env,
) -> Option<CreatorExcessLiquidity> {
    let seed = raised_after_fees(native_raised as int, fee_info);
    if excess_bluechip(seed, limits) > 0 {
        Some(
            CreatorExcessLiquidity {
                creator: fee_info.creator_wallet_address,
                bluechip_amount: excess_bluechip(seed, limits) as u128,
                token_amount: excess_tokens(seed, limits, payout) as u128,
                unlock_time: Timestamp {
                    nanos: (env.time.nanos + limits.creator_excess_liquidity_lock_days * 86400
                        * 1_000_000_000) as u64,
                },
                excess_nft_id: None,
            },
        )
    } else {
        None
    }
}

/// The pool with its first reserves. Its shares belong to nobody, which keeps the first
/// depositor from inflating theirs.
pub open spec fn seeded(
    s: PoolState,
    native_raised: u128,
    limits: CommitLimitInfo,
    payout: ThresholdPayoutAmounts,
    fee_info: CommitFeeInfo,
) -> PoolState {
    let (reserve0, reserve1) = seed_reserves(
        raised_after_fees(native_raised as int, fee_info),
        limits,
        payout,
    );
    PoolState {
        reserve0: reserve0 as u128,
        reserve1: reserve1 as u128,
        total_liquidity: sqrt_floor(reserve0 * reserve1) as u128,
        ..s
    }
}

/// The fee state with nothing collected.
pub open spec fn fees_restarted(fees: PoolFeeState) -> PoolFeeState {
    PoolFeeState {
        fee_growth_global_0: Decimal { atomics: 0 },
        fee_growth_global_1: Decimal { atomics: 0 },
        total_fees_collected_0: 0,
        total_fees_collected_1: 0,
        ..fees
    }
}

/// Seeds the pool with what was raised, once the threshold is crossed.
pub fn trigger_threshold_payout(
    has_committers: bool,
    native_raised: u128,
    pool_info: &PoolInfo,
    pool_state: &PoolState,
    pool_fee_state: &PoolFeeState,
    commit_config: &CommitLimitInfo,
    payout: &ThresholdPayoutAmounts,
    fee_info: &CommitFeeInfo,
    env: &Env,
) -> (r: Result<ThresholdPayout, StdError>)
    requires
        payout_defined(native_raised, *commit_config, *payout, *fee_info, *env),
    ensures
        match r {
            Err(e) => payout_error(native_raised, *commit_config, *payout, *fee_info) == Some(e),
            Ok(p) => {
                &&& payout_error(native_raised, *commit_config, *payout, *fee_info) is None
                &&& p.messages@ == payout_msgs(*pool_info, *payout, *fee_info, *env)
                &&& p.distribution == (if has_committers {
                    Some(new_distribution(*payout, *commit_config, *env))
                } else {
                    None
                })
                &&& p.excess == new_excess(
                    native_raised,
                    *commit_config,
                    *payout,
                    *fee_info,
                    *env,
                )
                &&& p.pool_state == seeded(
                    *pool_state,
                    native_raised,
                    *commit_config,
                    *payout,
                    *fee_info,
                )
                &&& p.fee_state == fees_restarted(*pool_fee_state)
            },
        },
{
    let total: u128 = match payout.creator_reward_amount.checked_add(
        payout.bluechip_reward_amount,
    ) {
        Some(a) => match a.checked_add(payout.pool_seed_amount) {
            Some(b) => match b.checked_add(payout.commit_return_amount) {
                Some(total) => total,
                None => {
                    return Err(StdError::Overflow(OverflowOperation::Add));
                },
            },
            None => {
                return Err(StdError::Overflow(OverflowOperation::Add));
            },
        },
        None => {
            return Err(StdError::Overflow(OverflowOperation::Add));
        },
    };
    if total != EXPECTED_TOTAL {
        return Err(StdError::Generic("Threshold payout corruption detected"));
    }
    let mut messages: Vec<CosmosMsg> = Vec::new();
    messages.push(
        CosmosMsg::NotifyThresholdCrossed {
            factory_addr: pool_info.factory_addr.clone(),
            pool_id: pool_info.pool_id,
        },
    );
    messages.push(
        mint_tokens(
            &pool_info.token_address,
            &fee_info.creator_wallet_address,
            payout.creator_reward_amount,
        ),
    );
    messages.push(
        mint_tokens(
            &pool_info.token_address,
            &fee_info.bluechip_wallet_address,
            payout.bluechip_reward_amount,
        ),
    );
    messages.push(mint_tokens(&pool_info.token_address, &env.contract, payout.pool_seed_amount));
    let distribution = if has_committers {
        Some(
            DistributionState {
                is_distributing: true,
                total_to_distribute: payout.commit_return_amount,
                total_committed_usd: commit_config.commit_amount_for_threshold_usd,
                last_processed_key: None,
                distributions_remaining: u32::MAX,
                estimated_gas_per_distribution: DEFAULT_ESTIMATED_GAS_PER_DISTRIBUTION,
                max_gas_per_tx: DEFAULT_MAX_GAS_PER_TX,
                last_successful_batch_size: None,
                consecutive_failures: 0,
                started_at: env.time,
                last_updated: env.time,
            },
        )
    } else {
        None
    };
    let fees = match fee_info.commit_fee_bluechip.checked_add(fee_info.commit_fee_creator) {
        Some(fees) => fees,
        None => {
            return Err(StdError::Generic("Fee rate overflow"));
        },
    };
    let kept = match Decimal::one().checked_sub(fees) {
        Some(kept) => kept,
        None => {
            return Err(StdError::Generic("Fee rate >= 100%"));
        },
    };
    proof {
        crate::pool::swap_helper::lemma_commission_at_most_gross(
            native_raised as int,
            kept.atomics as int,
        );
    }
    let seed: u128 = match checked_mul_floor(native_raised, kept) {
        Some(seed) => seed,
        None => {
            assert(false);
            return Err(StdError::Generic("Fee deduction overflow"));
        },
    };
    assert(seed == raised_after_fees(native_raised as int, *fee_info));
    let mut next = pool_state.clone();
    let excess = if seed > commit_config.max_bluechip_lock_per_pool {
        let bluechip_amount: u128 = seed - commit_config.max_bluechip_lock_per_pool;
        proof {
            lemma_part_of(payout.pool_seed_amount as int, bluechip_amount as int, seed as int);
        }
        let token_amount: u128 = multiply_ratio(payout.pool_seed_amount, bluechip_amount, seed);
        next.reserve0 = commit_config.max_bluechip_lock_per_pool;
        next.reserve1 = payout.pool_seed_amount - token_amount;
        Some(
            CreatorExcessLiquidity {
                creator: fee_info.creator_wallet_address.clone(),
                bluechip_amount,
                token_amount,
                unlock_time: env.time.plus_seconds(
                    commit_config.creator_excess_liquidity_lock_days * 86400,
                ),
                excess_nft_id: None,
            },
        )
    } else {
        next.reserve0 = seed;
        next.reserve1 = payout.pool_seed_amount;
        None
    };
    next.total_liquidity = match next.reserve0.checked_mul(next.reserve1) {
        Some(product) => integer_sqrt(product),
        None => {
            return Err(StdError::Overflow(OverflowOperation::Mul));
        },
    };
    let fee_state = PoolFeeState {
        fee_growth_global_0: Decimal::zero(),
        fee_growth_global_1: Decimal::zero(),
        total_fees_collected_0: 0,
        total_fees_collected_1: 0,
        fee_reserve_0: pool_fee_state.fee_reserve_0,
        fee_reserve_1: pool_fee_state.fee_reserve_1,
    };
    assert(messages@ =~= payout_msgs(*pool_info, *payout, *fee_info, *env));
    Ok(ThresholdPayout { messages, distribution, excess, pool_state: next, fee_state })
}

/// `a * part / whole` is at most `a`.
pub proof fn lemma_part_of(a: int, part: int, whole: int)
    requires
        0 <= a,
        0 <= part <= whole,
        0 < whole,
    ensures
        0 <= a * part / whole <= a,
{
    assert(0 <= a * part <= a * whole) by (nonlinear_arith)
        requires
            0 <= a,
            0 <= part <= whole,
    ;
    lemma_div_pos_is_pos(a * part, whole);
    lemma_div_is_ordered(a * part, a * whole, whole);
    lemma_div_by_multiple(a, whole);
}

/// How many committers a batch may take: what the gas pays for, at most 40, and no more
/// than 10 in the first batch and nine tenths of the last batch in the next.
pub open spec fn batch_size(d: DistributionState) -> int {
    let by_gas = if d.estimated_gas_per_distribution == 0 {
        1
    } else {
        (d.max_gas_per_tx / d.estimated_gas_per_distribution) as int
    };
    let base = at_least_one(min(by_gas, MAX_DISTRIBUTIONS_PER_TX as int));
    match d.last_successful_batch_size {
        Some(last) => min(base, at_least_one(last * 9 / 10)),
        None => min(base, 10),
    }
}

pub open spec fn at_least_one(n: int) -> int {
    if n < 1 {
        1
    } else {
        n
    }
}

/// How many committers the next batch may take.
pub fn calculate_effective_batch_size(dist_state: &DistributionState) -> (r: u32)
    ensures
        r == batch_size(*dist_state),
        1 <= r <= MAX_DISTRIBUTIONS_PER_TX,
{
    let by_gas: u64 = if dist_state.estimated_gas_per_distribution == 0 {
        1
    } else {
        dist_state.max_gas_per_tx / dist_state.estimated_gas_per_distribution
    };
    let base: u32 = if by_gas > MAX_DISTRIBUTIONS_PER_TX as u64 {
        MAX_DISTRIBUTIONS_PER_TX
    } else if by_gas < 1 {
        1
    } else {
        by_gas as u32
    };
    let limit: u32 = match dist_state.last_successful_batch_size {
        Some(last) => {
            let most: u64 = last as u64 * 9 / 10;
            if most < 1 {
                1
            } else {
                most as u32
            }
        },
        None => 10,
    };
    if base <= limit {
        base
    } else {
        limit
    }
}

/// The share of a committer in what is handed out.
pub open spec fn reward_of(usd_paid: int, total_to_distribute: int, total_committed_usd: int) -> int {
    if total_committed_usd == 0 {
        0
    } else {
        usd_paid * total_to_distribute / total_committed_usd
    }
}

/// The share of a committer in what is handed out.
pub fn calculate_committer_reward(
    usd_paid: u128,
    total_to_distribute: u128,
    total_committed_usd: u128,
) -> (r: Result<u128, StdError>)
    ensures
        r == (if reward_of(
            usd_paid as int,
            total_to_distribute as int,
            total_committed_usd as int,
        ) <= u128::MAX {
            Ok::<u128, StdError>(
                reward_of(usd_paid as int, total_to_distribute as int, total_committed_usd as int) as u128,
            )
        } else {
            Err(StdError::ConversionOverflow)
        }),
{
    if total_committed_usd == 0 {
        return Ok(0);
    }
    proof {
        assert(0 <= usd_paid * total_to_distribute < limb() * limb()) by (nonlinear_arith)
            requires
                0 <= usd_paid < limb(),
                0 <= total_to_distribute < limb(),
        ;
        lemma_div_pos_is_pos(usd_paid * total_to_distribute, total_committed_usd as int);
    }
    let share = match wide_checked_mul(
        Wide::from_u128(usd_paid),
        Wide::from_u128(total_to_distribute),
    ) {
        Some(product) => wide_checked_div(product, Wide::from_u128(total_committed_usd)),
        None => None,
    };
    match share {
        Some(share) => match share.to_u128() {
            Some(reward) => Ok(reward),
            None => Err(StdError::ConversionOverflow),
        },
        None => {
            assert(false);
            Err(StdError::ConversionOverflow)
        },
    }
}

/// The mint messages for the ledger entries from `from` up to `to`. A share that rounds
/// to zero is not minted.
pub open spec fn reward_msgs(
    entries: Seq<(String, u128)>,
    from: int,
    to: int,
    d: DistributionState,
    token_address: Addr,
) -> Result<Seq<CosmosMsg>, StdError>
    decreases to - from,
{
    if to <= from {
        Ok(Seq::empty())
    } else {
        let (payer, usd_paid) = entries[to - 1];
        let reward = reward_of(
            usd_paid as int,
            d.total_to_distribute as int,
            d.total_committed_usd as int,
        );
        match reward_msgs(entries, from, to - 1, d, token_address) {
            Err(e) => Err(e),
            Ok(msgs) => if reward > u128::MAX {
                Err(StdError::ConversionOverflow)
            } else if reward == 0 {
                Ok(msgs)
            } else {
                Ok(
                    msgs.push(
                        CosmosMsg::Cw20Mint {
                            contract_addr: token_address,
                            recipient: payer,
                            amount: reward as u128,
                        },
                    ),
                )
            },
        }
    }
}

/// A batch that fails takes the later entries with it.
proof fn lemma_reward_error(
    entries: Seq<(String, u128)>,
    from: int,
    mid: int,
    to: int,
    d: DistributionState,
    token_address: Addr,
)
    requires
        mid <= to,
        reward_msgs(entries, from, mid, d, token_address) is Err,
    ensures
        reward_msgs(entries, from, to, d, token_address) == reward_msgs(
            entries,
            from,
            mid,
            d,
            token_address,
        ),
    decreases to - mid,
{
    if mid < to {
        lemma_reward_error(entries, from, mid, to - 1, d, token_address);
        assert(reward_msgs(entries, from, to - 1, d, token_address) is Err);
        assert(to > from) by {
            if to <= from {
                assert(reward_msgs(entries, from, mid, d, token_address) is Ok);
            }
        }
    }
}

/// Where a batch starts: after the last key that was processed.
pub open spec fn batch_start(entries: Seq<(String, u128)>, d: DistributionState) -> int {
    let key = cursor(d);
    choose|at: int| #[trigger] is_first_after(entries, key, at)
}

/// The last key that was processed, as text.
pub open spec fn cursor(d: DistributionState) -> Option<Seq<char>> {
    match d.last_processed_key {
        Some(k) => Some(k@),
        None => None,
    }
}

/// Where a batch ends.
pub open spec fn batch_end(entries: Seq<(String, u128)>, d: DistributionState) -> int {
    min(entries.len() as int, batch_start(entries, d) + batch_size(d))
}

/// Ascending entries have one position after a key.
pub proof fn lemma_first_after_unique<V>(
    entries: Seq<(String, V)>,
    start: Option<Seq<char>>,
    a: int,
    b: int,
)
    requires
        is_first_after(entries, start, a),
        is_first_after(entries, start, b),
    ensures
        a == b,
{
    if start is Some {
        if a < b {
            assert(crate::table::less(start->Some_0, entries[a].0@) <==> b <= a);
            assert(crate::table::less(start->Some_0, entries[a].0@) <==> a <= a);
        } else if b < a {
            assert(crate::table::less(start->Some_0, entries[b].0@) <==> a <= b);
            assert(crate::table::less(start->Some_0, entries[b].0@) <==> b <= b);
        }
    }
}

/// The distribution after a batch of `processed` committers, the last of them `last`; it
/// is over where the count runs out or nobody was left.
pub open spec fn distribution_after(
    d: DistributionState,
    processed: u32,
    last: Addr,
    now: Timestamp,
) -> Option<DistributionState> {
    if processed == 0 || d.distributions_remaining <= processed {
        None
    } else {
        Some(
            DistributionState {
                is_distributing: true,
                last_processed_key: Some(last),
                distributions_remaining: (d.distributions_remaining - processed) as u32,
                last_successful_batch_size: Some(processed),
                consecutive_failures: 0,
                last_updated: now,
                ..d
            },
        )
    }
}

/// Whether a distribution has rested for too long.
pub open spec fn timed_out(d: DistributionState, now: Timestamp) -> bool {
    minus_or_zero(now.seconds() as int, d.last_updated.seconds() as int)
        > DISTRIBUTION_TIMEOUT_SECONDS
}

/// The distribution after a read of the ledger failed. The fifth failure in a row stops
/// it.
pub open spec fn distribution_failed(d: DistributionState) -> DistributionState {
    DistributionState {
        consecutive_failures: (d.consecutive_failures + 1) as u32,
        is_distributing: d.is_distributing && d.consecutive_failures + 1 < 5,
        ..d
    }
}

/// Whether the entries from `from` up to `to` were taken out of a table.
pub open spec fn taken_out<V>(
    before: Seq<(String, V)>,
    after: Seq<(String, V)>,
    from: int,
    to: int,
) -> bool {
    after == before.subrange(0, from) + before.subrange(to, before.len() as int)
}

fn take_out<V>(table: &mut Table<V>, from: usize, to: usize)
    requires
        old(table).wf(),
        from <= to <= old(table).entries@.len(),
    ensures
        final(table).wf(),
        taken_out(old(table).entries@, final(table).entries@, from as int, to as int),
{
    let ghost before = table.entries@;
    let mut k: usize = from;
    assert(before =~= before.subrange(0, from as int) + before.subrange(
        from as int,
        before.len() as int,
    ));
    while k < to
        invariant
            from <= k <= to <= before.len(),
            ascending(table.entries@),
            table.entries@ == before.subrange(0, from as int) + before.subrange(
                k as int,
                before.len() as int,
            ),
        decreases to - k,
    {
        proof {
            crate::table::lemma_removed(table.entries@, from as int);
        }
        table.entries.remove(from);
        k += 1;
        assert(table.entries@ =~= before.subrange(0, from as int) + before.subrange(
            k as int,
            before.len() as int,
        ));
    }
}

/// Pays the next batch of committers. `read_failure` is what the host reported where the
/// ledger could not be read.
///
/// A batch that times out, or whose ledger cannot be read, is noted in the distribution
/// although the call fails.
#[verifier::loop_isolation(false)]
pub fn process_distribution_batch(
    store: &mut PoolStore,
    env: &Env,
    read_failure: Option<String>,
) -> (r: Result<(Vec<CosmosMsg>, u32), StdError>)
    requires
        old(store).wf(),
        old(store).distribution matches Some(d) ==> d.consecutive_failures < u32::MAX,
    ensures
        final(store).wf(),
        batch_done(*old(store), *final(store), *env, read_failure),
        match r {
            Ok((msgs, processed)) => batch_answer(*old(store), *env, read_failure) == Ok::<
                (Seq<CosmosMsg>, u32),
                StdError,
            >((msgs@, processed)),
            Err(e) => batch_answer(*old(store), *env, read_failure) == Err::<
                (Seq<CosmosMsg>, u32),
                StdError,
            >(e),
        },
{
    let dist = match &store.distribution {
        Some(dist) => dist,
        None => {
            return Ok((Vec::new(), 0));
        },
    };
    let ghost d = *dist;
    let ghost before = store.commit_ledger.entries@;
    let since: u64 = env.time.seconds().saturating_sub(dist.last_updated.seconds());
    if since > DISTRIBUTION_TIMEOUT_SECONDS {
        let next = copy_distribution(dist, dist.is_distributing, 99);
        store.distribution = Some(next);
        return Err(StdError::Generic("Distribution timeout - requires manual recovery"));
    }
    if let Some(reason) = read_failure {
        let failures: u32 = dist.consecutive_failures + 1;
        let next = copy_distribution(dist, dist.is_distributing && failures < 5, failures);
        store.distribution = Some(next);
        return Err(
            if failures >= 5 {
                StdError::BatchAbandoned { failures, reason }
            } else {
                StdError::BatchFailed { attempt: failures, reason }
            },
        );
    }
    let start: usize = match &dist.last_processed_key {
        Some(key) => store.commit_ledger.first_after(Some(key.as_str())),
        None => store.commit_ledger.first_after(None),
    };
    let most: u32 = calculate_effective_batch_size(dist);
    let len: usize = store.commit_ledger.entries.len();
    let end: usize = if len - start <= most as usize {
        len
    } else {
        start + most as usize
    };
    proof {
        let key = cursor(d);
        assert(is_first_after(before, key, start as int));
        assert(is_first_after(before, key, batch_start(before, d)));
        lemma_first_after_unique(before, key, start as int, batch_start(before, d));
        assert(end == batch_end(before, d));
    }
    let mut msgs: Vec<CosmosMsg> = Vec::new();
    let mut i: usize = start;
    while i < end
        invariant
            *store == *old(store),
            before == store.commit_ledger.entries@,
            start <= i <= end <= before.len(),
            d == *dist,
            reward_msgs(before, start as int, i as int, d, store.pool_info.token_address) == Ok::<
                Seq<CosmosMsg>,
                StdError,
            >(msgs@),
        decreases end - i,
    {
        let entry = &store.commit_ledger.entries[i];
        match calculate_committer_reward(
            entry.1,
            dist.total_to_distribute,
            dist.total_committed_usd,
        ) {
            Ok(reward) => {
                if reward != 0 {
                    msgs.push(mint_tokens(&store.pool_info.token_address, &entry.0, reward));
                }
            },
            Err(e) => {
                proof {
                    assert(reward_msgs(
                        before,
                        start as int,
                        i + 1,
                        d,
                        store.pool_info.token_address,
                    ) is Err);
                    lemma_reward_error(
                        before,
                        start as int,
                        i + 1,
                        end as int,
                        d,
                        store.pool_info.token_address,
                    );
                }
                return Err(e);
            },
        }
        i += 1;
    }
    let processed: u32 = (end - start) as u32;
    let next = if processed == 0 || dist.distributions_remaining <= processed {
        None
    } else {
        Some(
            DistributionState {
                is_distributing: true,
                total_to_distribute: dist.total_to_distribute,
                total_committed_usd: dist.total_committed_usd,
                last_processed_key: Some(store.commit_ledger.entries[end - 1].0.clone()),
                distributions_remaining: dist.distributions_remaining - processed,
                estimated_gas_per_distribution: dist.estimated_gas_per_distribution,
                max_gas_per_tx: dist.max_gas_per_tx,
                last_successful_batch_size: Some(processed),
                consecutive_failures: 0,
                started_at: dist.started_at,
                last_updated: env.time,
            },
        )
    };
    store.distribution = next;
    take_out(&mut store.commit_ledger, start, end);
    Ok((msgs, processed))
}

/// What a batch answers: the messages that pay the committers, and how many it took.
pub open spec fn batch_answer(store: PoolStore, env: Env, read_failure: Option<String>) -> Result<
    (Seq<CosmosMsg>, u32),
    StdError,
> {
    let entries = store.commit_ledger.entries@;
    match store.distribution {
        None => Ok((Seq::empty(), 0)),
        Some(d) => {
            let from = batch_start(entries, d);
            let to = batch_end(entries, d);
            let failures = (d.consecutive_failures + 1) as u32;
            if timed_out(d, env.time) {
                Err(StdError::Generic("Distribution timeout - requires manual recovery"))
            } else if read_failure is Some {
                Err(
                    if failures >= 5 {
                        StdError::BatchAbandoned { failures, reason: read_failure->Some_0 }
                    } else {
                        StdError::BatchFailed {
                            attempt: failures,
                            reason: read_failure->Some_0,
                        }
                    },
                )
            } else {
                match reward_msgs(entries, from, to, d, store.pool_info.token_address) {
                    Err(e) => Err(e),
                    Ok(msgs) => Ok((msgs, (to - from) as u32)),
                }
            }
        },
    }
}

/// What a batch does to the ledger and the distribution.
pub open spec fn batch_done(
    before: PoolStore,
    after: PoolStore,
    env: Env,
    read_failure: Option<String>,
) -> bool {
    let entries = before.commit_ledger.entries@;
    match before.distribution {
        None => after == before,
        Some(d) => {
            let from = batch_start(entries, d);
            let to = batch_end(entries, d);
            if timed_out(d, env.time) {
                after == (PoolStore {
                    distribution: Some(DistributionState { consecutive_failures: 99, ..d }),
                    ..before
                })
            } else if read_failure is Some {
                after == (PoolStore { distribution: Some(distribution_failed(d)), ..before })
            } else if batch_answer(before, env, read_failure) is Err {
                after == before
            } else {
                &&& after == (PoolStore {
                    distribution: distribution_after(
                        d,
                        (to - from) as u32,
                        entries[to - 1].0,
                        env.time,
                    ),
                    commit_ledger: after.commit_ledger,
                    ..before
                })
                &&& taken_out(entries, after.commit_ledger.entries@, from, to)
            }
        },
    }
}

fn copy_distribution(d: &DistributionState, is_distributing: bool, failures: u32) -> (r:
    DistributionState)
    ensures
        r == (DistributionState { is_distributing, consecutive_failures: failures, ..*d }),
{
    DistributionState {
        is_distributing,
        total_to_distribute: d.total_to_distribute,
        total_committed_usd: d.total_committed_usd,
        last_processed_key: match &d.last_processed_key {
            Some(key) => Some(key.clone()),
            None => None,
        },
        distributions_remaining: d.distributions_remaining,
        estimated_gas_per_distribution: d.estimated_gas_per_distribution,
        max_gas_per_tx: d.max_gas_per_tx,
        last_successful_batch_size: d.last_successful_batch_size,
        consecutive_failures: failures,
        started_at: d.started_at,
        last_updated: d.last_updated,
    }
}

} // verus!
