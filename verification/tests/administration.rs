//! Setting a pool up, administering it, and handing out what it owes.

use bluechip::asset::{PoolPairType, TokenInfo, TokenType};
use bluechip::chain::{Coin, CosmosMsg, Env, MessageInfo, Response};
use bluechip::error::{Missing, StdError};
use bluechip::number::{Decimal, Timestamp};
use bluechip::pool::commit::Quotes;
use bluechip::pool::contract::{
    execute, execute_simple_swap, instantiate, migrate, reply_factory_notify, Dispatch,
    HostAnswers,
};
use bluechip::pool::error::ContractError;
use bluechip::pool::generic_helpers::calculate_effective_batch_size;
use bluechip::pool::liquidity_helpers::sync_position_on_transfer;
use bluechip::pool::msg::{CommitPoolInstantiateMsg, ExecuteMsg, MigrateMsg, PoolConfigUpdate};
use bluechip::pool::query::query_factory_notify_status;
use bluechip::pool::range::execute_in_range;
use bluechip::pool::state::{
    CommitFeeInfo, CommitLimitInfo, CreatorExcessLiquidity, CreatorFeePot, DistributionState,
    ExpectedFactory, OracleInfo, PoolAnalytics, PoolDetails, PoolFeeState, PoolInfo, PoolSpecs,
    PoolState, PoolStore, Position, RecoveryType, ThresholdPayoutAmounts,
    DEFAULT_ESTIMATED_GAS_PER_DISTRIBUTION, DEFAULT_MAX_GAS_PER_TX,
};
use bluechip::table::Table;

const DENOM: &str = "stake";

fn env() -> Env {
    Env {
        height: 12_345,
        time: Timestamp { nanos: 1_571_797_419_879_305_533 },
        contract: "cosmos2contract".to_string(),
    }
}

fn env_at(seconds: u64) -> Env {
    Env { time: Timestamp::from_seconds(seconds), ..env() }
}

fn env_later(seconds: u64) -> Env {
    Env { time: env().time.plus_seconds(seconds), ..env() }
}

fn from(sender: &str) -> MessageInfo {
    MessageInfo { sender: sender.to_string(), funds: vec![] }
}

fn paying(sender: &str, denom: &str, amount: u128) -> MessageInfo {
    MessageInfo {
        sender: sender.to_string(),
        funds: vec![Coin { denom: denom.to_string(), amount }],
    }
}

fn bluechip(denom: &str, amount: u128) -> TokenInfo {
    TokenInfo { info: TokenType::Bluechip { denom: denom.to_string() }, amount }
}

fn state(reserve0: u128, reserve1: u128, total_liquidity: u128, block_time_last: u64) -> PoolState {
    PoolState {
        pool_contract_address: "pool_contract".to_string(),
        nft_ownership_accepted: true,
        reserve0,
        reserve1,
        total_liquidity,
        block_time_last,
        price0_cumulative_last: 0,
        price1_cumulative_last: 0,
    }
}

/// A pool that collects commits.
fn funding_pool() -> PoolStore {
    PoolStore {
        usd_raised: 0,
        native_raised: 0,
        threshold_hit: false,
        threshold_processing: false,
        last_threshold_attempt: None,
        reentrancy_lock: false,
        paused: false,
        drained: false,
        pending_factory_notify: false,
        pending_emergency_withdraw: None,
        emergency_withdrawal: None,
        expected_factory: ExpectedFactory {
            expected_factory_address: "factory_address".to_string(),
        },
        pool_info: PoolInfo {
            pool_id: 1,
            pool_info: PoolDetails {
                asset_infos: [
                    TokenType::Bluechip { denom: DENOM.to_string() },
                    TokenType::CreatorToken { contract_addr: "token_contract".to_string() },
                ],
                contract_addr: "pool_contract".to_string(),
                pool_type: PoolPairType::Xyk {},
            },
            factory_addr: "factory_contract".to_string(),
            token_address: "token_contract".to_string(),
            position_nft_address: "nft_contract".to_string(),
        },
        pool_state: state(0, 0, 0, 0),
        pool_specs: PoolSpecs {
            lp_fee: Decimal::permille(3),
            min_commit_interval: 60,
            usd_payment_tolerance_bps: 100,
        },
        fee_state: PoolFeeState {
            fee_growth_global_0: Decimal::zero(),
            fee_growth_global_1: Decimal::zero(),
            total_fees_collected_0: 0,
            total_fees_collected_1: 0,
            fee_reserve_0: 0,
            fee_reserve_1: 0,
        },
        fee_info: CommitFeeInfo {
            bluechip_wallet_address: "bluechip_treasury".to_string(),
            creator_wallet_address: "creator_wallet".to_string(),
            commit_fee_bluechip: Decimal::percent(1),
            commit_fee_creator: Decimal::percent(5),
        },
        commit_limits: CommitLimitInfo {
            commit_amount_for_threshold: 100_000_000,
            commit_amount_for_threshold_usd: 25_000_000_000,
            max_bluechip_lock_per_pool: 10_000_000_000,
            creator_excess_liquidity_lock_days: 7,
        },
        threshold_payout: ThresholdPayoutAmounts {
            creator_reward_amount: 325_000_000_000,
            bluechip_reward_amount: 25_000_000_000,
            pool_seed_amount: 350_000_000_000,
            commit_return_amount: 500_000_000_000,
        },
        oracle_info: OracleInfo { oracle_addr: "oracle_contract".to_string() },
        analytics: PoolAnalytics::default(),
        creator_excess: None,
        creator_fee_pot: CreatorFeePot::default(),
        distribution: None,
        next_position_id: 1,
        commit_info: Table::new(),
        commit_ledger: Table::new(),
        user_last_commit: Table::new(),
        positions: Table::new(),
        owner_positions: Table::new(),
    }
}

/// A pool that is past its threshold and seeded.
fn trading_pool() -> PoolStore {
    let mut pool = funding_pool();
    pool.threshold_hit = true;
    pool.usd_raised = 25_000_000_000;
    pool.pool_state = state(23_500_000_000, 350_000_000_000, 91_104_335_791, 1_600_000_000);
    pool
}

fn unasked<T>() -> Result<T, StdError> {
    Err(StdError::Host { message: "not asked".to_string() })
}

fn silent_host() -> HostAnswers {
    HostAnswers {
        quotes: Quotes { usd_value: unasked(), to_threshold: unasked() },
        to: Ok(None),
        cw20_sender: unasked(),
        hook: unasked(),
        oracle_address: unasked(),
        ledger_failure: None,
    }
}

fn run(
    pool: &mut PoolStore,
    env: &Env,
    info: &MessageInfo,
    msg: &ExecuteMsg,
    host: HostAnswers,
) -> Result<Response, ContractError> {
    assert!(execute_in_range(pool, env, info, msg, &host));
    match execute(pool, env, info, msg, host) {
        Ok(Dispatch::Done(response)) => Ok(response),
        Ok(Dispatch::Liquidity) => panic!("not a call on liquidity"),
        Err(e) => Err(e),
    }
}

fn attribute<'a>(response: &'a Response, key: &str) -> &'a str {
    let found = response.attributes.iter().find(|a| a.key == key);
    &found.expect("attribute").value
}

fn instantiate_msg(denom: &str, token: &str, factory: &str) -> CommitPoolInstantiateMsg {
    CommitPoolInstantiateMsg {
        pool_id: 1,
        pool_token_info: [
            TokenType::Bluechip { denom: denom.to_string() },
            TokenType::CreatorToken { contract_addr: token.to_string() },
        ],
        cw20_token_contract_id: 123,
        used_factory_addr: factory.to_string(),
        threshold_payout: None,
        commit_fee_info: CommitFeeInfo {
            bluechip_wallet_address: "bluechip_wallet".to_string(),
            creator_wallet_address: "creator_wallet".to_string(),
            commit_fee_bluechip: Decimal::percent(1),
            commit_fee_creator: Decimal::percent(1),
        },
        commit_threshold_limit_usd: 1_000,
        commit_amount_for_threshold: 1_000,
        position_nft_address: "nft_addr".to_string(),
        token_address: "token_addr".to_string(),
        max_bluechip_lock_per_pool: 10_000,
        creator_excess_liquidity_lock_days: 7,
        is_standard_pool: Some(true),
    }
}

/// A pool that is open from the start, as its factory sets it up.
fn standard_pool() -> PoolStore {
    let msg = instantiate_msg("ublue", "creator_token", "factory_addr");
    instantiate(&env(), &from("factory_addr"), msg, Ok(()), Ok(())).unwrap().0
}

fn call(
    pool: &mut PoolStore,
    env: &Env,
    sender: &str,
    msg: ExecuteMsg,
) -> Result<Response, ContractError> {
    run(pool, env, &from(sender), &msg, silent_host())
}

#[test]
fn test_pause_unpause() {
    let mut pool = standard_pool();
    assert!(!pool.paused);
    call(&mut pool, &env(), "factory_addr", ExecuteMsg::Pause {}).unwrap();
    assert!(pool.paused);
    let swap = ExecuteMsg::SimpleSwap {
        offer_asset: bluechip("ublue", 100),
        belief_price: None,
        max_spread: None,
        to: None,
        transaction_deadline: None,
    };
    let info = paying("user", "ublue", 100);
    let err = run(&mut pool, &env(), &info, &swap, silent_host()).unwrap_err();
    assert!(format!("{:?}", err).contains("PoolPausedLowLiquidity"));
    call(&mut pool, &env(), "factory_addr", ExecuteMsg::Unpause {}).unwrap();
    assert!(!pool.paused);
}

#[test]
fn test_emergency_withdraw() {
    let mut pool = standard_pool();
    pool.pool_state.reserve0 = 1_000;
    pool.pool_state.reserve1 = 2_000;

    let announced =
        call(&mut pool, &env(), "factory_addr", ExecuteMsg::EmergencyWithdraw {}).unwrap();
    assert_eq!(attribute(&announced, "action"), "emergency_withdraw_initiated");
    assert!(pool.paused);
    assert_eq!(pool.pool_state.reserve0, 1_000);
    assert_eq!(pool.pool_state.reserve1, 2_000);

    let early =
        call(&mut pool, &env(), "factory_addr", ExecuteMsg::EmergencyWithdraw {}).unwrap_err();
    assert!(early.text().contains("timelock not yet elapsed"));

    let later = env_later(86_401);
    let done = call(&mut pool, &later, "factory_addr", ExecuteMsg::EmergencyWithdraw {}).unwrap();
    assert_eq!(attribute(&done, "action"), "emergency_withdraw");
    assert_eq!(attribute(&done, "amount0"), "1000");
    assert_eq!(attribute(&done, "amount1"), "2000");
    assert_eq!(pool.pool_state.reserve0, 0);
    assert_eq!(pool.pool_state.reserve1, 0);
    assert_eq!(done.messages.len(), 2);
}

#[test]
fn test_cancel_emergency_withdraw() {
    let mut pool = standard_pool();
    pool.pool_state.reserve0 = 500;
    pool.pool_state.reserve1 = 1_000;
    call(&mut pool, &env(), "factory_addr", ExecuteMsg::EmergencyWithdraw {}).unwrap();
    assert!(pool.paused);
    let msg = ExecuteMsg::CancelEmergencyWithdraw {};
    let cancelled = call(&mut pool, &env(), "factory_addr", msg).unwrap();
    assert_eq!(attribute(&cancelled, "action"), "emergency_withdraw_cancelled");
    assert!(!pool.paused);
    assert_eq!(pool.pool_state.reserve0, 500);
    assert_eq!(pool.pool_state.reserve1, 1_000);
}

#[test]
fn test_update_config_all() {
    let mut pool = standard_pool();
    let update = PoolConfigUpdate {
        lp_fee: Some(Decimal::percent(5)),
        min_commit_interval: Some(60),
        usd_payment_tolerance_bps: Some(200),
        oracle_address: Some("new_oracle".to_string()),
    };
    let msg = ExecuteMsg::UpdateConfigFromFactory { update };
    let answers = HostAnswers { oracle_address: Ok("new_oracle".to_string()), ..silent_host() };
    run(&mut pool, &env(), &from("factory_addr"), &msg, answers).unwrap();
    assert_eq!(pool.pool_specs.lp_fee, Decimal::percent(5));
    assert_eq!(pool.pool_specs.min_commit_interval, 60);
    assert_eq!(pool.pool_specs.usd_payment_tolerance_bps, 200);
    assert_eq!(pool.oracle_info.oracle_addr, "new_oracle");
}

#[test]
fn test_unauthorized_admin_actions() {
    let mut pool = standard_pool();
    let update = PoolConfigUpdate {
        lp_fee: Some(Decimal::percent(100)),
        min_commit_interval: None,
        usd_payment_tolerance_bps: None,
        oracle_address: None,
    };
    let calls = vec![
        ExecuteMsg::Pause {},
        ExecuteMsg::EmergencyWithdraw {},
        ExecuteMsg::UpdateConfigFromFactory { update },
    ];
    for msg in calls {
        let err = call(&mut pool, &env(), "hacker", msg).unwrap_err();
        assert!(format!("{:?}", err).contains("Unauthorized"));
    }
}

fn factory_update() -> ExecuteMsg {
    ExecuteMsg::UpdateConfigFromFactory {
        update: PoolConfigUpdate {
            lp_fee: Some(Decimal::permille(3)),
            min_commit_interval: Some(120),
            usd_payment_tolerance_bps: Some(100),
            oracle_address: None,
        },
    }
}

#[test]
fn test_pool_update_config_from_factory() {
    let mut pool = funding_pool();
    let res = call(&mut pool, &env(), "factory_contract", factory_update()).unwrap();
    assert!(res.messages.is_empty());
    let err = call(&mut pool, &env(), "hacker", factory_update());
    assert_eq!(err, Err(ContractError::Unauthorized {}));
}

fn open_pool_msg() -> CommitPoolInstantiateMsg {
    CommitPoolInstantiateMsg {
        cw20_token_contract_id: 1,
        commit_fee_info: CommitFeeInfo {
            bluechip_wallet_address: "bluechip".to_string(),
            creator_wallet_address: "creator".to_string(),
            commit_fee_bluechip: Decimal::percent(1),
            commit_fee_creator: Decimal::percent(5),
        },
        commit_threshold_limit_usd: 25_000_000_000,
        commit_amount_for_threshold: 100_000_000,
        position_nft_address: "nft".to_string(),
        token_address: "token".to_string(),
        max_bluechip_lock_per_pool: 10_000_000_000,
        ..instantiate_msg("ubluechip", "token", "factory")
    }
}

#[test]
fn test_standard_pool_instantiation() {
    let made = instantiate(&env(), &from("factory"), open_pool_msg(), Ok(()), Ok(()));
    assert!(made.unwrap().0.threshold_hit);
}

/// A standard pool takes swaps and deposits at once: an empty one has nothing to swap for,
/// and a deposit goes to the liquidity handlers.
#[test]
fn standard_pools_are_open_at_once() {
    let made = instantiate(&env(), &from("factory"), open_pool_msg(), Ok(()), Ok(()));
    let mut pool = made.unwrap().0;
    let swap = ExecuteMsg::SimpleSwap {
        offer_asset: bluechip("ubluechip", 1_000),
        belief_price: None,
        max_spread: None,
        to: None,
        transaction_deadline: None,
    };
    let info = paying("trader", "ubluechip", 1_000);
    let err = run(&mut pool, &env(), &info, &swap, silent_host());
    assert_eq!(err, Err(ContractError::InsufficientReserves {}));

    let deposit = ExecuteMsg::DepositLiquidity {
        amount0: 1_000,
        amount1: 1_000,
        min_amount0: None,
        min_amount1: None,
        transaction_deadline: None,
    };
    let info = paying("provider", "ubluechip", 1_000);
    let res = execute(&mut pool, &env(), &info, &deposit, silent_host());
    assert!(matches!(res, Ok(Dispatch::Liquidity)));
}

fn impersonated(denom: &str) {
    let msg = CommitPoolInstantiateMsg {
        cw20_token_contract_id: 2,
        commit_fee_info: CommitFeeInfo {
            bluechip_wallet_address: denom.to_string(),
            creator_wallet_address: "addr0000".to_string(),
            commit_fee_bluechip: Decimal::percent(10),
            commit_fee_creator: Decimal::percent(10),
        },
        commit_threshold_limit_usd: 350_000_000_000,
        commit_amount_for_threshold: 0,
        position_nft_address: "NFT_contract".to_string(),
        token_address: "token_contract".to_string(),
        max_bluechip_lock_per_pool: 10_000_000_000,
        is_standard_pool: None,
        ..instantiate_msg(denom, "WILL_BE_CREATED_BY_FACTORY", "factory_contract")
    };
    match instantiate(&env(), &from("fake_factory"), msg, Ok(()), Ok(())) {
        Err(ContractError::Unauthorized {}) => (),
        _ => panic!("Expected Unauthorized error"),
    }
}

#[test]
fn swap_tests_test_factory_impersonation_prevented() {
    impersonated("stake");
}

#[test]
fn tests_test_factory_impersonation_prevented() {
    impersonated("bluechip");
}

#[test]
fn test_swap_reserve_deducts_return_and_commission() {
    let mut pool = trading_pool();
    let reserve0 = pool.pool_state.reserve0;
    let reserve1 = pool.pool_state.reserve1;
    assert_eq!(pool.fee_state.fee_reserve_1, 0);
    let offer = bluechip(DENOM, 100_000_000);
    let spread = Some(Decimal::percent(50));
    let swapper = "swapper".to_string();
    let res =
        execute_simple_swap(&mut pool, &env(), &swapper, &offer, None, spread, None).unwrap();
    assert_eq!(pool.pool_state.reserve0, reserve0 + 100_000_000);
    let commission = pool.fee_state.fee_reserve_1;
    assert!(commission > 0);
    let sent = res.messages.iter().find_map(|m| match m {
        CosmosMsg::Cw20Transfer { amount, .. } => Some(*amount),
        _ => None,
    });
    assert_eq!(pool.pool_state.reserve1 + commission + sent.unwrap_or(0), reserve1);
}

fn recover(
    pool: &mut PoolStore,
    env: &Env,
    sender: &str,
    recovery_type: RecoveryType,
) -> Result<Response, ContractError> {
    call(pool, env, sender, ExecuteMsg::RecoverStuckStates { recovery_type })
}

/// A pool that answers to the factory named in the other fixtures.
fn pool_of_factory(mut pool: PoolStore) -> PoolStore {
    pool.expected_factory.expected_factory_address = "factory_contract".to_string();
    pool
}

#[test]
fn test_recover_stuck_reentrancy_guard() {
    let mut pool = pool_of_factory(funding_pool());
    pool.reentrancy_lock = true;
    let guard = RecoveryType::StuckReentrancyGuard;
    let res = recover(&mut pool, &env(), "factory_contract", guard).unwrap();
    assert!(!pool.reentrancy_lock);
    assert!(attribute(&res, "recovered").contains("reentrancy_guard"));
}

#[test]
fn test_recover_stuck_reentrancy_guard_unauthorized() {
    let mut pool = pool_of_factory(funding_pool());
    pool.reentrancy_lock = true;
    let err = recover(&mut pool, &env(), "hacker", RecoveryType::StuckReentrancyGuard);
    assert_eq!(err, Err(ContractError::Unauthorized {}));
    assert!(pool.reentrancy_lock);
}

#[test]
fn test_recover_not_stuck_returns_error() {
    let mut pool = pool_of_factory(funding_pool());
    let guard = RecoveryType::StuckReentrancyGuard;
    let err = recover(&mut pool, &env(), "factory_contract", guard);
    assert_eq!(err, Err(ContractError::NothingToRecover {}));
}

#[test]
fn test_recover_both_resets_all_stuck_states() {
    let mut pool = pool_of_factory(funding_pool());
    pool.reentrancy_lock = true;
    pool.threshold_processing = true;
    pool.last_threshold_attempt = Some(Timestamp::from_seconds(0));
    let late = env_at(7_200);
    let res = recover(&mut pool, &late, "factory_contract", RecoveryType::Both).unwrap();
    assert!(!pool.reentrancy_lock);
    assert!(!pool.threshold_processing);
    assert!(attribute(&res, "recovered").contains("reentrancy_guard"));
    assert!(attribute(&res, "recovered").contains("threshold"));
}

#[test]
fn test_recover_stuck_threshold() {
    let mut pool = funding_pool();
    pool.last_threshold_attempt = Some(env().time);
    pool.threshold_processing = true;
    let threshold = RecoveryType::StuckThreshold;
    assert!(recover(&mut pool, &env_later(1_800), "factory_address", threshold).is_err());
    let res = recover(&mut pool, &env_later(3_601), "factory_address", threshold).unwrap();
    assert_eq!(pool.threshold_processing, false);
    assert!(res.attributes.iter().any(|a| a.value.contains("threshold")));
}

#[test]
fn test_unauthorized_recovery_attempt() {
    let mut pool = funding_pool();
    pool.threshold_processing = true;
    let err = recover(&mut pool, &env(), "random_user", RecoveryType::StuckThreshold);
    assert_eq!(err, Err(ContractError::Unauthorized {}));
}

fn update_fees(pool: &mut PoolStore, new_fees: Decimal) -> Result<Response, StdError> {
    migrate(pool, MigrateMsg::UpdateFees { new_fees }, "1.0.0")
}

#[test]
fn test_migrate_rejects_excessive_fees() {
    let err = update_fees(&mut trading_pool(), Decimal::percent(11)).unwrap_err();
    assert!(err.text().contains("must not exceed 10%"));
}

#[test]
fn test_migrate_accepts_valid_fees() {
    let mut pool = trading_pool();
    let res = update_fees(&mut pool, Decimal::percent(10)).unwrap();
    assert_eq!(attribute(&res, "action"), "migrate");
    assert_eq!(pool.pool_specs.lp_fee, Decimal::percent(10));
}

#[test]
fn test_migrate_accepts_small_fees() {
    let mut pool = trading_pool();
    update_fees(&mut pool, Decimal::permille(3)).unwrap();
    assert_eq!(pool.pool_specs.lp_fee, Decimal::permille(3));
}

#[test]
fn test_migrate_rejects_zero_fees() {
    let err = update_fees(&mut trading_pool(), Decimal::zero()).unwrap_err();
    assert!(err.text().contains("at least 0.1%"));
}

#[test]
fn test_migrate_rejects_below_minimum() {
    let fees = Decimal { atomics: 900_000_000_000_000 };
    let err = update_fees(&mut trading_pool(), fees).unwrap_err();
    assert!(err.text().contains("at least 0.1%"));
}

#[test]
fn test_migrate_accepts_minimum_fee() {
    let mut pool = trading_pool();
    update_fees(&mut pool, Decimal::permille(1)).unwrap();
    assert_eq!(pool.pool_specs.lp_fee, Decimal::permille(1));
}

/// A pool with one position, which belongs to alice.
fn pool_of_alice() -> PoolStore {
    let mut pool = trading_pool();
    let position = Position {
        liquidity: 10_000_000,
        owner: "alice".to_string(),
        fee_growth_inside_0_last: Decimal::zero(),
        fee_growth_inside_1_last: Decimal::zero(),
        created_at: 1_600_000_000,
        last_fee_collection: 1_600_000_000,
        fee_size_multiplier: Decimal::one(),
        unclaimed_fees_0: 0,
        unclaimed_fees_1: 0,
    };
    pool.positions.insert("1".to_string(), position);
    let mut owned = Table::new();
    owned.insert("1".to_string(), true);
    pool.owner_positions.insert("alice".to_string(), owned);
    pool.pool_state.total_liquidity += 10_000_000;
    pool
}

fn owns(pool: &PoolStore, owner: &str, id: &str) -> bool {
    pool.owner_positions.get(owner).is_some_and(|ids| ids.get(id).is_some())
}

#[test]
fn test_nft_transfer_resets_fee_checkpoints() {
    let mut pool = pool_of_alice();
    pool.fee_state.fee_growth_global_0 = Decimal::percent(5_000);
    pool.fee_state.fee_growth_global_1 = Decimal::percent(7_500);
    pool.fee_state.fee_reserve_0 = 1_000_000_000_000;
    pool.fee_state.fee_reserve_1 = 1_000_000_000_000;
    let fees = pool.fee_state;
    let mut position = pool.positions.get("1").unwrap().clone();
    assert_eq!(position.owner, "alice");
    let id = "1".to_string();
    let bob = "bob".to_string();
    assert!(sync_position_on_transfer(&mut pool, &mut position, &id, &bob, &fees));
    assert_eq!(position.owner, "bob");
    assert_eq!(position.fee_growth_inside_0_last, fees.fee_growth_global_0);
    assert_eq!(position.fee_growth_inside_1_last, fees.fee_growth_global_1);
    assert_eq!(position.unclaimed_fees_0, 0);
    assert_eq!(position.unclaimed_fees_1, 0);
    assert!(!owns(&pool, "alice", "1"));
    assert!(owns(&pool, "bob", "1"));
}

#[test]
fn test_no_transfer_no_reset() {
    let mut pool = pool_of_alice();
    pool.fee_state.fee_growth_global_0 = Decimal::percent(5_000);
    let fees = pool.fee_state;
    let mut position = pool.positions.get("1").unwrap().clone();
    let id = "1".to_string();
    let alice = "alice".to_string();
    assert!(!sync_position_on_transfer(&mut pool, &mut position, &id, &alice, &fees));
    assert_eq!(position.fee_growth_inside_0_last, Decimal::zero());
}

/// A distribution of one token per dollar that ran a moment ago.
fn distribution(remaining: u32, max_gas: u64, gas: u64, last: Option<u32>) -> DistributionState {
    DistributionState {
        is_distributing: true,
        total_to_distribute: 1_000_000,
        total_committed_usd: 1_000_000,
        last_processed_key: None,
        distributions_remaining: remaining,
        estimated_gas_per_distribution: gas,
        max_gas_per_tx: max_gas,
        last_successful_batch_size: last,
        consecutive_failures: 0,
        started_at: env().time,
        last_updated: env().time,
    }
}

fn pool_of_committers(number: u32) -> PoolStore {
    let mut pool = funding_pool();
    for i in 0..number {
        pool.commit_ledger.insert(format!("user{}", i), 100);
    }
    pool
}

#[test]
fn test_continue_distribution_internal_self_call_succeeds() {
    let mut pool = pool_of_committers(5);
    pool.distribution = Some(DistributionState {
        total_to_distribute: 1_000_000_000,
        total_committed_usd: 1_000_000_000,
        ..distribution(
            5,
            DEFAULT_MAX_GAS_PER_TX,
            DEFAULT_ESTIMATED_GAS_PER_DISTRIBUTION,
            Some(3),
        )
    });
    let msg = ExecuteMsg::ContinueDistribution {};
    let res = call(&mut pool, &env(), "cosmos2contract", msg).unwrap();
    assert!(res.attributes.iter().any(|a| a.value == "continue_distribution"));
    assert!(res.messages.len() <= 3);
}

/// A batch takes as many committers as the gas pays for, and notes how many they were.
#[test]
fn batches_follow_the_gas() {
    let mut pool = pool_of_committers(10);
    pool.distribution = Some(distribution(10, 200, 50, None));
    let msg = ExecuteMsg::ContinueDistribution {};
    call(&mut pool, &env(), "cosmos2contract", msg).unwrap();
    assert_eq!(pool.commit_ledger.entries.len(), 10 - 4);
    let state = pool.distribution.unwrap();
    assert_eq!(state.distributions_remaining, 10 - 4);
    assert_eq!(state.last_successful_batch_size, Some(4));
}

#[test]
fn test_adaptive_batch_sizing_with_history() {
    let mut pool = pool_of_committers(20);
    pool.distribution = Some(distribution(20, 1_000, 50, Some(12)));
    let before = pool.commit_ledger.entries.len();
    let msg = ExecuteMsg::ContinueDistribution {};
    call(&mut pool, &env(), "cosmos2contract", msg).unwrap();
    let after = pool.commit_ledger.entries.len();
    assert_eq!(before - after, 10);
}

#[test]
fn test_calculate_effective_batch_size() {
    let with_history = distribution(20, 1_000, 50, Some(12));
    assert_eq!(calculate_effective_batch_size(&with_history), 10);
    let without_history = distribution(20, 1_000, 50, None);
    assert_eq!(calculate_effective_batch_size(&without_history), 10);
}

#[test]
fn test_batch_size_with_consecutive_failures() {
    let mut pool = pool_of_committers(10);
    pool.distribution = Some(DistributionState {
        consecutive_failures: 2,
        ..distribution(10, 1_000, 200, Some(2))
    });
    let msg = ExecuteMsg::ContinueDistribution {};
    let res = call(&mut pool, &env(), "cosmos2contract", msg).unwrap();
    assert!(res.messages.len() <= 2);
}

#[test]
fn test_final_batch_completes_distribution() {
    let mut pool = pool_of_committers(3);
    pool.distribution = Some(DistributionState {
        total_committed_usd: 300,
        ..distribution(3, 1_000, 50, Some(5))
    });
    let msg = ExecuteMsg::ContinueDistribution {};
    let res = call(&mut pool, &env(), "cosmos2contract", msg).unwrap();
    assert_eq!(pool.distribution, None);
    assert!(res.messages.iter().all(|m| match m {
        CosmosMsg::Cw20Mint { .. } => true,
        CosmosMsg::PayDistributionBounty { .. } => true,
        _ => false,
    }));
}

#[test]
fn test_distribution_timeout_triggers_error() {
    let mut pool = pool_of_committers(5);
    let old = Timestamp::from_seconds(1_000);
    pool.distribution = Some(DistributionState {
        started_at: old,
        last_updated: old,
        ..distribution(5, 1_000, 50, None)
    });
    let msg = ExecuteMsg::ContinueDistribution {};
    let err = call(&mut pool, &env_at(1_000 + 7_201), "anyone", msg).unwrap_err();
    assert!(err.text().contains("timeout"));
    assert_eq!(pool.distribution.unwrap().consecutive_failures, 99);
}

/// A pool that owes one committer, with some fees set aside.
fn pool_with_bounty() -> PoolStore {
    let mut pool = pool_of_factory(trading_pool());
    pool.fee_state.fee_reserve_0 = 10_000_000;
    pool.commit_ledger.insert("committer1".to_string(), 5_000_000_000);
    pool.distribution = Some(DistributionState {
        total_to_distribute: 500_000_000_000,
        total_committed_usd: 25_000_000_000,
        started_at: Timestamp::from_seconds(1_600_000_000),
        last_updated: Timestamp::from_seconds(1_600_000_000),
        ..distribution(1, DEFAULT_MAX_GAS_PER_TX, DEFAULT_ESTIMATED_GAS_PER_DISTRIBUTION, None)
    });
    pool
}

#[test]
fn test_distribution_bounty_does_not_touch_pool_funds() {
    let mut pool = pool_with_bounty();
    let reserve0 = pool.pool_state.reserve0;
    let msg = ExecuteMsg::ContinueDistribution {};
    let res = call(&mut pool, &env(), "bounty_hunter", msg).unwrap();
    assert_eq!(pool.fee_state.fee_reserve_0, 10_000_000);
    assert_eq!(pool.pool_state.reserve0, reserve0);
    assert!(res.messages.iter().any(|m| *m
        == CosmosMsg::PayDistributionBounty {
            factory_addr: "factory_contract".to_string(),
            recipient: "bounty_hunter".to_string(),
        }));
}

#[test]
fn test_distribution_bounty_does_not_distort_fee_growth() {
    let mut pool = pool_with_bounty();
    pool.fee_state.fee_growth_global_0 = Decimal::percent(10_000);
    let msg = ExecuteMsg::ContinueDistribution {};
    call(&mut pool, &env(), "bounty_hunter", msg).unwrap();
    assert_eq!(pool.fee_state.fee_growth_global_0, Decimal::percent(10_000));
}

#[test]
fn test_emergency_withdraw_clears_distribution() {
    let mut pool = pool_with_bounty();
    pool.distribution = Some(DistributionState {
        total_to_distribute: 500_000_000_000,
        total_committed_usd: 25_000_000_000,
        started_at: Timestamp::from_seconds(1_600_000_000),
        last_updated: Timestamp::from_seconds(1_600_000_000),
        ..distribution(50, DEFAULT_MAX_GAS_PER_TX, DEFAULT_ESTIMATED_GAS_PER_DISTRIBUTION, None)
    });
    let first = env_at(1_700_000_000);
    call(&mut pool, &first, "factory_contract", ExecuteMsg::EmergencyWithdraw {}).unwrap();
    let second = env_at(1_700_000_000 + 86_401);
    call(&mut pool, &second, "factory_contract", ExecuteMsg::EmergencyWithdraw {}).unwrap();
    let distribution = pool.distribution.unwrap();
    assert!(!distribution.is_distributing);
    assert_eq!(distribution.distributions_remaining, 0);
    assert!(pool.drained);
}

fn pool_with_excess(unlock_time: Timestamp) -> PoolStore {
    let mut pool = trading_pool();
    pool.creator_excess = Some(CreatorExcessLiquidity {
        creator: "creator".to_string(),
        bluechip_amount: 50_000_000_000,
        token_amount: 175_000_000_000,
        unlock_time,
        excess_nft_id: None,
    });
    pool
}

#[test]
fn test_claim_excess_before_unlock_fails() {
    let mut pool = pool_with_excess(env().time.plus_seconds(14 * 86_400));
    let msg = ExecuteMsg::ClaimCreatorExcessLiquidity { transaction_deadline: None };
    match call(&mut pool, &env(), "creator", msg) {
        Err(ContractError::PositionLocked { unlock_time }) => {
            assert_eq!(unlock_time.seconds(), env().time.seconds() + 14 * 86_400);
        }
        _ => panic!("Expected PositionLocked error"),
    }
    assert!(pool.creator_excess.is_some());
}

#[test]
fn test_claim_excess_wrong_user_fails() {
    let unlock = Timestamp::from_seconds(env().time.seconds() - 100);
    let mut pool = pool_with_excess(unlock);
    let msg = ExecuteMsg::ClaimCreatorExcessLiquidity { transaction_deadline: None };
    let err = call(&mut pool, &env(), "hacker", msg);
    assert_eq!(err, Err(ContractError::Unauthorized {}));
    assert!(pool.creator_excess.is_some());
}

#[test]
fn fresh_pools_are_in_order() {
    let msg = CommitPoolInstantiateMsg {
        is_standard_pool: None,
        threshold_payout: Some(Ok(funding_pool().threshold_payout)),
        ..instantiate_msg("ublue", "creator_token", "factory_addr")
    };
    let (pool, response) =
        instantiate(&env(), &from("factory_addr"), msg, Ok(()), Ok(())).unwrap();
    assert!(!pool.threshold_hit);
    assert_eq!(pool.pool_specs.lp_fee, Decimal::permille(3));
    assert_eq!(pool.pool_specs.min_commit_interval, 13);
    assert_eq!(pool.pool_info.pool_info.contract_addr, "cosmos2contract");
    assert_eq!(pool.positions.get("0").unwrap().owner, "cosmos2contract");
    assert!(owns(&pool, "cosmos2contract", "0"));
    assert_eq!(attribute(&response, "pool"), "cosmos2contract");
}

#[test]
fn pools_are_checked_when_set_up() {
    let plain = || CommitPoolInstantiateMsg {
        is_standard_pool: None,
        ..instantiate_msg("ublue", "creator_token", "factory_addr")
    };
    let refuse = |msg: CommitPoolInstantiateMsg, token1: Result<(), StdError>| match instantiate(
        &env(),
        &from("factory_addr"),
        msg,
        Ok(()),
        token1,
    ) {
        Ok(_) => panic!("expected a refusal"),
        Err(e) => e,
    };
    let reason = || StdError::Host { message: "bad address".to_string() };
    assert_eq!(refuse(plain(), Err(reason())), ContractError::Std(reason()));
    let twice = TokenType::Bluechip { denom: "ublue".to_string() };
    let doubled =
        CommitPoolInstantiateMsg { pool_token_info: [twice.clone(), twice], ..plain() };
    assert_eq!(refuse(doubled, Ok(())), ContractError::DoublingAssets {});
    let mut greedy = plain();
    greedy.commit_fee_info.commit_fee_creator = Decimal::percent(100);
    assert_eq!(refuse(greedy, Ok(())), ContractError::InvalidFee {});
    let missing = refuse(plain(), Ok(()));
    assert_eq!(
        missing.text(),
        "Invalid threshold parameters: Your params could not be validated during pool instantiation."
    );
    let malformed =
        CommitPoolInstantiateMsg { threshold_payout: Some(Err(reason())), ..plain() };
    assert_eq!(refuse(malformed, Ok(())), ContractError::Std(reason()));
    let mut payout = funding_pool().threshold_payout;
    payout.creator_reward_amount += 1;
    let wrong = CommitPoolInstantiateMsg { threshold_payout: Some(Ok(payout)), ..plain() };
    assert!(matches!(refuse(wrong, Ok(())), ContractError::InvalidThresholdParams { .. }));
}

#[test]
fn settings_have_limits() {
    let mut pool = funding_pool();
    let none = || PoolConfigUpdate {
        lp_fee: None,
        min_commit_interval: None,
        usd_payment_tolerance_bps: None,
        oracle_address: None,
    };
    let mut refuse = |update: PoolConfigUpdate| {
        let msg = ExecuteMsg::UpdateConfigFromFactory { update };
        call(&mut pool, &env(), "factory_contract", msg).unwrap_err().text()
    };
    assert_eq!(
        refuse(PoolConfigUpdate { lp_fee: Some(Decimal::percent(11)), ..none() }),
        "Generic error: lp_fee must not exceed 10% (0.1)"
    );
    assert_eq!(
        refuse(PoolConfigUpdate { lp_fee: Some(Decimal::zero()), ..none() }),
        "Generic error: lp_fee must be at least 0.1% (0.001)"
    );
    assert_eq!(
        refuse(PoolConfigUpdate { min_commit_interval: Some(86_401), ..none() }),
        "Generic error: min_commit_interval must not exceed 86400 seconds (1 day)"
    );
    assert_eq!(
        refuse(PoolConfigUpdate { usd_payment_tolerance_bps: Some(1_001), ..none() }),
        "Generic error: usd_payment_tolerance_bps must not exceed 1000 (10%)"
    );
    let oracle = Some("?".to_string());
    assert_eq!(refuse(PoolConfigUpdate { oracle_address: oracle, ..none() }), "not asked");
    assert_eq!(pool.pool_specs, funding_pool().pool_specs);
}

/// Once drained, a pool refuses for good.
#[test]
fn drained_pools_refuse() {
    let mut pool = trading_pool();
    pool.creator_fee_pot = CreatorFeePot { amount_0: 5, amount_1: 6 };
    pool.fee_state.fee_reserve_0 = 7;
    let begin = call(&mut pool, &env(), "factory_contract", ExecuteMsg::EmergencyWithdraw {});
    assert_eq!(attribute(&begin.unwrap(), "effective_after"), "1571883819.879305533");
    let too_early = call(
        &mut pool,
        &env_later(86_399),
        "factory_contract",
        ExecuteMsg::EmergencyWithdraw {},
    );
    assert_eq!(
        too_early,
        Err(ContractError::EmergencyTimelockPending {
            effective_after: env().time.plus_seconds(86_400),
        })
    );
    let later = env_later(86_400);
    let done =
        call(&mut pool, &later, "factory_contract", ExecuteMsg::EmergencyWithdraw {}).unwrap();
    assert_eq!(attribute(&done, "amount0"), "23500000007");
    assert_eq!(attribute(&done, "amount1"), "350000000000");
    assert!(pool.drained);
    let msg = ExecuteMsg::ContinueDistribution {};
    let refused = call(&mut pool, &later, "keeper", msg);
    assert_eq!(refused, Err(ContractError::EmergencyDrained {}));
    let deposit = ExecuteMsg::DepositLiquidity {
        amount0: 1,
        amount1: 1,
        min_amount0: None,
        min_amount1: None,
        transaction_deadline: None,
    };
    let refused = execute(&mut pool, &later, &from("provider"), &deposit, silent_host());
    assert!(matches!(refused, Err(ContractError::EmergencyDrained {})));
}

#[test]
fn nothing_pending_cannot_be_cancelled() {
    let mut pool = trading_pool();
    let msg = ExecuteMsg::CancelEmergencyWithdraw {};
    let err = call(&mut pool, &env(), "factory_contract", msg);
    assert_eq!(err, Err(ContractError::NoPendingEmergencyWithdraw {}));
}

/// The creator empties the pot of clipped fees, and nobody else does.
#[test]
fn the_fee_pot_is_the_creators() {
    let mut pool = trading_pool();
    pool.creator_fee_pot = CreatorFeePot { amount_0: 5, amount_1: 6 };
    let claim = || ExecuteMsg::ClaimCreatorFees { transaction_deadline: None };
    let stranger = call(&mut pool, &env(), "hacker", claim());
    assert_eq!(stranger, Err(ContractError::Unauthorized {}));
    let paid = call(&mut pool, &env(), "creator_wallet", claim()).unwrap();
    let coins = CosmosMsg::BankSend {
        to_address: "creator_wallet".to_string(),
        denom: DENOM.to_string(),
        amount: 5,
    };
    let tokens = CosmosMsg::Cw20Transfer {
        contract_addr: "token_contract".to_string(),
        recipient: "creator_wallet".to_string(),
        amount: 6,
    };
    assert_eq!(paid.messages, vec![coins, tokens]);
    assert_eq!(pool.creator_fee_pot, CreatorFeePot::default());
    assert!(call(&mut pool, &env(), "creator_wallet", claim()).is_err());
}

/// What was locked is paid out whole, once.
#[test]
fn unlocked_excess_is_paid_once() {
    let unlock = Timestamp::from_seconds(env().time.seconds() - 100);
    let mut pool = pool_with_excess(unlock);
    let claim = || ExecuteMsg::ClaimCreatorExcessLiquidity { transaction_deadline: None };
    let paid = call(&mut pool, &env(), "creator", claim()).unwrap();
    let coins = CosmosMsg::BankSend {
        to_address: "creator".to_string(),
        denom: DENOM.to_string(),
        amount: 50_000_000_000,
    };
    let tokens = CosmosMsg::Cw20Transfer {
        contract_addr: "token_contract".to_string(),
        recipient: "creator".to_string(),
        amount: 175_000_000_000,
    };
    assert_eq!(paid.messages, vec![coins, tokens]);
    assert_eq!(pool.creator_excess, None);
    let again = call(&mut pool, &env(), "creator", claim()).unwrap_err();
    assert_eq!(
        again.text(),
        "type: bluechip::pool::state::CreatorExcessLiquidity; key: [63, 72, 65, 61, 74, 6F, 72, 5F, 65, 78, 63, 65, 73, 73] not found"
    );
}

/// Every committer is paid once, in order, in proportion to their dollars.
#[test]
fn batches_pay_once() {
    let mut pool = funding_pool();
    for (who, usd) in [("carol", 300u128), ("alice", 100), ("bob", 0)] {
        pool.commit_ledger.insert(who.to_string(), usd);
    }
    pool.distribution = Some(DistributionState {
        total_to_distribute: 1_000,
        total_committed_usd: 400,
        ..distribution(u32::MAX, 100, 50, None)
    });
    let mint = |to: &str, amount: u128| CosmosMsg::Cw20Mint {
        contract_addr: "token_contract".to_string(),
        recipient: to.to_string(),
        amount,
    };
    let bounty = || CosmosMsg::PayDistributionBounty {
        factory_addr: "factory_contract".to_string(),
        recipient: "keeper".to_string(),
    };
    let step = |pool: &mut PoolStore| {
        call(pool, &env(), "keeper", ExecuteMsg::ContinueDistribution {}).unwrap()
    };
    let first = step(&mut pool);
    assert_eq!(first.messages, vec![mint("alice", 250), bounty()]);
    assert_eq!(attribute(&first, "processed_count"), "2");
    let after = pool.distribution.as_ref().unwrap();
    assert_eq!(after.last_processed_key, Some("bob".to_string()));
    assert_eq!(after.last_successful_batch_size, Some(2));
    let second = step(&mut pool);
    assert_eq!(second.messages, vec![mint("carol", 750), bounty()]);
    let third = step(&mut pool);
    assert_eq!(third.messages, vec![]);
    assert_eq!(attribute(&third, "bounty_paid"), "false");
    assert_eq!(attribute(&third, "distribution_complete"), "true");
    assert_eq!(pool.distribution, None);
    let over = call(&mut pool, &env(), "keeper", ExecuteMsg::ContinueDistribution {});
    let missing = Missing {
        type_path: "bluechip::pool::state::DistributionState",
        namespace: "distribution_state",
        key: None,
    };
    assert_eq!(over, Err(ContractError::Std(StdError::NotFound(missing))));
}

/// A ledger that cannot be read is tried again, and given up the fifth time.
#[test]
fn unreadable_ledgers_are_given_up() {
    let mut pool = pool_of_committers(2);
    pool.distribution = Some(distribution(2, 100, 50, None));
    for attempt in 1..=5u32 {
        let answers =
            HostAnswers { ledger_failure: Some("bad key".to_string()), ..silent_host() };
        let msg = ExecuteMsg::ContinueDistribution {};
        let err = run(&mut pool, &env(), &from("keeper"), &msg, answers).unwrap_err();
        let expected = if attempt < 5 {
            StdError::BatchFailed { attempt, reason: "bad key".to_string() }
        } else {
            StdError::BatchAbandoned { failures: 5, reason: "bad key".to_string() }
        };
        assert_eq!(err, ContractError::Std(expected));
    }
    assert!(!pool.distribution.as_ref().unwrap().is_distributing);
    let stopped = call(&mut pool, &env(), "keeper", ExecuteMsg::ContinueDistribution {});
    assert_eq!(stopped, Err(ContractError::NothingToRecover {}));
    let stuck = RecoveryType::StuckDistribution;
    let res = recover(&mut pool, &env(), "factory_address", stuck).unwrap();
    assert_eq!(attribute(&res, "recovered"), "distribution_restarted_2_remaining");
    assert!(pool.distribution.as_ref().unwrap().is_distributing);
}

/// A first notice that failed is pending until a retry succeeds.
#[test]
fn failed_notices_are_retried() {
    let mut pool = trading_pool();
    let retry = || ExecuteMsg::RetryFactoryNotify {};
    let idle = call(&mut pool, &env(), "anyone", retry());
    assert_eq!(idle, Err(ContractError::NothingToRecover {}));
    assert_eq!(reply_factory_notify(&mut pool, 1, false), Ok(()));
    assert!(query_factory_notify_status(&pool).pending);
    let res = call(&mut pool, &env(), "anyone", retry()).unwrap();
    let notice = CosmosMsg::NotifyThresholdCrossed {
        factory_addr: "factory_contract".to_string(),
        pool_id: 1,
    };
    assert_eq!(res.messages, vec![notice]);
    assert_eq!(reply_factory_notify(&mut pool, 2, false), Ok(()));
    assert!(query_factory_notify_status(&pool).pending);
    assert_eq!(reply_factory_notify(&mut pool, 2, true), Ok(()));
    assert!(!query_factory_notify_status(&pool).pending);
    let unknown = ContractError::Std(StdError::UnknownReply { id: 3 });
    assert_eq!(reply_factory_notify(&mut pool, 3, true), Err(unknown));
}

#[test]
fn upgrades_name_their_version() {
    let mut pool = trading_pool();
    let res = migrate(&mut pool, MigrateMsg::UpdateVersion {}, "1.2.3").unwrap();
    assert_eq!(attribute(&res, "version"), "1.2.3");
    assert_eq!(pool.pool_specs, trading_pool().pool_specs);
}
