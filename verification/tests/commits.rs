//! Commits: before the threshold, across it, and after it.

use bluechip::asset::{PoolPairType, TokenInfo, TokenType};
use bluechip::chain::{Coin, CosmosMsg, Env, MessageInfo, Response};
use bluechip::error::StdError;
use bluechip::number::{Decimal, Timestamp};
use bluechip::pool::commit::{
    process_threshold_crossing_with_excess, usd_to_threshold, Quotes,
};
use bluechip::pool::contract::{execute, Dispatch, HostAnswers};
use bluechip::pool::error::ContractError;
use bluechip::pool::generic_helpers::trigger_threshold_payout;
use bluechip::pool::msg::ExecuteMsg;
use bluechip::pool::range::execute_in_range;
use bluechip::pool::state::{
    CommitFeeInfo, CommitLimitInfo, CreatorFeePot, ExpectedFactory, OracleInfo, PoolAnalytics,
    PoolDetails, PoolFeeState, PoolInfo, PoolSpecs, PoolState, PoolStore, ThresholdPayoutAmounts,
};
use bluechip::table::Table;

const DENOM: &str = "stake";

fn env() -> Env {
    Env {
        height: 12_345,
        time: Timestamp { nanos: 1_571_797_419_879_305_533 },
        contract: "cosmos2contract".to_string(),
    }
}

fn env_at(seconds: u64) -> Env {
    Env { time: Timestamp::from_seconds(seconds), ..env() }
}

fn env_later(seconds: u64) -> Env {
    Env { time: env().time.plus_seconds(seconds), ..env() }
}

fn from(sender: &str) -> MessageInfo {
    MessageInfo { sender: sender.to_string(), funds: vec![] }
}

fn paying(sender: &str, denom: &str, amount: u128) -> MessageInfo {
    MessageInfo {
        sender: sender.to_string(),
        funds: vec![Coin { denom: denom.to_string(), amount }],
    }
}

fn bluechip(denom: &str, amount: u128) -> TokenInfo {
    TokenInfo { info: TokenType::Bluechip { denom: denom.to_string() }, amount }
}

fn state(reserve0: u128, reserve1: u128, total_liquidity: u128, block_time_last: u64) -> PoolState {
    PoolState {
        pool_contract_address: "pool_contract".to_string(),
        nft_ownership_accepted: true,
        reserve0,
        reserve1,
        total_liquidity,
        block_time_last,
        price0_cumulative_last: 0,
        price1_cumulative_last: 0,
    }
}

/// A pool that collects commits.
fn funding_pool() -> PoolStore {
    PoolStore {
        usd_raised: 0,
        native_raised: 0,
        threshold_hit: false,
        threshold_processing: false,
        last_threshold_attempt: None,
        reentrancy_lock: false,
        paused: false,
        drained: false,
        pending_factory_notify: false,
        pending_emergency_withdraw: None,
        emergency_withdrawal: None,
        expected_factory: ExpectedFactory {
            expected_factory_address: "factory_address".to_string(),
        },
        pool_info: PoolInfo {
            pool_id: 1,
            pool_info: PoolDetails {
                asset_infos: [
                    TokenType::Bluechip { denom: DENOM.to_string() },
                    TokenType::CreatorToken { contract_addr: "token_contract".to_string() },
                ],
                contract_addr: "pool_contract".to_string(),
                pool_type: PoolPairType::Xyk {},
            },
            factory_addr: "factory_contract".to_string(),
            token_address: "token_contract".to_string(),
            position_nft_address: "nft_contract".to_string(),
        },
        pool_state: state(0, 0, 0, 0),
        pool_specs: PoolSpecs {
            lp_fee: Decimal::permille(3),
            min_commit_interval: 60,
            usd_payment_tolerance_bps: 100,
        },
        fee_state: PoolFeeState {
            fee_growth_global_0: Decimal::zero(),
            fee_growth_global_1: Decimal::zero(),
            total_fees_collected_0: 0,
            total_fees_collected_1: 0,
            fee_reserve_0: 0,
            fee_reserve_1: 0,
        },
        fee_info: CommitFeeInfo {
            bluechip_wallet_address: "bluechip_treasury".to_string(),
            creator_wallet_address: "creator_wallet".to_string(),
            commit_fee_bluechip: Decimal::percent(1),
            commit_fee_creator: Decimal::percent(5),
        },
        commit_limits: CommitLimitInfo {
            commit_amount_for_threshold: 100_000_000,
            commit_amount_for_threshold_usd: 25_000_000_000,
            max_bluechip_lock_per_pool: 10_000_000_000,
            creator_excess_liquidity_lock_days: 7,
        },
        threshold_payout: ThresholdPayoutAmounts {
            creator_reward_amount: 325_000_000_000,
            bluechip_reward_amount: 25_000_000_000,
            pool_seed_amount: 350_000_000_000,
            commit_return_amount: 500_000_000_000,
        },
        oracle_info: OracleInfo { oracle_addr: "oracle_contract".to_string() },
        analytics: PoolAnalytics::default(),
        creator_excess: None,
        creator_fee_pot: CreatorFeePot::default(),
        distribution: None,
        next_position_id: 1,
        commit_info: Table::new(),
        commit_ledger: Table::new(),
        user_last_commit: Table::new(),
        positions: Table::new(),
        owner_positions: Table::new(),
    }
}

/// A pool that is past its threshold and seeded.
fn trading_pool() -> PoolStore {
    let mut pool = funding_pool();
    pool.threshold_hit = true;
    pool.usd_raised = 25_000_000_000;
    pool.pool_state = state(23_500_000_000, 350_000_000_000, 91_104_335_791, 1_600_000_000);
    pool
}

fn oracle_failure(what: &str) -> StdError {
    StdError::Host { message: format!("Querier system error: {}", what) }
}

/// What an oracle answers that values a bluechip at `rate` millionths of a dollar.
fn quotes(pool: &PoolStore, amount: u128, rate: u128) -> Quotes {
    let overflow = "Overflow in mock oracle calculation";
    let division = "Division error in mock oracle calculation";
    Quotes {
        usd_value: match amount.checked_mul(rate) {
            Some(product) => Ok(product / 1_000_000),
            None => Err(oracle_failure(overflow)),
        },
        to_threshold: match usd_to_threshold(pool).checked_mul(1_000_000) {
            Some(product) => product.checked_div(rate).ok_or(oracle_failure(division)),
            None => Err(oracle_failure(overflow)),
        },
    }
}

fn unasked<T>() -> Result<T, StdError> {
    Err(StdError::Host { message: "not asked".to_string() })
}

fn host(quotes: Quotes) -> HostAnswers {
    HostAnswers {
        quotes,
        to: Ok(None),
        cw20_sender: unasked(),
        hook: unasked(),
        oracle_address: unasked(),
        ledger_failure: None,
    }
}

fn silent_host() -> HostAnswers {
    host(Quotes { usd_value: unasked(), to_threshold: unasked() })
}

fn run(
    pool: &mut PoolStore,
    env: &Env,
    info: &MessageInfo,
    msg: &ExecuteMsg,
    host: HostAnswers,
) -> Result<Response, ContractError> {
    assert!(execute_in_range(pool, env, info, msg, &host));
    match execute(pool, env, info, msg, host) {
        Ok(Dispatch::Done(response)) => Ok(response),
        Ok(Dispatch::Liquidity) => panic!("not a call on liquidity"),
        Err(e) => Err(e),
    }
}

fn attribute<'a>(response: &'a Response, key: &str) -> &'a str {
    let found = response.attributes.iter().find(|a| a.key == key);
    &found.expect("attribute").value
}

/// A pool that may keep only a little of what it raises.
fn capped_pool() -> PoolStore {
    let mut pool = funding_pool();
    pool.commit_limits = CommitLimitInfo {
        commit_amount_for_threshold: 25_000_000_000,
        commit_amount_for_threshold_usd: 25_000_000_000,
        max_bluechip_lock_per_pool: 100_000,
        creator_excess_liquidity_lock_days: 14,
    };
    pool.fee_info = CommitFeeInfo {
        bluechip_wallet_address: "ubluechip".to_string(),
        creator_wallet_address: "creator".to_string(),
        commit_fee_bluechip: Decimal::percent(1),
        commit_fee_creator: Decimal::percent(5),
    };
    pool
}

fn commit_msg(amount: u128, max_spread: Option<Decimal>) -> ExecuteMsg {
    ExecuteMsg::Commit {
        asset: bluechip(DENOM, amount),
        transaction_deadline: None,
        belief_price: None,
        max_spread,
    }
}

/// Commits `amount` bluechips, at `rate` millionths of a dollar each.
fn commit(
    pool: &mut PoolStore,
    env: &Env,
    who: &str,
    amount: u128,
    rate: u128,
    max_spread: Option<Decimal>,
) -> Result<Response, ContractError> {
    let answers = host(quotes(pool, amount, rate));
    let info = paying(who, DENOM, amount);
    run(pool, env, &info, &commit_msg(amount, max_spread), answers)
}

fn pre_threshold_basic() {
    let mut pool = funding_pool();
    let res = commit(&mut pool, &env(), "user1", 1_000_000_000, 1_000_000, None).unwrap();
    assert_eq!(res.messages.len(), 2);
    assert_eq!(pool.commit_ledger.get("user1"), Some(&1_000_000_000));
    assert_eq!(pool.usd_raised, 1_000_000_000);
    assert_eq!(pool.threshold_hit, false);
    let committing = pool.commit_info.get("user1").unwrap();
    assert_eq!(committing.total_paid_bluechip, 1_000_000_000);
    assert_eq!(committing.total_paid_usd, 1_000_000_000);
}

#[test]
fn swap_tests_test_commit_pre_threshold_basic() {
    pre_threshold_basic();
}

#[test]
fn tests_test_commit_pre_threshold_basic() {
    pre_threshold_basic();
}

fn crossing_is_not_repeated() {
    let mut pool = funding_pool();
    pool.usd_raised = 24_900_000_000;
    let res1 = commit(&mut pool, &env(), "alice", 200_000_000, 1_000_000, None).unwrap();
    assert!(res1.attributes.iter().any(|a| a.value == "threshold_crossing"));
    assert_eq!(pool.threshold_hit, true);
    pool.threshold_processing = true;
    let spread = Some(Decimal::percent(99));
    let res2 = commit(&mut pool, &env(), "bob", 200_000_000, 1_000_000, spread).unwrap();
    assert!(res2.attributes.iter().all(|a| a.value != "threshold_crossing"));
}

#[test]
fn swap_tests_test_race_condition_commits_crossing_threshold() {
    crossing_is_not_repeated();
}

#[test]
fn tests_test_race_condition_commits_crossing_threshold() {
    crossing_is_not_repeated();
}

#[test]
fn swap_tests_test_commit_post_threshold_swap() {
    let mut pool = trading_pool();
    let res = commit(&mut pool, &env(), "commiter", 100_000_000, 1_000_000, None).unwrap();
    assert!(res.messages.len() >= 3);
    assert!(pool.pool_state.reserve0 > 23_500_000_000);
    assert!(pool.pool_state.reserve1 < 350_000_000_000);
    assert!(pool.fee_state.fee_growth_global_1 > Decimal::zero());
    assert!(pool.fee_state.total_fees_collected_1 > 0);
}

fn payout_integrity() {
    let mut pool = funding_pool();
    pool.threshold_payout.creator_reward_amount = 999_999_999_999;
    let result = trigger_threshold_payout(
        false,
        pool.native_raised,
        &pool.pool_info,
        &pool.pool_state,
        &pool.fee_state,
        &pool.commit_limits,
        &pool.threshold_payout,
        &pool.fee_info,
        &env(),
    );
    match result {
        Ok(_) => panic!("expected integrity check failure"),
        Err(e) => assert!(e.text().contains("corruption")),
    }
}

#[test]
fn swap_tests_test_threshold_payout_integrity_check() {
    payout_integrity();
}

#[test]
fn tests_test_threshold_payout_integrity_check() {
    payout_integrity();
}

fn reentrancy_protection() {
    let mut pool = funding_pool();
    pool.reentrancy_lock = true;
    let info = paying("user", DENOM, 1_000_000);
    let err = run(&mut pool, &env(), &info, &commit_msg(1_000_000, None), silent_host());
    assert_eq!(err, Err(ContractError::ReentrancyGuard {}));
}

#[test]
fn swap_tests_test_commit_reentrancy_protection() {
    reentrancy_protection();
}

#[test]
fn tests_test_commit_reentrancy_protection() {
    reentrancy_protection();
}

fn rate_limiting() {
    let mut pool = funding_pool();
    commit(&mut pool, &env(), "user", 1_000_000, 1_000_000, None).unwrap();
    let err = commit(&mut pool, &env_later(30), "user", 1_000_000, 1_000_000, None);
    assert_eq!(err, Err(ContractError::TooFrequentCommits { wait_time: 30 }));
}

#[test]
fn swap_tests_test_commit_rate_limiting() {
    rate_limiting();
}

#[test]
fn tests_test_commit_rate_limiting() {
    rate_limiting();
}

fn deadline() {
    let mut pool = funding_pool();
    let msg = ExecuteMsg::Commit {
        asset: bluechip(DENOM, 1_000_000),
        transaction_deadline: Some(Timestamp::from_seconds(999_999)),
        belief_price: None,
        max_spread: None,
    };
    let info = paying("user", DENOM, 1_000_000);
    let err = run(&mut pool, &env_at(1_000_000), &info, &msg, silent_host());
    assert_eq!(err, Err(ContractError::TransactionExpired {}));
}

#[test]
fn swap_tests_test_commit_with_deadline() {
    deadline();
}

#[test]
fn tests_test_commit_with_deadline() {
    deadline();
}

#[test]
fn test_commit_with_changing_oracle_prices() {
    let mut pool = funding_pool();
    commit(&mut pool, &env(), "user1", 5_000_000, 1_000_000, None).unwrap();
    assert_eq!(pool.usd_raised, 5_000_000);
    commit(&mut pool, &env(), "user2", 5_000_000, 2_000_000, None).unwrap();
    assert_eq!(pool.usd_raised, 15_000_000);
    assert_eq!(pool.commit_info.get("user2").unwrap().total_paid_usd, 10_000_000);
}

#[test]
fn test_threshold_crossing_depends_on_oracle_price() {
    let mut dear = funding_pool();
    dear.usd_raised = 24_000_000_000;
    commit(&mut dear, &env(), "whale", 100_000_000, 10_000_000, None).unwrap();
    assert_eq!(dear.threshold_hit, true);

    let mut cheap = funding_pool();
    cheap.usd_raised = 24_000_000_000;
    commit(&mut cheap, &env(), "whale", 100_000_000, 100_000, None).unwrap();
    assert_eq!(cheap.threshold_hit, false);
    assert_eq!(cheap.usd_raised, 24_010_000_000);
}

#[test]
fn test_oracle_conversion_precision_various_prices() {
    let cases: Vec<(u128, u128, u128, &str)> = vec![
        (1_000_000, 1_000_000, 1_000_000, "$1 per token, 1 token"),
        (500_000, 2_000_000, 1_000_000, "$0.50 per token, 2 tokens"),
        (10_000_000, 100_000, 1_000_000, "$10 per token, 0.1 tokens"),
        (100_000, 10_000_000, 1_000_000, "$0.10 per token, 10 tokens"),
        (3_333_333, 3_000_000, 9_999_999, "$3.33 per token, 3 tokens"),
    ];
    for (rate, amount, expected, description) in cases {
        let mut pool = funding_pool();
        commit(&mut pool, &env(), "user", amount, rate, None).unwrap();
        assert!(
            pool.usd_raised >= expected - 10 && pool.usd_raised <= expected + 10,
            "{}: expected ~{}, got {}",
            description,
            expected,
            pool.usd_raised
        );
    }
}

#[test]
fn test_extreme_oracle_prices() {
    let mut low = funding_pool();
    assert!(commit(&mut low, &env(), "user", 1_000_000_000, 1_000, None).is_ok());
    assert_eq!(low.usd_raised, 1_000_000);
    let mut high = funding_pool();
    assert!(commit(&mut high, &env(), "user", 1_000_000, 1_000_000_000, None).is_ok());
    assert_eq!(high.usd_raised, 1_000_000_000);
}

#[test]
fn test_usd_tracking_consistency_across_commits() {
    let mut pool = funding_pool();
    let commits: Vec<(&str, u128)> =
        vec![("user1", 4_000_000), ("user2", 8_000_000), ("user3", 2_000_000)];
    let mut expected_total: u128 = 0;
    for (user, amount) in commits {
        commit(&mut pool, &env(), user, amount, 2_500_000, None).unwrap();
        let usd = amount * 2_500_000 / 1_000_000;
        expected_total += usd;
        assert_eq!(pool.usd_raised, expected_total);
        assert_eq!(pool.commit_info.get(user).unwrap().total_paid_usd, usd);
    }
    assert_eq!(expected_total, 35_000_000);
}

#[test]
fn test_commit_with_zero_oracle_price() {
    let mut pool = funding_pool();
    let result = commit(&mut pool, &env(), "user", 1_000_000, 0, None);
    assert_eq!(result, Err(ContractError::InvalidOraclePrice {}));
}

#[test]
fn test_usd_calculation_overflow() {
    let mut pool = funding_pool();
    let result = commit(&mut pool, &env(), "whale", u128::MAX / 1000, 1_000_000_000_000, None);
    let text = result.unwrap_err().text();
    assert!(
        text.contains("Overflow")
            || text.contains("overflow")
            || text.contains("Querier system error"),
        "Error should mention overflow, got: {}",
        text
    );
}

#[test]
fn test_race_condition_not_manually_set() {
    let mut pool = funding_pool();
    pool.usd_raised = 24_900_000_000;
    let alice = commit(&mut pool, &env(), "alice", 200_000_000, 1_000_000, None).unwrap();
    assert_eq!(pool.threshold_hit, true);
    assert!(alice.attributes.iter().any(|a| a.value == "threshold_crossing"));
    assert_eq!(pool.threshold_processing, false);
    let before = pool.pool_state.clone();
    let spread = Some(Decimal::percent(99));
    let bob = commit(&mut pool, &env(), "bob", 200_000_000, 1_000_000, spread).unwrap();
    assert!(bob.attributes.iter().all(|a| a.value != "threshold_crossing"));
    assert_eq!(attribute(&bob, "action"), "commit");
    assert!(pool.pool_state.reserve0 > before.reserve0);
}

#[test]
fn test_no_excess_when_under_cap() {
    let mut pool = capped_pool();
    pool.commit_limits.max_bluechip_lock_per_pool = 10_000_000_000_000;
    pool.usd_raised = 24_900_000_000;
    pool.commit_ledger.insert("user1".to_string(), 24_900_000_000);
    let info = paying("final_committer", DENOM, 100_000_000);
    let answers = host(Quotes { usd_value: Ok(1_000_000), to_threshold: Ok(1_000_000) });
    run(&mut pool, &env(), &info, &commit_msg(100_000_000, None), answers).unwrap();
    assert!(pool.creator_excess.is_none());
    assert!(pool.pool_state.reserve0 < 10_000_000_000_000);
}

fn exact_threshold() {
    let mut pool = funding_pool();
    pool.usd_raised = 24_999_000_000;
    pool.commit_ledger.insert("previous_user".to_string(), 24_999_000_000);
    let res = commit(&mut pool, &env(), "user", 1_000_000, 1_000_000, None).unwrap();
    assert_eq!(pool.last_threshold_attempt, Some(env().time));
    assert_eq!(pool.threshold_processing, false);
    assert_eq!(attribute(&res, "phase"), "threshold_hit_exact");
    assert_eq!(pool.threshold_hit, true);
    assert_eq!(pool.usd_raised, 25_000_000_000);
}

#[test]
fn threshold_tests_test_commit_exact_threshold() {
    exact_threshold();
}

#[test]
fn tests_test_commit_exact_threshold() {
    exact_threshold();
}

/// A commit of five dollars where one is missing.
fn overshoot() -> (PoolStore, Response) {
    let mut pool = funding_pool();
    pool.usd_raised = 24_999_000_000;
    let res = commit(&mut pool, &env(), "whale", 5_000_000, 1_000_000, None).unwrap();
    (pool, res)
}

#[test]
fn threshold_tests_test_commit_threshold_overshoot_split() {
    let (pool, res) = overshoot();
    assert_eq!(pool.last_threshold_attempt, Some(env().time));
    assert_eq!(pool.threshold_processing, false);
    assert_eq!(pool.threshold_hit, true);
    assert_eq!(pool.usd_raised, 25_000_000_000);
    assert!(pool.commit_ledger.get("whale").is_some());
    assert!(pool.distribution.is_some());
    assert_eq!(attribute(&res, "phase"), "threshold_crossing");
    assert_eq!(attribute(&res, "threshold_amount_usd"), "1000000");
    assert_eq!(attribute(&res, "swap_amount_usd"), "4000000");
    let record = pool.commit_info.get("whale").unwrap();
    assert_eq!(record.total_paid_bluechip, 5_000_000);
    assert_eq!(record.total_paid_usd, 5_000_000);
}

/// What an overshooting commit swaps, returns and gives back.
#[test]
fn overshoot_is_split_exactly() {
    let (pool, res) = overshoot();
    assert_eq!(attribute(&res, "swap_amount_bluechip_pre_cap"), "3760000");
    assert_eq!(attribute(&res, "swap_amount_bluechip"), "188000");
    assert_eq!(attribute(&res, "bluechip_excess_refunded"), "3572000");
    assert_eq!(attribute(&res, "bluechip_excess_returned"), "58158333334");
    assert_eq!(pool.pool_state.reserve0, 1_128_000);
    assert_eq!(pool.commit_ledger.get("whale"), Some(&1_000_000));
    assert!(res.messages.contains(&bank_send("whale", 3_572_000)));
    assert!(res.messages.contains(&tokens("whale", 58_158_333_334)));
}

/// The crossing commit opens the pool and sends fees, the payout and the swap's return; the
/// ledger is kept for the batches that follow.
#[test]
fn crossing_opens_the_pool() {
    let mut pool = funding_pool();
    pool.usd_raised = 24_900_000_000;
    let res = commit(&mut pool, &env(), "whale", 200_000_000, 1_000_000, None).unwrap();
    assert_eq!(pool.threshold_hit, true);
    assert_eq!(pool.threshold_processing, false);
    assert_eq!(attribute(&res, "phase"), "threshold_crossing");
    assert!(res.messages.len() >= 6);
    assert_eq!(pool.commit_ledger.entries.len(), 1);
}

/// Who commits after the crossing swaps, and is owed nothing by the batches.
#[test]
fn later_commits_leave_the_ledger_alone() {
    let mut pool = funding_pool();
    pool.usd_raised = 24_900_000_000;
    pool.commit_ledger.insert("previous1".to_string(), 10_000_000_000);
    pool.commit_ledger.insert("previous2".to_string(), 14_900_000_000);
    commit(&mut pool, &env(), "alice", 200_000_000, 1_000_000, None).unwrap();
    let before = pool.pool_state.clone();
    let wide = Some(Decimal::percent(50));
    let bob = commit(&mut pool, &env(), "bob", 100_000_000, 1_000_000, wide).unwrap();
    assert_eq!(attribute(&bob, "action"), "commit");
    assert_eq!(pool.commit_ledger.get("bob"), None);
    assert!(pool.pool_state.reserve0 > before.reserve0);
    assert_eq!(pool.commit_ledger.entries.len(), 3);
}

/// A pool that raises more than it may keep locks the rest for its creator.
#[test]
fn large_crossings_lock_an_excess() {
    let mut pool = capped_pool();
    pool.usd_raised = 24_900_000_000;
    pool.commit_ledger.insert("user1".to_string(), 24_900_000_000);
    let amount = 100_000_000_000_000;
    let info = paying("final_committer", DENOM, amount);
    let answers = host(Quotes { usd_value: Ok(1_000_000_000), to_threshold: Ok(1_000_000_000) });
    run(&mut pool, &env(), &info, &commit_msg(amount, None), answers).unwrap();
    let excess = pool.creator_excess.expect("an excess");
    assert!(excess.bluechip_amount > 0);
    assert_eq!(excess.creator, pool.fee_info.creator_wallet_address);
    assert_eq!(excess.unlock_time, env().time.plus_seconds(14 * 86_400));
}

/// Commits below a dollar are refused, one by one, and leave nothing behind.
#[test]
fn dust_is_refused() {
    let mut pool = funding_pool();
    for i in 0..10 {
        let who = format!("user{}", i);
        let err = commit(&mut pool, &env(), &who, 1_000, 333_333, None);
        let small = StdError::CommitTooSmall { usd_value: 333 };
        assert_eq!(err, Err(ContractError::Std(small)));
    }
    assert_eq!(pool.usd_raised, 0);
}

/// A crossing of nothing has no part up to the threshold.
#[test]
fn crossings_of_nothing_are_all_excess() {
    let mut pool = funding_pool();
    pool.usd_raised = 25_000_000_000;
    pool.native_raised = 100_000_000;
    let sender = "whale".to_string();
    let res = process_threshold_crossing_with_excess(
        &mut pool,
        &env(),
        &sender,
        0,
        1_000,
        5,
        0,
        Ok(0),
        vec![],
        None,
        None,
    );
    assert_eq!(attribute(&res.unwrap(), "swap_amount_bluechip"), "1000");
}

#[test]
fn test_concurrent_threshold_crossing_attempts() {
    let mut pool = funding_pool();
    pool.usd_raised = 24_999_000_000;
    pool.threshold_processing = true;
    pool.last_threshold_attempt = Some(env().time);
    let res = commit(&mut pool, &env(), "user2", 2_000_000, 1_000_000, None);
    assert!(res.is_ok());
    assert!(attribute(&res.unwrap(), "phase") != "threshold_crossing");
}

#[test]
fn test_accumulated_bluechips_respected() {
    let mut pool = capped_pool();
    pool.usd_raised = 24_000_000_000;
    pool.native_raised = 48_000_000_000;
    let info = paying("final_committer", DENOM, 2_000_000_000);
    let answers = host(Quotes { usd_value: Ok(2_000_000_000), to_threshold: Ok(2_000_000_000) });
    run(&mut pool, &env(), &info, &commit_msg(2_000_000_000, None), answers).unwrap();
    assert_eq!(pool.pool_state.reserve0, 100_000);
    let excess = pool.creator_excess.unwrap();
    assert!(excess.bluechip_amount > 0);
    assert!(pool.pool_state.reserve0 + excess.bluechip_amount > 40_000_000_000);
}

#[test]
fn test_concurrent_threshold_crossing_race_condition() {
    let mut pool = funding_pool();
    pool.usd_raised = 24_999_000_000;
    let res1 = commit(&mut pool, &env(), "user1", 2_000_000, 1_000_000, None).unwrap();
    assert_eq!(attribute(&res1, "phase"), "threshold_crossing");
    assert_eq!(pool.threshold_hit, true);
    match commit(&mut pool, &env(), "user2", 2_000_000, 1_000_000, None) {
        Ok(res) => assert!(attribute(&res, "phase") != "threshold_crossing"),
        Err(e) => println!("user2 failed with: {:?}", e),
    }
}

fn bank_send(to: &str, amount: u128) -> CosmosMsg {
    CosmosMsg::BankSend { to_address: to.to_string(), denom: DENOM.to_string(), amount }
}

fn mint(to: &str, amount: u128) -> CosmosMsg {
    CosmosMsg::Cw20Mint {
        contract_addr: "token_contract".to_string(),
        recipient: to.to_string(),
        amount,
    }
}

fn tokens(to: &str, amount: u128) -> CosmosMsg {
    CosmosMsg::Cw20Transfer {
        contract_addr: "token_contract".to_string(),
        recipient: to.to_string(),
        amount,
    }
}

fn payout() -> Vec<CosmosMsg> {
    vec![
        CosmosMsg::NotifyThresholdCrossed {
            factory_addr: "factory_contract".to_string(),
            pool_id: 1,
        },
        mint("creator_wallet", 325_000_000_000),
        mint("bluechip_treasury", 25_000_000_000),
        mint("cosmos2contract", 350_000_000_000),
    ]
}

/// Fees go out at once, and the rest stays with the pool.
#[test]
fn funding_is_split_without_loss() {
    let mut pool = funding_pool();
    let res = commit(&mut pool, &env(), "user", 1_000_033, 1_000_000, None).unwrap();
    let sent = vec![bank_send("bluechip_treasury", 10_000), bank_send("creator_wallet", 50_001)];
    assert_eq!(res.messages, sent);
    assert_eq!(attribute(&res, "phase"), "funding");
    assert_eq!(attribute(&res, "commit_amount_bluechip"), "1000033");
    assert_eq!(attribute(&res, "total_usd_raised_after"), "1000033");
    assert_eq!(attribute(&res, "block_time"), "1571797419");
    assert_eq!(pool.native_raised, 1_000_033);
    assert_eq!(pool.analytics.total_commit_count, 1);
    assert_eq!(pool.user_last_commit.get("user"), Some(&1_571_797_419));
    assert!(!pool.reentrancy_lock);
}

/// What is beyond the threshold is swapped up to a fifth of the reserve, and the rest of
/// it goes back.
#[test]
fn excess_is_swapped_or_refunded() {
    let mut pool = funding_pool();
    pool.usd_raised = 24_900_000_000;
    let res = commit(&mut pool, &env(), "alice", 200_000_000, 1_000_000, None).unwrap();
    let mut expected =
        vec![bank_send("bluechip_treasury", 2_000_000), bank_send("creator_wallet", 10_000_000)];
    expected.extend(payout());
    expected.push(tokens("alice", 58_158_333_334));
    expected.push(bank_send("alice", 75_200_000));
    assert_eq!(res.messages, expected);
    assert_eq!(attribute(&res, "threshold_amount_bluechip"), "100000000");
    assert_eq!(attribute(&res, "swap_amount_bluechip"), "18800000");
    assert_eq!(attribute(&res, "swap_amount_bluechip_pre_cap"), "94000000");
    assert_eq!(attribute(&res, "bluechip_excess_refunded"), "75200000");
    assert_eq!(pool.pool_state.reserve0, 94_000_000 + 18_800_000);
    assert_eq!(pool.pool_state.reserve1, 350_000_000_000 - 58_158_333_334 - 174_999_999);
    assert_eq!(pool.pool_state.total_liquidity, 5_735_852_159);
    assert_eq!(pool.fee_state.fee_reserve_1, 174_999_999);
    assert_eq!(pool.usd_raised, 25_000_000_000);
    assert_eq!(pool.native_raised, 100_000_000);
    assert_eq!(pool.commit_ledger.get("alice"), Some(&100_000_000));
    let record = pool.commit_info.get("alice").unwrap();
    assert_eq!(record.total_paid_usd, 200_000_000);
    assert_eq!(record.total_paid_bluechip, 200_000_000);
    assert_eq!(record.last_payment_bluechip, 100_000_000);
    let distribution = pool.distribution.unwrap();
    assert!(distribution.is_distributing);
    assert_eq!(distribution.total_to_distribute, 500_000_000_000);
    assert_eq!(distribution.total_committed_usd, 25_000_000_000);
    assert_eq!(pool.analytics.total_swap_count, 1);
}

/// What may not seed the pool is locked for the creator, in the proportion of the seed.
#[test]
fn surplus_is_locked_for_the_creator() {
    let mut pool = capped_pool();
    pool.usd_raised = 24_999_000_000;
    pool.native_raised = 49_999_000_000;
    commit(&mut pool, &env(), "user", 1_000_000, 1_000_000, None).unwrap();
    let seed: u128 = 50_000_000_000 / 100 * 94;
    assert_eq!(pool.pool_state.reserve0, 100_000);
    let excess = pool.creator_excess.unwrap();
    assert_eq!(excess.creator, "creator");
    assert_eq!(excess.bluechip_amount, seed - 100_000);
    assert_eq!(excess.token_amount, 350_000_000_000 * (seed - 100_000) / seed);
    assert_eq!(pool.pool_state.reserve1 + excess.token_amount, 350_000_000_000);
    assert_eq!(excess.unlock_time, env().time.plus_seconds(14 * 86_400));
}

#[test]
fn commits_after_the_threshold_are_swaps() {
    let mut pool = trading_pool();
    let res = commit(&mut pool, &env(), "user", 100_000_000, 1_000_000, None).unwrap();
    let sent = vec![
        bank_send("bluechip_treasury", 1_000_000),
        bank_send("creator_wallet", 5_000_000),
        tokens("user", 1_390_239_044),
    ];
    assert_eq!(res.messages, sent);
    assert_eq!(attribute(&res, "phase"), "active");
    assert_eq!(attribute(&res, "tokens_received"), "1390239044");
    assert_eq!(attribute(&res, "effective_price"), "14.789777063829787234");
    assert_eq!(pool.pool_state.reserve0, 23_594_000_000);
    assert_eq!(pool.pool_state.reserve1, 350_000_000_000 - 1_390_239_044 - 4_183_266);
    assert_eq!(pool.fee_state.total_fees_collected_1, 4_183_266);
    assert_eq!(pool.commit_ledger.get("user"), None);
    assert_eq!(pool.usd_raised, 25_000_000_000);
}

fn refused(pool: &mut PoolStore, info: MessageInfo, asset: TokenInfo) -> ContractError {
    let before = (pool.usd_raised, pool.native_raised);
    let answers = host(quotes(pool, asset.amount, 1_000_000));
    let msg = ExecuteMsg::Commit {
        asset,
        transaction_deadline: None,
        belief_price: None,
        max_spread: None,
    };
    let err = run(pool, &env(), &info, &msg, answers).unwrap_err();
    assert_eq!((pool.usd_raised, pool.native_raised), before);
    err
}

#[test]
fn commits_are_checked() {
    let whole = 1_000_000;
    let token = |amount: u128| TokenInfo {
        info: TokenType::CreatorToken { contract_addr: "token_contract".to_string() },
        amount,
    };
    let mut pool = funding_pool();
    let mismatch = ContractError::AssetMismatch {};
    assert_eq!(refused(&mut pool, paying("a", "uatom", whole), bluechip("uatom", whole)), mismatch);
    assert_eq!(refused(&mut pool, from("b"), token(whole)), mismatch);
    let zero = ContractError::ZeroAmount {};
    assert_eq!(refused(&mut pool, from("c"), bluechip(DENOM, 0)), zero);
    let small = refused(&mut pool, paying("d", DENOM, 5), bluechip(DENOM, 999_999));
    assert_eq!(small, ContractError::Std(StdError::CommitTooSmall { usd_value: 999_999 }));
    let short = refused(&mut pool, paying("e", DENOM, whole - 1), bluechip(DENOM, whole));
    assert_eq!(short, ContractError::MismatchAmount {});
    pool.fee_info.commit_fee_creator = Decimal::percent(99);
    let eaten = refused(&mut pool, paying("f", DENOM, whole), bluechip(DENOM, whole));
    assert_eq!(eaten, ContractError::InvalidFee {});
    pool.paused = true;
    let paused = refused(&mut pool, paying("g", DENOM, whole), bluechip(DENOM, whole));
    assert_eq!(paused, ContractError::PoolPausedLowLiquidity {});
    pool.paused = false;
    pool.drained = true;
    let drained = refused(&mut pool, paying("h", DENOM, whole), bluechip(DENOM, whole));
    assert_eq!(drained, ContractError::EmergencyDrained {});
}

/// Only the commit that crosses the threshold mints, and it mints all but the committers'
/// tokens.
#[test]
fn the_threshold_is_crossed_once() {
    let minted = |res: &Response| -> u128 {
        let amounts = res.messages.iter().map(|m| match m {
            CosmosMsg::Cw20Mint { amount, .. } => *amount,
            _ => 0,
        });
        amounts.sum()
    };
    let mut pool = funding_pool();
    pool.usd_raised = 24_990_000_000;
    let first = commit(&mut pool, &env(), "a", 5_000_000, 1_000_000, None).unwrap();
    assert_eq!(minted(&first), 0);
    let second = commit(&mut pool, &env(), "b", 5_000_000, 1_000_000, None).unwrap();
    assert_eq!(minted(&second) + 500_000_000_000, 1_200_000_000_000);
    let wide = Some(Decimal::percent(90));
    let third = commit(&mut pool, &env(), "c", 5_000_000, 1_000_000, wide).unwrap();
    assert_eq!(minted(&third), 0);
    assert_eq!(pool.commit_ledger.get("c"), None);
    assert_eq!(pool.usd_raised, 25_000_000_000);
}

/// A sender who was refused has been here all the same.
#[test]
fn refused_commits_are_noted() {
    let mut pool = funding_pool();
    commit(&mut pool, &env(), "user", 1_000_000, 0, None).unwrap_err();
    let again = commit(&mut pool, &env_later(59), "user", 1_000_000, 1_000_000, None);
    assert_eq!(again, Err(ContractError::TooFrequentCommits { wait_time: 1 }));
    assert!(commit(&mut pool, &env_later(60), "user", 1_000_000, 1_000_000, None).is_ok());
    assert!(!pool.reentrancy_lock);
}

/// The ledger holds exactly the dollars that were raised.
#[test]
fn ledger_adds_up() {
    let mut pool = funding_pool();
    for (i, who) in ["a", "b", "a", "c"].iter().enumerate() {
        let at = env_later(100 * i as u64);
        commit(&mut pool, &at, who, 3_000_001 + i as u128, 1_500_000, None).unwrap();
    }
    let total: u128 = pool.commit_ledger.entries.iter().map(|entry| entry.1).sum();
    assert_eq!(total, pool.usd_raised);
    assert_eq!(pool.commit_ledger.entries.len(), 3);
}
