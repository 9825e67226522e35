//! Swaps, with native coins and with CW20 tokens.

use bluechip::asset::{PoolPairType, TokenInfo, TokenType};
use bluechip::chain::{Coin, CosmosMsg, Env, MessageInfo, Response};
use bluechip::error::StdError;
use bluechip::number::{Decimal, Timestamp};
use bluechip::pool::commit::Quotes;
use bluechip::pool::contract::{
    execute, execute_simple_swap, execute_swap_cw20, Dispatch, HostAnswers,
};
use bluechip::pool::error::ContractError;
use bluechip::pool::msg::{Cw20HookMsg, Cw20ReceiveMsg, ExecuteMsg};
use bluechip::pool::range::execute_in_range;
use bluechip::pool::state::{
    CommitFeeInfo, CommitLimitInfo, CreatorFeePot, ExpectedFactory, OracleInfo, PoolAnalytics,
    PoolDetails, PoolFeeState, PoolInfo, PoolSpecs, PoolState, PoolStore, ThresholdPayoutAmounts,
};
use bluechip::pool::swap_helper::update_price_accumulator;
use bluechip::table::Table;

const DENOM: &str = "stake";

fn env() -> Env {
    Env {
        height: 12_345,
        time: Timestamp { nanos: 1_571_797_419_879_305_533 },
        contract: "cosmos2contract".to_string(),
    }
}

fn env_at(seconds: u64) -> Env {
    Env { time: Timestamp::from_seconds(seconds), ..env() }
}

fn from(sender: &str) -> MessageInfo {
    MessageInfo { sender: sender.to_string(), funds: vec![] }
}

fn paying(sender: &str, denom: &str, amount: u128) -> MessageInfo {
    MessageInfo {
        sender: sender.to_string(),
        funds: vec![Coin { denom: denom.to_string(), amount }],
    }
}

fn bluechip(denom: &str, amount: u128) -> TokenInfo {
    TokenInfo { info: TokenType::Bluechip { denom: denom.to_string() }, amount }
}

fn state(reserve0: u128, reserve1: u128, total_liquidity: u128, block_time_last: u64) -> PoolState {
    PoolState {
        pool_contract_address: "pool_contract".to_string(),
        nft_ownership_accepted: true,
        reserve0,
        reserve1,
        total_liquidity,
        block_time_last,
        price0_cumulative_last: 0,
        price1_cumulative_last: 0,
    }
}

/// A pool that collects commits.
fn funding_pool() -> PoolStore {
    PoolStore {
        usd_raised: 0,
        native_raised: 0,
        threshold_hit: false,
        threshold_processing: false,
        last_threshold_attempt: None,
        reentrancy_lock: false,
        paused: false,
        drained: false,
        pending_factory_notify: false,
        pending_emergency_withdraw: None,
        emergency_withdrawal: None,
        expected_factory: ExpectedFactory {
            expected_factory_address: "factory_address".to_string(),
        },
        pool_info: PoolInfo {
            pool_id: 1,
            pool_info: PoolDetails {
                asset_infos: [
                    TokenType::Bluechip { denom: DENOM.to_string() },
                    TokenType::CreatorToken { contract_addr: "token_contract".to_string() },
                ],
                contract_addr: "pool_contract".to_string(),
                pool_type: PoolPairType::Xyk {},
            },
            factory_addr: "factory_contract".to_string(),
            token_address: "token_contract".to_string(),
            position_nft_address: "nft_contract".to_string(),
        },
        pool_state: state(0, 0, 0, 0),
        pool_specs: PoolSpecs {
            lp_fee: Decimal::permille(3),
            min_commit_interval: 60,
            usd_payment_tolerance_bps: 100,
        },
        fee_state: PoolFeeState {
            fee_growth_global_0: Decimal::zero(),
            fee_growth_global_1: Decimal::zero(),
            total_fees_collected_0: 0,
            total_fees_collected_1: 0,
            fee_reserve_0: 0,
            fee_reserve_1: 0,
        },
        fee_info: CommitFeeInfo {
            bluechip_wallet_address: "bluechip_treasury".to_string(),
            creator_wallet_address: "creator_wallet".to_string(),
            commit_fee_bluechip: Decimal::percent(1),
            commit_fee_creator: Decimal::percent(5),
        },
        commit_limits: CommitLimitInfo {
            commit_amount_for_threshold: 100_000_000,
            commit_amount_for_threshold_usd: 25_000_000_000,
            max_bluechip_lock_per_pool: 10_000_000_000,
            creator_excess_liquidity_lock_days: 7,
        },
        threshold_payout: ThresholdPayoutAmounts {
            creator_reward_amount: 325_000_000_000,
            bluechip_reward_amount: 25_000_000_000,
            pool_seed_amount: 350_000_000_000,
            commit_return_amount: 500_000_000_000,
        },
        oracle_info: OracleInfo { oracle_addr: "oracle_contract".to_string() },
        analytics: PoolAnalytics::default(),
        creator_excess: None,
        creator_fee_pot: CreatorFeePot::default(),
        distribution: None,
        next_position_id: 1,
        commit_info: Table::new(),
        commit_ledger: Table::new(),
        user_last_commit: Table::new(),
        positions: Table::new(),
        owner_positions: Table::new(),
    }
}

/// A pool that is past its threshold and seeded.
fn trading_pool() -> PoolStore {
    let mut pool = funding_pool();
    pool.threshold_hit = true;
    pool.usd_raised = 25_000_000_000;
    pool.pool_state = state(23_500_000_000, 350_000_000_000, 91_104_335_791, 1_600_000_000);
    pool
}

fn unasked<T>() -> Result<T, StdError> {
    Err(StdError::Host { message: "not asked".to_string() })
}

fn silent_host() -> HostAnswers {
    HostAnswers {
        quotes: Quotes { usd_value: unasked(), to_threshold: unasked() },
        to: Ok(None),
        cw20_sender: unasked(),
        hook: unasked(),
        oracle_address: unasked(),
        ledger_failure: None,
    }
}

fn run(
    pool: &mut PoolStore,
    env: &Env,
    info: &MessageInfo,
    msg: &ExecuteMsg,
    host: HostAnswers,
) -> Result<Response, ContractError> {
    assert!(execute_in_range(pool, env, info, msg, &host));
    match execute(pool, env, info, msg, host) {
        Ok(Dispatch::Done(response)) => Ok(response),
        Ok(Dispatch::Liquidity) => panic!("not a call on liquidity"),
        Err(e) => Err(e),
    }
}

fn attribute<'a>(response: &'a Response, key: &str) -> &'a str {
    let found = response.attributes.iter().find(|a| a.key == key);
    &found.expect("attribute").value
}

/// A pool with the given reserves whose fees nobody has a share in.
fn pool_with_reserves(reserve0: u128, reserve1: u128) -> PoolStore {
    let mut pool = funding_pool();
    pool.pool_state = state(reserve0, reserve1, 0, 0);
    pool
}

fn swap_msg(
    offer_asset: TokenInfo,
    belief_price: Option<Decimal>,
    max_spread: Option<Decimal>,
) -> ExecuteMsg {
    ExecuteMsg::SimpleSwap {
        offer_asset,
        belief_price,
        max_spread,
        to: None,
        transaction_deadline: None,
    }
}

fn swap(
    pool: &mut PoolStore,
    env: &Env,
    amount: u128,
    belief_price: Option<Decimal>,
    max_spread: Option<Decimal>,
) -> Result<Response, ContractError> {
    let info = paying("trader", DENOM, amount);
    let msg = swap_msg(bluechip(DENOM, amount), belief_price, max_spread);
    run(pool, env, &info, &msg, silent_host())
}

/// A swap of CW20 tokens that the trader sent to the pool.
fn cw20_swap(
    pool: &mut PoolStore,
    amount: u128,
    belief_price: Option<Decimal>,
    max_spread: Option<Decimal>,
    to: Option<String>,
) -> Result<Response, ContractError> {
    let hook = Cw20HookMsg::Swap {
        belief_price,
        max_spread,
        to: to.clone(),
        transaction_deadline: None,
    };
    let msg = Cw20ReceiveMsg { sender: "trader".to_string(), amount };
    execute_swap_cw20(
        pool,
        &env(),
        &from("token_contract"),
        &msg,
        Ok(hook),
        Ok(to),
        Ok("trader".to_string()),
    )
}

fn plain_swap(
    pool: &mut PoolStore,
    amount: u128,
    max_spread: Option<Decimal>,
) -> Result<Response, ContractError> {
    let offer = bluechip(DENOM, amount);
    execute_simple_swap(pool, &env(), &"user".to_string(), &offer, None, max_spread, None)
}

#[test]
fn swap_tests_test_simple_swap_bluechip_to_cw20() {
    let mut pool = trading_pool();
    let res = swap(&mut pool, &env(), 100_000_000, None, None).unwrap();
    assert_eq!(attribute(&res, "action"), "swap");
    assert!(pool.pool_state.reserve0 > 23_500_000_000);
    assert!(pool.pool_state.reserve1 < 350_000_000_000);
    assert!(pool.fee_state.fee_growth_global_1 > Decimal::zero());
}

fn max_spread_is_enforced() {
    let mut pool = trading_pool();
    let err = swap(&mut pool, &env(), 10_000_000_000, None, Some(Decimal::permille(1)));
    assert_eq!(err, Err(ContractError::MaxSpreadAssertion {}));
}

#[test]
fn swap_tests_test_swap_with_max_spread() {
    max_spread_is_enforced();
}

#[test]
fn tests_test_swap_with_max_spread() {
    max_spread_is_enforced();
}

fn tokens_are_swapped_through_the_hook() {
    let mut pool = trading_pool();
    let spread = Some(Decimal::percent(10));
    let res = cw20_swap(&mut pool, 10_000_000_000, None, spread, None).unwrap();
    assert_eq!(attribute(&res, "action"), "swap");
    assert!(pool.pool_state.reserve0 < 23_500_000_000);
    assert!(pool.pool_state.reserve1 > 350_000_000_000);
}

#[test]
fn swap_tests_test_swap_cw20_via_hook() {
    tokens_are_swapped_through_the_hook();
}

#[test]
fn tests_test_swap_cw20_via_hook() {
    tokens_are_swapped_through_the_hook();
}

fn wrong_assets_are_refused() {
    let mut pool = trading_pool();
    let info = paying("trader", "wrong_token", 1_000_000);
    let msg = swap_msg(bluechip("wrong_token", 1_000_000), None, None);
    let err = run(&mut pool, &env(), &info, &msg, silent_host());
    assert_eq!(err, Err(ContractError::AssetMismatch {}));
}

#[test]
fn swap_tests_test_swap_wrong_asset() {
    wrong_assets_are_refused();
}

#[test]
fn tests_test_swap_wrong_asset() {
    wrong_assets_are_refused();
}

fn prices_accumulate() {
    let mut pool = trading_pool();
    let before = pool.pool_state.price0_cumulative_last;
    swap(&mut pool, &env_at(1_600_001_000), 1_000_000, None, None).unwrap();
    assert!(pool.pool_state.price0_cumulative_last > before);
    assert_eq!(pool.pool_state.block_time_last, 1_600_001_000);
}

#[test]
fn swap_tests_test_swap_price_accumulator_update() {
    prices_accumulate();
}

#[test]
fn tests_test_swap_price_accumulator_update() {
    prices_accumulate();
}

#[test]
fn test_swap_with_belief_price_protection() {
    let mut pool = trading_pool();
    let belief = Some(Decimal::percent(140));
    let res = swap(&mut pool, &env(), 100_000_000, belief, None).unwrap();
    assert_eq!(attribute(&res, "action"), "swap");
}

#[test]
fn test_swap_belief_price_rejects_bad_price_corrected() {
    let mut pool = trading_pool();
    let belief = Some(Decimal::percent(5));
    let spread = Some(Decimal::percent(1));
    let err = swap(&mut pool, &env(), 10_000_000_000, belief, spread);
    assert_eq!(err, Err(ContractError::MaxSpreadAssertion {}));
}

#[test]
fn test_belief_price_with_zero_price() {
    let mut pool = trading_pool();
    let err = swap(&mut pool, &env(), 1_000_000, Some(Decimal::zero()), None);
    assert_eq!(err, Err(ContractError::InvalidBeliefPrice {}));
}

#[test]
fn test_swap_cw20_to_bluechip_direct() {
    let mut pool = trading_pool();
    let spread = Some(Decimal::percent(5));
    let res = cw20_swap(&mut pool, 10_000_000_000, None, spread, None).unwrap();
    assert_eq!(attribute(&res, "action"), "swap");
    assert_eq!(attribute(&res, "offer_asset"), "token_contract");
    assert!(res.messages.iter().any(|m| matches!(m, CosmosMsg::BankSend { .. })));
    assert!(pool.pool_state.reserve0 < 23_500_000_000);
    assert!(pool.pool_state.reserve1 > 350_000_000_000);
}

#[test]
fn test_swap_cw20_with_custom_recipient() {
    let mut pool = trading_pool();
    let spread = Some(Decimal::percent(2));
    let to = Some("beneficiary".to_string());
    let res = cw20_swap(&mut pool, 100_000_000, None, spread, to).unwrap();
    let receiver = res.messages.iter().find_map(|m| match m {
        CosmosMsg::BankSend { to_address, .. } => Some(to_address.clone()),
        _ => None,
    });
    assert_eq!(receiver, Some("beneficiary".to_string()));
}

#[test]
fn test_cw20_swap_with_belief_price() {
    let mut pool = trading_pool();
    let belief = Some(Decimal::percent(5));
    let spread = Some(Decimal::percent(10));
    let err = cw20_swap(&mut pool, 100_000_000_000, belief, spread, None);
    assert_eq!(err, Err(ContractError::MaxSpreadAssertion {}));
}

#[test]
fn test_swap_fails_when_pool_already_paused() {
    let mut pool = pool_with_reserves(50_000, 50_000);
    pool.paused = true;
    let err = plain_swap(&mut pool, 100, None);
    assert_eq!(err, Err(ContractError::PoolPausedLowLiquidity {}));
}

#[test]
fn test_swap_prevented_if_would_deplete_below_minimum() {
    let mut pool = pool_with_reserves(10_000, 1_100);
    let err = plain_swap(&mut pool, 2_000, Some(Decimal::percent(50)));
    assert_eq!(err, Err(ContractError::InsufficientReserves {}));
}

#[test]
fn test_both_reserves_checked() {
    let mut pool = pool_with_reserves(9_999, 10);
    assert_eq!(plain_swap(&mut pool, 100, None), Err(ContractError::InsufficientReserves {}));
    let mut pool = pool_with_reserves(10, 9_999);
    assert_eq!(plain_swap(&mut pool, 100, None), Err(ContractError::InsufficientReserves {}));
}

/// Below the minimum on either side nothing is swapped; the pool is not paused by it, and
/// every further swap is refused alike.
#[test]
fn thin_pools_refuse() {
    for (reserve0, reserve1) in [(9, 100_000), (99, 10_000), (15, 15), (999, 1_000)] {
        let mut pool = pool_with_reserves(reserve0, reserve1);
        let spread = Some(Decimal::percent(50));
        for _ in 0..2 {
            let err = plain_swap(&mut pool, 100, spread);
            assert_eq!(err, Err(ContractError::InsufficientReserves {}));
        }
        assert!(!pool.paused);
    }
}

/// The commission of a swap is taken in the token that is asked for.
#[test]
fn fees_grow_on_the_side_that_is_asked() {
    let mut pool = trading_pool();
    swap(&mut pool, &env(), 100_000_000, None, None).unwrap();
    assert!(pool.fee_state.fee_growth_global_1 > Decimal::zero());
    assert_eq!(pool.fee_state.fee_growth_global_0, Decimal::zero());
    let mut pool = trading_pool();
    cw20_swap(&mut pool, 100_000_000, None, None, None).unwrap();
    assert!(pool.fee_state.fee_growth_global_0 > Decimal::zero());
    assert_eq!(pool.fee_state.fee_growth_global_1, Decimal::zero());
}

fn lopsided_pool() -> PoolStore {
    let mut pool = trading_pool();
    pool.pool_state.reserve0 = 1_000_000_000;
    pool.pool_state.reserve1 = 100_000_000_000;
    pool
}

#[test]
fn test_swap_lopsided_pool_after_threshold() {
    let mut pool = lopsided_pool();
    let spread = Some(Decimal::percent(50));
    let res = swap(&mut pool, &env(), 500_000_000, None, spread).unwrap();
    let return_amount = attribute(&res, "return_amount").parse::<u128>().unwrap();
    assert!(return_amount > 0);
    assert_eq!(pool.pool_state.reserve0, 1_500_000_000);
}

#[test]
fn test_swap_slippage_lopsided() {
    let mut pool = lopsided_pool();
    let percent = Some(Decimal::percent(1));
    let err = swap(&mut pool, &env(), 500_000_000, percent, percent);
    assert_eq!(err, Err(ContractError::MaxSpreadAssertion {}));
}

fn fees_without_shares_do_not_grow() {
    let mut pool = trading_pool();
    pool.pool_state.total_liquidity = 0;
    swap(&mut pool, &env(), 1_000_000, None, None).unwrap();
    assert_eq!(pool.fee_state.fee_growth_global_0, Decimal::zero());
}

#[test]
fn liquidity_tests_test_zero_liquidity_fee_collection() {
    fees_without_shares_do_not_grow();
}

#[test]
fn tests_test_zero_liquidity_fee_collection() {
    fees_without_shares_do_not_grow();
}

fn empty_pools_have_no_price() {
    let mut pool = funding_pool();
    pool.threshold_hit = true;
    update_price_accumulator(&mut pool.pool_state, env().time.seconds() + 1_000).unwrap();
    assert_eq!(pool.pool_state.reserve0, 0);
    assert_eq!(pool.pool_state.reserve1, 0);
    assert_eq!(pool.pool_state.price0_cumulative_last, 0);
    assert_eq!(pool.pool_state.price1_cumulative_last, 0);
}

#[test]
fn liquidity_tests_test_price_accumulator_zero_reserves() {
    empty_pools_have_no_price();
}

#[test]
fn tests_test_price_accumulator_zero_reserves() {
    empty_pools_have_no_price();
}

/// What leaves the ask side is either paid out or set aside as a fee.
#[test]
fn swaps_are_accounted_for() {
    let mut pool = trading_pool();
    let res = swap(&mut pool, &env(), 100_000_000, None, None).unwrap();
    let sent = CosmosMsg::Cw20Transfer {
        contract_addr: "token_contract".to_string(),
        recipient: "trader".to_string(),
        amount: 1_478_601_695,
    };
    assert_eq!(res.messages, vec![sent]);
    assert_eq!(attribute(&res, "offer_asset"), DENOM);
    assert_eq!(attribute(&res, "return_amount"), "1478601695");
    assert_eq!(attribute(&res, "spread_amount"), "6310855");
    assert_eq!(attribute(&res, "commission_amount"), "4449152");
    assert_eq!(attribute(&res, "effective_price"), "14.78601695");
    assert_eq!(pool.pool_state.reserve0, 23_600_000_000);
    assert_eq!(pool.pool_state.reserve1, 350_000_000_000 - 1_478_601_695 - 4_449_152);
    assert_eq!(pool.fee_state.fee_reserve_1, 4_449_152);
    assert_eq!(pool.fee_state.total_fees_collected_1, 4_449_152);
    let growth = 4_449_152u128 * 1_000_000_000_000_000_000 / 91_104_335_791;
    assert_eq!(pool.fee_state.fee_growth_global_1, Decimal { atomics: growth });
    assert_eq!(pool.analytics.total_swap_count, 1);
    assert_eq!(pool.analytics.total_volume_0, 100_000_000);
    assert_eq!(pool.analytics.total_volume_1, 1_478_601_695);
    assert_eq!(pool.analytics.last_trade_block, 12_345);
}

#[test]
fn native_swaps_need_their_coins() {
    let mut pool = trading_pool();
    let mut refuse = |funds: Vec<Coin>| {
        let info = MessageInfo { sender: "trader".to_string(), funds };
        let msg = swap_msg(bluechip(DENOM, 100), None, None);
        match run(&mut pool, &env(), &info, &msg, silent_host()) {
            Err(ContractError::Std(e)) => e,
            _ => panic!("expected a payment error"),
        }
    };
    let coin = |denom: &str, amount: u128| Coin { denom: denom.to_string(), amount };
    assert_eq!(refuse(vec![]), StdError::Generic("No funds sent"));
    assert_eq!(refuse(vec![coin(DENOM, 0)]), StdError::Generic("No funds sent"));
    let two = vec![coin("uatom", 1), coin(DENOM, 100)];
    assert_eq!(refuse(two), StdError::Generic("Sent more than one denomination"));
    let missing = StdError::MissingDenom { denom: DENOM.to_string() };
    assert_eq!(refuse(vec![coin("uatom", 100)]), missing);
    let mismatch =
        StdError::AmountMismatch { denom: DENOM.to_string(), expected: 100, received: 99 };
    assert_eq!(refuse(vec![coin(DENOM, 99)]), mismatch);
}

#[test]
fn tokens_are_not_offered_directly() {
    let mut pool = trading_pool();
    let offer = TokenInfo {
        info: TokenType::CreatorToken { contract_addr: "token_contract".to_string() },
        amount: 5,
    };
    let err = run(&mut pool, &env(), &from("trader"), &swap_msg(offer, None, None), silent_host());
    let expected = StdError::Generic(
        "SimpleSwap can only be used with bluechip tokens. Use CW20 Send for token swaps.",
    );
    assert_eq!(err, Err(ContractError::Std(expected)));
}

#[test]
fn swaps_wait_for_the_threshold() {
    let mut pool = funding_pool();
    let err = swap(&mut pool, &env(), 100, None, None);
    assert_eq!(err, Err(ContractError::ShortOfThreshold {}));
    let err = cw20_swap(&mut pool, 100, None, None, None);
    assert_eq!(err, Err(ContractError::ShortOfThreshold {}));
}

#[test]
fn swaps_are_rate_limited() {
    let mut pool = trading_pool();
    swap(&mut pool, &env_at(1_600_000_000), 100_000, None, None).unwrap();
    let again = swap(&mut pool, &env_at(1_600_000_045), 100_000, None, None);
    assert_eq!(again, Err(ContractError::TooFrequentCommits { wait_time: 15 }));
    assert!(swap(&mut pool, &env_at(1_600_000_060), 100_000, None, None).is_ok());
    assert!(!pool.reentrancy_lock);
}

#[test]
fn late_swaps_are_refused() {
    let mut pool = trading_pool();
    let msg = ExecuteMsg::SimpleSwap {
        offer_asset: bluechip(DENOM, 100),
        belief_price: None,
        max_spread: None,
        to: None,
        transaction_deadline: Some(Timestamp::from_seconds(99)),
    };
    let err = run(&mut pool, &env_at(100), &paying("trader", DENOM, 100), &msg, silent_host());
    assert_eq!(err, Err(ContractError::TransactionExpired {}));
}

#[test]
fn tokens_come_from_their_contract() {
    let mut pool = trading_pool();
    let msg = Cw20ReceiveMsg { sender: "trader".to_string(), amount: 100 };
    let hook = Cw20HookMsg::Swap {
        belief_price: None,
        max_spread: None,
        to: None,
        transaction_deadline: None,
    };
    let answers = HostAnswers {
        cw20_sender: Ok("trader".to_string()),
        hook: Ok(hook),
        ..silent_host()
    };
    let err =
        run(&mut pool, &env(), &from("another_token"), &ExecuteMsg::Receive(msg), answers);
    assert_eq!(err, Err(ContractError::Unauthorized {}));
    let empty = cw20_swap(&mut pool, 0, None, None, None);
    assert_eq!(empty, Err(ContractError::ZeroAmount {}));
    let malformed = HostAnswers { hook: unasked(), ..silent_host() };
    let msg = Cw20ReceiveMsg { sender: "trader".to_string(), amount: 100 };
    let err =
        run(&mut pool, &env(), &from("token_contract"), &ExecuteMsg::Receive(msg), malformed);
    let reason = StdError::Host { message: "not asked".to_string() };
    assert_eq!(err, Err(ContractError::Std(reason)));
}

/// A swap there and back never gains.
#[test]
fn round_trips_do_not_pay() {
    let mut pool = trading_pool();
    let wide = Some(Decimal::percent(50));
    let there = swap(&mut pool, &env(), 1_000_000_000, None, wide).unwrap();
    let tokens = attribute(&there, "return_amount").parse::<u128>().unwrap();
    pool.user_last_commit.remove("trader");
    let back = cw20_swap(&mut pool, tokens, None, wide, None).unwrap();
    let coins = attribute(&back, "return_amount").parse::<u128>().unwrap();
    assert!(coins < 1_000_000_000);
}

/// Offers whose price is no decimal in range are recognised before they are made.
#[test]
fn offers_out_of_range_are_recognised() {
    let mut pool = trading_pool();
    pool.pool_state.reserve1 = u128::MAX;
    let msg = swap_msg(bluechip(DENOM, 1_000), None, Some(Decimal::one()));
    let info = paying("trader", DENOM, 1_000);
    assert!(!execute_in_range(&pool, &env(), &info, &msg, &silent_host()));
}
