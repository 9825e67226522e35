//! Shares of a pool and the fees they earn.

use bluechip::asset::{PoolPairType, TokenType};
use bluechip::chain::CosmosMsg;
use bluechip::error::{OverflowOperation, StdError};
use bluechip::number::{Decimal, ONE};
use bluechip::pool::error::ContractError;
use bluechip::pool::liquidity_helpers::{
    build_fee_transfer_msgs, calc_capped_fees, calc_capped_fees_with_clip,
    calc_liquidity_for_deposit, calculate_fee_size_multiplier, calculate_fees_owed,
    calculate_fees_owed_split, calculate_unclaimed_fees, check_ratio_deviation, check_slippage,
    integer_sqrt, verify_position_ownership, MIN_MULTIPLIER, OPTIMAL_LIQUIDITY,
};
use bluechip::pool::state::{
    PoolDetails, PoolFeeState, PoolInfo, PoolState, Position, MINIMUM_LIQUIDITY,
};

fn zero_liquidity_gets_the_minimum() {
    assert_eq!(calculate_fee_size_multiplier(0), Decimal { atomics: MIN_MULTIPLIER });
}

#[test]
fn liquidity_tests_test_zero_liquidity_gets_minimum_multiplier() {
    zero_liquidity_gets_the_minimum();
}

#[test]
fn tests_test_zero_liquidity_gets_minimum_multiplier() {
    zero_liquidity_gets_the_minimum();
}

fn optimal_liquidity_gets_everything() {
    assert_eq!(calculate_fee_size_multiplier(OPTIMAL_LIQUIDITY), Decimal::one());
}

#[test]
fn liquidity_tests_test_optimal_liquidity_gets_full_multiplier() {
    optimal_liquidity_gets_everything();
}

#[test]
fn tests_test_optimal_liquidity_gets_full_multiplier() {
    optimal_liquidity_gets_everything();
}

fn more_than_optimal_gets_no_more() {
    let cases: Vec<u128> = vec![
        OPTIMAL_LIQUIDITY + 1,
        OPTIMAL_LIQUIDITY * 2,
        OPTIMAL_LIQUIDITY * 10,
        OPTIMAL_LIQUIDITY * 1000,
    ];
    for liquidity in cases {
        assert_eq!(calculate_fee_size_multiplier(liquidity), Decimal::one());
    }
}

#[test]
fn liquidity_tests_test_above_optimal_liquidity_still_gets_full_multiplier() {
    more_than_optimal_gets_no_more();
}

#[test]
fn tests_test_above_optimal_liquidity_still_gets_full_multiplier() {
    more_than_optimal_gets_no_more();
}

fn scaling_is_linear() {
    let quarter = calculate_fee_size_multiplier(OPTIMAL_LIQUIDITY / 4);
    assert_eq!(quarter, Decimal::permille(325));
    let half = calculate_fee_size_multiplier(OPTIMAL_LIQUIDITY / 2);
    assert_eq!(half, Decimal::percent(55));
    let three_quarters = calculate_fee_size_multiplier(OPTIMAL_LIQUIDITY * 3 / 4);
    assert_eq!(three_quarters, Decimal::permille(775));
}

#[test]
fn liquidity_tests_test_linear_scaling_between_min_and_optimal() {
    scaling_is_linear();
}

#[test]
fn tests_test_linear_scaling_between_min_and_optimal() {
    scaling_is_linear();
}

fn dust_is_penalised() {
    let cases: Vec<u128> = vec![1, 10, 100, 1000];
    for dust in cases {
        let multiplier = calculate_fee_size_multiplier(dust);
        let ratio = dust * ONE / OPTIMAL_LIQUIDITY;
        let expected = MIN_MULTIPLIER + (ONE - MIN_MULTIPLIER) / 1_000 * ratio / (ONE / 1_000);
        assert_eq!(multiplier.atomics, expected);
        assert!(multiplier < Decimal::percent(20));
    }
}

#[test]
fn liquidity_tests_test_dust_positions_get_heavily_penalized() {
    dust_is_penalised();
}

#[test]
fn tests_test_dust_positions_get_heavily_penalized() {
    dust_is_penalised();
}

fn specific_multipliers() {
    let cases: Vec<(u128, u128, &str)> = vec![
        (0, 100_000, "Zero liquidity"),
        (100_000, 190_000, "10% of optimal"),
        (200_000, 280_000, "20% of optimal"),
        (333_333, 399_999, "~33% of optimal"),
        (500_000, 550_000, "50% of optimal"),
        (900_000, 910_000, "90% of optimal"),
        (999_999, 999_999, "Just below optimal"),
        (1_000_000, 1_000_000, "Exactly optimal"),
        (10_000_000, 1_000_000, "10x optimal"),
    ];
    let millionth = ONE / 1_000_000;
    for (liquidity, millionths, description) in cases {
        let multiplier = calculate_fee_size_multiplier(liquidity).atomics;
        let expected = millionths * millionth;
        let diff = if multiplier > expected { multiplier - expected } else { expected - multiplier };
        assert!(diff < millionth, "{}: got {}", description, multiplier);
    }
}

#[test]
fn liquidity_tests_test_specific_multiplier_values() {
    specific_multipliers();
}

#[test]
fn tests_test_specific_multiplier_values() {
    specific_multipliers();
}

fn multipliers_increase() {
    let mut previous = calculate_fee_size_multiplier(0);
    for i in 1..=100u128 {
        let multiplier = calculate_fee_size_multiplier(OPTIMAL_LIQUIDITY * i / 100);
        assert!(multiplier >= previous);
        previous = multiplier;
    }
}

#[test]
fn liquidity_tests_test_multiplier_monotonically_increases() {
    multipliers_increase();
}

#[test]
fn tests_test_multiplier_monotonically_increases() {
    multipliers_increase();
}

fn multipliers_are_bounded() {
    let cases: Vec<u128> = vec![
        0, 1, 42, 137, 1337, 9999, 50_000, 123_456, 654_321, 999_999, 1_000_000, 1_000_001,
        2_000_000, 10_000_000, 100_000_000, 1_000_000_000,
    ];
    for liquidity in cases {
        let multiplier = calculate_fee_size_multiplier(liquidity);
        assert!(multiplier >= Decimal { atomics: MIN_MULTIPLIER });
        assert!(multiplier <= Decimal::one());
    }
}

#[test]
fn liquidity_tests_test_multiplier_bounds() {
    multipliers_are_bounded();
}

#[test]
fn tests_test_multiplier_bounds() {
    multipliers_are_bounded();
}

fn edge_of_the_optimum() {
    let cases: Vec<(u128, bool)> = vec![
        (OPTIMAL_LIQUIDITY - 2, false),
        (OPTIMAL_LIQUIDITY - 1, false),
        (OPTIMAL_LIQUIDITY, true),
        (OPTIMAL_LIQUIDITY + 1, true),
        (OPTIMAL_LIQUIDITY + 2, true),
    ];
    for (liquidity, should_be_full) in cases {
        let multiplier = calculate_fee_size_multiplier(liquidity);
        if should_be_full {
            assert_eq!(multiplier, Decimal::one());
        } else {
            assert!(multiplier < Decimal::one());
        }
    }
}

#[test]
fn liquidity_tests_test_edge_cases_near_optimal() {
    edge_of_the_optimum();
}

#[test]
fn tests_test_edge_cases_near_optimal() {
    edge_of_the_optimum();
}

fn state(reserve0: u128, reserve1: u128, total_liquidity: u128) -> PoolState {
    PoolState {
        pool_contract_address: "pool".to_string(),
        nft_ownership_accepted: true,
        reserve0,
        reserve1,
        total_liquidity,
        block_time_last: 0,
        price0_cumulative_last: 0,
        price1_cumulative_last: 0,
    }
}

/// The optimum and the smallest multiplier are a million shares and a tenth.
#[test]
fn multiplier_constants() {
    assert_eq!(OPTIMAL_LIQUIDITY, 1_000_000);
    assert_eq!(Decimal { atomics: MIN_MULTIPLIER }, Decimal::percent(10));
}

#[test]
fn first_deposit_locks_the_minimum() {
    let amount: u128 = 1_000_000_000;
    let shares = calc_liquidity_for_deposit(&state(0, 0, 0), amount, amount);
    let raw = integer_sqrt(amount * amount);
    assert_eq!(raw, 1_000_000_000);
    assert_eq!(shares, Ok((raw - MINIMUM_LIQUIDITY, amount, amount)));
}

#[test]
fn small_first_deposits_mint_nothing() {
    let empty = state(0, 0, 0);
    let refused = Err(ContractError::InsufficientLiquidityMinted {});
    assert_eq!(calc_liquidity_for_deposit(&empty, 1_000, 1_000), refused);
    assert_eq!(calc_liquidity_for_deposit(&empty, 1_001, 1_001), Ok((1, 1_001, 1_001)));
    let one_sided = Err(ContractError::Std(StdError::Generic(
        "Initial deposit requires both assets",
    )));
    assert_eq!(calc_liquidity_for_deposit(&empty, 0, 1_000), one_sided);
    let product = Err(ContractError::Std(StdError::Overflow(OverflowOperation::Mul)));
    assert_eq!(calc_liquidity_for_deposit(&empty, u128::MAX, 2), product);
}

#[test]
fn later_deposits_follow_the_reserves() {
    let pool = state(1_000, 3_000, 600);
    // 100 of the first token ask for 300 of the second.
    assert_eq!(calc_liquidity_for_deposit(&pool, 100, 500), Ok((60, 100, 300)));
    // 90 of the second token ask for 30 of the first.
    assert_eq!(calc_liquidity_for_deposit(&pool, 100, 90), Ok((18, 30, 90)));
    let none = Err(ContractError::Std(StdError::Generic("amount0 is zero")));
    assert_eq!(calc_liquidity_for_deposit(&pool, 0, 90), none);
    let none = Err(ContractError::Std(StdError::Generic("amount1 is zero")));
    assert_eq!(calc_liquidity_for_deposit(&pool, 100, 0), none);
    // 2 of the second token ask for none of the first.
    let too_small = Err(ContractError::InsufficientLiquidity {});
    assert_eq!(calc_liquidity_for_deposit(&pool, 100, 2), too_small);
    let no_shares = Err(ContractError::InsufficientLiquidityMinted {});
    assert_eq!(calc_liquidity_for_deposit(&state(1_000, 3_000, 60), 10, 30), no_shares);
}

#[test]
fn square_roots_are_rounded_down() {
    for n in 0..200u128 {
        let root = integer_sqrt(n);
        assert!(root * root <= n && n < (root + 1) * (root + 1));
    }
    assert_eq!(integer_sqrt(8_225_000_000_000_000_000_000), 90_691_785_736);
    assert_eq!(integer_sqrt(u128::MAX), u64::MAX as u128);
}

#[test]
fn fees_grow_with_shares() {
    let last = Decimal::percent(150);
    let now = Decimal::percent(275);
    assert_eq!(calculate_unclaimed_fees(1_001, last, now), Ok(1_251));
    assert_eq!(calculate_unclaimed_fees(1_001, now, last), Ok(0));
    let all = Decimal { atomics: u128::MAX };
    let too_much = StdError::Generic(
        "Fee calculation overflow: Error converting Uint256 to Uint128",
    );
    assert_eq!(calculate_unclaimed_fees(u128::MAX, Decimal::zero(), all), Err(too_much));
}

#[test]
fn small_positions_are_clipped() {
    let now = Decimal::percent(275);
    let last = Decimal::percent(150);
    let half = Decimal::percent(55);
    assert_eq!(calculate_fees_owed_split(1_001, now, last, half), Ok((688, 563)));
    assert_eq!(calculate_fees_owed(1_001, now, last, half), Ok(688));
    assert_eq!(calculate_fees_owed_split(1_001, now, last, Decimal::one()), Ok((1_251, 0)));
    assert_eq!(calculate_fees_owed_split(1_001, last, now, half), Ok((0, 0)));
    let all = Decimal { atomics: u128::MAX };
    let base = StdError::Generic("Fee base overflow: Error converting Uint256 to Uint128");
    assert_eq!(
        calculate_fees_owed(u128::MAX, all, Decimal::zero(), half),
        Err(ContractError::Std(base))
    );
    let scaled = StdError::Generic("Fee multiplier overflow: Error converting Uint256 to Uint128");
    assert_eq!(
        calculate_fees_owed(u128::MAX, Decimal::one(), Decimal::zero(), Decimal::percent(200)),
        Err(ContractError::Std(scaled))
    );
}

fn position() -> Position {
    Position {
        liquidity: 1_000,
        owner: "alice".to_string(),
        fee_growth_inside_0_last: Decimal::one(),
        fee_growth_inside_1_last: Decimal::one(),
        created_at: 0,
        last_fee_collection: 0,
        fee_size_multiplier: Decimal::percent(40),
        unclaimed_fees_0: 7,
        unclaimed_fees_1: 9,
    }
}

fn fees(fee_reserve_0: u128, fee_reserve_1: u128) -> PoolFeeState {
    PoolFeeState {
        fee_growth_global_0: Decimal::percent(200),
        fee_growth_global_1: Decimal::percent(300),
        total_fees_collected_0: 0,
        total_fees_collected_1: 0,
        fee_reserve_0,
        fee_reserve_1,
    }
}

/// Payouts come first and clipped fees second, and neither exceeds what was set aside.
#[test]
fn fees_are_paid_from_their_reserves() {
    let p = position();
    assert_eq!(calc_capped_fees(&p, &fees(10_000, 10_000)), Ok((407, 809)));
    assert_eq!(calc_capped_fees(&p, &fees(100, 10_000)), Ok((100, 809)));
    let split = calc_capped_fees_with_clip(&p, &fees(500, 10_000)).unwrap();
    assert_eq!(split.0, (407, 809));
    assert_eq!(split.1, (407, 809));
    assert_eq!(split.2, (93, 1_200));
    let split = calc_capped_fees_with_clip(&p, &fees(100, 0)).unwrap();
    assert_eq!(split.0, (100, 0));
    assert_eq!(split.1, (407, 809));
    assert_eq!(split.2, (0, 0));
}

fn pool_info() -> PoolInfo {
    PoolInfo {
        pool_id: 1,
        pool_info: PoolDetails {
            asset_infos: [
                TokenType::Bluechip { denom: "ubluechip".to_string() },
                TokenType::CreatorToken { contract_addr: "token".to_string() },
            ],
            contract_addr: "pool".to_string(),
            pool_type: PoolPairType::Xyk {},
        },
        factory_addr: "factory".to_string(),
        token_address: "token".to_string(),
        position_nft_address: "nft".to_string(),
    }
}

#[test]
fn fees_are_sent_where_there_are_any() {
    let alice = "alice".to_string();
    let coins = CosmosMsg::BankSend {
        to_address: "alice".to_string(),
        denom: "ubluechip".to_string(),
        amount: 5,
    };
    let tokens = CosmosMsg::Cw20Transfer {
        contract_addr: "token".to_string(),
        recipient: "alice".to_string(),
        amount: 6,
    };
    assert_eq!(build_fee_transfer_msgs(&pool_info(), &alice, 5, 6), Ok(vec![coins, tokens]));
    assert_eq!(build_fee_transfer_msgs(&pool_info(), &alice, 0, 0), Ok(vec![]));
}

#[test]
fn slippage_is_bounded_below() {
    let token = "token0".to_string();
    assert_eq!(check_slippage(10, None, &token), Ok(()));
    assert_eq!(check_slippage(10, Some(10), &token), Ok(()));
    let err = check_slippage(10, Some(11), &token).unwrap_err();
    assert_eq!(err.text(), "Slippage exceeded: expected at least 11 token0, got 10");
    assert_eq!(err, ContractError::SlippageExceeded { expected: 11, actual: 10, token });
}

/// The deviation is measured in basis points of the smaller ratio.
#[test]
fn ratios_may_deviate_a_little() {
    assert_eq!(check_ratio_deviation(2_100, 1_000, Some(2_000), Some(1_000), Some(500)), Ok(()));
    let err = check_ratio_deviation(2_100, 1_000, Some(2_000), Some(1_000), Some(499));
    let expected = ContractError::RatioDeviationExceeded {
        expected_ratio: Decimal::percent(200),
        actual_ratio: Decimal::percent(210),
        max_deviation_bps: 499,
        actual_deviation_bps: 500,
    };
    assert_eq!(
        expected.text(),
        "Ratio deviation exceeded: expected 2, actual 2.1, deviation 500 bps of at most 499"
    );
    assert_eq!(err, Err(expected));
    assert_eq!(check_ratio_deviation(2_100, 1_000, None, Some(1_000), Some(1)), Ok(()));
    assert_eq!(check_ratio_deviation(0, 1_000, Some(2_000), Some(1_000), Some(1)), Ok(()));
}

#[test]
fn only_the_owner_of_the_position_token_passes() {
    let alice = "alice".to_string();
    assert_eq!(verify_position_ownership(Ok("alice".to_string()), &alice), Ok(()));
    assert_eq!(
        verify_position_ownership(Ok("bob".to_string()), &alice),
        Err(ContractError::Unauthorized {})
    );
    let unknown = StdError::Host { message: "no such token".to_string() };
    let unknown_again = StdError::Host { message: "no such token".to_string() };
    assert_eq!(
        verify_position_ownership(Err(unknown), &alice),
        Err(ContractError::Std(unknown_again))
    );
}
