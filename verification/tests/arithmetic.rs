//! The formulas behind swaps, exactly, and how numbers are written.

use bluechip::chain::{Answer, CosmosMsg, Env};
use bluechip::error::{Missing, OverflowOperation, StdError};
use bluechip::number::{Decimal, Timestamp, Wide, ONE};
use bluechip::pool::error::ContractError;
use bluechip::pool::generic_helpers::{calculate_committer_reward, decimal2decimal256};
use bluechip::pool::range::{fee_growth_in_range, ratio_in_range, spread_check_in_range};
use bluechip::pool::state::PoolState;
use bluechip::pool::swap_helper::{
    assert_max_spread, compute_offer_amount, compute_swap, update_price_accumulator,
    DEFAULT_SLIPPAGE,
};
use bluechip::text::number;

fn fee() -> Decimal {
    Decimal::permille(3)
}

#[test]
fn swaps_keep_the_product() {
    // 350e9 * 1e8 / 23.6e9 leaves the ask side, of which 0.3% stay as commission.
    let out = compute_swap(23_500_000_000, 350_000_000_000, 100_000_000, fee());
    assert_eq!(out, Ok((1_478_601_695, 6_310_855, 4_449_152)));
    assert_eq!(compute_swap(1_000, 1_000, 100, Decimal::zero()), Ok((90, 10, 0)));
    assert_eq!(compute_swap(1_000, 1_000, 0, fee()), Ok((0, 0, 0)));
}

#[test]
fn products_never_shrink() {
    for amount in [1u128, 7, 99, 1_000, 123_456, 9_999_999] {
        let (net, _, commission) = compute_swap(1_000_000, 3_000_000, amount, fee()).unwrap();
        let ask = 3_000_000 - net - commission;
        assert!((1_000_000 + amount) * ask >= 1_000_000 * 3_000_000);
    }
}

#[test]
fn swaps_out_of_range_are_refused() {
    let spread = StdError::Generic("Overflow calculating spread: Cannot Mul with given operands");
    assert_eq!(compute_swap(1, u128::MAX, u128::MAX, fee()), Err(spread));
    let dear = Decimal::percent(101);
    let commission =
        StdError::Generic("Underflow subtracting commission: Cannot Sub with given operands");
    assert_eq!(compute_swap(1_000, 1_000, 1_000, dear), Err(commission));
    assert_eq!(compute_swap(1, u128::MAX, 1_000, fee()), Err(StdError::ConversionOverflow));
    assert_eq!(StdError::ConversionOverflow.text(), "Conversion error: ");
}

#[test]
fn offers_are_found_backwards() {
    let offer = compute_offer_amount(23_500_000_000, 350_000_000_000, 1_478_601_695, fee());
    assert_eq!(offer, Ok((99_999_999, 423_728, 4_449_152)));
    let dry = StdError::Generic("Insufficient liquidity in pool");
    assert_eq!(compute_offer_amount(1_000, 1_000, 1_001, Decimal::zero()), Err(dry));
    let all = StdError::Generic("Division error");
    assert_eq!(compute_offer_amount(1_000, 1_000, 1_000, Decimal::zero()), Err(all));
    let huge = compute_offer_amount(u128::MAX, 2, 1, Decimal::percent(0));
    assert_eq!(huge, Ok((u128::MAX, u128::MAX / 2 + 1, 0)));
}

#[test]
fn spreads_are_measured_against_the_belief() {
    let check = assert_max_spread;
    let exceeded = Err(ContractError::MaxSpreadAssertion {});
    // At a price of 0.5, an offer of 100 promises 200.
    let half = Some(Decimal::percent(50));
    assert_eq!(check(half, Some(Decimal::percent(5)), 100, 190, 0), Ok(()));
    assert_eq!(check(half, Some(Decimal::percent(5)), 100, 189, 0), exceeded);
    assert_eq!(check(half, Some(Decimal::percent(5)), 100, 300, 0), Ok(()));
    // An offer that promises nothing is refused.
    let dear = Some(Decimal { atomics: u128::MAX });
    assert_eq!(
        check(dear, None, 100, 100, 0),
        Err(ContractError::MaxSpreadAssertion {})
    );
    let zero = Some(Decimal::zero());
    assert_eq!(check(zero, None, 100, 100, 0), Err(ContractError::InvalidBeliefPrice {}));
}

#[test]
fn spreads_are_measured_against_the_pool() {
    assert_eq!(Decimal { atomics: DEFAULT_SLIPPAGE }, Decimal::permille(5));
    assert_eq!(assert_max_spread(None, None, 0, 995, 5), Ok(()));
    let exceeded = Err(ContractError::MaxSpreadAssertion {});
    assert_eq!(assert_max_spread(None, None, 0, 994, 6), exceeded);
    let exceeded = Err(ContractError::MaxSpreadAssertion {});
    assert_eq!(assert_max_spread(None, Some(Decimal::one()), 0, 0, 0), exceeded);
}

fn state(reserve0: u128, reserve1: u128) -> PoolState {
    PoolState {
        pool_contract_address: "pool".to_string(),
        nft_ownership_accepted: true,
        reserve0,
        reserve1,
        total_liquidity: 0,
        block_time_last: 1_000,
        price0_cumulative_last: 7,
        price1_cumulative_last: 9,
    }
}

#[test]
fn prices_are_weighted_by_time() {
    let mut s = state(2_000, 5_000);
    assert_eq!(update_price_accumulator(&mut s, 1_011), Ok(()));
    assert_eq!(s.price0_cumulative_last, 7 + 27);
    assert_eq!(s.price1_cumulative_last, 9 + 4);
    assert_eq!(s.block_time_last, 1_011);
    // Neither the past nor an empty side counts.
    assert_eq!(update_price_accumulator(&mut s, 1_000), Ok(()));
    assert_eq!(s.block_time_last, 1_011);
    let mut empty = state(0, 5_000);
    assert_eq!(update_price_accumulator(&mut empty, 2_000), Ok(()));
    assert_eq!(empty, state(0, 5_000));
    let mut full = state(u128::MAX, 1);
    let overflow = Err(ContractError::Std(StdError::Overflow(OverflowOperation::Mul)));
    assert_eq!(update_price_accumulator(&mut full, 1_002), overflow);
    let mut late = state(1, 1);
    late.price0_cumulative_last = u128::MAX;
    let overflow = Err(ContractError::Std(StdError::Overflow(OverflowOperation::Add)));
    assert_eq!(update_price_accumulator(&mut late, 1_002), overflow);
}

#[test]
fn rewards_are_proportional() {
    let share = calculate_committer_reward(5_000_000_000, 500_000_000_000, 25_000_000_000);
    assert_eq!(share, Ok(100_000_000_000));
    assert_eq!(calculate_committer_reward(1, 10, 3), Ok(3));
    // The product may need more than 128 bits.
    assert_eq!(calculate_committer_reward(u128::MAX, u128::MAX, u128::MAX), Ok(u128::MAX));
    assert_eq!(calculate_committer_reward(1, 1, 0), Ok(0));
    let too_much = Err(StdError::ConversionOverflow);
    assert_eq!(calculate_committer_reward(u128::MAX, 2, 1), too_much);
}

#[test]
fn decimals_add_and_subtract() {
    assert_eq!(Decimal::one().atomics, ONE);
    assert_eq!(Decimal::percent(50).checked_add(Decimal::permille(500)), Some(Decimal::one()));
    assert_eq!(Decimal { atomics: u128::MAX }.checked_add(Decimal { atomics: 1 }), None);
    assert_eq!(Decimal::one().checked_sub(Decimal::percent(1)), Some(Decimal::percent(99)));
    assert_eq!(Decimal::zero().checked_sub(Decimal { atomics: 1 }), None);
    assert_eq!(decimal2decimal256(Decimal::one()), Wide { hi: 0, lo: ONE });
}

#[test]
fn wide_numbers_carry_and_borrow() {
    let end = Wide::sum(u128::MAX, 1);
    assert_eq!(end, Wide { hi: 1, lo: 0 });
    assert_eq!(end.to_u128(), None);
    assert_eq!(Wide::from_u128(5).to_u128(), Some(5));
    assert_eq!(end.checked_sub(Wide::from_u128(1)), Some(Wide::from_u128(u128::MAX)));
    assert_eq!(Wide::from_u128(1).checked_sub(end), None);
    assert!(Wide::from_u128(u128::MAX).less(end));
    assert!(!end.less(end));
}

#[test]
fn times_are_kept_to_the_nanosecond() {
    let t = Timestamp { nanos: 1_571_797_419_879_305_533 };
    assert_eq!(t.seconds(), 1_571_797_419);
    assert_eq!(t.plus_seconds(1).nanos, 1_571_797_420_879_305_533);
    assert_eq!(Timestamp::from_seconds(3).nanos, 3_000_000_000);
}

#[test]
fn numbers_are_written_in_decimal() {
    assert_eq!(number(0), "0");
    assert_eq!(number(10), "10");
    assert_eq!(number(u128::MAX), "340282366920938463463374607431768211455");
}

#[test]
fn ranges_are_decided() {
    assert!(ratio_in_range(1, 3));
    assert!(!ratio_in_range(1, 0));
    assert!(ratio_in_range(u128::MAX / ONE, 1));
    assert!(!ratio_in_range(u128::MAX / ONE + 1, 1));
    assert!(ratio_in_range(u128::MAX, u128::MAX));
    assert!(fee_growth_in_range(0, u128::MAX));
    assert!(!fee_growth_in_range(1, u128::MAX));
    assert!(spread_check_in_range(None, 0, u128::MAX, 0));
    assert!(!spread_check_in_range(None, 0, u128::MAX, 1));
    assert!(spread_check_in_range(Some(Decimal::zero()), u128::MAX, 0, 0));
    assert!(!spread_check_in_range(Some(Decimal::one()), u128::MAX, 0, 0));
}

#[test]
fn answers_keep_their_order() {
    let env = Env {
        height: 12,
        time: Timestamp::from_seconds(34),
        contract: "pool".to_string(),
    };
    let answer: Answer<CosmosMsg> =
        Answer::new().attr("action", "swap").attr_number("amount", 5).at_block(&env);
    let pairs: Vec<(&str, &str)> =
        answer.attributes.iter().map(|a| (a.key.as_str(), a.value.as_str())).collect();
    assert_eq!(
        pairs,
        vec![("action", "swap"), ("amount", "5"), ("block_height", "12"), ("block_time", "34")]
    );
}

#[test]
fn errors_are_put_into_words() {
    let name = |s: &str| s.to_string();
    let cases = vec![
        (StdError::Generic("nothing"), "Generic error: nothing"),
        (
            StdError::NotFound(Missing { type_path: "a::B", namespace: "", key: None }),
            "type: a::B; key: [] not found",
        ),
        (
            StdError::NotFound(Missing { type_path: "a::B", namespace: "foo", key: None }),
            "type: a::B; key: [66, 6F, 6F] not found",
        ),
        (
            StdError::NotFound(Missing {
                type_path: "a::B",
                namespace: "foo",
                key: Some(name("\u{e9}")),
            }),
            "type: a::B; key: [00, 03, 66, 6F, 6F, C3, A9] not found",
        ),
        (
            StdError::Overflow(OverflowOperation::Sub),
            "Overflow: Cannot Sub with given operands",
        ),
        (
            StdError::CommitTooSmall { usd_value: 5 },
            "Generic error: Commit too small: $5 USD (minimum $1 USD)",
        ),
        (
            StdError::AmountMismatch { denom: name("ublue"), expected: 7, received: 8 },
            "Generic error: amount mismatch for denom 'ublue': expected 7, but received 8",
        ),
        (
            StdError::AssetNotInPool { denom: name("ublue") },
            "Generic error: Asset ublue is not in the pool",
        ),
        (
            StdError::UnexpectedCoin { denom: name("ublue") },
            "Generic error: Supplied coins contain ublue that is not in the input asset vector",
        ),
        (
            StdError::MissingDenom { denom: name("ublue") },
            "Generic error: Must send reserve token 'ublue'",
        ),
        (
            StdError::BatchFailed { attempt: 2, reason: name("bad key") },
            "Generic error: Batch processing failed (attempt 2): bad key",
        ),
        (
            StdError::BatchAbandoned { failures: 5, reason: name("bad key") },
            "Generic error: Distribution batch read failed: bad key. Manual recovery needed after 5 failures",
        ),
        (
            StdError::HopOffersItsAsk { hop: 1, token: name("ublue") },
            "Generic error: hop 1 declares offer and ask as the same token: ublue",
        ),
        (
            StdError::OfferNotFromSender { offer: name("a"), sender: name("b") },
            "Generic error: first hop offer cw20 (a) does not match sender (b)",
        ),
        (
            StdError::FundsDenomMismatch { funds: name("a"), offer: name("b") },
            "Generic error: funds denom a does not match first hop offer denom b",
        ),
        (StdError::UnknownReply { id: 9 }, "Generic error: unknown reply id: 9"),
        (StdError::Host { message: name("as it was") }, "as it was"),
    ];
    for (error, text) in cases {
        assert_eq!(error.text(), text);
        assert_eq!(ContractError::Std(error).text(), text);
    }
}
