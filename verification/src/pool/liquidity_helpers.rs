//! Shares of the pool, the fees they earn, and what the creator may claim.

use vstd::arithmetic::div_mod::*;
use vstd::arithmetic::mul::*;
use vstd::prelude::*;
use vstd::string::*;

use crate::asset::{bluechip_denom, get_bluechip_denom};
use crate::chain::{at_block, Addr, CosmosMsg, Env, MessageInfo, Pair, Response};
use crate::error::{Missing, OverflowOperation, StdError};
use crate::number::{
    checked_mul_floor, decimal_checked_mul, decimal_div, decimal_from_ratio, min, min_u128,
    minus_or_zero, multiply_ratio, ratio, ratio_defined, Decimal, Timestamp, ONE,
};
use crate::pool::error::{generic, in_pool, overflow, product, sum, ContractError};
use crate::pool::generic_helpers::{enforce_transaction_deadline, in_time};
use crate::pool::state::{
    CreatorFeePot, PoolFeeState, PoolInfo, PoolState, PoolStore, Position, MINIMUM_LIQUIDITY,
};
use crate::table::Table;
use crate::text::digits;

verus! {

/// Positions of at least this many shares earn their fees in full.
pub const OPTIMAL_LIQUIDITY: u128 = 1_000_000;

/// What the smallest positions earn of their fees: 10%, in atomics.
pub const MIN_MULTIPLIER: u128 = 100_000_000_000_000_000;

/// The fees of `liquidity` shares since a snapshot, exactly.
pub open spec fn growth_of(liquidity: int, growth_now: int, growth_then: int) -> int {
    liquidity * minus_or_zero(growth_now, growth_then) / (ONE as int)
}

/// The fees that `liquidity` shares have earned since a snapshot.
pub fn calculate_unclaimed_fees(
    liquidity: u128,
    fee_growth_inside_last: Decimal,
    fee_growth_global: Decimal,
) -> (r: Result<u128, StdError>)
    ensures
        r == unclaimed_fees(liquidity, fee_growth_inside_last, fee_growth_global),
{
    if fee_growth_global.atomics > fee_growth_inside_last.atomics {
        let delta = Decimal { atomics: fee_growth_global.atomics - fee_growth_inside_last.atomics };
        match checked_mul_floor(liquidity, delta) {
            Some(fees) => Ok(fees),
            None => Err(
                StdError::Generic("Fee calculation overflow: Error converting Uint256 to Uint128"),
            ),
        }
    } else {
        proof {
            lemma_div_of0(ONE as int);
        }
        Ok(0)
    }
}

/// The fees that `liquidity` shares have earned since a snapshot, where they fit.
pub open spec fn unclaimed_fees(liquidity: u128, last: Decimal, now: Decimal) -> Result<
    u128,
    StdError,
> {
    let fees = growth_of(liquidity as int, now.atomics as int, last.atomics as int);
    if fees <= u128::MAX {
        Ok(fees as u128)
    } else {
        Err(StdError::Generic("Fee calculation overflow: Error converting Uint256 to Uint128"))
    }
}

/// What a position earned, split into what it gets and what its size multiplier clips.
pub open spec fn fees_owed_split(
    liquidity: u128,
    now: Decimal,
    last: Decimal,
    multiplier: Decimal,
) -> Result<(u128, u128), ContractError> {
    let base = growth_of(liquidity as int, now.atomics as int, last.atomics as int);
    let adjusted = base * multiplier.atomics / (ONE as int);
    if base > u128::MAX {
        Err(generic("Fee base overflow: Error converting Uint256 to Uint128"))
    } else if adjusted > u128::MAX {
        Err(generic("Fee multiplier overflow: Error converting Uint256 to Uint128"))
    } else {
        Ok((adjusted as u128, minus_or_zero(base, adjusted) as u128))
    }
}

/// What a position earned and gets.
pub fn calculate_fees_owed(
    liquidity: u128,
    fee_growth_global: Decimal,
    fee_growth_last: Decimal,
    fee_multiplier: Decimal,
) -> (r: Result<u128, ContractError>)
    ensures
        r == (match fees_owed_split(
            liquidity,
            fee_growth_global,
            fee_growth_last,
            fee_multiplier,
        ) {
            Ok((adjusted, _)) => Ok::<u128, ContractError>(adjusted),
            Err(e) => Err(e),
        }),
{
    let (adjusted, _clipped) = calculate_fees_owed_split(
        liquidity,
        fee_growth_global,
        fee_growth_last,
        fee_multiplier,
    )?;
    Ok(adjusted)
}

/// What a position earned, split into what it gets and what its size multiplier clips.
pub fn calculate_fees_owed_split(
    liquidity: u128,
    fee_growth_global: Decimal,
    fee_growth_last: Decimal,
    fee_multiplier: Decimal,
) -> (r: Result<(u128, u128), ContractError>)
    ensures
        r == fees_owed_split(liquidity, fee_growth_global, fee_growth_last, fee_multiplier),
{
    proof {
        lemma_div_of0(ONE as int);
        lemma_growth_not_negative(
            liquidity as int,
            fee_growth_global.atomics as int,
            fee_growth_last.atomics as int,
        );
        lemma_mul_by_zero_is_zero(fee_multiplier.atomics as int);
    }
    if fee_growth_global.atomics >= fee_growth_last.atomics {
        let delta = Decimal { atomics: fee_growth_global.atomics - fee_growth_last.atomics };
        let base: u128 = match checked_mul_floor(liquidity, delta) {
            Some(base) => base,
            None => {
                return Err(
                    ContractError::Std(
                        StdError::Generic("Fee base overflow: Error converting Uint256 to Uint128"),
                    ),
                );
            },
        };
        let adjusted: u128 = match checked_mul_floor(base, fee_multiplier) {
            Some(adjusted) => adjusted,
            None => {
                return Err(
                    ContractError::Std(
                        StdError::Generic(
                            "Fee multiplier overflow: Error converting Uint256 to Uint128",
                        ),
                    ),
                );
            },
        };
        proof {
            assert(0 <= base * fee_multiplier.atomics) by (nonlinear_arith);
            lemma_div_pos_is_pos(base * fee_multiplier.atomics, ONE as int);
        }
        Ok((adjusted, base.saturating_sub(adjusted)))
    } else {
        Ok((0, 0))
    }
}

proof fn lemma_growth_not_negative(liquidity: int, now: int, last: int)
    requires
        liquidity >= 0,
    ensures
        growth_of(liquidity, now, last) >= 0,
        now <= last ==> growth_of(liquidity, now, last) == 0,
{
    let delta = minus_or_zero(now, last);
    assert(liquidity * delta >= 0) by (nonlinear_arith)
        requires
            liquidity >= 0,
            delta >= 0,
    ;
    lemma_div_pos_is_pos(liquidity * delta, ONE as int);
    lemma_div_of0(ONE as int);
    lemma_mul_by_zero_is_zero(liquidity);
}

/// What one side of a fee claim comes to: what the provider is paid, what the position
/// is owed, and what goes to the creator. Both payments together stay within the reserve.
pub open spec fn capped(
    split: Result<(u128, u128), ContractError>,
    unclaimed: u128,
    reserve: u128,
) -> Result<(u128, u128, u128), ContractError> {
    match split {
        Err(e) => Err(e),
        Ok((adjusted, clipped)) => match sum(adjusted, unclaimed) {
            Err(e) => Err(e),
            Ok(owed) => {
                let paid = min(owed as int, reserve as int);
                Ok((paid as u128, owed, min(clipped as int, reserve - paid) as u128))
            },
        },
    }
}

pub open spec fn capped_0(position: Position, fees: PoolFeeState) -> Result<
    (u128, u128, u128),
    ContractError,
> {
    capped(
        fees_owed_split(
            position.liquidity,
            fees.fee_growth_global_0,
            position.fee_growth_inside_0_last,
            position.fee_size_multiplier,
        ),
        position.unclaimed_fees_0,
        fees.fee_reserve_0,
    )
}

pub open spec fn capped_1(position: Position, fees: PoolFeeState) -> Result<
    (u128, u128, u128),
    ContractError,
> {
    capped(
        fees_owed_split(
            position.liquidity,
            fees.fee_growth_global_1,
            position.fee_growth_inside_1_last,
            position.fee_size_multiplier,
        ),
        position.unclaimed_fees_1,
        fees.fee_reserve_1,
    )
}

/// The errors of a fee claim, in the order in which they are met: what was earned on
/// either side first, what was preserved after that.
pub open spec fn capped_fees(position: Position, fees: PoolFeeState) -> Result<
    ((u128, u128), (u128, u128), (u128, u128)),
    ContractError,
> {
    let split_0 = fees_owed_split(
        position.liquidity,
        fees.fee_growth_global_0,
        position.fee_growth_inside_0_last,
        position.fee_size_multiplier,
    );
    let split_1 = fees_owed_split(
        position.liquidity,
        fees.fee_growth_global_1,
        position.fee_growth_inside_1_last,
        position.fee_size_multiplier,
    );
    if split_0 is Err {
        Err(split_0->Err_0)
    } else if split_1 is Err {
        Err(split_1->Err_0)
    } else {
        match (capped_0(position, fees), capped_1(position, fees)) {
            (Ok((paid_0, owed_0, clip_0)), Ok((paid_1, owed_1, clip_1))) => Ok(
                ((paid_0, paid_1), (owed_0, owed_1), (clip_0, clip_1)),
            ),
            (Err(e), _) => Err(e),
            (_, Err(e)) => Err(e),
        }
    }
}

/// What a position is paid now, on both sides.
pub fn calc_capped_fees(position: &Position, pool_fee_state: &PoolFeeState) -> (r: Result<
    (u128, u128),
    ContractError,
>)
    ensures
        r == (match capped_fees(*position, *pool_fee_state) {
            Ok((paid, _, _)) => Ok::<(u128, u128), ContractError>(paid),
            Err(e) => Err(e),
        }),
{
    let (paid, _owed, _clipped) = calc_capped_fees_with_clip(position, pool_fee_state)?;
    Ok(paid)
}

/// What a position is paid now, what it is owed, and what goes to the creator's pot, each
/// on both sides.
pub fn calc_capped_fees_with_clip(position: &Position, pool_fee_state: &PoolFeeState) -> (r: Result<
    ((u128, u128), (u128, u128), (u128, u128)),
    ContractError,
>)
    ensures
        r == capped_fees(*position, *pool_fee_state),
{
    let (adjusted_0, clipped_0) = calculate_fees_owed_split(
        position.liquidity,
        pool_fee_state.fee_growth_global_0,
        position.fee_growth_inside_0_last,
        position.fee_size_multiplier,
    )?;
    let (adjusted_1, clipped_1) = calculate_fees_owed_split(
        position.liquidity,
        pool_fee_state.fee_growth_global_1,
        position.fee_growth_inside_1_last,
        position.fee_size_multiplier,
    )?;
    let owed_0: u128 = sum(adjusted_0, position.unclaimed_fees_0)?;
    let owed_1: u128 = sum(adjusted_1, position.unclaimed_fees_1)?;
    let paid_0: u128 = min_u128(owed_0, pool_fee_state.fee_reserve_0);
    let paid_1: u128 = min_u128(owed_1, pool_fee_state.fee_reserve_1);
    let clip_0: u128 = min_u128(clipped_0, pool_fee_state.fee_reserve_0 - paid_0);
    let clip_1: u128 = min_u128(clipped_1, pool_fee_state.fee_reserve_1 - paid_1);
    Ok(((paid_0, paid_1), (owed_0, owed_1), (clip_0, clip_1)))
}

/// The messages that pay both sides to one account; a side of zero sends nothing.
pub open spec fn payment_msgs(
    pool_info: PoolInfo,
    recipient: Addr,
    amount_0: u128,
    amount_1: u128,
) -> Result<Seq<CosmosMsg>, ContractError> {
    let first = match bluechip_denom(pool_info.pool_info.asset_infos) {
        Ok(denom) => Ok(seq![CosmosMsg::BankSend { to_address: recipient, denom, amount: amount_0 }]),
        Err(e) => Err(ContractError::Std(e)),
    };
    let second = seq![
        CosmosMsg::Cw20Transfer {
            contract_addr: pool_info.token_address,
            recipient,
            amount: amount_1,
        },
    ];
    let first = if amount_0 == 0 {
        Ok(Seq::<CosmosMsg>::empty())
    } else {
        first
    };
    match first {
        Ok(msgs) => Ok(
            if amount_1 == 0 {
                msgs
            } else {
                msgs + second
            },
        ),
        Err(e) => Err(e),
    }
}

/// The messages that pay collected fees to a provider.
pub fn build_fee_transfer_msgs(
    pool_info: &PoolInfo,
    recipient: &Addr,
    amount_0: u128,
    amount_1: u128,
) -> (r: Result<Vec<CosmosMsg>, ContractError>)
    ensures
        match r {
            Ok(msgs) => payment_msgs(*pool_info, *recipient, amount_0, amount_1) == Ok::<
                Seq<CosmosMsg>,
                ContractError,
            >(msgs@),
            Err(e) => payment_msgs(*pool_info, *recipient, amount_0, amount_1) == Err::<
                Seq<CosmosMsg>,
                ContractError,
            >(e),
        },
{
    let mut msgs: Vec<CosmosMsg> = Vec::new();
    if amount_0 != 0 {
        let denom = in_pool(get_bluechip_denom(&pool_info.pool_info.asset_infos))?;
        msgs.push(
            CosmosMsg::BankSend { to_address: recipient.clone(), denom, amount: amount_0 },
        );
    }
    if amount_1 != 0 {
        msgs.push(
            CosmosMsg::Cw20Transfer {
                contract_addr: pool_info.token_address.clone(),
                recipient: recipient.clone(),
                amount: amount_1,
            },
        );
    }
    assert(payment_msgs(*pool_info, *recipient, amount_0, amount_1)->Ok_0 =~= msgs@);
    Ok(msgs)
}

/// Checks that an amount is at least what was asked for.
pub fn check_slippage(actual: u128, min: Option<u128>, token: &String) -> (r: Result<
    (),
    ContractError,
>)
    ensures
        r == (match min {
            Some(expected) if actual < expected => Err::<(), ContractError>(
                ContractError::SlippageExceeded { expected, actual, token: *token },
            ),
            _ => Ok(()),
        }),
{
    if let Some(expected) = min {
        if actual < expected {
            return Err(
                ContractError::SlippageExceeded { expected, actual, token: token.clone() },
            );
        }
    }
    Ok(())
}

/// How far two decimals are apart, in basis points of the smaller one.
pub open spec fn deviation_bps(a: int, b: int) -> int {
    let larger = if a > b { a } else { b };
    let smaller = if a > b { b } else { a };
    ratio((larger - smaller) * 10000, smaller) / (ONE as int)
}

/// Whether the amounts and their minima are there to be compared.
pub open spec fn deviation_applies(
    actual_amount0: u128,
    actual_amount1: u128,
    min_amount0: Option<u128>,
    min_amount1: Option<u128>,
    max_ratio_deviation_bps: Option<u16>,
) -> bool {
    &&& max_ratio_deviation_bps is Some
    &&& min_amount0 matches Some(min0)
    &&& min_amount1 matches Some(min1)
    &&& min0 != 0
    &&& min1 != 0
    &&& actual_amount0 != 0
    &&& actual_amount1 != 0
}

/// Whether the ratios and their deviation are decimals in range.
pub open spec fn deviation_defined(
    actual_amount0: u128,
    actual_amount1: u128,
    min_amount0: Option<u128>,
    min_amount1: Option<u128>,
    max_ratio_deviation_bps: Option<u16>,
) -> bool {
    deviation_applies(
        actual_amount0,
        actual_amount1,
        min_amount0,
        min_amount1,
        max_ratio_deviation_bps,
    ) ==> {
        let expected = ratio(min_amount0->Some_0 as int, min_amount1->Some_0 as int);
        let actual = ratio(actual_amount0 as int, actual_amount1 as int);
        let smaller = min(expected, actual);
        let diff = if actual > expected { actual - expected } else { expected - actual };
        &&& expected <= u128::MAX
        &&& actual <= u128::MAX
        &&& diff * 10000 <= u128::MAX ==> ratio_defined(diff * 10000, smaller)
    }
}

/// The outcome of the ratio check.
pub open spec fn ratio_check(
    actual_amount0: u128,
    actual_amount1: u128,
    min_amount0: Option<u128>,
    min_amount1: Option<u128>,
    max_ratio_deviation_bps: Option<u16>,
) -> Result<(), ContractError> {
    let expected = ratio(min_amount0->Some_0 as int, min_amount1->Some_0 as int);
    let actual = ratio(actual_amount0 as int, actual_amount1 as int);
    let diff = if actual > expected { actual - expected } else { expected - actual };
    let bps = min(deviation_bps(actual, expected), u16::MAX as int);
    if !deviation_applies(
        actual_amount0,
        actual_amount1,
        min_amount0,
        min_amount1,
        max_ratio_deviation_bps,
    ) {
        Ok(())
    } else if diff * 10000 > u128::MAX {
        Err(generic("Deviation calculation overflow"))
    } else if bps > max_ratio_deviation_bps->Some_0 {
        Err(
            ContractError::RatioDeviationExceeded {
                expected_ratio: Decimal { atomics: expected as u128 },
                actual_ratio: Decimal { atomics: actual as u128 },
                max_deviation_bps: max_ratio_deviation_bps->Some_0,
                actual_deviation_bps: bps as u16,
            },
        )
    } else {
        Ok(())
    }
}

/// Checks that two amounts are in the ratio of their minima, up to a deviation in basis
/// points. Nothing is checked where one of these is not given or zero.
pub fn check_ratio_deviation(
    actual_amount0: u128,
    actual_amount1: u128,
    min_amount0: Option<u128>,
    min_amount1: Option<u128>,
    max_ratio_deviation_bps: Option<u16>,
) -> (r: Result<(), ContractError>)
    requires
        deviation_defined(
            actual_amount0,
            actual_amount1,
            min_amount0,
            min_amount1,
            max_ratio_deviation_bps,
        ),
    ensures
        r == ratio_check(
            actual_amount0,
            actual_amount1,
            min_amount0,
            min_amount1,
            max_ratio_deviation_bps,
        ),
{
    let max_deviation_bps: u16 = match max_ratio_deviation_bps {
        Some(v) => v,
        None => {
            return Ok(());
        },
    };
    let (min0, min1): (u128, u128) = match (min_amount0, min_amount1) {
        (Some(a), Some(b)) => (a, b),
        _ => {
            return Ok(());
        },
    };
    if min0 == 0 || min1 == 0 || actual_amount0 == 0 || actual_amount1 == 0 {
        return Ok(());
    }
    let expected_ratio = decimal_from_ratio(min0, min1);
    let actual_ratio = decimal_from_ratio(actual_amount0, actual_amount1);
    let (larger, smaller) = if actual_ratio.atomics > expected_ratio.atomics {
        (actual_ratio, expected_ratio)
    } else {
        (expected_ratio, actual_ratio)
    };
    let diff = Decimal { atomics: larger.atomics - smaller.atomics };
    proof {
        assert(diff.atomics * (10000 * ONE) == (diff.atomics * 10000) * ONE) by (nonlinear_arith);
        lemma_div_by_multiple(diff.atomics * 10000, ONE as int);
    }
    let scaled = match decimal_checked_mul(diff, Decimal { atomics: 10000 * ONE }) {
        Some(scaled) => scaled,
        None => {
            return Err(ContractError::Std(StdError::Generic("Deviation calculation overflow")));
        },
    };
    let raw: u128 = decimal_div(scaled, smaller).atomics / ONE;
    let actual_deviation_bps: u16 = if raw > u16::MAX as u128 {
        u16::MAX
    } else {
        raw as u16
    };
    if actual_deviation_bps > max_deviation_bps {
        return Err(
            ContractError::RatioDeviationExceeded {
                expected_ratio,
                actual_ratio,
                max_deviation_bps,
                actual_deviation_bps,
            },
        );
    }
    Ok(())
}

/// What a position of `liquidity` shares earns of its fees, in atomics: all of them from
/// the optimal size on, and below it 10% and the rest in proportion to its size.
pub open spec fn size_multiplier(liquidity: int) -> int {
    if liquidity >= OPTIMAL_LIQUIDITY {
        ONE as int
    } else {
        MIN_MULTIPLIER + (ONE - MIN_MULTIPLIER) * ratio(liquidity, OPTIMAL_LIQUIDITY as int) / (
        ONE as int)
    }
}

/// Linear scaling from 10% to 100% by the size of a position, which keeps dust positions
/// from paying off.
pub fn calculate_fee_size_multiplier(liquidity: u128) -> (r: Decimal)
    ensures
        r.atomics == size_multiplier(liquidity as int),
{
    if liquidity >= OPTIMAL_LIQUIDITY {
        Decimal::one()
    } else {
        proof {
            lemma_size_multiplier(liquidity as int);
        }
        let part = decimal_from_ratio(liquidity, OPTIMAL_LIQUIDITY);
        let rest = Decimal { atomics: ONE - MIN_MULTIPLIER };
        match decimal_checked_mul(rest, part) {
            Some(scaled) => Decimal { atomics: MIN_MULTIPLIER + scaled.atomics },
            None => {
                assert(false);
                Decimal::one()
            },
        }
    }
}

/// The multiplier lies between 10% and 100%.
pub proof fn lemma_size_multiplier(liquidity: int)
    requires
        0 <= liquidity,
    ensures
        MIN_MULTIPLIER <= size_multiplier(liquidity) <= ONE,
        liquidity < OPTIMAL_LIQUIDITY ==> 0 <= ratio(liquidity, OPTIMAL_LIQUIDITY as int) <= ONE,
        liquidity < OPTIMAL_LIQUIDITY ==> 0 <= (ONE - MIN_MULTIPLIER) * ratio(
            liquidity,
            OPTIMAL_LIQUIDITY as int,
        ) / (ONE as int) <= ONE - MIN_MULTIPLIER,
{
    if liquidity < OPTIMAL_LIQUIDITY {
        crate::pool::swap_helper::lemma_part_ratio(liquidity, OPTIMAL_LIQUIDITY as int);
        let part = ratio(liquidity, OPTIMAL_LIQUIDITY as int);
        let rest = ONE - MIN_MULTIPLIER;
        assert(0 <= rest * part <= rest * ONE) by (nonlinear_arith)
            requires
                0 <= part <= ONE,
                0 <= rest,
        ;
        lemma_div_pos_is_pos(rest * part, ONE as int);
        lemma_div_is_ordered(rest * part, rest * ONE, ONE as int);
        lemma_div_by_multiple(rest, ONE as int);
    }
}

/// The square root of `value`, rounded down.
pub fn integer_sqrt(value: u128) -> (r: u128)
    ensures
        is_sqrt(value as int, r as int),
        r == sqrt_floor(value as int),
{
    if value == 0 {
        assert(is_sqrt(0, 0)) by (nonlinear_arith);
        proof {
            lemma_sqrt_unique(0, 0);
        }
        return 0;
    }
    let ghost v = value as int;
    let mut x: u128 = value;
    let mut y: u128 = value.saturating_add(1) / 2;
    proof {
        assert((v + 1) * (v + 1) > v) by (nonlinear_arith)
            requires
                v > 0,
        ;
        let y0 = y as int;
        assert((y0 + 1) * (y0 + 1) > v) by (nonlinear_arith)
            requires
                0 <= v <= 2 * y0 + 1,
                y0 >= 1,
        ;
        assert(y0 >= v ==> v * v <= v) by (nonlinear_arith)
            requires
                v > 0,
                2 * y0 <= v + 1,
        ;
    }
    while y < x
        invariant
            value > 0,
            v == value,
            1 <= x,
            1 <= y,
            y <= 0x8000_0000_0000_0000_0000_0000_0000_0000u128,
            (x + 1) * (x + 1) > v,
            (y + 1) * (y + 1) > v,
            y >= x ==> x * x <= v,
        decreases x,
    {
        x = y;
        let q: u128 = value / x;
        proof {
            let xi = x as int;
            let qi = q as int;
            lemma_fundamental_div_mod(v, xi);
            lemma_mod_bound(v, xi);
            lemma_newton_step(v, xi, qi, (xi + qi) / 2);
            if xi == 1 {
                assert((xi + 1) * (xi + 1) == 4) by (nonlinear_arith)
                    requires
                        xi == 1,
                ;
            } else {
                lemma_div_is_ordered_by_denominator(v, 2, xi);
            }
        }
        y = x.saturating_add(q) / 2;
    }
    proof {
        lemma_sqrt_unique(v, x as int);
    }
    x
}

/// Whether `r` is the square root of `v`, rounded down.
pub open spec fn is_sqrt(v: int, r: int) -> bool {
    r * r <= v < (r + 1) * (r + 1)
}

/// The square root of `v`, rounded down.
pub open spec fn sqrt_floor(v: int) -> int {
    choose|r: int| r >= 0 && is_sqrt(v, r)
}

/// A number has one square root, rounded down.
pub proof fn lemma_sqrt_unique(v: int, r: int)
    requires
        r >= 0,
        is_sqrt(v, r),
    ensures
        sqrt_floor(v) == r,
{
    let s = sqrt_floor(v);
    assert(s >= 0 && is_sqrt(v, s));
    if s < r {
        assert((s + 1) * (s + 1) <= r * r) by (nonlinear_arith)
            requires
                0 <= s + 1 <= r,
        ;
    } else if r < s {
        assert((r + 1) * (r + 1) <= s * s) by (nonlinear_arith)
            requires
                0 <= r + 1 <= s,
        ;
    }
}

/// Every number has a square root, rounded down.
pub proof fn lemma_sqrt_exists(v: int)
    requires
        v >= 0,
    ensures
        is_sqrt(v, sqrt_floor(v)),
        0 <= sqrt_floor(v) <= v,
    decreases v,
{
    if v == 0 {
        assert(is_sqrt(0, 0)) by (nonlinear_arith);
        lemma_sqrt_unique(0, 0);
    } else {
        lemma_sqrt_exists(v - 1);
        let r = sqrt_floor(v - 1);
        if (r + 1) * (r + 1) <= v {
            assert((r + 2) * (r + 2) > (r + 1) * (r + 1)) by (nonlinear_arith)
                requires
                    r >= 0,
            ;
            assert(is_sqrt(v, r + 1));
            lemma_sqrt_unique(v, r + 1);
        } else {
            assert(is_sqrt(v, r));
            lemma_sqrt_unique(v, r);
        }
    }
}

proof fn lemma_newton_step(v: int, x: int, q: int, y: int)
    requires
        x >= 1,
        v >= 1,
        q >= 0,
        x * q <= v < x * q + x,
        (x + 1) * (x + 1) > v,
        y == (x + q) / 2,
    ensures
        (y + 1) * (y + 1) > v,
        y >= x ==> x * x <= v,
        y >= 1,
{
    let t = x + q + 1;
    assert(x * q + x == x * (q + 1)) by (nonlinear_arith);
    assert(t * t >= 4 * (x * (q + 1))) by (nonlinear_arith)
        requires
            t == x + (q + 1),
    ;
    assert(2 * (y + 1) >= t);
    assert((2 * (y + 1)) * (2 * (y + 1)) >= t * t) by (nonlinear_arith)
        requires
            2 * (y + 1) >= t,
            t >= 0,
    ;
    assert((2 * (y + 1)) * (2 * (y + 1)) == 4 * ((y + 1) * (y + 1))) by (nonlinear_arith);
    if y >= x {
        assert(q >= x);
        assert(x * x <= x * q) by (nonlinear_arith)
            requires
                q >= x,
                x >= 1,
        ;
    }
    if x == 1 {
        assert(q == v) by (nonlinear_arith)
            requires
                x == 1,
                x * q <= v < x * q + x,
        ;
    }
}

/// What two amounts come to in the ratio of the reserves, without exceeding either.
pub open spec fn matched_amounts(
    reserve0: int,
    reserve1: int,
    amount0: int,
    amount1: int,
) -> (int, int) {
    let optimal1 = reserve1 * amount0 / reserve0;
    let optimal0 = reserve0 * amount1 / reserve1;
    if optimal1 <= amount1 {
        (amount0, optimal1)
    } else {
        (optimal0, amount1)
    }
}

/// Whether matching two amounts to the reserves stays within 128 bits.
pub open spec fn matching_defined(
    reserve0: int,
    reserve1: int,
    amount0: int,
    amount1: int,
) -> bool {
    &&& reserve1 * amount0 / reserve0 <= u128::MAX
    &&& reserve0 * amount1 / reserve1 <= u128::MAX
}

/// Whether the pool has reserves on both sides and shares of them.
pub open spec fn has_shares(s: PoolState) -> bool {
    s.reserve0 != 0 && s.reserve1 != 0 && s.total_liquidity != 0
}

/// Whether the shares of a deposit can be calculated within 128 bits.
pub open spec fn deposit_defined(s: PoolState, amount0: u128, amount1: u128) -> bool {
    let r0 = s.reserve0 as int;
    let r1 = s.reserve1 as int;
    let (used0, used1) = matched_amounts(r0, r1, amount0 as int, amount1 as int);
    amount0 != 0 && amount1 != 0 && r0 != 0 && r1 != 0 ==> {
        &&& matching_defined(r0, r1, amount0 as int, amount1 as int)
        &&& has_shares(s) && used0 != 0 && used1 != 0 ==> {
            &&& s.total_liquidity * used0 / r0 <= u128::MAX
            &&& s.total_liquidity * used1 / r1 <= u128::MAX
        }
    }
}

/// The shares of a deposit into a pool that has none: the square root of the product,
/// less the locked minimum where the pool is empty.
pub open spec fn first_shares(s: PoolState, used0: int, used1: int) -> Result<
    (u128, u128, u128),
    ContractError,
> {
    let raw = if sqrt_floor(used0 * used1) == 0 { 1 } else { sqrt_floor(used0 * used1) };
    if used0 == 0 || used1 == 0 {
        Err(ContractError::InsufficientLiquidity {  })
    } else if used0 * used1 > u128::MAX {
        Err(overflow(OverflowOperation::Mul))
    } else if s.reserve0 != 0 || s.reserve1 != 0 {
        Ok((raw as u128, used0 as u128, used1 as u128))
    } else if raw <= MINIMUM_LIQUIDITY {
        Err(ContractError::InsufficientLiquidityMinted {  })
    } else {
        Ok(((raw - MINIMUM_LIQUIDITY) as u128, used0 as u128, used1 as u128))
    }
}

/// The shares of a deposit into a pool that has some: in proportion to the reserves, by
/// the side that gives less.
pub open spec fn more_shares(s: PoolState, used0: int, used1: int) -> Result<
    (u128, u128, u128),
    ContractError,
> {
    let shares = min(
        s.total_liquidity * used0 / (s.reserve0 as int),
        s.total_liquidity * used1 / (s.reserve1 as int),
    );
    if used0 == 0 || used1 == 0 {
        Err(ContractError::InsufficientLiquidity {  })
    } else if shares == 0 {
        Err(ContractError::InsufficientLiquidityMinted {  })
    } else {
        Ok((shares as u128, used0 as u128, used1 as u128))
    }
}

/// The shares of a deposit, and what it uses of either amount.
pub open spec fn deposit_outcome(s: PoolState, amount0: u128, amount1: u128) -> Result<
    (u128, u128, u128),
    ContractError,
> {
    let (used0, used1) = if s.reserve0 != 0 && s.reserve1 != 0 {
        matched_amounts(s.reserve0 as int, s.reserve1 as int, amount0 as int, amount1 as int)
    } else {
        (amount0 as int, amount1 as int)
    };
    if has_shares(s) {
        if amount0 == 0 {
            Err(generic("amount0 is zero"))
        } else if amount1 == 0 {
            Err(generic("amount1 is zero"))
        } else {
            more_shares(s, used0, used1)
        }
    } else if amount0 == 0 || amount1 == 0 {
        Err(generic("Initial deposit requires both assets"))
    } else {
        first_shares(s, used0, used1)
    }
}

fn match_amounts(reserve0: u128, reserve1: u128, amount0: u128, amount1: u128) -> (r: (u128, u128))
    requires
        reserve0 != 0,
        reserve1 != 0,
        matching_defined(reserve0 as int, reserve1 as int, amount0 as int, amount1 as int),
    ensures
        (r.0 as int, r.1 as int) == matched_amounts(
            reserve0 as int,
            reserve1 as int,
            amount0 as int,
            amount1 as int,
        ),
{
    let optimal1: u128 = multiply_ratio(reserve1, amount0, reserve0);
    let optimal0: u128 = multiply_ratio(reserve0, amount1, reserve1);
    if optimal1 <= amount1 {
        (amount0, optimal1)
    } else {
        (optimal0, amount1)
    }
}

/// The shares of a deposit, and what it uses of either amount.
pub fn calc_liquidity_for_deposit(
    pool_state: &PoolState,
    amount0: u128,
    amount1: u128,
) -> (r: Result<(u128, u128, u128), ContractError>)
    requires
        deposit_defined(*pool_state, amount0, amount1),
    ensures
        r == deposit_outcome(*pool_state, amount0, amount1),
{
    let reserve0: u128 = pool_state.reserve0;
    let reserve1: u128 = pool_state.reserve1;
    let total_liquidity: u128 = pool_state.total_liquidity;
    if reserve0 == 0 || reserve1 == 0 || total_liquidity == 0 {
        if amount0 == 0 || amount1 == 0 {
            return Err(
                ContractError::Std(StdError::Generic("Initial deposit requires both assets")),
            );
        }
        let (used0, used1): (u128, u128) = if reserve0 != 0 && reserve1 != 0 {
            match_amounts(reserve0, reserve1, amount0, amount1)
        } else {
            (amount0, amount1)
        };
        if used0 == 0 || used1 == 0 {
            return Err(ContractError::InsufficientLiquidity {  });
        }
        let root: u128 = integer_sqrt(product(used0, used1)?);
        let raw: u128 = if root == 0 {
            1
        } else {
            root
        };
        let liquidity: u128 = if reserve0 == 0 && reserve1 == 0 {
            if raw <= MINIMUM_LIQUIDITY {
                return Err(ContractError::InsufficientLiquidityMinted {  });
            }
            raw - MINIMUM_LIQUIDITY
        } else {
            raw
        };
        return Ok((liquidity, used0, used1));
    }
    if amount0 == 0 {
        return Err(ContractError::Std(StdError::Generic("amount0 is zero")));
    }
    if amount1 == 0 {
        return Err(ContractError::Std(StdError::Generic("amount1 is zero")));
    }
    let (used0, used1): (u128, u128) = match_amounts(reserve0, reserve1, amount0, amount1);
    if used0 == 0 || used1 == 0 {
        return Err(ContractError::InsufficientLiquidity {  });
    }
    let shares0: u128 = multiply_ratio(total_liquidity, used0, reserve0);
    let shares1: u128 = multiply_ratio(total_liquidity, used1, reserve1);
    let liquidity: u128 = min_u128(shares0, shares1);
    if liquidity == 0 {
        return Err(ContractError::InsufficientLiquidityMinted {  });
    }
    Ok((liquidity, used0, used1))
}

/// Checks that a position token belongs to an account. `owner` is what the token contract
/// answered.
pub fn verify_position_ownership(owner: Result<Addr, StdError>, expected_owner: &Addr) -> (r: Result<
    (),
    ContractError,
>)
    ensures
        r == (match owner {
            Err(e) => Err::<(), ContractError>(ContractError::Std(e)),
            Ok(owner) => if owner@ == expected_owner@ {
                Ok(())
            } else {
                Err(ContractError::Unauthorized {  })
            },
        }),
{
    let owner = in_pool(owner)?;
    if owner != *expected_owner {
        return Err(ContractError::Unauthorized {  });
    }
    Ok(())
}

/// Whether the index lists a position under an owner.
pub open spec fn listed(
    index: Map<Seq<char>, Table<bool>>,
    owner: Seq<char>,
    position_id: Seq<char>,
) -> bool {
    index.dom().contains(owner) && index[owner]@.dom().contains(position_id)
}

/// Whether every list of the index is in order.
pub open spec fn index_wf(index: Table<Table<bool>>) -> bool {
    &&& index.wf()
    &&& forall|k: Seq<char>| #[trigger] index@.dom().contains(k) ==> index@[k].wf()
}

/// Lists a position under an owner.
pub(crate) fn list_position(index: &mut Table<Table<bool>>, owner: &Addr, position_id: &String)
    requires
        index_wf(*old(index)),
    ensures
        index_wf(*final(index)),
        forall|o: Seq<char>, p: Seq<char>| #[trigger]
            listed(final(index)@, o, p) <==> (o == owner@ && p == position_id@) || listed(
                old(index)@,
                o,
                p,
            ),
{
    let mut list = match index.take(owner.as_str()) {
        Some(list) => list,
        None => Table::new(),
    };
    list.insert(position_id.clone(), true);
    index.insert(owner.clone(), list);
}

/// Takes a position off the list of an owner.
fn unlist_position(index: &mut Table<Table<bool>>, owner: &Addr, position_id: &String)
    requires
        index_wf(*old(index)),
    ensures
        index_wf(*final(index)),
        forall|o: Seq<char>, p: Seq<char>| #[trigger]
            listed(final(index)@, o, p) <==> !(o == owner@ && p == position_id@) && listed(
                old(index)@,
                o,
                p,
            ),
{
    if let Some(list) = index.take(owner.as_str()) {
        let mut list = list;
        list.remove(position_id.as_str());
        index.insert(owner.clone(), list);
    }
}

/// A position in the hands of another owner, from here on.
pub open spec fn handed_over(p: Position, owner: Addr, fees: PoolFeeState) -> Position {
    Position {
        owner,
        fee_growth_inside_0_last: fees.fee_growth_global_0,
        fee_growth_inside_1_last: fees.fee_growth_global_1,
        unclaimed_fees_0: 0,
        unclaimed_fees_1: 0,
        ..p
    }
}

/// What noting the owner of a position does to it and to the lists of positions.
pub open spec fn transfer_outcome(
    before: PoolStore,
    after: PoolStore,
    p: Position,
    q: Position,
    position_id: Seq<char>,
    owner: Addr,
    fees: PoolFeeState,
    r: bool,
) -> bool {
    &&& r == (p.owner@ != owner@)
    &&& !r ==> after == before && q == p
    &&& r ==> {
        &&& q == handed_over(p, owner, fees)
        &&& after == (PoolStore {
            positions: after.positions,
            owner_positions: after.owner_positions,
            ..before
        })
        &&& after.positions@ == before.positions@.insert(position_id, q)
        &&& forall|o: Seq<char>, id: Seq<char>| #[trigger]
            listed(after.owner_positions@, o, id) <==> (o == owner@ && id == position_id) || (!(o
                == p.owner@ && id == position_id) && listed(before.owner_positions@, o, id))
    }
}

/// Notes that a position token changed hands. The new owner earns from here on: what the
/// position earned before is not theirs.
pub fn sync_position_on_transfer(
    store: &mut PoolStore,
    position: &mut Position,
    position_id: &String,
    current_owner: &Addr,
    pool_fee_state: &PoolFeeState,
) -> (r: bool)
    requires
        old(store).wf(),
    ensures
        final(store).wf(),
        transfer_outcome(
            *old(store),
            *final(store),
            *old(position),
            *final(position),
            position_id@,
            *current_owner,
            *pool_fee_state,
            r,
        ),
{
    if position.owner == *current_owner {
        return false;
    }
    let old_owner = position.owner.clone();
    position.fee_growth_inside_0_last = pool_fee_state.fee_growth_global_0;
    position.fee_growth_inside_1_last = pool_fee_state.fee_growth_global_1;
    position.unclaimed_fees_0 = 0;
    position.unclaimed_fees_1 = 0;
    position.owner = current_owner.clone();
    unlist_position(&mut store.owner_positions, &old_owner, position_id);
    list_position(&mut store.owner_positions, current_owner, position_id);
    store.positions.insert(position_id.clone(), position.clone());
    true
}

/// What claiming the creator's fees does, and what it answers.
pub open spec fn claim_fees_outcome(
    before: PoolStore,
    after: PoolStore,
    env: Env,
    info: MessageInfo,
    deadline: Option<Timestamp>,
    r: Result<Response, ContractError>,
) -> bool {
    let creator = before.fee_info.creator_wallet_address;
    let pot = before.creator_fee_pot;
    let msgs = payment_msgs(before.pool_info, creator, pot.amount_0, pot.amount_1);
    let failed = |e: ContractError| r == Err::<Response, ContractError>(e) && after == before;
    if in_time(env.time, deadline) is Err {
        failed(in_time(env.time, deadline)->Err_0)
    } else if info.sender@ != creator@ {
        failed(ContractError::Unauthorized {  })
    } else if pot.amount_0 == 0 && pot.amount_1 == 0 {
        failed(ContractError::ZeroAmount {  })
    } else if msgs is Err {
        failed(msgs->Err_0)
    } else {
        &&& after == (PoolStore {
            creator_fee_pot: CreatorFeePot { amount_0: 0, amount_1: 0 },
            ..before
        })
        &&& r matches Ok(resp)
        &&& resp.messages@ == msgs->Ok_0
        &&& resp.attrs() == at_block(
            Seq::<Pair>::empty().push(("action"@, "claim_creator_fees"@)).push(
                ("creator"@, creator@),
            ).push(("amount_0"@, digits(pot.amount_0 as nat))).push(
                ("amount_1"@, digits(pot.amount_1 as nat)),
            ).push(("pool_contract"@, env.contract@)),
            env,
        )
    }
}

/// Empties the creator's fee pot into the creator's wallet; only the creator may call.
pub fn execute_claim_creator_fees(
    store: &mut PoolStore,
    env: &Env,
    info: &MessageInfo,
    transaction_deadline: Option<Timestamp>,
) -> (r: Result<Response, ContractError>)
    requires
        old(store).wf(),
    ensures
        final(store).wf(),
        claim_fees_outcome(
            *old(store),
            *final(store),
            *env,
            *info,
            transaction_deadline,
            r,
        ),
{
    enforce_transaction_deadline(env.time, transaction_deadline)?;
    if info.sender != store.fee_info.creator_wallet_address {
        return Err(ContractError::Unauthorized {  });
    }
    let pot = store.creator_fee_pot;
    if pot.amount_0 == 0 && pot.amount_1 == 0 {
        return Err(ContractError::ZeroAmount {  });
    }
    let messages = build_fee_transfer_msgs(
        &store.pool_info,
        &store.fee_info.creator_wallet_address,
        pot.amount_0,
        pot.amount_1,
    )?;
    store.creator_fee_pot = CreatorFeePot { amount_0: 0, amount_1: 0 };
    Ok(
        Response::with_messages(messages).attr("action", "claim_creator_fees").attr(
            "creator",
            store.fee_info.creator_wallet_address.as_str(),
        ).attr_number("amount_0", pot.amount_0).attr_number("amount_1", pot.amount_1).attr(
            "pool_contract",
            env.contract.as_str(),
        ).at_block(env),
    )
}

/// What claiming the locked excess does, and what it answers.
pub open spec fn claim_excess_outcome(
    before: PoolStore,
    after: PoolStore,
    env: Env,
    info: MessageInfo,
    deadline: Option<Timestamp>,
    r: Result<Response, ContractError>,
) -> bool {
    let excess = before.creator_excess->Some_0;
    let msgs = payment_msgs(
        before.pool_info,
        excess.creator,
        excess.bluechip_amount,
        excess.token_amount,
    );
    let failed = |e: ContractError| r == Err::<Response, ContractError>(e) && after == before;
    if in_time(env.time, deadline) is Err {
        failed(in_time(env.time, deadline)->Err_0)
    } else if before.creator_excess is None {
        failed(
            ContractError::Std(
                StdError::NotFound(
                    Missing {
                        type_path: "bluechip::pool::state::CreatorExcessLiquidity",
                        namespace: "creator_excess",
                        key: None,
                    },
                ),
            ),
        )
    } else if info.sender@ != excess.creator@ {
        failed(ContractError::Unauthorized {  })
    } else if env.time.nanos < excess.unlock_time.nanos {
        failed(ContractError::PositionLocked { unlock_time: excess.unlock_time })
    } else if msgs is Err {
        failed(msgs->Err_0)
    } else {
        &&& after == (PoolStore { creator_excess: None, ..before })
        &&& r matches Ok(resp)
        &&& resp.messages@ == msgs->Ok_0
        &&& resp.attrs() == at_block(
            Seq::<Pair>::empty().push(("action"@, "claim_creator_excess"@)).push(
                ("creator"@, excess.creator@),
            ).push(("bluechip_amount"@, digits(excess.bluechip_amount as nat))).push(
                ("token_amount"@, digits(excess.token_amount as nat)),
            ).push(("pool_contract"@, env.contract@)),
            env,
        )
    }
}

/// Pays what is locked for the creator to the creator, once it is unlocked.
pub fn execute_claim_creator_excess(
    store: &mut PoolStore,
    env: &Env,
    info: &MessageInfo,
    transaction_deadline: Option<Timestamp>,
) -> (r: Result<Response, ContractError>)
    requires
        old(store).wf(),
    ensures
        final(store).wf(),
        claim_excess_outcome(
            *old(store),
            *final(store),
            *env,
            *info,
            transaction_deadline,
            r,
        ),
{
    enforce_transaction_deadline(env.time, transaction_deadline)?;
    let response = match &store.creator_excess {
        None => {
            return Err(
                ContractError::Std(
                    StdError::NotFound(
                        Missing {
                            type_path: "bluechip::pool::state::CreatorExcessLiquidity",
                            namespace: "creator_excess",
                            key: None,
                        },
                    ),
                ),
            );
        },
        Some(excess) => {
            if info.sender != excess.creator {
                return Err(ContractError::Unauthorized {  });
            }
            if env.time.nanos < excess.unlock_time.nanos {
                return Err(ContractError::PositionLocked { unlock_time: excess.unlock_time });
            }
            let messages = build_fee_transfer_msgs(
                &store.pool_info,
                &excess.creator,
                excess.bluechip_amount,
                excess.token_amount,
            )?;
            Response::with_messages(messages).attr("action", "claim_creator_excess").attr(
                "creator",
                excess.creator.as_str(),
            ).attr_number("bluechip_amount", excess.bluechip_amount).attr_number(
                "token_amount",
                excess.token_amount,
            ).attr("pool_contract", env.contract.as_str()).at_block(env)
        },
    };
    store.creator_excess = None;
    Ok(response)
}

} // verus!
