//! What shares, the fees they earn and the checks on them must satisfy.

use vstd::arithmetic::div_mod::*;
use vstd::arithmetic::mul::*;
use vstd::prelude::*;

use crate::chain::Addr;
use crate::error::StdError;
use crate::number::{Decimal, ONE};
use crate::pool::error::ContractError;
use crate::pool::liquidity_helpers::{
    calc_capped_fees, calc_capped_fees_with_clip, calc_liquidity_for_deposit,
    calculate_fee_size_multiplier, calculate_fees_owed, calculate_fees_owed_split,
    calculate_unclaimed_fees, check_ratio_deviation, check_slippage, deposit_defined, integer_sqrt,
    lemma_sqrt_exists, listed, transfer_outcome, verify_position_ownership,
};
use crate::pool::state::{PoolFeeState, PoolState, PoolStore, Position};
use crate::pool::swap_laws::{is_floor, lemma_is_floor};

verus! {

/// What shares earned since a snapshot: their part of the growth since then, rounded down.
pub open spec fn earned(liquidity: int, now: Decimal, then: Decimal) -> int {
    if now.atomics > then.atomics {
        liquidity * (now.atomics - then.atomics) / (ONE as int)
    } else {
        0
    }
}

pub proof fn lemma_earned(liquidity: u128, now: Decimal, then: Decimal)
    ensures
        0 <= earned(liquidity as int, now, then),
        earned(liquidity as int, now, then) == crate::pool::liquidity_helpers::growth_of(
            liquidity as int,
            now.atomics as int,
            then.atomics as int,
        ),
        now.atomics > then.atomics ==> is_floor(
            earned(liquidity as int, now, then),
            liquidity * (now.atomics - then.atomics),
            ONE as int,
        ),
{
    if now.atomics > then.atomics {
        let d = now.atomics - then.atomics;
        assert(liquidity * d >= 0) by (nonlinear_arith)
            requires
                d > 0,
        ;
        lemma_is_floor(liquidity * d, ONE as int);
    } else {
        lemma_mul_by_zero_is_zero(liquidity as int);
        lemma_div_of0(ONE as int);
    }
}

/// Shares earn their part of what the growth rose by since their snapshot: nothing where it did
/// not rise, and more the more it rose.
pub proof fn law_shares_earn_their_part(
    liquidity: u128,
    then: Decimal,
    now: Decimal,
    r: Result<u128, StdError>,
)
    requires
        call_ensures(calculate_unclaimed_fees, (liquidity, then, now), r),
    ensures
        match r {
            Ok(fees) => if now.atomics > then.atomics {
                is_floor(
                    fees as int,
                    liquidity * (now.atomics - then.atomics),
                    ONE as int,
                )
            } else {
                fees == 0
            },
            Err(_) => earned(liquidity as int, now, then) > u128::MAX,
        },
{
    lemma_earned(liquidity, now, then);
}

/// What a position earned is split in two by its multiplier: the part it gets, and the rest.
pub proof fn law_earnings_are_split(
    liquidity: u128,
    now: Decimal,
    then: Decimal,
    multiplier: Decimal,
    r: Result<(u128, u128), ContractError>,
    owed: Result<u128, ContractError>,
)
    requires
        call_ensures(calculate_fees_owed_split, (liquidity, now, then, multiplier), r),
        call_ensures(calculate_fees_owed, (liquidity, now, then, multiplier), owed),
    ensures
        ({
            let all = earned(liquidity as int, now, then);
            match r {
                Ok((gets, rest)) => {
                    &&& is_floor(gets as int, all * multiplier.atomics, ONE as int)
                    &&& multiplier.atomics <= ONE ==> gets + rest == all
                    &&& multiplier.atomics > ONE && gets >= all ==> rest == 0
                    &&& owed == Ok::<u128, ContractError>(gets)
                },
                Err(_) => owed is Err && (all > u128::MAX || all * multiplier.atomics / (ONE as int)
                    > u128::MAX),
            }
        }),
{
    lemma_earned(liquidity, now, then);
    let all = earned(liquidity as int, now, then);
    assert(all * multiplier.atomics >= 0) by (nonlinear_arith)
        requires
            all >= 0,
    ;
    lemma_is_floor(all * multiplier.atomics, ONE as int);
    if multiplier.atomics <= ONE {
        assert(all * multiplier.atomics <= all * ONE) by (nonlinear_arith)
            requires
                all >= 0,
                multiplier.atomics <= ONE,
        ;
        lemma_div_is_ordered(all * multiplier.atomics, all * ONE, ONE as int);
        lemma_div_by_multiple(all, ONE as int);
    }
}

/// One side of a claim: what was preserved and what was earned is owed, as much of it as the
/// reserve holds is paid, and what was clipped goes on as far as the rest of the reserve allows.
pub open spec fn side_is_settled(
    liquidity: int,
    now: Decimal,
    then: Decimal,
    multiplier: Decimal,
    preserved: int,
    reserve: int,
    paid: int,
    owed: int,
    clipped: int,
) -> bool {
    let all = earned(liquidity, now, then);
    &&& is_floor(owed - preserved, all * multiplier.atomics, ONE as int)
    &&& paid == (if owed < reserve {
        owed
    } else {
        reserve
    })
    &&& multiplier.atomics <= ONE ==> clipped == (if all - (owed - preserved) < reserve - paid {
        all - (owed - preserved)
    } else {
        reserve - paid
    })
    &&& 0 <= clipped <= reserve - paid
}

/// A claim settles both sides, each from its own growth, snapshot and reserve.
pub proof fn law_claims_settle_both_sides(
    position: Position,
    fees: PoolFeeState,
    r: Result<((u128, u128), (u128, u128), (u128, u128)), ContractError>,
    paid_only: Result<(u128, u128), ContractError>,
)
    requires
        call_ensures(calc_capped_fees_with_clip, (&position, &fees), r),
        call_ensures(calc_capped_fees, (&position, &fees), paid_only),
    ensures
        r matches Ok((paid, owed, clipped)) ==> {
            &&& side_is_settled(
                position.liquidity as int,
                fees.fee_growth_global_0,
                position.fee_growth_inside_0_last,
                position.fee_size_multiplier,
                position.unclaimed_fees_0 as int,
                fees.fee_reserve_0 as int,
                paid.0 as int,
                owed.0 as int,
                clipped.0 as int,
            )
            &&& side_is_settled(
                position.liquidity as int,
                fees.fee_growth_global_1,
                position.fee_growth_inside_1_last,
                position.fee_size_multiplier,
                position.unclaimed_fees_1 as int,
                fees.fee_reserve_1 as int,
                paid.1 as int,
                owed.1 as int,
                clipped.1 as int,
            )
            &&& paid_only == Ok::<(u128, u128), ContractError>(paid)
        },
        r is Err ==> paid_only is Err,
{
    let l = position.liquidity;
    let m = position.fee_size_multiplier;
    lemma_split(l, fees.fee_growth_global_0, position.fee_growth_inside_0_last, m);
    lemma_split(l, fees.fee_growth_global_1, position.fee_growth_inside_1_last, m);
}

proof fn lemma_split(liquidity: u128, now: Decimal, then: Decimal, multiplier: Decimal)
    ensures
        crate::pool::liquidity_helpers::fees_owed_split(liquidity, now, then, multiplier) matches Ok(
            (gets, rest),
        ) ==> {
            let all = earned(liquidity as int, now, then);
            &&& is_floor(gets as int, all * multiplier.atomics, ONE as int)
            &&& multiplier.atomics <= ONE ==> gets + rest == all
        },
{
    lemma_earned(liquidity, now, then);
    let all = earned(liquidity as int, now, then);
    assert(all * multiplier.atomics >= 0) by (nonlinear_arith)
        requires
            all >= 0,
    ;
    lemma_is_floor(all * multiplier.atomics, ONE as int);
    if multiplier.atomics <= ONE {
        assert(all * multiplier.atomics <= all * ONE) by (nonlinear_arith)
            requires
                all >= 0,
                multiplier.atomics <= ONE,
        ;
        lemma_div_is_ordered(all * multiplier.atomics, all * ONE, ONE as int);
        lemma_div_by_multiple(all, ONE as int);
    }
}

/// The multiplier of a position: a tenth, and nine tenths in proportion to its size up to a
/// million shares.
pub proof fn law_multiplier_is_linear(liquidity: u128, r: Decimal)
    requires
        call_ensures(calculate_fee_size_multiplier, (liquidity,), r),
    ensures
        liquidity >= 1_000_000 ==> r.atomics == 1_000_000_000_000_000_000,
        liquidity < 1_000_000 ==> r.atomics == 100_000_000_000_000_000 + 900_000_000_000
            * liquidity,
{
    if liquidity < 1_000_000 {
        let l = liquidity as int;
        assert(l * 1_000_000_000_000_000_000 / 1_000_000 == l * 1_000_000_000_000);
        assert(900_000_000_000_000_000 * (l * 1_000_000_000_000) / 1_000_000_000_000_000_000
            == 900_000_000_000 * l);
    }
}

/// The square root is rounded down.
pub proof fn law_square_root_is_rounded_down(value: u128, r: u128)
    requires
        call_ensures(integer_sqrt, (value,), r),
    ensures
        r * r <= value < (r + 1) * (r + 1),
{
    lemma_sqrt_exists(value as int);
}

/// An amount passes where it is no smaller than what was asked for, and only there.
pub proof fn law_slippage_is_bounded(
    actual: u128,
    min: Option<u128>,
    token: String,
    r: Result<(), ContractError>,
)
    requires
        call_ensures(check_slippage, (actual, min, &token), r),
    ensures
        r is Ok <==> (min matches Some(m) ==> actual >= m),
        r matches Err(e) ==> e == (ContractError::SlippageExceeded {
            expected: min->Some_0,
            actual,
            token,
        }),
{
}

/// A position token passes for its owner, and for nobody else.
pub proof fn law_owners_pass(
    owner: Result<Addr, StdError>,
    expected: Addr,
    r: Result<(), ContractError>,
)
    requires
        call_ensures(verify_position_ownership, (owner, &expected), r),
    ensures
        r is Ok <==> (owner matches Ok(o) && o@ == expected@),
        owner matches Err(e) ==> r == Err::<(), ContractError>(ContractError::Std(e)),
        owner matches Ok(o) && o@ != expected@ ==> r == Err::<(), ContractError>(
            ContractError::Unauthorized {  },
        ),
{
}

/// The ratio of two amounts may be off that of their minima by a number of basis points of the
/// smaller ratio; without minima or without a number anything passes.
pub proof fn law_ratios_are_bounded(
    actual0: u128,
    actual1: u128,
    min0: Option<u128>,
    min1: Option<u128>,
    max_bps: Option<u16>,
    r: Result<(), ContractError>,
    bps: int,
)
    requires
        call_ensures(check_ratio_deviation, (actual0, actual1, min0, min1, max_bps), r),
        actual0 > 0 && actual1 > 0,
        min0 matches Some(m) && m > 0,
        min1 matches Some(m) && m > 0,
        max_bps is Some,
        ({
            let expected = min0->Some_0 * ONE / (min1->Some_0 as int);
            let actual = actual0 * ONE / (actual1 as int);
            let diff = if actual > expected { actual - expected } else { expected - actual };
            let smaller = if actual > expected { expected } else { actual };
            smaller > 0 && is_floor(bps, diff * 10000, smaller)
        }),
        bps <= u16::MAX,
        r matches Err(e) ==> e is RatioDeviationExceeded,
    ensures
        r is Ok <==> bps <= max_bps->Some_0,
        r matches Err(ContractError::RatioDeviationExceeded {
            expected_ratio,
            actual_ratio,
            max_deviation_bps,
            actual_deviation_bps,
        }) ==> {
            &&& max_deviation_bps == max_bps->Some_0
            &&& actual_deviation_bps == bps
            &&& min0->Some_0 * ONE / (min1->Some_0 as int) <= u128::MAX ==> expected_ratio.atomics
                == min0->Some_0 * ONE / (min1->Some_0 as int)
            &&& actual0 * ONE / (actual1 as int) <= u128::MAX ==> actual_ratio.atomics == actual0
                * ONE / (actual1 as int)
        },
{
    let expected = min0->Some_0 * ONE / (min1->Some_0 as int);
    let actual = actual0 * ONE / (actual1 as int);
    let diff = if actual > expected { actual - expected } else { expected - actual };
    let smaller = if actual > expected { expected } else { actual };
    let d = diff * 10000;
    // Rounding twice is rounding once.
    lemma_is_floor(d, smaller);
    assert(bps == d / smaller) by {
        let q = d / smaller;
        if bps < q {
            assert(bps * smaller + smaller <= q * smaller) by (nonlinear_arith)
                requires
                    bps + 1 <= q,
                    smaller > 0,
            ;
        } else if bps > q {
            assert(q * smaller + smaller <= bps * smaller) by (nonlinear_arith)
                requires
                    q + 1 <= bps,
                    smaller > 0,
            ;
        }
    }
    assert(d * ONE / smaller / (ONE as int) == d / smaller) by {
        lemma_div_denominator(d * ONE, smaller, ONE as int);
        lemma_mul_is_commutative(smaller, ONE as int);
        lemma_div_denominator(d * ONE, ONE as int, smaller);
        lemma_div_by_multiple(d, ONE as int);
    }
}

/// Where there is nothing to compare, the ratio passes.
pub proof fn law_missing_ratios_pass(
    actual0: u128,
    actual1: u128,
    min0: Option<u128>,
    min1: Option<u128>,
    max_bps: Option<u16>,
    r: Result<(), ContractError>,
)
    requires
        call_ensures(check_ratio_deviation, (actual0, actual1, min0, min1, max_bps), r),
        actual0 == 0 || actual1 == 0 || min0 is None || min1 is None || min0 == Some(0u128) || min1
            == Some(0u128) || max_bps is None,
    ensures
        r is Ok,
{
}

/// A deposit is matched to the reserves: all of one amount is used, and of the other what goes
/// with it. Its shares are its part of those that there are; the first ones are the root of the
/// product, and where the pool was empty a thousand of them stay locked.
pub proof fn law_deposits_get_their_shares(
    s: PoolState,
    amount0: u128,
    amount1: u128,
    shares: u128,
    used0: u128,
    used1: u128,
)
    requires
        deposit_defined(s, amount0, amount1),
        call_ensures(
            calc_liquidity_for_deposit,
            (&s, amount0, amount1),
            Ok::<(u128, u128, u128), ContractError>((shares, used0, used1)),
        ),
    ensures
        shares > 0,
        s.reserve0 == 0 || s.reserve1 == 0 ==> used0 == amount0 && used1 == amount1,
        s.reserve0 > 0 && s.reserve1 > 0 ==> {
            ||| used0 == amount0 && used1 <= amount1 && is_floor(
                used1 as int,
                s.reserve1 * amount0,
                s.reserve0 as int,
            )
            ||| used1 == amount1 && s.reserve1 * amount0 / (s.reserve0 as int) > amount1 && used0
                <= u128::MAX && is_floor(used0 as int, s.reserve0 * amount1, s.reserve1 as int)
        },
        s.reserve0 > 0 && s.reserve1 > 0 && s.total_liquidity > 0 ==> {
            let by0 = s.total_liquidity * used0 / (s.reserve0 as int);
            let by1 = s.total_liquidity * used1 / (s.reserve1 as int);
            shares as int == if by0 < by1 {
                by0
            } else {
                by1
            }
        },
        !(s.reserve0 > 0 && s.reserve1 > 0 && s.total_liquidity > 0) ==> {
            let raw = if s.reserve0 == 0 && s.reserve1 == 0 {
                shares + 1000
            } else {
                shares as int
            };
            raw * raw <= used0 * used1 < (raw + 1) * (raw + 1)
        },
{
    if s.reserve0 > 0 && s.reserve1 > 0 {
        assert(s.reserve1 * amount0 >= 0 && s.reserve0 * amount1 >= 0) by (nonlinear_arith);
        lemma_is_floor(s.reserve1 * amount0, s.reserve0 as int);
        lemma_is_floor(s.reserve0 * amount1, s.reserve1 as int);
    }
    assert(used0 * used1 >= 1) by (nonlinear_arith)
        requires
            used0 >= 1,
            used1 >= 1,
    ;
    lemma_sqrt_exists(used0 * used1);
    let q = crate::pool::liquidity_helpers::sqrt_floor(used0 * used1);
    assert(q >= 1) by (nonlinear_arith)
        requires
            (q + 1) * (q + 1) > 1,
            q >= 0,
    ;
}

/// A position that changes hands is taken off the list of its former owner and put on that of the
/// new one, who earns from here on; no other list and no other position changes. One that stays
/// in the same hands stays as it is.
pub proof fn law_transfers_hand_over(
    before: PoolStore,
    after: PoolStore,
    p: Position,
    q: Position,
    id: Seq<char>,
    owner: Addr,
    fees: PoolFeeState,
    r: bool,
    someone: Seq<char>,
    other: Seq<char>,
)
    requires
        transfer_outcome(before, after, p, q, id, owner, fees, r),
    ensures
        r == (p.owner@ != owner@),
        !r ==> after == before && q == p,
        r ==> {
            &&& q.owner@ == owner@
            &&& q.liquidity == p.liquidity
            &&& q.fee_growth_inside_0_last == fees.fee_growth_global_0
            &&& q.fee_growth_inside_1_last == fees.fee_growth_global_1
            &&& q.unclaimed_fees_0 == 0 && q.unclaimed_fees_1 == 0
            &&& q.fee_size_multiplier == p.fee_size_multiplier
            &&& q.created_at == p.created_at && q.last_fee_collection == p.last_fee_collection
            &&& listed(after.owner_positions@, owner@, id)
            &&& !listed(after.owner_positions@, p.owner@, id)
            &&& someone != owner@ && someone != p.owner@ || other != id ==> listed(
                after.owner_positions@,
                someone,
                other,
            ) == listed(before.owner_positions@, someone, other)
            &&& after.positions@ == before.positions@.insert(id, q)
            &&& after == (PoolStore {
                positions: after.positions,
                owner_positions: after.owner_positions,
                ..before
            })
        },
{
}

/// Whether what one side of a position earned, or is owed, goes out of range.
pub open spec fn side_overflows(
    liquidity: int,
    now: Decimal,
    then: Decimal,
    multiplier: Decimal,
    preserved: int,
) -> bool {
    let all = earned(liquidity, now, then);
    ||| all > u128::MAX
    ||| all * multiplier.atomics / (ONE as int) + preserved > u128::MAX
}

/// A claim fails only where what it is owed goes out of range.
pub proof fn law_claims_fail_for_a_number(
    position: Position,
    fees: PoolFeeState,
    r: Result<((u128, u128), (u128, u128), (u128, u128)), ContractError>,
)
    requires
        call_ensures(calc_capped_fees_with_clip, (&position, &fees), r),
    ensures
        r is Err ==> side_overflows(
            position.liquidity as int,
            fees.fee_growth_global_0,
            position.fee_growth_inside_0_last,
            position.fee_size_multiplier,
            position.unclaimed_fees_0 as int,
        ) || side_overflows(
            position.liquidity as int,
            fees.fee_growth_global_1,
            position.fee_growth_inside_1_last,
            position.fee_size_multiplier,
            position.unclaimed_fees_1 as int,
        ),
{
    let l = position.liquidity;
    lemma_earned(l, fees.fee_growth_global_0, position.fee_growth_inside_0_last);
    lemma_earned(l, fees.fee_growth_global_1, position.fee_growth_inside_1_last);
}

/// A ratio that is compared fails only where it is too far off, or where how far it is off goes
/// out of range. What is off by more than can be told is off by the most that can.
pub proof fn law_ratios_fail_for_a_reason(
    actual0: u128,
    actual1: u128,
    min0: u128,
    min1: u128,
    max_bps: u16,
    r: Result<(), ContractError>,
)
    requires
        call_ensures(
            check_ratio_deviation,
            (actual0, actual1, Some(min0), Some(min1), Some(max_bps)),
            r,
        ),
        actual0 > 0 && actual1 > 0 && min0 > 0 && min1 > 0,
    ensures
        ({
            let expected = min0 * ONE / (min1 as int);
            let actual = actual0 * ONE / (actual1 as int);
            let diff = if actual > expected {
                actual - expected
            } else {
                expected - actual
            };
            let smaller = if actual > expected {
                expected
            } else {
                actual
            };
            let bps = diff * 10000 * ONE / smaller / (ONE as int);
            match r {
                Ok(_) => diff * 10000 <= u128::MAX && (bps <= max_bps || max_bps == u16::MAX),
                Err(ContractError::RatioDeviationExceeded { actual_deviation_bps, .. }) => {
                    &&& bps > max_bps
                    &&& actual_deviation_bps == (if bps < u16::MAX {
                        bps
                    } else {
                        u16::MAX as int
                    })
                },
                Err(_) => diff * 10000 > u128::MAX,
            }
        }),
{
}

/// A deposit is refused only where an amount is zero or comes to zero in the ratio of the
/// reserves, where its product goes out of range, or where it is worth no share beyond those that
/// stay locked.
pub proof fn law_deposits_are_refused_for_a_reason(
    s: PoolState,
    amount0: u128,
    amount1: u128,
    e: ContractError,
    root: int,
)
    requires
        deposit_defined(s, amount0, amount1),
        root >= 0,
        root * root <= amount0 * amount1 < (root + 1) * (root + 1),
        call_ensures(
            calc_liquidity_for_deposit,
            (&s, amount0, amount1),
            Err::<(u128, u128, u128), ContractError>(e),
        ),
    ensures
        ({
            let held = s.reserve0 > 0 && s.reserve1 > 0;
            let goes1 = s.reserve1 * amount0 / (s.reserve0 as int);
            let goes0 = s.reserve0 * amount1 / (s.reserve1 as int);
            let used0 = if held && goes1 > amount1 {
                goes0
            } else {
                amount0 as int
            };
            let used1 = if held && goes1 <= amount1 {
                goes1
            } else {
                amount1 as int
            };
            match e {
                ContractError::InsufficientLiquidity {  } => amount0 > 0 && amount1 > 0 && held && (
                used0 == 0 || used1 == 0),
                ContractError::InsufficientLiquidityMinted {  } => if held {
                    s.total_liquidity > 0 && (s.total_liquidity * used0 < s.reserve0
                        || s.total_liquidity * used1 < s.reserve1)
                } else {
                    s.reserve0 == 0 && s.reserve1 == 0 && root <= 1000
                },
                ContractError::Std(_) => amount0 == 0 || amount1 == 0 || used0 * used1 > u128::MAX,
                _ => false,
            }
        }),
{
    let held = s.reserve0 > 0 && s.reserve1 > 0;
    if amount0 > 0 && amount1 > 0 {
        if held {
            assert(s.reserve1 * amount0 >= 0 && s.reserve0 * amount1 >= 0) by (nonlinear_arith);
            lemma_div_pos_is_pos(s.reserve1 * amount0, s.reserve0 as int);
            lemma_div_pos_is_pos(s.reserve0 * amount1, s.reserve1 as int);
            let (used0, used1) = crate::pool::liquidity_helpers::matched_amounts(
                s.reserve0 as int,
                s.reserve1 as int,
                amount0 as int,
                amount1 as int,
            );
            let a = s.total_liquidity * used0;
            let b = s.total_liquidity * used1;
            assert(a >= 0 && b >= 0) by (nonlinear_arith)
                requires
                    a == s.total_liquidity * used0,
                    b == s.total_liquidity * used1,
                    used0 >= 0,
                    used1 >= 0,
            ;
            if a >= s.reserve0 {
                lemma_div_is_ordered(s.reserve0 as int, a, s.reserve0 as int);
                lemma_div_by_self(s.reserve0 as int);
            }
            if b >= s.reserve1 {
                lemma_div_is_ordered(s.reserve1 as int, b, s.reserve1 as int);
                lemma_div_by_self(s.reserve1 as int);
            }
        } else {
            crate::pool::liquidity_helpers::lemma_sqrt_unique(amount0 * amount1, root);
        }
    }
}

} // verus!
