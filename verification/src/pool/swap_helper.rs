//! Prices: constant-product swaps, the time-weighted price and the spread check.

use vstd::arithmetic::div_mod::*;
use vstd::prelude::*;

use crate::error::{OverflowOperation, StdError};
use crate::number::{
    decimal256_div, decimal256_from_ratio, decimal_from_ratio, decimal_inv, inverse, limb,
    minus_or_zero, ratio, wide_checked_div, wide_checked_mul, wide_end, Decimal, Wide, ONE,
};
use crate::pool::error::{overflow, ContractError};
use crate::pool::generic_helpers::decimal2decimal256;
use crate::pool::state::PoolState;

verus! {

/// The spread that is allowed where the trader names none: 0.005, in atomics.
pub const DEFAULT_SLIPPAGE: u128 = 5_000_000_000_000_000;

/// What a constant-product swap of `amount` takes out of the ask side, before the
/// commission: `ask_pool - offer_pool * ask_pool / (offer_pool + amount)`, with the
/// quotient rounded down to 18 digits and the difference to a whole number.
pub open spec fn gross_return(offer_pool: int, ask_pool: int, amount: int) -> int {
    (ask_pool * ONE - offer_pool * ask_pool * ONE / (offer_pool + amount)) / (ONE as int)
}

/// The price of the ask token before a swap, in atomics.
pub open spec fn spot_price(offer_pool: int, ask_pool: int) -> int {
    ask_pool * ONE / offer_pool
}

/// What `amount` would return at the price before the swap.
pub open spec fn ideal_return(offer_pool: int, ask_pool: int, amount: int) -> int {
    amount * spot_price(offer_pool, ask_pool) / (ONE as int)
}

/// The commission on a return, at a rate given in atomics.
pub open spec fn commission_on(gross: int, rate: int) -> int {
    gross * rate / (ONE as int)
}

/// Return after commission, spread and commission of a swap.
pub open spec fn swap_outcome(
    offer_pool: int,
    ask_pool: int,
    amount: int,
    rate: int,
) -> Result<(u128, u128, u128), StdError> {
    let gross = gross_return(offer_pool, ask_pool, amount);
    let spread = minus_or_zero(ideal_return(offer_pool, ask_pool, amount), gross);
    let commission = commission_on(gross, rate);
    if amount * spot_price(offer_pool, ask_pool) >= wide_end() {
        Err(StdError::Generic("Overflow calculating spread: Cannot Mul with given operands"))
    } else if commission > gross {
        Err(StdError::Generic("Underflow subtracting commission: Cannot Sub with given operands"))
    } else if spread > u128::MAX {
        Err(StdError::ConversionOverflow)
    } else {
        Ok(((gross - commission) as u128, spread as u128, commission as u128))
    }
}

/// The ask side always covers the gross return.
pub proof fn lemma_gross_return_bounds(offer_pool: int, ask_pool: int, amount: int)
    requires
        offer_pool > 0,
        ask_pool >= 0,
        amount >= 0,
    ensures
        0 <= offer_pool * ask_pool * ONE / (offer_pool + amount) <= ask_pool * ONE,
        0 <= gross_return(offer_pool, ask_pool, amount) <= ask_pool,
{
    let n = offer_pool + amount;
    let cp = offer_pool * ask_pool;
    let a = ask_pool * ONE;
    assert(cp * ONE == offer_pool * a) by (nonlinear_arith)
        requires
            cp == offer_pool * ask_pool,
            a == ask_pool * ONE,
    ;
    assert(0 <= offer_pool * a <= a * n) by (nonlinear_arith)
        requires
            a >= 0,
            offer_pool > 0,
            n >= offer_pool,
    ;
    let q = cp * ONE / n;
    lemma_div_pos_is_pos(cp * ONE, n);
    lemma_div_is_ordered(cp * ONE, a * n, n);
    lemma_div_by_multiple(a, n);
    assert(0 <= q <= a);
    lemma_div_pos_is_pos(a - q, ONE as int);
    lemma_div_is_ordered(a - q, a, ONE as int);
    lemma_div_by_multiple(ask_pool, ONE as int);
}

/// Calculates a swap with the constant product formula: return after commission, spread
/// and commission.
pub fn compute_swap(
    offer_pool: u128,
    ask_pool: u128,
    offer_amount: u128,
    commission_rate: Decimal,
) -> (r: Result<(u128, u128, u128), StdError>)
    requires
        offer_pool > 0,
    ensures
        r == swap_outcome(
            offer_pool as int,
            ask_pool as int,
            offer_amount as int,
            commission_rate.atomics as int,
        ),
{
    let ghost o = offer_pool as int;
    let ghost a = ask_pool as int;
    let ghost x = offer_amount as int;
    let ghost rate = commission_rate.atomics as int;
    let one = Wide::from_u128(ONE);
    let ask = Wide::from_u128(ask_pool);
    let offer = Wide::from_u128(offer_pool);
    let amount = Wide::from_u128(offer_amount);
    proof {
        lemma_gross_return_bounds(o, a, x);
        lemma_product_fits(o, a);
        lemma_scaled_fits(a);
    }
    let cp = match wide_checked_mul(offer, ask) {
        Some(cp) => cp,
        None => {
            assert(false);
            return Err(
                StdError::Generic(
                    "Overflow calculating constant product: Cannot Mul with given operands",
                ),
            );
        },
    };
    let ask_scaled = decimal256_from_ratio(ask, Wide::from_u128(1));
    let kept = decimal256_from_ratio(cp, Wide::sum(offer_pool, offer_amount));
    let taken = match ask_scaled.checked_sub(kept) {
        Some(taken) => taken,
        None => {
            assert(false);
            return Err(StdError::ConversionOverflow);
        },
    };
    let gross = match wide_checked_div(taken, one) {
        Some(gross) => gross,
        None => {
            assert(false);
            return Err(StdError::ConversionOverflow);
        },
    };
    assert(gross.val() == gross_return(o, a, x));
    proof {
        lemma_spot_price_fits(o, a);
    }
    let price = decimal256_from_ratio(ask, offer);
    let ideal = match wide_checked_mul(amount, price) {
        Some(product) => match wide_checked_div(product, one) {
            Some(ideal) => ideal,
            None => {
                assert(false);
                return Err(StdError::ConversionOverflow);
            },
        },
        None => {
            return Err(
                StdError::Generic("Overflow calculating spread: Cannot Mul with given operands"),
            );
        },
    };
    assert(ideal.val() == ideal_return(o, a, x));
    let spread = match ideal.checked_sub(gross) {
        Some(spread) => spread,
        None => Wide::from_u128(0),
    };
    proof {
        lemma_product_fits(gross.val(), rate);
    }
    let commission = match wide_checked_mul(gross, decimal2decimal256(commission_rate)) {
        Some(product) => match wide_checked_div(product, one) {
            Some(commission) => commission,
            None => {
                assert(false);
                return Err(StdError::ConversionOverflow);
            },
        },
        None => {
            assert(false);
            return Err(
                StdError::Generic("Overflow calculating commission: Cannot Mul with given operands"),
            );
        },
    };
    assert(commission.val() == commission_on(gross.val(), rate));
    proof {
        assert(gross.val() * rate >= 0) by (nonlinear_arith)
            requires
                gross.val() >= 0,
                rate >= 0,
        ;
        lemma_div_pos_is_pos(gross.val() * rate, ONE as int);
    }
    let net = match gross.checked_sub(commission) {
        Some(net) => net,
        None => {
            return Err(
                StdError::Generic(
                    "Underflow subtracting commission: Cannot Sub with given operands",
                ),
            );
        },
    };
    match (net.to_u128(), spread.to_u128(), commission.to_u128()) {
        (Some(net), Some(spread), Some(commission)) => Ok((net, spread, commission)),
        _ => Err(StdError::ConversionOverflow),
    }
}

/// The state with the prices of the time since the last update added up. Nothing is
/// added while a side is empty.
pub open spec fn accumulated(s: PoolState, now: u64) -> Result<PoolState, ContractError> {
    let elapsed = minus_or_zero(now as int, s.block_time_last as int);
    let price0 = s.price0_cumulative_last + s.reserve1 * elapsed / (s.reserve0 as int);
    let price1 = s.price1_cumulative_last + s.reserve0 * elapsed / (s.reserve1 as int);
    if elapsed == 0 || s.reserve0 == 0 || s.reserve1 == 0 {
        Ok(s)
    } else if s.reserve1 * elapsed > u128::MAX || s.reserve0 * elapsed > u128::MAX {
        Err(overflow(OverflowOperation::Mul))
    } else if price0 > u128::MAX || price1 > u128::MAX {
        Err(overflow(OverflowOperation::Add))
    } else {
        Ok(
            PoolState {
                price0_cumulative_last: price0 as u128,
                price1_cumulative_last: price1 as u128,
                block_time_last: now,
                ..s
            },
        )
    }
}

/// Adds the prices of the time since the last update to the accumulators.
pub fn update_price_accumulator(pool_state: &mut PoolState, current_time: u64) -> (r: Result<
    (),
    ContractError,
>)
    ensures
        match r {
            Ok(_) => accumulated(*old(pool_state), current_time) == Ok::<PoolState, ContractError>(
                *final(pool_state),
            ),
            Err(e) => accumulated(*old(pool_state), current_time) == Err::<
                PoolState,
                ContractError,
            >(e) && *final(pool_state) == *old(pool_state),
        },
{
    let time_elapsed: u64 = current_time.saturating_sub(pool_state.block_time_last);
    if time_elapsed > 0 && pool_state.reserve0 != 0 && pool_state.reserve1 != 0 {
        let price0: u128 = match pool_state.reserve1.checked_mul(time_elapsed as u128) {
            Some(product) => product / pool_state.reserve0,
            None => {
                return Err(ContractError::Std(StdError::Overflow(OverflowOperation::Mul)));
            },
        };
        let price1: u128 = match pool_state.reserve0.checked_mul(time_elapsed as u128) {
            Some(product) => product / pool_state.reserve1,
            None => {
                return Err(ContractError::Std(StdError::Overflow(OverflowOperation::Mul)));
            },
        };
        match (
            pool_state.price0_cumulative_last.checked_add(price0),
            pool_state.price1_cumulative_last.checked_add(price1),
        ) {
            (Some(sum0), Some(sum1)) => {
                pool_state.price0_cumulative_last = sum0;
                pool_state.price1_cumulative_last = sum1;
                pool_state.block_time_last = current_time;
            },
            _ => {
                return Err(ContractError::Std(StdError::Overflow(OverflowOperation::Add)));
            },
        }
    }
    Ok(())
}

/// What has to leave the ask side, commission included, for `ask_amount` to arrive.
pub open spec fn ask_before_commission(ask_amount: int, rate: int) -> int {
    ask_amount * ONE * ONE / (ONE - rate) / (ONE as int)
}

/// Offer, spread and commission of a swap that returns `ask_amount`.
pub open spec fn offer_outcome(
    offer_pool: int,
    ask_pool: int,
    ask_amount: int,
    rate: int,
) -> Result<(u128, u128, u128), StdError> {
    let before = ask_before_commission(ask_amount, rate);
    let offer = offer_pool * ask_pool / (ask_pool - before) - offer_pool;
    let spread = minus_or_zero(offer, before * offer_pool / ask_pool);
    let commission = commission_on(before, rate);
    if before > ask_pool {
        Err(StdError::Generic("Insufficient liquidity in pool"))
    } else if before == ask_pool {
        Err(StdError::Generic("Division error"))
    } else if offer > u128::MAX {
        Err(StdError::ConversionOverflow)
    } else {
        Ok((offer as u128, spread as u128, commission as u128))
    }
}

/// Calculates what has to be offered for `ask_amount` to be returned: offer, spread and
/// commission.
pub fn compute_offer_amount(
    offer_pool: u128,
    ask_pool: u128,
    ask_amount: u128,
    commission_rate: Decimal,
) -> (r: Result<(u128, u128, u128), StdError>)
    requires
        commission_rate.atomics < ONE,
    ensures
        r == offer_outcome(
            offer_pool as int,
            ask_pool as int,
            ask_amount as int,
            commission_rate.atomics as int,
        ),
{
    let ghost o = offer_pool as int;
    let ghost a = ask_pool as int;
    let ghost x = ask_amount as int;
    let ghost rate = commission_rate.atomics as int;
    let one = Wide::from_u128(ONE);
    let ask = Wide::from_u128(ask_pool);
    let offer = Wide::from_u128(offer_pool);
    let kept_rate = Wide::from_u128(ONE - commission_rate.atomics);
    proof {
        lemma_scaled_fits(x);
        lemma_before_fits(x, ONE - rate);
    }
    let ask_scaled = decimal256_from_ratio(Wide::from_u128(ask_amount), Wide::from_u128(1));
    let before_scaled = decimal256_div(ask_scaled, kept_rate);
    let before = match wide_checked_div(before_scaled, one) {
        Some(before) => before,
        None => {
            assert(false);
            return Err(StdError::ConversionOverflow);
        },
    };
    assert(before.val() == ask_before_commission(x, rate));
    proof {
        lemma_div_pos_is_pos(before_scaled.val(), ONE as int);
        lemma_product_fits(o, a);
    }
    let cp = match wide_checked_mul(offer, ask) {
        Some(cp) => cp,
        None => {
            assert(false);
            return Err(StdError::ConversionOverflow);
        },
    };
    let new_ask = match ask.checked_sub(before) {
        Some(new_ask) => new_ask,
        None => {
            return Err(StdError::Generic("Insufficient liquidity in pool"));
        },
    };
    let new_offer = match wide_checked_div(cp, new_ask) {
        Some(new_offer) => new_offer,
        None => {
            return Err(StdError::Generic("Division error"));
        },
    };
    proof {
        lemma_offer_grows(o, a, new_ask.val());
    }
    let offer_amount = match new_offer.checked_sub(offer) {
        Some(offer_amount) => offer_amount,
        None => {
            assert(false);
            return Err(StdError::Generic("Invalid offer amount calculation"));
        },
    };
    proof {
        lemma_product_fits(before.val(), o);
        lemma_product_fits(before.val(), rate);
    }
    let expected = match wide_checked_mul(before, offer) {
        Some(product) => match wide_checked_div(product, ask) {
            Some(expected) => expected,
            None => {
                assert(false);
                return Err(StdError::ConversionOverflow);
            },
        },
        None => {
            assert(false);
            return Err(StdError::ConversionOverflow);
        },
    };
    proof {
        lemma_div_pos_is_pos(before.val() * o, a);
    }
    let spread = match offer_amount.checked_sub(expected) {
        Some(spread) => spread,
        None => Wide::from_u128(0),
    };
    let commission = match wide_checked_mul(before, decimal2decimal256(commission_rate)) {
        Some(product) => match wide_checked_div(product, one) {
            Some(commission) => commission,
            None => {
                assert(false);
                return Err(StdError::ConversionOverflow);
            },
        },
        None => {
            assert(false);
            return Err(StdError::ConversionOverflow);
        },
    };
    proof {
        lemma_commission_at_most_gross(before.val(), rate);
    }
    match (offer_amount.to_u128(), spread.to_u128(), commission.to_u128()) {
        (Some(offer_amount), Some(spread), Some(commission)) => Ok(
            (offer_amount, spread, commission),
        ),
        _ => Err(StdError::ConversionOverflow),
    }
}

/// A rate of at most one takes at most the gross return.
pub proof fn lemma_commission_at_most_gross(gross: int, rate: int)
    requires
        0 <= gross,
        0 <= rate <= ONE,
    ensures
        0 <= commission_on(gross, rate) <= gross,
{
    assert(0 <= gross * rate <= gross * ONE) by (nonlinear_arith)
        requires
            0 <= gross,
            0 <= rate <= ONE,
    ;
    lemma_div_pos_is_pos(gross * rate, ONE as int);
    lemma_div_is_ordered(gross * rate, gross * ONE, ONE as int);
    lemma_div_by_multiple(gross, ONE as int);
}

proof fn lemma_offer_grows(offer: int, ask: int, new_ask: int)
    requires
        0 <= offer,
        0 < new_ask <= ask,
    ensures
        offer * ask / new_ask >= offer,
{
    assert(offer * ask >= offer * new_ask) by (nonlinear_arith)
        requires
            0 <= offer,
            0 < new_ask <= ask,
    ;
    lemma_div_is_ordered(offer * new_ask, offer * ask, new_ask);
    lemma_div_by_multiple(offer, new_ask);
}

proof fn lemma_before_fits(ask_amount: int, kept: int)
    requires
        0 <= ask_amount <= u128::MAX,
        0 < kept <= ONE,
    ensures
        0 <= ask_amount * ONE * ONE / kept < wide_end(),
{
    let p = ask_amount * ONE * ONE;
    assert(0 <= p < limb() * limb()) by (nonlinear_arith)
        requires
            p == ask_amount * ONE * ONE,
            0 <= ask_amount < limb(),
            limb() == 0x1_0000_0000_0000_0000_0000_0000_0000_0000int,
            ONE == 1_000_000_000_000_000_000,
    ;
    lemma_div_pos_is_pos(p, kept);
    lemma_div_nonincreasing(p, kept);
}

/// The largest spread that a trader accepts, in atomics.
pub open spec fn spread_limit(max_spread: Option<Decimal>) -> int {
    match max_spread {
        Some(d) => d.atomics as int,
        None => DEFAULT_SLIPPAGE as int,
    }
}

/// What `amount` returns at the price that the trader expects.
pub open spec fn expected_return(amount: int, belief_price: int) -> int {
    amount * inverse(belief_price) / (ONE as int)
}

/// Whether the spread check stays within 128 bits.
pub open spec fn spread_check_defined(
    belief_price: Option<Decimal>,
    offer_amount: int,
    return_amount: int,
    spread_amount: int,
) -> bool {
    match belief_price {
        Some(p) => p.atomics == 0 || offer_amount * inverse(p.atomics as int) <= u128::MAX,
        None => return_amount + spread_amount <= u128::MAX,
    }
}

/// Whether a return is close enough to what was expected: to what the trader's own price
/// promises, or to the price before the swap.
pub open spec fn spread_check(
    belief_price: Option<Decimal>,
    max_spread: Option<Decimal>,
    offer_amount: int,
    return_amount: int,
    spread_amount: int,
) -> Result<(), ContractError> {
    let limit = spread_limit(max_spread);
    match belief_price {
        Some(p) => {
            let expected = expected_return(offer_amount, p.atomics as int);
            if p.atomics == 0 {
                Err(ContractError::InvalidBeliefPrice {  })
            } else if expected == 0 || (return_amount < expected && ratio(
                expected - return_amount,
                expected,
            ) > limit) {
                Err(ContractError::MaxSpreadAssertion {  })
            } else {
                Ok(())
            }
        },
        None => if return_amount + spread_amount == 0 || ratio(
            spread_amount,
            return_amount + spread_amount,
        ) > limit {
            Err(ContractError::MaxSpreadAssertion {  })
        } else {
            Ok(())
        },
    }
}

/// Checks the spread of a swap against the trader's own price, where there is one, or
/// against the price before the swap.
pub fn assert_max_spread(
    belief_price: Option<Decimal>,
    max_spread: Option<Decimal>,
    offer_amount: u128,
    return_amount: u128,
    spread_amount: u128,
) -> (r: Result<(), ContractError>)
    requires
        spread_check_defined(
            belief_price,
            offer_amount as int,
            return_amount as int,
            spread_amount as int,
        ),
    ensures
        r == spread_check(
            belief_price,
            max_spread,
            offer_amount as int,
            return_amount as int,
            spread_amount as int,
        ),
{
    let limit: u128 = match max_spread {
        Some(d) => d.atomics,
        None => DEFAULT_SLIPPAGE,
    };
    match belief_price {
        Some(price) => {
            let inv = match decimal_inv(price) {
                Some(inv) => inv,
                None => {
                    return Err(ContractError::InvalidBeliefPrice {  });
                },
            };
            proof {
                lemma_inverse_fits(price.atomics as int);
            }
            let expected: u128 = offer_amount * inv.atomics / ONE;
            if expected == 0 {
                return Err(ContractError::MaxSpreadAssertion {  });
            }
            if return_amount < expected {
                proof {
                    lemma_part_ratio(expected - return_amount, expected as int);
                }
                if decimal_from_ratio(expected - return_amount, expected).atomics > limit {
                    return Err(ContractError::MaxSpreadAssertion {  });
                }
            }
        },
        None => {
            let total: u128 = return_amount + spread_amount;
            if total == 0 {
                return Err(ContractError::MaxSpreadAssertion {  });
            }
            proof {
                lemma_part_ratio(spread_amount as int, total as int);
            }
            if decimal_from_ratio(spread_amount, total).atomics > limit {
                return Err(ContractError::MaxSpreadAssertion {  });
            }
        },
    }
    Ok(())
}

/// A part of a whole is at most one.
pub proof fn lemma_part_ratio(part: int, whole: int)
    requires
        0 <= part <= whole,
        0 < whole,
    ensures
        0 <= ratio(part, whole) <= ONE,
{
    assert(0 <= part * ONE <= ONE * whole) by (nonlinear_arith)
        requires
            0 <= part <= whole,
    ;
    lemma_div_pos_is_pos(part * ONE, whole);
    lemma_div_is_ordered(part * ONE, ONE * whole, whole);
    lemma_div_by_multiple(ONE as int, whole);
}

/// The inverse of a decimal is in range.
pub proof fn lemma_inverse_fits(a: int)
    requires
        0 < a,
    ensures
        0 <= inverse(a) <= u128::MAX,
{
    assert(ONE * ONE == 1_000_000_000_000_000_000_000_000_000_000_000_000int) by (nonlinear_arith)
        requires
            ONE == 1_000_000_000_000_000_000,
    ;
    lemma_div_pos_is_pos(ONE * ONE, a);
    lemma_div_nonincreasing(ONE * ONE, a);
}

proof fn lemma_product_fits(a: int, b: int)
    requires
        0 <= a <= u128::MAX,
        0 <= b <= u128::MAX,
    ensures
        0 <= a * b < wide_end(),
{
    assert(0 <= a * b < limb() * limb()) by (nonlinear_arith)
        requires
            0 <= a < limb(),
            0 <= b < limb(),
            limb() > 0,
    ;
}

proof fn lemma_scaled_fits(a: int)
    requires
        0 <= a <= u128::MAX,
    ensures
        0 <= a * ONE < wide_end(),
        a * ONE / 1 == a * ONE,
{
    lemma_product_fits(a, ONE as int);
    lemma_div_basics_3(a * ONE);
}

proof fn lemma_spot_price_fits(offer_pool: int, ask_pool: int)
    requires
        0 < offer_pool,
        0 <= ask_pool <= u128::MAX,
    ensures
        0 <= spot_price(offer_pool, ask_pool) < wide_end(),
{
    lemma_scaled_fits(ask_pool);
    lemma_div_pos_is_pos(ask_pool * ONE, offer_pool);
    lemma_div_nonincreasing(ask_pool * ONE, offer_pool);
}

} // verus!
