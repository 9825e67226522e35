//! What holds of the pool as a whole.

use vstd::arithmetic::div_mod::*;
use vstd::arithmetic::mul::*;
use vstd::prelude::*;

use crate::asset::TokenInfo;
use crate::chain::{Addr, CosmosMsg, Env, MessageInfo, Response};
use crate::error::StdError;
use crate::number::{min, minus_or_zero, ratio, Decimal, Timestamp, ONE};
use crate::pool::admin::{cancel_outcome, emergency_outcome, lp_fee_check, pause_outcome};
use crate::pool::commit::{
    beyond_threshold, checked_commit, commit_outcome, commit_trade, crossing_msgs, crossing_trade,
    entered_and_left, excess_trade, fee_msgs, phase_of, turned_away, ExcessTrade, Phase, Quotes,
    Trade,
};
use crate::pool::contract::{
    execute_outcome, fresh_store, offer_and_ask, offer_index_of, simple_trade, HostAnswers,
};
use crate::pool::error::ContractError;
use crate::pool::generic_helpers::{
    batch_answer, batch_done, batch_end, batch_start, excess_bluechip, excess_tokens, lookup,
    payout_error, payout_msgs, payout_total, raised_after_fees, reward_of, seed_reserves, taken_out,
    wait_time,
};
use crate::pool::liquidity_helpers::{
    capped_fees, claim_excess_outcome, claim_fees_outcome, deposit_defined, deposit_outcome,
    fees_owed_split, growth_of, handed_over, has_shares, matched_amounts, payment_msgs,
    size_multiplier, MIN_MULTIPLIER, OPTIMAL_LIQUIDITY,
};
use crate::pool::msg::{CommitPoolInstantiateMsg, ExecuteMsg, SimulationResponse};
use crate::pool::query::simulated;
use crate::pool::state::{
    CommitFeeInfo, CommitLimitInfo, CreatorFeePot, DistributionState, PoolFeeState, PoolInfo,
    PoolState, PoolStore, Position, ThresholdPayoutAmounts,
};
use crate::pool::swap_helper::{
    accumulated, gross_return, lemma_commission_at_most_gross, lemma_gross_return_bounds,
    swap_outcome,
};
use crate::table::{ascending, contents};

verus! {

/// A swap keeps the product of the reserves, but for what rounding to 18 digits may cost:
/// less than one part in 10^18 of the offer side. Up to an offer side of 10^18 the product
/// never falls.
pub proof fn law_product_is_kept(offer_pool: int, ask_pool: int, amount: int, rate: int)
    requires
        0 < offer_pool,
        0 <= ask_pool <= u128::MAX,
        0 <= amount,
        0 <= rate,
    ensures
        swap_outcome(offer_pool, ask_pool, amount, rate) matches Ok((ret, spread, commission)) ==> {
            let before = offer_pool * ask_pool;
            let after = (offer_pool + amount) * (ask_pool - ret - commission);
            &&& after >= before - (offer_pool + amount - 1) / (ONE as int)
            &&& offer_pool + amount <= ONE ==> after >= before
        },
{
    crate::pool::commit::lemma_swap_is_covered(offer_pool, ask_pool, amount, rate);
    let n = offer_pool + amount;
    let cp = offer_pool * ask_pool;
    let one = ONE as int;
    let q = cp * ONE / n;
    let gross = gross_return(offer_pool, ask_pool, amount);
    let left = ask_pool - gross;
    assert(gross * one <= ask_pool * ONE - q) by {
        lemma_fundamental_div_mod(ask_pool * ONE - q, one);
        lemma_mod_bound(ask_pool * ONE - q, one);
        assert(gross * one == one * gross) by (nonlinear_arith);
    }
    assert(left * one >= q) by (nonlinear_arith)
        requires
            gross * one <= ask_pool * ONE - q,
            left == ask_pool - gross,
            one == ONE,
    ;
    lemma_fundamental_div_mod(cp * ONE, n);
    lemma_mod_bound(cp * ONE, n);
    assert(n * q >= cp * ONE - n + 1);
    assert(n * (left * one) >= n * q) by (nonlinear_arith)
        requires
            left * one >= q,
            n > 0,
    ;
    let after = n * left;
    assert(n * (left * one) == after * one) by (nonlinear_arith)
        requires
            after == n * left,
    ;
    assert(after * one >= cp * one - (n - 1));
    let loss = cp - after;
    assert(loss * one <= n - 1) by (nonlinear_arith)
        requires
            after * one >= cp * one - (n - 1),
            loss == cp - after,
    ;
    lemma_fundamental_div_mod(n - 1, one);
    lemma_mod_bound(n - 1, one);
    let most = (n - 1) / one;
    assert(loss <= most) by (nonlinear_arith)
        requires
            loss * one <= n - 1,
            n - 1 < one * most + one,
            one > 0,
    ;
    if n <= ONE {
        assert(most == 0) by {
            lemma_basic_div(n - 1, one);
        }
    }
}

/// A commission of the allowed range never exceeds the return that it is taken from, so
/// swaps of a pool with such a fee do not fail on it.
pub proof fn law_allowed_fee_is_covered(
    offer_pool: int,
    ask_pool: int,
    amount: int,
    lp_fee: Decimal,
)
    requires
        0 < offer_pool,
        0 <= ask_pool <= u128::MAX,
        0 <= amount,
        lp_fee_check(lp_fee) is Ok,
    ensures
        swap_outcome(offer_pool, ask_pool, amount, lp_fee.atomics as int) != Err::<
            (u128, u128, u128),
            StdError,
        >(
            StdError::Generic("Underflow subtracting commission: Cannot Sub with given operands"),
        ),
{
    lemma_gross_return_bounds(offer_pool, ask_pool, amount);
    lemma_commission_at_most_gross(
        gross_return(offer_pool, ask_pool, amount),
        lp_fee.atomics as int,
    );
    reveal_strlit("Overflow calculating spread: Cannot Mul with given operands");
    reveal_strlit("Underflow subtracting commission: Cannot Sub with given operands");
    assert("Overflow calculating spread: Cannot Mul with given operands"@[0] == 'O');
    assert("Underflow subtracting commission: Cannot Sub with given operands"@[0] == 'U');
}

/// What a swap takes out of the ask side goes to the trader and into the fees, and nothing
/// is lost. (While nobody holds shares a commission is booked nowhere; these swaps are left
/// out.)
pub proof fn law_swap_is_accounted_for(
    store: PoolStore,
    env: Env,
    offer: TokenInfo,
    belief_price: Option<Decimal>,
    max_spread: Option<Decimal>,
    trade: Trade,
)
    requires
        simple_trade(store, env, offer, belief_price, max_spread) == Ok::<Trade, ContractError>(
            trade,
        ),
        store.pool_state.total_liquidity != 0 || trade.commission_amt == 0,
    ensures
        offer_index_of(store, offer.info) == Some(0usize) ==> {
            &&& trade.pool_state.reserve0 == store.pool_state.reserve0 + offer.amount
            &&& trade.fee_state.fee_reserve_0 == store.fee_state.fee_reserve_0
            &&& trade.pool_state.reserve1 + trade.fee_state.fee_reserve_1 + trade.return_amt
                == store.pool_state.reserve1 + store.fee_state.fee_reserve_1
        },
        offer_index_of(store, offer.info) == Some(1usize) ==> {
            &&& trade.pool_state.reserve1 == store.pool_state.reserve1 + offer.amount
            &&& trade.fee_state.fee_reserve_1 == store.fee_state.fee_reserve_1
            &&& trade.pool_state.reserve0 + trade.fee_state.fee_reserve_0 + trade.return_amt
                == store.pool_state.reserve0 + store.fee_state.fee_reserve_0
        },
        trade.pool_state.total_liquidity == store.pool_state.total_liquidity,
{
    let index = offer_index_of(store, offer.info)->Some_0;
    let (offer_pool, ask_pool) = offer_and_ask(store, index);
    crate::pool::commit::lemma_swap_is_covered(
        offer_pool as int,
        ask_pool as int,
        offer.amount as int,
        store.pool_specs.lp_fee.atomics as int,
    );
}

/// The swap of a commit after the threshold is accounted for in the same way.
pub proof fn law_commit_swap_is_accounted_for(
    store: PoolStore,
    env: Env,
    swap_amount: u128,
    belief_price: Option<Decimal>,
    max_spread: Option<Decimal>,
    trade: Trade,
)
    requires
        store.pool_state.reserve0 > 0,
        commit_trade(store, env, swap_amount, belief_price, max_spread) == Ok::<
            Trade,
            ContractError,
        >(trade),
        store.pool_state.total_liquidity != 0 || trade.commission_amt == 0,
    ensures
        trade.return_amt > 0,
        trade.pool_state.reserve0 == store.pool_state.reserve0 + swap_amount,
        trade.pool_state.reserve1 + trade.fee_state.fee_reserve_1 + trade.return_amt
            == store.pool_state.reserve1 + store.fee_state.fee_reserve_1,
{
    crate::pool::commit::lemma_swap_is_covered(
        store.pool_state.reserve0 as int,
        store.pool_state.reserve1 as int,
        swap_amount as int,
        store.pool_specs.lp_fee.atomics as int,
    );
}

/// A swap returns what its simulation says, where the pool holds its reserves.
pub proof fn law_simulation_is_kept(
    store: PoolStore,
    env: Env,
    offer: TokenInfo,
    belief_price: Option<Decimal>,
    max_spread: Option<Decimal>,
    trade: Trade,
    pools: [TokenInfo; 2],
)
    requires
        simple_trade(store, env, offer, belief_price, max_spread) == Ok::<Trade, ContractError>(
            trade,
        ),
        pools[0].info == store.pool_info.pool_info.asset_infos[0],
        pools[1].info == store.pool_info.pool_info.asset_infos[1],
        pools[0].amount == store.pool_state.reserve0,
        pools[1].amount == store.pool_state.reserve1,
    ensures
        simulated(store, offer, Ok(pools)) == Ok::<SimulationResponse, StdError>(
            SimulationResponse {
                return_amount: trade.return_amt,
                spread_amount: trade.spread_amt,
                commission_amount: trade.commission_amt,
            },
        ),
{
}

/// Time-weighted prices never fall, and time never runs back.
pub proof fn law_prices_accumulate(s: PoolState, now: u64, after: PoolState)
    requires
        accumulated(s, now) == Ok::<PoolState, ContractError>(after),
    ensures
        after.price0_cumulative_last >= s.price0_cumulative_last,
        after.price1_cumulative_last >= s.price1_cumulative_last,
        after.block_time_last >= s.block_time_last,
        after.reserve0 == s.reserve0 && after.reserve1 == s.reserve1,
{
    let elapsed = minus_or_zero(now as int, s.block_time_last as int);
    if elapsed != 0 && s.reserve0 != 0 && s.reserve1 != 0 {
        assert(s.reserve1 * elapsed >= 0) by (nonlinear_arith)
            requires
                elapsed >= 0,
        ;
        assert(s.reserve0 * elapsed >= 0) by (nonlinear_arith)
            requires
                elapsed >= 0,
        ;
        lemma_div_pos_is_pos(s.reserve1 * elapsed, s.reserve0 as int);
        lemma_div_pos_is_pos(s.reserve0 * elapsed, s.reserve1 as int);
    }
}

/// Larger positions earn no smaller part of their fees; the part lies between 10% and 100%,
/// and is all of them from the optimal size on.
pub proof fn law_multiplier_grows(a: int, b: int)
    requires
        0 <= a <= b,
    ensures
        MIN_MULTIPLIER <= size_multiplier(a) <= size_multiplier(b) <= ONE,
        b >= OPTIMAL_LIQUIDITY ==> size_multiplier(b) == ONE,
        b < OPTIMAL_LIQUIDITY ==> size_multiplier(b) < ONE,
        size_multiplier(0) == MIN_MULTIPLIER,
{
    crate::pool::liquidity_helpers::lemma_size_multiplier(a);
    crate::pool::liquidity_helpers::lemma_size_multiplier(b);
    let opt = OPTIMAL_LIQUIDITY as int;
    let rest = ONE - MIN_MULTIPLIER;
    if b < OPTIMAL_LIQUIDITY {
        let ra = ratio(a, opt);
        let rb = ratio(b, opt);
        lemma_div_is_ordered(a * ONE, b * ONE, opt);
        lemma_mul_inequality(ra, rb, rest);
        lemma_mul_is_commutative(ra, rest);
        lemma_mul_is_commutative(rb, rest);
        lemma_div_is_ordered(rest * ra, rest * rb, ONE as int);
        lemma_div_is_ordered(b * ONE, (opt - 1) * ONE, opt);
        let r1 = ratio(opt - 1, opt);
        assert(rb <= r1 < ONE);
        assert(rest * rb <= rest * (ONE - 1)) by (nonlinear_arith)
            requires
                rb <= ONE - 1,
                rest > 0,
        ;
        assert(rest * (ONE - 1) < rest * ONE) by (nonlinear_arith)
            requires
                rest > 0,
        ;
        lemma_div_is_ordered(rest * rb, rest * (ONE - 1), ONE as int);
        assert(rest * (ONE - 1) / (ONE as int) < rest);
    }
    lemma_div_of0(opt);
    lemma_div_of0(ONE as int);
}

/// With a multiplier of at most one, what a position gets and what is clipped off it add up
/// to what it earned.
pub proof fn law_clipped_fees_add_up(
    liquidity: u128,
    now: Decimal,
    last: Decimal,
    multiplier: Decimal,
)
    requires
        multiplier.atomics <= ONE,
    ensures
        fees_owed_split(liquidity, now, last, multiplier) matches Ok((adjusted, clipped))
            ==> adjusted + clipped == growth_of(
            liquidity as int,
            now.atomics as int,
            last.atomics as int,
        ),
{
    let base = growth_of(liquidity as int, now.atomics as int, last.atomics as int);
    let delta = minus_or_zero(now.atomics as int, last.atomics as int);
    assert(liquidity * delta >= 0) by (nonlinear_arith)
        requires
            delta >= 0,
    ;
    lemma_div_pos_is_pos(liquidity * delta, ONE as int);
    lemma_commission_at_most_gross(base, multiplier.atomics as int);
}

/// A fee claim never takes more out of a fee reserve than there is: what the provider is
/// paid and what goes to the creator stay within it together.
pub proof fn law_fee_claims_are_covered(position: Position, fees: PoolFeeState)
    ensures
        capped_fees(position, fees) matches Ok((paid, owed, clipped)) ==> {
            &&& paid.0 + clipped.0 <= fees.fee_reserve_0
            &&& paid.1 + clipped.1 <= fees.fee_reserve_1
            &&& paid.0 <= owed.0
            &&& paid.1 <= owed.1
        },
{
}

/// A position that changed hands has earned nothing for its new owner yet, on either side,
/// and nothing of it goes to the creator.
pub proof fn law_new_owner_starts_from_nothing(position: Position, owner: Addr, fees: PoolFeeState)
    ensures
        capped_fees(handed_over(position, owner, fees), fees) == Ok::<
            ((u128, u128), (u128, u128), (u128, u128)),
            ContractError,
        >(((0, 0), (0, 0), (0, 0))),
        handed_over(handed_over(position, owner, fees), owner, fees) == handed_over(
            position,
            owner,
            fees,
        ),
{
    lemma_mul_by_zero_is_zero(position.liquidity as int);
    lemma_mul_by_zero_is_zero(position.fee_size_multiplier.atomics as int);
    lemma_div_of0(ONE as int);
}

/// A deposit uses at most what is offered of either token, gets some shares, and never more
/// than its part of either reserve.
pub proof fn law_deposit_is_fair(s: PoolState, amount0: u128, amount1: u128)
    requires
        deposit_defined(s, amount0, amount1),
    ensures
        deposit_outcome(s, amount0, amount1) matches Ok((shares, used0, used1)) ==> {
            &&& shares > 0
            &&& 0 < used0 <= amount0
            &&& 0 < used1 <= amount1
            &&& has_shares(s) ==> {
                &&& shares * s.reserve0 <= s.total_liquidity * used0
                &&& shares * s.reserve1 <= s.total_liquidity * used1
            }
        },
{
    let r0 = s.reserve0 as int;
    let r1 = s.reserve1 as int;
    let a0 = amount0 as int;
    let a1 = amount1 as int;
    if r0 != 0 && r1 != 0 {
        let optimal1 = r1 * a0 / r0;
        let optimal0 = r0 * a1 / r1;
        assert(r1 * a0 >= 0) by (nonlinear_arith)
            requires
                r1 >= 0,
                a0 >= 0,
        ;
        assert(r0 * a1 >= 0) by (nonlinear_arith)
            requires
                r0 >= 0,
                a1 >= 0,
        ;
        lemma_div_pos_is_pos(r1 * a0, r0);
        lemma_div_pos_is_pos(r0 * a1, r1);
        if optimal1 > a1 {
            lemma_fundamental_div_mod(r1 * a0, r0);
            lemma_mod_bound(r1 * a0, r0);
            assert(r0 * a1 <= r0 * optimal1) by (nonlinear_arith)
                requires
                    optimal1 > a1,
                    r0 > 0,
            ;
            assert(r0 * a1 <= a0 * r1) by (nonlinear_arith)
                requires
                    r0 * a1 <= r0 * optimal1,
                    r0 * optimal1 <= r1 * a0,
            ;
            lemma_div_is_ordered(r0 * a1, a0 * r1, r1);
            lemma_div_by_multiple(a0, r1);
        }
        let (used0, used1) = matched_amounts(r0, r1, a0, a1);
        let t = s.total_liquidity as int;
        if t != 0 {
            lemma_share_bound(t, used0, r0);
            lemma_share_bound(t, used1, r1);
            let s0 = t * used0 / r0;
            let s1 = t * used1 / r1;
            let shares = min(s0, s1);
            assert(t * used0 >= 0) by (nonlinear_arith)
                requires
                    t >= 0,
                    used0 >= 0,
            ;
            assert(t * used1 >= 0) by (nonlinear_arith)
                requires
                    t >= 0,
                    used1 >= 0,
            ;
            lemma_div_pos_is_pos(t * used0, r0);
            lemma_div_pos_is_pos(t * used1, r1);
            assert(shares * r0 <= s0 * r0) by (nonlinear_arith)
                requires
                    shares <= s0,
                    r0 > 0,
            ;
            assert(shares * r1 <= s1 * r1) by (nonlinear_arith)
                requires
                    shares <= s1,
                    r1 > 0,
            ;
        }
    }
    let (used0, used1) = if r0 != 0 && r1 != 0 {
        matched_amounts(r0, r1, a0, a1)
    } else {
        (a0, a1)
    };
    assert(used0 * used1 >= 0) by (nonlinear_arith)
        requires
            used0 >= 0,
            used1 >= 0,
    ;
    crate::pool::liquidity_helpers::lemma_sqrt_exists(used0 * used1);
}

proof fn lemma_share_bound(total: int, used: int, reserve: int)
    requires
        reserve > 0,
    ensures
        total * used / reserve * reserve <= total * used,
{
    lemma_fundamental_div_mod(total * used, reserve);
    lemma_mod_bound(total * used, reserve);
    lemma_mul_is_commutative(reserve, total * used / reserve);
}

/// A commit that is in order is split without loss into both fees and what is left, and
/// something is left.
pub proof fn law_commit_is_split_without_loss(
    store: PoolStore,
    info: MessageInfo,
    asset: TokenInfo,
    usd_value: Result<u128, StdError>,
)
    ensures
        checked_commit(store, info, asset, usd_value) matches Ok(c) ==> {
            &&& c.bluechip_fee + c.creator_fee + c.amount_after_fees == asset.amount
            &&& c.amount_after_fees > 0
            &&& c.usd_value >= crate::pool::commit::MIN_COMMIT_USD
        },
{
}

/// What is beyond the threshold is swapped or goes back, and at most a fifth of the reserve
/// is swapped.
pub proof fn law_excess_is_swapped_or_refunded(
    s: PoolState,
    fees: PoolFeeState,
    excess: u128,
    rate: int,
    belief_price: Option<Decimal>,
    max_spread: Option<Decimal>,
    env: Env,
    t: ExcessTrade,
)
    requires
        excess_trade(s, fees, excess as int, rate, belief_price, max_spread, env) == Ok::<
            ExcessTrade,
            ContractError,
        >(t),
    ensures
        t.swapped + t.refunded == excess,
        t.swapped * 5 <= s.reserve0,
        t.trade.pool_state.reserve0 == s.reserve0 + t.swapped,
{
}

/// A payout mints 1.2 million tokens in all, and seeds the pool without loss: reserves and
/// what is locked for the creator add up to what was raised after fees, and to the tokens of
/// the pool. The bluechip reserve stays within its cap.
pub proof fn law_payout_is_accounted_for(
    native_raised: u128,
    limits: CommitLimitInfo,
    payout: ThresholdPayoutAmounts,
    fee_info: CommitFeeInfo,
)
    requires
        payout_error(native_raised, limits, payout, fee_info) is None,
    ensures
        payout_total(payout) == 1_200_000_000_000,
        ({
            let seed = raised_after_fees(native_raised as int, fee_info);
            let (reserve0, reserve1) = seed_reserves(seed, limits, payout);
            &&& 0 <= seed <= native_raised
            &&& 0 <= reserve0 <= limits.max_bluechip_lock_per_pool
            &&& 0 <= reserve1 <= payout.pool_seed_amount
            &&& reserve0 + excess_bluechip(seed, limits) == seed
            &&& reserve1 + excess_tokens(seed, limits, payout) == payout.pool_seed_amount
        }),
{
    let kept = ONE - fee_info.commit_fee_bluechip.atomics - fee_info.commit_fee_creator.atomics;
    lemma_commission_at_most_gross(native_raised as int, kept);
    let seed = raised_after_fees(native_raised as int, fee_info);
    if excess_bluechip(seed, limits) > 0 {
        crate::pool::generic_helpers::lemma_part_of(
            payout.pool_seed_amount as int,
            excess_bluechip(seed, limits),
            seed,
        );
    }
}

/// All dollars of a ledger.
pub open spec fn ledger_total(entries: Seq<(String, u128)>) -> int
    decreases entries.len(),
{
    if entries.len() == 0 {
        0
    } else {
        ledger_total(entries.drop_last()) + entries.last().1
    }
}

/// All rewards of a ledger.
pub open spec fn rewards_total(entries: Seq<(String, u128)>, d: DistributionState) -> int
    decreases entries.len(),
{
    if entries.len() == 0 {
        0
    } else {
        rewards_total(entries.drop_last(), d) + reward_of(
            entries.last().1 as int,
            d.total_to_distribute as int,
            d.total_committed_usd as int,
        )
    }
}

/// The committers are never paid more than there is to hand out, as long as their dollars do
/// not exceed the total that they are measured against.
pub proof fn law_rewards_are_covered(entries: Seq<(String, u128)>, d: DistributionState)
    requires
        ledger_total(entries) <= d.total_committed_usd,
    ensures
        0 <= rewards_total(entries, d) <= d.total_to_distribute,
{
    let total = d.total_to_distribute as int;
    let usd = d.total_committed_usd as int;
    lemma_rewards_bound(entries, d);
    if usd != 0 {
        let sum = ledger_total(entries);
        lemma_ledger_not_negative(entries);
        let paid = rewards_total(entries, d);
        assert(sum * total <= usd * total) by (nonlinear_arith)
            requires
                sum <= usd,
                total >= 0,
        ;
        assert(paid <= total) by (nonlinear_arith)
            requires
                paid * usd <= usd * total,
                usd > 0,
        ;
    }
}

proof fn lemma_ledger_not_negative(entries: Seq<(String, u128)>)
    ensures
        ledger_total(entries) >= 0,
    decreases entries.len(),
{
    if entries.len() > 0 {
        lemma_ledger_not_negative(entries.drop_last());
    }
}

proof fn lemma_rewards_bound(entries: Seq<(String, u128)>, d: DistributionState)
    ensures
        rewards_total(entries, d) >= 0,
        d.total_committed_usd == 0 ==> rewards_total(entries, d) == 0,
        d.total_committed_usd != 0 ==> rewards_total(entries, d) * d.total_committed_usd
            <= ledger_total(entries) * d.total_to_distribute,
    decreases entries.len(),
{
    let total = d.total_to_distribute as int;
    let usd = d.total_committed_usd as int;
    if entries.len() > 0 {
        let head = entries.drop_last();
        let paid = entries.last().1 as int;
        lemma_rewards_bound(head, d);
        if usd != 0 {
            let reward = reward_of(paid, total, usd);
            assert(paid * total >= 0) by (nonlinear_arith)
                requires
                    paid >= 0,
                    total >= 0,
            ;
            lemma_div_pos_is_pos(paid * total, usd);
            lemma_fundamental_div_mod(paid * total, usd);
            lemma_mod_bound(paid * total, usd);
            let r0 = rewards_total(head, d);
            let l0 = ledger_total(head);
            assert((r0 + reward) * usd == r0 * usd + usd * reward) by (nonlinear_arith);
            assert((l0 + paid) * total == l0 * total + paid * total) by (nonlinear_arith);
        }
    } else {
        lemma_mul_by_zero_is_zero(usd);
        lemma_mul_by_zero_is_zero(total);
    }
}

/// A batch pays every committer that it takes exactly once: they leave the ledger, and the
/// others stay as they are. It takes somebody wherever somebody is left.
pub proof fn law_batch_pays_once(
    before: PoolStore,
    after: PoolStore,
    env: Env,
    d: DistributionState,
)
    requires
        before.wf(),
        before.distribution == Some(d),
        batch_done(before, after, env, None),
        batch_answer(before, env, None) is Ok,
    ensures
        ({
            let entries = before.commit_ledger.entries@;
            let from = batch_start(entries, d);
            let to = batch_end(entries, d);
            &&& 0 <= from <= to <= entries.len()
            &&& forall|i: int|
                from <= i < to ==> !after.commit_ledger@.dom().contains(#[trigger] entries[i].0@)
            &&& forall|i: int|
                0 <= i < entries.len() && !(from <= i < to) ==> {
                    &&& after.commit_ledger@.dom().contains(#[trigger] entries[i].0@)
                    &&& after.commit_ledger@[entries[i].0@] == entries[i].1
                }
            &&& from < entries.len() ==> from < to
            &&& ledger_total(after.commit_ledger.entries@) == ledger_total(entries) - ledger_total(
                entries.subrange(from, to),
            )
        }),
{
    let entries = before.commit_ledger.entries@;
    let rest = after.commit_ledger.entries@;
    let from = batch_start(entries, d);
    let to = batch_end(entries, d);
    crate::table::lemma_first_after_exists(entries, crate::pool::generic_helpers::cursor(d));
    assert(crate::table::is_first_after(
        entries,
        crate::pool::generic_helpers::cursor(d),
        from,
    ));
    assert(0 <= from <= to <= entries.len());
    assert(taken_out(entries, rest, from, to));
    lemma_kept_in_order(entries, rest, from, to);
    assert forall|i: int| from <= i < to implies !after.commit_ledger@.dom().contains(
        #[trigger] entries[i].0@,
    ) by {
        let k = entries[i].0@;
        if crate::table::has_key(rest, k) {
            let p = crate::table::position(rest, k);
            assert(rest[p].0@ == k);
            let p0 = if p < from { p } else { p + (to - from) };
            assert(rest[p] == entries[p0]);
            crate::table::lemma_position(entries, p0);
            crate::table::lemma_position(entries, i);
        }
    }
    assert forall|i: int| 0 <= i < entries.len() && !(from <= i < to) implies {
        &&& after.commit_ledger@.dom().contains(#[trigger] entries[i].0@)
        &&& after.commit_ledger@[entries[i].0@] == entries[i].1
    } by {
        let p = if i < from { i } else { i - (to - from) };
        assert(rest[p] == entries[i]);
        crate::table::lemma_position(rest, p);
    }
    let head = entries.subrange(0, from);
    let batch = entries.subrange(from, to);
    let tail = entries.subrange(to, entries.len() as int);
    lemma_ledger_concat(head, tail);
    lemma_ledger_concat(head, batch);
    lemma_ledger_concat(head + batch, tail);
    assert(entries =~= (head + batch) + tail);
}

proof fn lemma_kept_in_order<V>(
    entries: Seq<(String, V)>,
    rest: Seq<(String, V)>,
    from: int,
    to: int,
)
    requires
        ascending(entries),
        0 <= from <= to <= entries.len(),
        taken_out(entries, rest, from, to),
    ensures
        ascending(rest),
{
    assert forall|a: int, b: int| 0 <= a < b < rest.len() implies crate::table::less(
        #[trigger] rest[a].0@,
        #[trigger] rest[b].0@,
    ) by {
        let a0 = if a < from { a } else { a + (to - from) };
        let b0 = if b < from { b } else { b + (to - from) };
        assert(rest[a] == entries[a0]);
        assert(rest[b] == entries[b0]);
        assert(crate::table::less(entries[a0].0@, entries[b0].0@));
    }
}

proof fn lemma_ledger_concat(a: Seq<(String, u128)>, b: Seq<(String, u128)>)
    ensures
        ledger_total(a + b) == ledger_total(a) + ledger_total(b),
    decreases b.len(),
{
    if b.len() == 0 {
        assert(a + b =~= a);
    } else {
        assert((a + b).drop_last() =~= a + b.drop_last());
        lemma_ledger_concat(a, b.drop_last());
    }
}

/// A batch touches the ledger and the distribution, and nothing else: no reserve, no fee and
/// no fee growth moves.
pub proof fn law_distribution_leaves_the_pool_alone(
    before: PoolStore,
    after: PoolStore,
    env: Env,
    read_failure: Option<String>,
)
    requires
        batch_done(before, after, env, read_failure),
    ensures
        after.pool_state == before.pool_state,
        after.fee_state == before.fee_state,
        after == (PoolStore {
            commit_ledger: after.commit_ledger,
            distribution: after.distribution,
            ..before
        }),
{
}

/// All creator tokens that messages mint.
pub open spec fn minted(msgs: Seq<CosmosMsg>) -> int
    decreases msgs.len(),
{
    if msgs.len() == 0 {
        0
    } else {
        minted(msgs.drop_last()) + match msgs.last() {
            CosmosMsg::Cw20Mint { amount, .. } => amount as int,
            _ => 0,
        }
    }
}

/// The messages of a batch mint the rewards of the committers that it takes.
pub proof fn law_batch_mints_the_rewards(
    entries: Seq<(String, u128)>,
    from: int,
    to: int,
    d: DistributionState,
    token_address: Addr,
)
    requires
        0 <= from <= to <= entries.len(),
    ensures
        crate::pool::generic_helpers::reward_msgs(entries, from, to, d, token_address) matches Ok(
            msgs,
        ) ==> minted(msgs) == rewards_total(entries.subrange(from, to), d),
    decreases to - from,
{
    if from < to {
        law_batch_mints_the_rewards(entries, from, to - 1, d, token_address);
        let batch = entries.subrange(from, to);
        assert(batch.drop_last() =~= entries.subrange(from, to - 1));
        assert(batch.last() == entries[to - 1]);
        match crate::pool::generic_helpers::reward_msgs(entries, from, to - 1, d, token_address) {
            Ok(msgs) => {
                let reward = reward_of(
                    entries[to - 1].1 as int,
                    d.total_to_distribute as int,
                    d.total_committed_usd as int,
                );
                let last = CosmosMsg::Cw20Mint {
                    contract_addr: token_address,
                    recipient: entries[to - 1].0,
                    amount: reward as u128,
                };
                assert(msgs.push(last).drop_last() =~= msgs);
                lemma_rewards_bound(seq![entries[to - 1]], d);
                assert(seq![entries[to - 1]].drop_last() =~= Seq::<(String, u128)>::empty());
                assert(rewards_total(seq![entries[to - 1]].drop_last(), d) == 0);
            },
            Err(_) => {},
        }
    }
}

proof fn lemma_rewards_concat(a: Seq<(String, u128)>, b: Seq<(String, u128)>, d: DistributionState)
    ensures
        rewards_total(a + b, d) == rewards_total(a, d) + rewards_total(b, d),
    decreases b.len(),
{
    if b.len() == 0 {
        assert(a + b =~= a);
    } else {
        lemma_rewards_concat(a, b.drop_last(), d);
        assert((a + b).drop_last() =~= a + b.drop_last());
        assert((a + b).last() == b.last());
    }
}

/// What a batch mints and what is owed after it make up what was owed before it, by the same
/// measure. So all batches together mint what was owed at the start, and no more.
pub proof fn law_batches_mint_what_is_owed(
    before: PoolStore,
    after: PoolStore,
    env: Env,
    d: DistributionState,
    msgs: Seq<CosmosMsg>,
    processed: u32,
)
    requires
        before.wf(),
        before.distribution == Some(d),
        batch_done(before, after, env, None),
        batch_answer(before, env, None) == Ok::<(Seq<CosmosMsg>, u32), StdError>(
            (msgs, processed),
        ),
    ensures
        minted(msgs) + rewards_total(after.commit_ledger.entries@, d) == rewards_total(
            before.commit_ledger.entries@,
            d,
        ),
        after.distribution matches Some(next) ==> {
            &&& next.total_to_distribute == d.total_to_distribute
            &&& next.total_committed_usd == d.total_committed_usd
        },
{
    let entries = before.commit_ledger.entries@;
    let from = batch_start(entries, d);
    let to = batch_end(entries, d);
    law_batch_pays_once(before, after, env, d);
    law_batch_mints_the_rewards(entries, from, to, d, before.pool_info.token_address);
    let head = entries.subrange(0, from);
    let batch = entries.subrange(from, to);
    let tail = entries.subrange(to, entries.len() as int);
    lemma_rewards_concat(head, tail, d);
    lemma_rewards_concat(head, batch, d);
    lemma_rewards_concat(head + batch, tail, d);
    assert(entries =~= (head + batch) + tail);
}

/// What messages mint together is what they mint apart.
proof fn lemma_minted_adds_up(a: Seq<CosmosMsg>, b: Seq<CosmosMsg>)
    ensures
        minted(a + b) == minted(a) + minted(b),
    decreases b.len(),
{
    if b.len() == 0 {
        assert(a + b =~= a);
    } else {
        lemma_minted_adds_up(a, b.drop_last());
        assert((a + b).drop_last() =~= a + b.drop_last());
        assert((a + b).last() == b.last());
    }
}

/// Messages that mint nothing, one by one, mint nothing together.
proof fn lemma_nothing_minted(msgs: Seq<CosmosMsg>)
    requires
        forall|i: int| 0 <= i < msgs.len() ==> !(#[trigger] msgs[i] is Cw20Mint),
    ensures
        minted(msgs) == 0,
    decreases msgs.len(),
{
    if msgs.len() > 0 {
        let rest = msgs.drop_last();
        assert forall|i: int| 0 <= i < rest.len() implies !(#[trigger] rest[i] is Cw20Mint) by {
            assert(rest[i] == msgs[i]);
        }
        lemma_nothing_minted(rest);
    }
}

/// What a payout mints at once: everything but what is handed out to the committers.
proof fn lemma_payout_minted(
    pool_info: PoolInfo,
    payout: ThresholdPayoutAmounts,
    fee_info: CommitFeeInfo,
    env: Env,
)
    ensures
        minted(payout_msgs(pool_info, payout, fee_info, env)) == payout_total(payout)
            - payout.commit_return_amount,
{
    let msgs = payout_msgs(pool_info, payout, fee_info, env);
    let three = msgs.drop_last();
    let two = three.drop_last();
    let one = two.drop_last();
    assert(one.drop_last() =~= Seq::<CosmosMsg>::empty());
    assert(minted(one.drop_last()) == 0);
    assert(minted(one) == 0);
    assert(minted(two) == payout.creator_reward_amount);
    assert(minted(three) == payout.creator_reward_amount + payout.bluechip_reward_amount);
}

/// The threshold is crossed once. The commit that crosses it mints everything but the
/// committers' tokens, which together with these makes 1.2 million; no other commit mints
/// anything, and none after it touches the ledger, the distribution or what was raised.
pub proof fn law_threshold_is_crossed_once(
    before: PoolStore,
    after: PoolStore,
    env: Env,
    info: MessageInfo,
    asset: TokenInfo,
    belief_price: Option<Decimal>,
    max_spread: Option<Decimal>,
    quotes: Quotes,
    resp: Response,
)
    requires
        commit_outcome(
            before,
            after,
            env,
            info,
            asset,
            belief_price,
            max_spread,
            quotes,
            Ok(resp),
        ),
    ensures
        before.threshold_hit ==> {
            &&& after.threshold_hit
            &&& after.usd_raised == before.usd_raised
            &&& after.native_raised == before.native_raised
            &&& after.commit_ledger == before.commit_ledger
            &&& after.distribution == before.distribution
            &&& after.creator_excess == before.creator_excess
        },
        before.threshold_hit == after.threshold_hit ==> minted(resp.messages@) == 0,
        before.threshold_hit != after.threshold_hit ==> minted(resp.messages@)
            + before.threshold_payout.commit_return_amount == 1_200_000_000_000,
{
    let c = checked_commit(before, info, asset, quotes.usd_value)->Ok_0;
    let fees = fee_msgs(before.fee_info, c.denom, c.bluechip_fee, c.creator_fee);
    lemma_nothing_minted(fees);
    let payout = payout_msgs(before.pool_info, before.threshold_payout, before.fee_info, env);
    lemma_payout_minted(before.pool_info, before.threshold_payout, before.fee_info, env);
    lemma_minted_adds_up(fees, payout);
    match phase_of(before, c.usd_value)->Ok_0 {
        Phase::Active => {
            lemma_nothing_minted(resp.messages@);
        },
        Phase::Crossing => {
            let b2t = quotes.to_threshold->Ok_0;
            let trade = crossing_trade(
                before,
                env,
                (before.native_raised + b2t) as u128,
                beyond_threshold(
                    asset.amount as int,
                    c.amount_after_fees as int,
                    b2t as int,
                ),
                belief_price,
                max_spread,
            )->Ok_0;
            let rest = crossing_msgs(before, info.sender, trade)->Ok_0;
            lemma_nothing_minted(rest);
            lemma_minted_adds_up(fees + payout, rest);
        },
        _ => {},
    }
}

/// What an account has paid in bluechips so far.
pub open spec fn paid_so_far(store: PoolStore, account: Seq<char>) -> int {
    match lookup(store.commit_info@, account) {
        Some(record) => record.total_paid_bluechip as int,
        None => 0,
    }
}

/// A commit that is accepted adds its whole amount to the record of its sender, whether it
/// funds the pool, crosses the threshold or is swapped, and touches no other record.
pub proof fn law_records_hold_whole_commits(
    before: PoolStore,
    after: PoolStore,
    env: Env,
    info: MessageInfo,
    asset: TokenInfo,
    belief_price: Option<Decimal>,
    max_spread: Option<Decimal>,
    quotes: Quotes,
    resp: Response,
    account: Seq<char>,
)
    requires
        commit_outcome(
            before,
            after,
            env,
            info,
            asset,
            belief_price,
            max_spread,
            quotes,
            Ok(resp),
        ),
    ensures
        paid_so_far(after, info.sender@) == paid_so_far(before, info.sender@) + asset.amount,
        account != info.sender@ ==> lookup(after.commit_info@, account) == lookup(
            before.commit_info@,
            account,
        ),
{
    let c = checked_commit(before, info, asset, quotes.usd_value)->Ok_0;
    if phase_of(before, c.usd_value)->Ok_0 is Crossing {
        let amount = asset.amount as int;
        let kept = c.amount_after_fees as int;
        let b2t = quotes.to_threshold->Ok_0 as int;
        if beyond_threshold(amount, kept, b2t) == 0 {
            assert(b2t == amount) by {
                lemma_fundamental_div_mod(kept * b2t, amount);
                lemma_mod_bound(kept * b2t, amount);
                if b2t < amount {
                    assert(kept * b2t < kept * amount) by (nonlinear_arith)
                        requires
                            b2t < amount,
                            kept > 0,
                    ;
                    assert(amount * kept == kept * amount) by (nonlinear_arith);
                }
            }
        }
    }
}

/// What was locked for the creator is paid out whole, not before it is unlocked, and once.
pub proof fn law_locked_excess_is_paid_once(
    before: PoolStore,
    between: PoolStore,
    after: PoolStore,
    env1: Env,
    env2: Env,
    info1: MessageInfo,
    info2: MessageInfo,
    deadline1: Option<Timestamp>,
    deadline2: Option<Timestamp>,
    r1: Response,
    r2: Result<Response, ContractError>,
)
    requires
        claim_excess_outcome(before, between, env1, info1, deadline1, Ok(r1)),
        claim_excess_outcome(between, after, env2, info2, deadline2, r2),
    ensures
        before.creator_excess matches Some(excess) && {
            &&& env1.time.nanos >= excess.unlock_time.nanos
            &&& info1.sender@ == excess.creator@
            &&& payment_msgs(
                before.pool_info,
                excess.creator,
                excess.bluechip_amount,
                excess.token_amount,
            ) == Ok::<Seq<CosmosMsg>, ContractError>(r1.messages@)
        },
        r2 is Err,
        after == between,
        after == (PoolStore { creator_excess: None, ..before }),
{
}

/// The creator's fee pot is paid out whole, to the creator alone, and is empty afterwards.
pub proof fn law_fee_pot_is_paid_once(
    before: PoolStore,
    between: PoolStore,
    after: PoolStore,
    env1: Env,
    env2: Env,
    info1: MessageInfo,
    info2: MessageInfo,
    deadline1: Option<Timestamp>,
    deadline2: Option<Timestamp>,
    r1: Response,
    r2: Result<Response, ContractError>,
)
    requires
        claim_fees_outcome(before, between, env1, info1, deadline1, Ok(r1)),
        claim_fees_outcome(between, after, env2, info2, deadline2, r2),
    ensures
        info1.sender@ == before.fee_info.creator_wallet_address@,
        payment_msgs(
            before.pool_info,
            before.fee_info.creator_wallet_address,
            before.creator_fee_pot.amount_0,
            before.creator_fee_pot.amount_1,
        ) == Ok::<Seq<CosmosMsg>, ContractError>(r1.messages@),
        r2 is Err,
        after == between,
        after == (PoolStore {
            creator_fee_pot: CreatorFeePot { amount_0: 0, amount_1: 0 },
            ..before
        }),
{
}

/// Entries in order that read as the same map are the same, entry by entry.
proof fn lemma_same_contents(a: Seq<(String, u128)>, b: Seq<(String, u128)>)
    requires
        ascending(a),
        ascending(b),
        contents(a) == contents(b),
    ensures
        ledger_total(a) == ledger_total(b),
    decreases a.len(),
{
    if a.len() == 0 {
        if b.len() > 0 {
            crate::table::lemma_position(b, 0);
            assert(contents(a).dom().contains(b[0].0@));
        }
    } else {
        let last_a = a.len() - 1;
        crate::table::lemma_position(a, last_a);
        let k = a[last_a].0@;
        assert(contents(b).dom().contains(k));
        let p = crate::table::position(b, k);
        assert(b[p].0@ == k);
        let last_b = b.len() - 1;
        crate::table::lemma_position(b, last_b);
        let kb = b[last_b].0@;
        assert(contents(a).dom().contains(kb));
        let q = crate::table::position(a, kb);
        assert(a[q].0@ == kb);
        if p < last_b {
            assert(crate::table::less(b[p].0@, b[last_b].0@));
            if q < last_a {
                assert(crate::table::less(a[q].0@, a[last_a].0@));
            }
            crate::table::lemma_less_is_a_strict_total_order(k, kb, k);
        }
        assert(p == last_b);
        crate::table::lemma_removed(a, last_a);
        crate::table::lemma_removed(b, last_b);
        assert(a.remove(last_a) =~= a.drop_last());
        assert(b.remove(last_b) =~= b.drop_last());
        lemma_same_contents(a.drop_last(), b.drop_last());
    }
}

proof fn lemma_total_without(a: Seq<(String, u128)>, i: int)
    requires
        0 <= i < a.len(),
    ensures
        ledger_total(a.remove(i)) == ledger_total(a) - a[i].1,
{
    let head = a.subrange(0, i);
    let one = seq![a[i]];
    let tail = a.subrange(i + 1, a.len() as int);
    lemma_ledger_concat(head, one);
    lemma_ledger_concat(head + one, tail);
    lemma_ledger_concat(head, tail);
    assert(a =~= (head + one) + tail);
    assert(a.remove(i) =~= head + tail);
    assert(one.drop_last() =~= Seq::<(String, u128)>::empty());
    assert(ledger_total(one) == ledger_total(one.drop_last()) + a[i].1);
}

/// Setting one entry of a ledger changes its total by as much.
proof fn lemma_total_after_insert(
    a: Seq<(String, u128)>,
    b: Seq<(String, u128)>,
    k: Seq<char>,
    v: u128,
)
    requires
        ascending(a),
        ascending(b),
        contents(b) == contents(a).insert(k, v),
    ensures
        ledger_total(b) == ledger_total(a) + v - (if contents(a).dom().contains(k) {
            contents(a)[k] as int
        } else {
            0
        }),
{
    assert(contents(b).dom().contains(k));
    let p = crate::table::position(b, k);
    assert(b[p].0@ == k);
    crate::table::lemma_position(b, p);
    crate::table::lemma_removed(b, p);
    lemma_total_without(b, p);
    assert(contents(b.remove(p)) =~= contents(a).remove(k));
    if contents(a).dom().contains(k) {
        let q = crate::table::position(a, k);
        assert(a[q].0@ == k);
        crate::table::lemma_position(a, q);
        crate::table::lemma_removed(a, q);
        lemma_total_without(a, q);
        lemma_same_contents(a.remove(q), b.remove(p));
    } else {
        assert(contents(a).remove(k) =~= contents(a));
        lemma_same_contents(a, b.remove(p));
    }
}

/// Up to the threshold, the ledger holds every dollar that was raised, and no other; and the
/// commit that opens the pool leaves a ledger whose rewards can all be paid. (A pool that was
/// held back at its threshold may have raised more dollars than that already; these are left
/// out.)
pub proof fn law_ledger_adds_up(
    before: PoolStore,
    after: PoolStore,
    env: Env,
    info: MessageInfo,
    asset: TokenInfo,
    belief_price: Option<Decimal>,
    max_spread: Option<Decimal>,
    quotes: crate::pool::commit::Quotes,
    r: Result<Response, ContractError>,
)
    requires
        before.wf(),
        after.wf(),
        commit_outcome(
            before,
            after,
            env,
            info,
            asset,
            belief_price,
            max_spread,
            quotes,
            r,
        ),
        r is Ok,
        !before.threshold_hit,
        before.usd_raised < before.commit_limits.commit_amount_for_threshold_usd,
        ledger_total(before.commit_ledger.entries@) == before.usd_raised,
    ensures
        ledger_total(after.commit_ledger.entries@) == after.usd_raised,
        after.threshold_hit ==> {
            &&& after.usd_raised == before.commit_limits.commit_amount_for_threshold_usd
            &&& after.distribution matches Some(d)
            &&& rewards_total(after.commit_ledger.entries@, d) <= d.total_to_distribute
        },
{
    let c = checked_commit(before, info, asset, quotes.usd_value)->Ok_0;
    let phase = crate::pool::commit::phase_of(before, c.usd_value)->Ok_0;
    let sender = info.sender@;
    let added = match phase {
        crate::pool::commit::Phase::Crossing => crate::pool::commit::missing_usd(before),
        _ => c.usd_value,
    };
    let entry = crate::pool::commit::ledger_after(before, sender, added)->Ok_0;
    lemma_total_after_insert(
        before.commit_ledger.entries@,
        after.commit_ledger.entries@,
        sender,
        entry,
    );
    if after.threshold_hit {
        law_rewards_are_covered(after.commit_ledger.entries@, after.distribution->Some_0);
    }
}

/// Pausing and unpausing leaves the pool as it was, unpaused.
pub proof fn law_unpausing_undoes_pausing(
    before: PoolStore,
    between: PoolStore,
    after: PoolStore,
    env1: Env,
    env2: Env,
    info: MessageInfo,
    r1: Result<Response, ContractError>,
    r2: Result<Response, ContractError>,
)
    requires
        pause_outcome(before, between, env1, info, true, r1),
        r1 is Ok,
        pause_outcome(between, after, env2, info, false, r2),
    ensures
        r2 is Ok,
        between.paused,
        after == (PoolStore { paused: false, ..before }),
{
}

/// Announcing an emergency withdrawal and calling it off leaves the pool as it was, unpaused.
pub proof fn law_cancelling_undoes_announcing(
    before: PoolStore,
    between: PoolStore,
    after: PoolStore,
    env1: Env,
    env2: Env,
    info: MessageInfo,
    r1: Result<Response, ContractError>,
    r2: Result<Response, ContractError>,
)
    requires
        before.pending_emergency_withdraw is None,
        emergency_outcome(before, between, env1, info, r1),
        r1 is Ok,
        cancel_outcome(between, after, env2, info, r2),
    ensures
        r2 is Ok,
        between.paused,
        between.pool_state == before.pool_state,
        after == (PoolStore { paused: false, ..before }),
{
}

/// An emergency withdrawal moves no funds before a day has passed since it was announced.
/// When it does, it takes everything: both reserves, all fees and what was locked for the
/// creator, and the pool is drained.
pub proof fn law_withdrawal_waits_a_day(
    before: PoolStore,
    between: PoolStore,
    after: PoolStore,
    env1: Env,
    env2: Env,
    info1: MessageInfo,
    info2: MessageInfo,
    r1: Result<Response, ContractError>,
    r2: Result<Response, ContractError>,
)
    requires
        before.pending_emergency_withdraw is None,
        env1.time.can_add(86_400),
        emergency_outcome(before, between, env1, info1, r1),
        r1 is Ok,
        emergency_outcome(between, after, env2, info2, r2),
    ensures
        between.pool_state == before.pool_state,
        between.fee_state == before.fee_state,
        env2.time.nanos < env1.time.nanos + 86_400 * 1_000_000_000 ==> r2 is Err && after
            == between,
        r2 is Ok ==> {
            &&& env2.time.nanos >= env1.time.nanos + 86_400 * 1_000_000_000
            &&& after.drained
            &&& after.pool_state.reserve0 == 0 && after.pool_state.reserve1 == 0
            &&& after.fee_state.fee_reserve_0 == 0 && after.fee_state.fee_reserve_1 == 0
            &&& after.creator_excess is None
            &&& after.emergency_withdrawal->Some_0.amount0
                == crate::pool::admin::withdrawn_0(before)
            &&& after.emergency_withdrawal->Some_0.amount1
                == crate::pool::admin::withdrawn_1(before)
        },
{
}

/// Whatever is called: a drained pool stays drained, a pool that opened stays open, the lock
/// is never left taken, the pair and its factory never change, and a fee in the allowed range
/// stays there.
pub proof fn law_what_every_call_keeps(
    before: PoolStore,
    after: PoolStore,
    env: Env,
    info: MessageInfo,
    msg: ExecuteMsg,
    host: HostAnswers,
    r: Result<Response, ContractError>,
)
    requires
        execute_outcome(before, after, env, info, msg, host, r),
    ensures
        before.drained ==> after.drained,
        before.threshold_hit ==> after.threshold_hit,
        !before.reentrancy_lock ==> !after.reentrancy_lock,
        after.pool_info == before.pool_info,
        after.expected_factory == before.expected_factory,
        after.fee_info == before.fee_info,
        after.commit_limits == before.commit_limits,
        after.threshold_payout == before.threshold_payout,
        lp_fee_check(before.pool_specs.lp_fee) is Ok ==> lp_fee_check(
            after.pool_specs.lp_fee,
        ) is Ok,
{
}

/// A call that is refused moves no funds and changes no settings: it may leave a note of its
/// sender, and of a distribution that failed, and nothing else.
pub proof fn law_refused_calls_change_nothing(
    before: PoolStore,
    after: PoolStore,
    env: Env,
    info: MessageInfo,
    msg: ExecuteMsg,
    host: HostAnswers,
    e: ContractError,
)
    requires
        execute_outcome(before, after, env, info, msg, host, Err(e)),
    ensures
        after == (PoolStore {
            user_last_commit: after.user_last_commit,
            distribution: after.distribution,
            ..before
        }),
        !(msg is ContinueDistribution) ==> after.distribution == before.distribution,
{
}

/// A drained pool takes no commit and pays no committer.
pub proof fn law_drained_pools_refuse(
    before: PoolStore,
    after: PoolStore,
    env: Env,
    info: MessageInfo,
    msg: ExecuteMsg,
    host: HostAnswers,
    r: Result<Response, ContractError>,
)
    requires
        execute_outcome(before, after, env, info, msg, host, r),
        before.drained,
        msg is Commit || msg is ContinueDistribution,
    ensures
        r is Err,
        after == before,
{
}

/// A paused pool takes no commit and no swap.
pub proof fn law_paused_pools_refuse(
    before: PoolStore,
    after: PoolStore,
    env: Env,
    info: MessageInfo,
    msg: ExecuteMsg,
    host: HostAnswers,
    r: Result<Response, ContractError>,
)
    requires
        execute_outcome(before, after, env, info, msg, host, r),
        before.paused,
        msg is Commit || msg is SimpleSwap || msg is Receive,
    ensures
        r is Err,
        after.pool_state == before.pool_state,
{
}

/// Who traded is turned away until the interval is over, and no longer.
pub proof fn law_rate_limit_holds(
    before: PoolStore,
    after: PoolStore,
    env1: Env,
    env2: Env,
    sender: Seq<char>,
)
    requires
        entered_and_left(before, after, env1, sender),
        env1.time.seconds() <= env2.time.seconds(),
    ensures
        turned_away(after, env2, sender, None) == (if env2.time.seconds()
            < env1.time.seconds() + after.pool_specs.min_commit_interval {
            Some(
                ContractError::TooFrequentCommits {
                    wait_time: (env1.time.seconds() + after.pool_specs.min_commit_interval
                        - env2.time.seconds()) as u64,
                },
            )
        } else {
            None
        }),
{
    assert(after.user_last_commit@.dom().contains(sender));
    assert(after.user_last_commit@[sender] == env1.time.seconds());
}

/// A fresh pool is neither paused nor drained, has a fee in the allowed range, and a ledger
/// that adds up to what it raised.
pub proof fn law_fresh_pools_are_in_order(
    store: PoolStore,
    env: Env,
    msg: CommitPoolInstantiateMsg,
)
    requires
        store.wf(),
        fresh_store(store, env, msg),
    ensures
        !store.paused && !store.drained && !store.reentrancy_lock,
        lp_fee_check(store.pool_specs.lp_fee) is Ok,
        ledger_total(store.commit_ledger.entries@) == store.usd_raised,
{
    let entries = store.commit_ledger.entries@;
    if entries.len() > 0 {
        crate::table::lemma_position(entries, 0);
        assert(store.commit_ledger@.dom().contains(entries[0].0@));
    }
}

} // verus!
