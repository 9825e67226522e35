//! Which trades are in range: all those of ordinary size.

use vstd::arithmetic::div_mod::*;
use vstd::prelude::*;

use crate::chain::{Env, MessageInfo};
use crate::number::{ratio_defined, Decimal, ONE};
use crate::pool::commit::{commit_defined, crossing_defined, excess_trade_defined};
use crate::pool::commit_laws::lemma_seed;
use crate::pool::contract::{simple_trade_defined, HostAnswers};
use crate::pool::generic_helpers::{payout_error, seeded};
use crate::pool::msg::{Cw20HookMsg, ExecuteMsg};
use crate::pool::range::execute_in_range;
use crate::pool::state::PoolStore;
use crate::pool::swap_helper::{lemma_gross_return_bounds, swap_outcome};

verus! {

/// Whether the price that a trader names, where there is one, is not below a tenth.
pub open spec fn is_ordinary_price(belief_price: Option<Decimal>) -> bool {
    belief_price matches Some(p) ==> p.atomics >= 100_000_000_000_000_000
}

/// Whether what the pool holds is of ordinary size.
pub open spec fn is_ordinary(store: PoolStore) -> bool {
    &&& store.pool_state.reserve0 <= u64::MAX && store.pool_state.reserve1 <= u64::MAX
    &&& store.pool_specs.lp_fee.atomics <= ONE
    &&& store.analytics.total_swap_count < u64::MAX && store.analytics.total_commit_count < u64::MAX
}

proof fn lemma_small_ratio(n: int, d: int)
    requires
        0 <= n <= u64::MAX,
        d > 0,
    ensures
        ratio_defined(n, d),
{
    assert(0 <= n * ONE <= u64::MAX * ONE) by (nonlinear_arith)
        requires
            0 <= n <= u64::MAX,
   ;
    assert(u64::MAX * ONE <= u128::MAX);
    lemma_div_nonincreasing(n * ONE, d);
}

proof fn lemma_small_trade(offer: int, ask: int, amount: int, rate: int, price: Option<Decimal>)
    requires
        0 < offer <= u64::MAX,
        0 <= ask <= u64::MAX,
        0 <= amount <= u64::MAX,
        0 <= rate <= u128::MAX,
        is_ordinary_price(price),
    ensures
        swap_outcome(offer, ask, amount, rate) matches Ok((ret, spread, commission)) ==> {
            &&& ret + commission <= u64::MAX
            &&& ret + commission + spread <= u128::MAX
        },
        price matches Some(p) ==> amount * (ONE * ONE / (p.atomics as int)) <= u128::MAX,
{
    lemma_gross_return_bounds(offer, ask, amount);
    let spot = ask * ONE / offer;
    assert(0 <= ask * ONE) by (nonlinear_arith)
        requires
            ask >= 0,
   ;
    lemma_div_nonincreasing(ask * ONE, offer);
    lemma_div_pos_is_pos(ask * ONE, offer);
    assert(0 <= amount * spot <= amount * ask * ONE) by (nonlinear_arith)
        requires
            0 <= spot <= ask * ONE,
            amount >= 0,
   ;
    lemma_div_is_ordered(amount * spot, amount * ask * ONE, ONE as int);
    lemma_div_by_multiple(amount * ask, ONE as int);
    assert(amount * ask <= u64::MAX * u64::MAX) by (nonlinear_arith)
        requires
            0 <= amount <= u64::MAX,
            0 <= ask <= u64::MAX,
   ;
    assert(u64::MAX * u64::MAX <= u128::MAX);
    if let Some(p) = price {
        let inv = ONE * ONE / (p.atomics as int);
        lemma_div_is_ordered_by_denominator(
            ONE * ONE,
            100_000_000_000_000_000,
            p.atomics as int,
        );
        lemma_div_pos_is_pos(ONE * ONE, p.atomics as int);
        assert(inv <= 10_000_000_000_000_000_000);
        assert(amount * inv <= u64::MAX * 10_000_000_000_000_000_000) by (nonlinear_arith)
            requires
                0 <= amount <= u64::MAX,
                0 <= inv <= 10_000_000_000_000_000_000,
       ;
    }
}

proof fn lemma_small_swap(
    store: PoolStore,
    offer: crate::asset::TokenInfo,
    belief_price: Option<Decimal>,
    max_spread: Option<Decimal>,
)
    requires
        is_ordinary(store),
        offer.amount <= u64::MAX,
        is_ordinary_price(belief_price),
    ensures
        simple_trade_defined(store, offer, belief_price, max_spread),
{
    if crate::pool::contract::swap_refused(store, offer.info) is None {
        let index = crate::pool::contract::offer_index_of(store, offer.info)->Some_0;
        let (o, a) = crate::pool::contract::offer_and_ask(store, index);
        let rate = store.pool_specs.lp_fee.atomics as int;
        lemma_small_trade(o as int, a as int, offer.amount as int, rate, belief_price);
        if let Ok((ret, spread, commission)) = swap_outcome(
            o as int,
            a as int,
            offer.amount as int,
            rate,
        ) {
            if offer.amount != 0 {
                lemma_small_ratio(ret as int, offer.amount as int);
            }
            if store.pool_state.total_liquidity != 0 {
                lemma_small_ratio(commission as int, store.pool_state.total_liquidity as int);
            }
        }
    }
}

/// Swaps of ordinary size on a pool of ordinary size are in range.
pub proof fn law_ordinary_swaps_are_in_range(
    store: PoolStore,
    env: Env,
    info: MessageInfo,
    msg: ExecuteMsg,
    host: HostAnswers,
    r: bool,
)
    requires
        call_ensures(execute_in_range, (&store, &env, &info, &msg, &host), r),
        is_ordinary(store),
    ensures
        msg matches ExecuteMsg::SimpleSwap { offer_asset, belief_price, .. } ==> (offer_asset.amount
            <= u64::MAX && is_ordinary_price(belief_price) ==> r),
        msg matches ExecuteMsg::Receive(cw20_msg) ==> (cw20_msg.amount <= u64::MAX && (
        host.hook matches Ok(Cw20HookMsg::Swap { belief_price, .. }) ==> is_ordinary_price(
            belief_price,
        )) ==> r),
{
    match msg {
        ExecuteMsg::SimpleSwap { offer_asset, belief_price, max_spread, .. } => {
            if offer_asset.amount <= u64::MAX && is_ordinary_price(belief_price) {
                lemma_small_swap(store, offer_asset, belief_price, max_spread);
            }
        },
        ExecuteMsg::Receive(cw20_msg) => {
            if let Ok(Cw20HookMsg::Swap { belief_price, max_spread, .. }) = host.hook {
                if cw20_msg.amount <= u64::MAX && is_ordinary_price(belief_price) {
                    lemma_small_swap(
                        store,
                        crate::pool::contract::cw20_offer(info, cw20_msg),
                        belief_price,
                        max_spread,
                    );
                }
            }
        },
        _ => {},
    }
}

proof fn lemma_small_crossing(
    store: PoolStore,
    env: Env,
    amount: u128,
    amount_after_fees: u128,
    to_threshold: Result<u128, crate::error::StdError>,
    belief_price: Option<Decimal>,
    max_spread: Option<Decimal>,
)
    requires
        is_ordinary(store),
        store.native_raised + amount <= u64::MAX,
        0 < amount,
        amount_after_fees <= amount,
        is_ordinary_price(belief_price),
        env.time.nanos + store.commit_limits.creator_excess_liquidity_lock_days * 86_400
            * 1_000_000_000 <= u64::MAX,
    ensures
        crossing_defined(
            store,
            env,
            amount,
            amount_after_fees,
            to_threshold,
            belief_price,
            max_spread,
        ),
{
    if let Ok(b2t) = to_threshold {
        if b2t <= amount {
            let raised = (store.native_raised + b2t) as u128;
            let excess = crate::pool::commit::beyond_threshold(
                amount as int,
                amount_after_fees as int,
                b2t as int,
            );
            if payout_error(
                raised,
                store.commit_limits,
                store.threshold_payout,
                store.fee_info,
            ) is None && excess > 0 {
                lemma_seed(store, raised);
                let s = seeded(
                    store.pool_state,
                    raised,
                    store.commit_limits,
                    store.threshold_payout,
                    store.fee_info,
                );
                let rate = store.pool_specs.lp_fee.atomics as int;
                let swapped = crate::pool::commit::swapped_part(s, excess);
                assert(s.reserve0 <= u64::MAX && s.reserve1 <= u64::MAX);
                lemma_div_pos_is_pos(s.reserve0 * 20, 100);
                lemma_div_nonincreasing(s.reserve0 * 20, 100);
                assert(0 <= swapped <= u64::MAX);
                if s.reserve0 > 0 {
                    lemma_small_trade(
                        s.reserve0 as int,
                        s.reserve1 as int,
                        swapped,
                        rate,
                        belief_price,
                    );
                }
                if let Ok((ret, spread, commission)) = crate::pool::commit::excess_swap(
                    s,
                    swapped,
                    rate,
                ) {
                    if s.total_liquidity != 0 {
                        lemma_small_ratio(commission as int, s.total_liquidity as int);
                    }
                }
                assert(excess_trade_defined(s, excess, rate, belief_price, max_spread));
            }
        }
    }
}

/// Commits of ordinary size on a pool of ordinary size are in range, as long as the end of a lock
/// is.
pub proof fn law_ordinary_commits_are_in_range(
    store: PoolStore,
    env: Env,
    info: MessageInfo,
    msg: ExecuteMsg,
    host: HostAnswers,
    r: bool,
)
    requires
        call_ensures(execute_in_range, (&store, &env, &info, &msg, &host), r),
        is_ordinary(store),
        store.threshold_hit ==> store.pool_state.reserve0 > 0,
        env.time.nanos + store.commit_limits.creator_excess_liquidity_lock_days * 86_400
            * 1_000_000_000 <= u64::MAX,
        msg matches ExecuteMsg::Commit { asset, belief_price, .. } && store.native_raised
            + asset.amount <= u64::MAX && is_ordinary_price(belief_price),
    ensures
        r,
{
    if let ExecuteMsg::Commit { asset, belief_price, max_spread, .. } = msg {
        if let Ok(c) = crate::pool::commit::checked_commit(
            store,
            info,
            asset,
            host.quotes.usd_value,
        ) {
            assert(0 < asset.amount && c.amount_after_fees <= asset.amount);
            lemma_small_crossing(
                store,
                env,
                asset.amount,
                c.amount_after_fees,
                host.quotes.to_threshold,
                belief_price,
                max_spread,
            );
            let rate = store.pool_specs.lp_fee.atomics as int;
            let o = store.pool_state.reserve0 as int;
            let k = store.pool_state.reserve1 as int;
            if o > 0 {
                lemma_small_trade(o, k, c.amount_after_fees as int, rate, belief_price);
                if let Ok((ret, spread, commission)) = swap_outcome(
                    o,
                    k,
                    c.amount_after_fees as int,
                    rate,
                ) {
                    if c.amount_after_fees != 0 {
                        lemma_small_ratio(ret as int, c.amount_after_fees as int);
                    }
                    if store.pool_state.total_liquidity != 0 {
                        lemma_small_ratio(
                            commission as int,
                            store.pool_state.total_liquidity as int,
                        );
                    }
                }
            }
            assert(commit_defined(
                store,
                env,
                info,
                asset,
                belief_price,
                max_spread,
                host.quotes,
            ));
        }
    }
}

} // verus!
