//! What the answers to queries must satisfy.

use vstd::arithmetic::div_mod::*;
use vstd::prelude::*;

use crate::asset::TokenInfo;
use crate::chain::Env;
use crate::error::StdError;
use crate::number::{Decimal, ONE};
use crate::pool::msg::{CommitStatus, CommitterInfo, PositionResponse, QueryMsg};
use crate::pool::position_laws::{earned, lemma_earned};
use crate::pool::query::{
    committer_info, first_passing, owned_view, page_start, passes, position_answer,
    positions_between, query_check_commit, query_outcome, query_pool, PoolQueryAnswer,
    PoolStateResponseForFactory, QueryAnswer, QueryHost,
};
use crate::pool::state::{Committing, PoolState, PoolStore};
use crate::pool::swap_helper::{ask_before_commission, compute_offer_amount, compute_swap};
use crate::pool::swap_laws::{
    is_floor, lemma_is_floor, lemma_prices_added, lemma_swap_outcome, prices_are_added,
    prices_overflow, product_is_kept, spread_of,
};
use crate::table::{ascending, is_first_after, less};
use crate::token_laws::one_token;

verus! {

/// Whether a return, a spread and a commission are those of a swap.
pub open spec fn is_priced(
    offer: u128,
    ask: u128,
    amount: u128,
    rate: Decimal,
    ret: u128,
    spread: u128,
    commission: u128,
) -> bool {
    let gross = ret + commission;
    &&& gross <= ask && product_is_kept(offer as int, ask as int, amount as int, gross)
    &&& is_floor(commission as int, gross * rate.atomics, 1_000_000_000_000_000_000)
    &&& spread == spread_of(offer as int, ask as int, amount as int, gross)
}

/// A swap keeps the product of the reserves, takes the commission of its return, and tells how
/// far it stays behind the price before it.
pub proof fn law_swaps_keep_the_product(
    offer: u128,
    ask: u128,
    amount: u128,
    rate: Decimal,
    r: Result<(u128, u128, u128), StdError>,
)
    requires
        offer > 0,
        call_ensures(compute_swap, (offer, ask, amount, rate), r),
    ensures
        r matches Ok((ret, spread, commission)) ==> is_priced(
            offer,
            ask,
            amount,
            rate,
            ret,
            spread,
            commission,
        ),
        r is Err ==> rate.atomics > 1_000_000_000_000_000_000 || amount * (ask * ONE / (
        offer as int)) / (ONE as int) > u128::MAX,
{
    lemma_swap_outcome(offer as int, ask as int, amount as int, rate.atomics as int);
    if r is Err {
        lemma_swap_refused(offer as int, ask as int, amount as int, rate.atomics as int);
    }
}

pub proof fn lemma_swap_refused(offer: int, ask: int, amount: int, rate: int)
    requires
        0 < offer <= u128::MAX,
        0 <= ask <= u128::MAX,
        0 <= amount <= u128::MAX,
        0 <= rate <= u128::MAX,
        crate::pool::swap_helper::swap_outcome(offer, ask, amount, rate) is Err,
    ensures
        rate > ONE || amount * (ask * ONE / offer) / (ONE as int) > u128::MAX,
{
    let spot = ask * ONE / offer;
    crate::pool::swap_helper::lemma_gross_return_bounds(offer, ask, amount);
    if rate <= ONE {
        let gross = crate::pool::swap_helper::gross_return(offer, ask, amount);
        crate::pool::swap_helper::lemma_commission_at_most_gross(gross, rate);
        let end = crate::number::wide_end();
        assert(end == 0x1_0000_0000_0000_0000_0000_0000_0000_0000int
            * 0x1_0000_0000_0000_0000_0000_0000_0000_0000int);
        if amount * spot >= end {
            lemma_div_is_ordered(end, amount * spot, ONE as int);
            assert(end / (ONE as int) > u128::MAX);
        }
    }
}

/// A simulation tells what a swap comes to, of either token, over what the pool holds.
pub proof fn law_simulations_are_priced(
    store: PoolStore,
    env: Env,
    offer: TokenInfo,
    host: QueryHost,
    r: Result<QueryAnswer, StdError>,
)
    requires
        host.pools matches Ok(p) ==> p[0].amount > 0 && p[1].amount > 0,
        query_outcome(store, env, QueryMsg::Simulation { offer_asset: offer }, host, r),
    ensures
        match r {
            Ok(answer) => {
                &&& answer matches QueryAnswer::Simulation(s)
                &&& host.pools matches Ok(p)
                &&& if one_token(offer.info, p[0].info) {
                    is_priced(
                        p[0].amount,
                        p[1].amount,
                        offer.amount,
                        store.pool_specs.lp_fee,
                        s.return_amount,
                        s.spread_amount,
                        s.commission_amount,
                    )
                } else {
                    one_token(offer.info, p[1].info) && is_priced(
                        p[1].amount,
                        p[0].amount,
                        offer.amount,
                        store.pool_specs.lp_fee,
                        s.return_amount,
                        s.spread_amount,
                        s.commission_amount,
                    )
                }
            },
            Err(e) => match host.pools {
                Err(x) => e == x,
                Ok(p) => {
                    ||| store.pool_specs.lp_fee.atomics > ONE
                    ||| !one_token(offer.info, p[0].info) && !one_token(offer.info, p[1].info)
                    ||| one_token(offer.info, p[0].info) && offer.amount * (p[1].amount * ONE / (
                    p[0].amount as int)) / (ONE as int) > u128::MAX
                    ||| one_token(offer.info, p[1].info) && offer.amount * (p[0].amount * ONE / (
                    p[1].amount as int)) / (ONE as int) > u128::MAX
                },
            },
        },
{
    if let Ok(p) = host.pools {
        let rate = store.pool_specs.lp_fee.atomics as int;
        assert(offer.info.same(p[0].info) == one_token(offer.info, p[0].info));
        assert(offer.info.same(p[1].info) == one_token(offer.info, p[1].info));
        let (o, a) = if offer.info.same(p[0].info) {
            (p[0].amount, p[1].amount)
        } else {
            (p[1].amount, p[0].amount)
        };
        lemma_swap_outcome(o as int, a as int, offer.amount as int, rate);
        if crate::pool::swap_helper::swap_outcome(
            o as int,
            a as int,
            offer.amount as int,
            rate,
        ) is Err {
            lemma_swap_refused(o as int, a as int, offer.amount as int, rate);
        }
    }
}

/// Whether an offer, a spread and a commission are those of a swap that returns an amount. Of
/// that amount, `gross` leaves the ask side, and `ideal` is what it is worth at the price before.
pub open spec fn is_offered(
    offer: u128,
    ask: u128,
    rate: Decimal,
    gross: int,
    ideal: int,
    amount: u128,
    spread: u128,
    commission: u128,
) -> bool {
    &&& gross < ask
    &&& is_floor(offer + amount, offer * ask, ask - gross)
    &&& is_floor(commission as int, gross * rate.atomics, 1_000_000_000_000_000_000)
    &&& spread == (if amount > ideal {
        amount - ideal
    } else {
        0
    })
}

/// Whether no offer brings about the amount that is asked for.
pub open spec fn is_out_of_reach(offer: u128, ask: u128, gross: int) -> bool {
    gross >= ask || offer * ask / (ask - gross) - offer > u128::MAX
}

proof fn lemma_offer(
    offer: u128,
    ask: u128,
    asked: u128,
    rate: Decimal,
    gross: int,
    ideal: int,
    r: Result<(u128, u128, u128), StdError>,
)
    requires
        rate.atomics < ONE,
        is_floor(gross, asked * ONE, ONE - rate.atomics),
        ask > 0 ==> is_floor(ideal, gross * offer, ask as int),
        r == crate::pool::swap_helper::offer_outcome(
            offer as int,
            ask as int,
            asked as int,
            rate.atomics as int,
        ),
    ensures
        match r {
            Ok((amount, spread, commission)) => is_offered(
                offer,
                ask,
                rate,
                gross,
                ideal,
                amount,
                spread,
                commission,
            ),
            Err(_) => is_out_of_reach(offer, ask, gross),
        },
{
    let c = ONE - rate.atomics;
    let one = ONE as int;
    let x = asked as int;
    let top = x * one * one;
    assert(top >= 0) by (nonlinear_arith)
        requires
            top == x * one * one,
            x >= 0,
            one >= 0,
    ;
    lemma_div_denominator(top, c, one);
    assert(c * one > 0) by (nonlinear_arith)
        requires
            c > 0,
            one > 0,
    ;
    let rem = top - gross * (c * one);
    assert(rem == (x * one - gross * c) * one) by (nonlinear_arith)
        requires
            rem == top - gross * (c * one),
            top == x * one * one,
    ;
    assert(0 <= (x * one - gross * c) * one < c * one) by (nonlinear_arith)
        requires
            0 <= x * one - gross * c < c,
            one > 0,
    ;
    lemma_fundamental_div_mod_converse(top, c * one, gross, rem);
    assert(gross == ask_before_commission(x, rate.atomics as int));
    assert(gross >= 0) by (nonlinear_arith)
        requires
            x * one < gross * c + c,
            x * one >= 0,
            c > 0,
    ;
    if gross < ask {
        assert(offer * ask >= 0) by (nonlinear_arith);
        lemma_is_floor(offer * ask, ask - gross);
        assert(gross * offer >= 0) by (nonlinear_arith)
            requires
                gross >= 0,
        ;
        lemma_fundamental_div_mod_converse(
            gross * offer,
            ask as int,
            ideal,
            gross * offer - ideal * ask,
        );
        assert(gross * rate.atomics >= 0) by (nonlinear_arith)
            requires
                gross >= 0,
        ;
        lemma_is_floor(gross * rate.atomics, one);
        let q = offer * ask / (ask - gross);
        assert(q >= offer) by {
            assert(offer * ask >= offer * (ask - gross)) by (nonlinear_arith)
                requires
                    gross >= 0,
            ;
            lemma_div_is_ordered(offer * (ask - gross), offer * ask, ask - gross);
            lemma_div_by_multiple(offer as int, ask - gross);
        }
        let commission = gross * rate.atomics / one;
        assert(commission <= gross) by {
            crate::pool::swap_helper::lemma_commission_at_most_gross(gross, rate.atomics as int);
        }
        lemma_div_pos_is_pos(gross * offer, ask as int);
    }
}

/// The offer for an amount is what keeps the product of the reserves when that amount and its
/// commission leave.
pub proof fn law_offers_keep_the_product(
    offer: u128,
    ask: u128,
    asked: u128,
    rate: Decimal,
    gross: int,
    ideal: int,
    r: Result<(u128, u128, u128), StdError>,
)
    requires
        rate.atomics < ONE,
        is_floor(gross, asked * ONE, ONE - rate.atomics),
        ask > 0 ==> is_floor(ideal, gross * offer, ask as int),
        call_ensures(compute_offer_amount, (offer, ask, asked, rate), r),
    ensures
        match r {
            Ok((amount, spread, commission)) => is_offered(
                offer,
                ask,
                rate,
                gross,
                ideal,
                amount,
                spread,
                commission,
            ),
            Err(_) => is_out_of_reach(offer, ask, gross),
        },
{
    lemma_offer(offer, ask, asked, rate, gross, ideal, r);
}

/// A reverse simulation tells what has to be offered for an amount of either token.
pub proof fn law_reverse_simulations_ask_enough(
    store: PoolStore,
    env: Env,
    ask: TokenInfo,
    host: QueryHost,
    r: Result<QueryAnswer, StdError>,
    gross: int,
    ideal: int,
    p: [TokenInfo; 2],
)
    requires
        store.pool_specs.lp_fee.atomics < ONE,
        host.pools == Ok::<_, StdError>(p),
        is_floor(gross, ask.amount * ONE, ONE - store.pool_specs.lp_fee.atomics),
        one_token(ask.info, p[0].info) && p[0].amount > 0 ==> is_floor(
            ideal,
            gross * p[1].amount,
            p[0].amount as int,
        ),
        !one_token(ask.info, p[0].info) && p[1].amount > 0 ==> is_floor(
            ideal,
            gross * p[0].amount,
            p[1].amount as int,
        ),
        query_outcome(store, env, QueryMsg::ReverseSimulation { ask_asset: ask }, host, r),
    ensures
        ({
            let (a, o) = if one_token(ask.info, p[0].info) {
                (p[0].amount, p[1].amount)
            } else {
                (p[1].amount, p[0].amount)
            };
            let known = one_token(ask.info, p[0].info) || one_token(ask.info, p[1].info);
            match r {
                Ok(answer) => {
                    &&& known
                    &&& answer matches QueryAnswer::ReverseSimulation(s) && is_offered(
                        o,
                        a,
                        store.pool_specs.lp_fee,
                        gross,
                        ideal,
                        s.offer_amount,
                        s.spread_amount,
                        s.commission_amount,
                    )
                },
                Err(_) => !known || is_out_of_reach(o, a, gross),
            }
        }),
{
    assert(ask.info.same(p[0].info) == one_token(ask.info, p[0].info));
    assert(ask.info.same(p[1].info) == one_token(ask.info, p[1].info));
    let (a, o) = if one_token(ask.info, p[0].info) {
        (p[0].amount, p[1].amount)
    } else {
        (p[1].amount, p[0].amount)
    };
    lemma_offer(
        o,
        a,
        ask.amount,
        store.pool_specs.lp_fee,
        gross,
        ideal,
        crate::pool::swap_helper::offer_outcome(
            o as int,
            a as int,
            ask.amount as int,
            store.pool_specs.lp_fee.atomics as int,
        ),
    );
}

/// The time-weighted prices are told as of now: those of the last update, and since then those of
/// what the pool holds.
pub proof fn law_prices_are_told_as_of_now(
    store: PoolStore,
    env: Env,
    host: QueryHost,
    r: Result<QueryAnswer, StdError>,
)
    requires
        query_outcome(store, env, QueryMsg::CumulativePrices {  }, host, r),
    ensures
        r matches Ok(answer) ==> {
            &&& answer matches QueryAnswer::CumulativePrices(c)
            &&& host.pools == Ok::<_, StdError>(c.assets)
            &&& exists|t: PoolState|
                {
                    &&& #[trigger] prices_are_added(
                        PoolState {
                            reserve0: c.assets[0].amount,
                            reserve1: c.assets[1].amount,
                            ..store.pool_state
                        },
                        t,
                        (env.time.nanos / 1_000_000_000) as u64,
                    )
                    &&& t.price0_cumulative_last == c.price0_cumulative_last
                    &&& t.price1_cumulative_last == c.price1_cumulative_last
                }
        },
        host.pools matches Err(e) ==> r == Err::<QueryAnswer, _>(e),
        r is Err ==> (host.pools matches Ok(p) ==> prices_overflow(
            PoolState { reserve0: p[0].amount, reserve1: p[1].amount, ..store.pool_state },
            env.time.nanos as int / 1_000_000_000,
        )),
{
    if let Ok(QueryAnswer::CumulativePrices(c)) = r {
        let s = PoolState {
            reserve0: c.assets[0].amount,
            reserve1: c.assets[1].amount,
            ..store.pool_state
        };
        let now = (env.time.nanos / 1_000_000_000) as u64;
        let t = crate::pool::swap_helper::accumulated(s, now)->Ok_0;
        lemma_prices_added(s, now);
        assert(prices_are_added(s, t, now));
    }
}

/// Whether an answer shows a position as it is held, with what its shares earned since its
/// snapshot.
pub open spec fn shows_position(store: PoolStore, p: PositionResponse) -> bool {
    let id = p.position_id@;
    let held = store.positions@[id];
    &&& store.positions@.dom().contains(id)
    &&& p.liquidity == held.liquidity && p.owner == held.owner
    &&& p.created_at == held.created_at && p.last_fee_collection == held.last_fee_collection
    &&& p.fee_growth_inside_0_last == held.fee_growth_inside_0_last
    &&& p.fee_growth_inside_1_last == held.fee_growth_inside_1_last
    &&& p.unclaimed_fees_0 == earned(
        held.liquidity as int,
        store.fee_state.fee_growth_global_0,
        held.fee_growth_inside_0_last,
    )
    &&& p.unclaimed_fees_1 == earned(
        held.liquidity as int,
        store.fee_state.fee_growth_global_1,
        held.fee_growth_inside_1_last,
    )
}

/// Whether the earnings of a position are too large to be told.
pub open spec fn earns_too_much(store: PoolStore, id: Seq<char>) -> bool {
    let held = store.positions@[id];
    &&& store.positions@.dom().contains(id)
    &&& earned(
        held.liquidity as int,
        store.fee_state.fee_growth_global_0,
        held.fee_growth_inside_0_last,
    ) > u128::MAX || earned(
        held.liquidity as int,
        store.fee_state.fee_growth_global_1,
        held.fee_growth_inside_1_last,
    ) > u128::MAX
}

proof fn lemma_position_answer(store: PoolStore, position_id: String)
    ensures
        match position_answer(store, position_id) {
            Ok(p) => p.position_id == position_id && shows_position(store, p),
            Err(_) => !store.positions@.dom().contains(position_id@) || earns_too_much(
                store,
                position_id@,
            ),
        },
{
    if store.positions@.dom().contains(position_id@) {
        let held = store.positions@[position_id@];
        lemma_earned(
            held.liquidity,
            store.fee_state.fee_growth_global_0,
            held.fee_growth_inside_0_last,
        );
        lemma_earned(
            held.liquidity,
            store.fee_state.fee_growth_global_1,
            held.fee_growth_inside_1_last,
        );
    }
}

/// A position is shown as it is held; where it is not, it is not found.
pub proof fn law_positions_are_shown(
    store: PoolStore,
    env: Env,
    position_id: String,
    host: QueryHost,
    r: Result<QueryAnswer, StdError>,
)
    requires
        query_outcome(store, env, QueryMsg::Position { position_id }, host, r),
    ensures
        match r {
            Ok(answer) => answer matches QueryAnswer::Position(p) && p.position_id == position_id
                && shows_position(store, p),
            Err(StdError::NotFound(_)) => !store.positions@.dom().contains(position_id@),
            Err(_) => earns_too_much(store, position_id@),
        },
{
    lemma_position_answer(store, position_id);
}

/// How many entries a page holds at most, where `usual` is what nobody asks for and `most` what
/// nobody gets more than.
pub open spec fn fits_page(count: int, limit: Option<u32>, usual: int, most: int) -> bool {
    &&& count <= most
    &&& limit is None ==> count <= usual
    &&& limit matches Some(n) ==> count <= n
}

/// Whether a page that holds `count` entries is full.
pub open spec fn fills_page(count: int, limit: Option<u32>, usual: int, most: int) -> bool {
    &&& fits_page(count, limit, usual, most)
    &&& !fits_page(count + 1, limit, usual, most)
}

/// Whether a key comes after the one that a page starts after.
pub open spec fn is_past(start: Option<String>, key: Seq<char>) -> bool {
    start matches Some(s) ==> less(s@, key)
}

/// Whether positions are the page of those with the keys `ids` after `start`: in the order of
/// the keys, none left out, and as many as fit.
pub open spec fn is_positions_page<V>(
    store: PoolStore,
    ids: Seq<(String, V)>,
    start: Option<String>,
    limit: Option<u32>,
    page: Seq<PositionResponse>,
) -> bool {
    &&& fits_page(page.len() as int, limit, 10, 30)
    &&& forall|k: int|
        0 <= k < page.len() ==> {
            &&& shows_position(store, #[trigger] page[k])
            &&& is_past(start, page[k].position_id@)
            &&& exists|i: int|
                0 <= i < ids.len() && (#[trigger] ids[i]).0@ == page[k].position_id@
        }
    &&& forall|k: int, l: int|
        0 <= k < l < page.len() ==> less(
            (#[trigger] page[k]).position_id@,
            (#[trigger] page[l]).position_id@,
        )
    &&& forall|i: int|
        0 <= i < ids.len() && is_past(start, (#[trigger] ids[i]).0@) ==> {
            ||| exists|k: int|
                0 <= k < page.len() && (#[trigger] page[k]).position_id@ == ids[i].0@
            ||| fills_page(page.len() as int, limit, 10, 30) && (page.len() > 0 ==> less(
                page.last().position_id@,
                ids[i].0@,
            ))
        }
}

proof fn lemma_positions_between<V>(store: PoolStore, ids: Seq<(String, V)>, from: int, to: int)
    requires
        0 <= from <= to <= ids.len(),
    ensures
        match positions_between(store, ids, from, to) {
            Ok(page) => {
                &&& page.len() == to - from
                &&& forall|k: int|
                    0 <= k < page.len() ==> (#[trigger] page[k]).position_id == ids[from + k].0
                        && shows_position(store, page[k])
            },
            Err(_) => exists|i: int|
                from <= i < to && (!store.positions@.dom().contains((#[trigger] ids[i]).0@)
                    || earns_too_much(store, ids[i].0@)),
        },
    decreases to - from,
{
    if from < to {
        lemma_positions_between(store, ids, from, to - 1);
        lemma_position_answer(store, ids[to - 1].0);
        match positions_between(store, ids, from, to - 1) {
            Ok(page) => {
                if position_answer(store, ids[to - 1].0) is Err {
                    let i = to - 1;
                    assert(!store.positions@.dom().contains(ids[i].0@) || earns_too_much(
                        store,
                        ids[i].0@,
                    ));
                }
            },
            Err(_) => {
                let i = choose|i: int|
                    from <= i < to - 1 && (!store.positions@.dom().contains((#[trigger] ids[i]).0@)
                        || earns_too_much(store, ids[i].0@));
                assert(from <= i < to);
            },
        }
    }
}

proof fn lemma_page_is_complete<V>(
    store: PoolStore,
    ids: Seq<(String, V)>,
    start: Option<String>,
    limit: Option<u32>,
    page: Seq<PositionResponse>,
    from: int,
    to: int,
)
    requires
        ascending(ids),
        is_first_after(ids, owned_view(start), from),
        0 <= from <= to <= ids.len(),
        page.len() == to - from,
        forall|k: int|
            0 <= k < page.len() ==> (#[trigger] page[k]).position_id == ids[from + k].0
                && shows_position(store, page[k]),
        fits_page(to - from, limit, 10, 30),
        to < ids.len() ==> fills_page(to - from, limit, 10, 30),
    ensures
        is_positions_page(store, ids, start, limit, page),
{
    assert forall|k: int| 0 <= k < page.len() implies {
        &&& shows_position(store, #[trigger] page[k])
        &&& is_past(start, page[k].position_id@)
        &&& exists|i: int| 0 <= i < ids.len() && (#[trigger] ids[i]).0@ == page[k].position_id@
    } by {
        assert(ids[from + k].0@ == page[k].position_id@);
    }
    assert forall|k: int, l: int| 0 <= k < l < page.len() implies less(
        (#[trigger] page[k]).position_id@,
        (#[trigger] page[l]).position_id@,
    ) by {
        assert(less(ids[from + k].0@, ids[from + l].0@));
    }
    assert forall|i: int| 0 <= i < ids.len() && is_past(start, (#[trigger] ids[i]).0@) implies {
        ||| exists|k: int| 0 <= k < page.len() && (#[trigger] page[k]).position_id@ == ids[i].0@
        ||| fills_page(page.len() as int, limit, 10, 30) && (page.len() > 0 ==> less(
            page.last().position_id@,
            ids[i].0@,
        ))
    } by {
        assert(from <= i);
        if i < to {
            assert(page[i - from].position_id@ == ids[i].0@);
        } else if page.len() > 0 {
            assert(page.last().position_id@ == ids[to - 1].0@);
            assert(less(ids[to - 1].0@, ids[i].0@));
        }
    }
}

#[verifier::rlimit(40)]
proof fn lemma_page<V>(
    store: PoolStore,
    ids: Seq<(String, V)>,
    start: Option<String>,
    limit: Option<u32>,
    r: Result<crate::pool::msg::PositionsResponse, StdError>,
)
    requires
        ascending(ids),
        crate::pool::query::is_page(store, ids, start, limit, r),
    ensures
        match r {
            Ok(page) => is_positions_page(store, ids, start, limit, page.positions@),
            Err(_) => exists|i: int|
                0 <= i < ids.len() && (!store.positions@.dom().contains((#[trigger] ids[i]).0@)
                    || earns_too_much(store, ids[i].0@)),
        },
{
    crate::table::lemma_first_after_exists(ids, owned_view(start));
    let from = page_start(ids, owned_view(start));
    assert(is_first_after(ids, owned_view(start), from));
    let to = crate::pool::query::page_end(
        ids,
        owned_view(start),
        crate::pool::query::page_size(limit, 10, 30),
    );
    lemma_positions_between(store, ids, from, to);
    match r {
        Ok(page) => {
            lemma_page_is_complete(store, ids, start, limit, page.positions@, from, to);
        },
        Err(_) => {
            let i = choose|i: int|
                from <= i < to && (!store.positions@.dom().contains((#[trigger] ids[i]).0@)
                    || earns_too_much(store, ids[i].0@));
            assert(0 <= i < ids.len());
        },
    }
}

/// A page of positions holds those after its start in order: ten where nobody asks for a number,
/// and thirty at most.
pub proof fn law_pages_of_positions_are_complete(
    store: PoolStore,
    env: Env,
    start_after: Option<String>,
    limit: Option<u32>,
    host: QueryHost,
    r: Result<QueryAnswer, StdError>,
)
    requires
        store.wf(),
        query_outcome(store, env, QueryMsg::Positions { start_after, limit }, host, r),
    ensures
        match r {
            Ok(answer) => answer matches QueryAnswer::Positions(page) && is_positions_page(
                store,
                store.positions.entries@,
                start_after,
                limit,
                page.positions@,
            ),
            Err(_) => exists|id: Seq<char>| #[trigger] earns_too_much(store, id),
        },
{
    let ids = store.positions.entries@;
    match r {
        Ok(QueryAnswer::Positions(page)) => {
            lemma_page(store, ids, start_after, limit, Ok(page));
        },
        Ok(_) => {},
        Err(e) => {
            lemma_page(store, ids, start_after, limit, Err(e));
            let i = choose|i: int|
                0 <= i < ids.len() && (!store.positions@.dom().contains((#[trigger] ids[i]).0@)
                    || earns_too_much(store, ids[i].0@));
            crate::table::lemma_position(ids, i);
            assert(earns_too_much(store, ids[i].0@));
        },
    }
}

/// A page of the positions of an owner holds those that are listed for them, after its start and
/// in order; an owner without any gets an empty page.
pub proof fn law_pages_of_owners_are_complete(
    store: PoolStore,
    env: Env,
    owner: String,
    start_after: Option<String>,
    limit: Option<u32>,
    host: QueryHost,
    r: Result<QueryAnswer, StdError>,
)
    requires
        store.wf(),
        query_outcome(
            store,
            env,
            QueryMsg::PositionsByOwner { owner, start_after, limit },
            host,
            r,
        ),
    ensures
        match host.account {
            Err(e) => r == Err::<QueryAnswer, _>(e),
            Ok(account) => {
                let none = !store.owner_positions@.dom().contains(account@);
                let ids = store.owner_positions@[account@].entries@;
                match r {
                    Ok(answer) => answer matches QueryAnswer::Positions(page) && if none {
                        page.positions@.len() == 0
                    } else {
                        is_positions_page(store, ids, start_after, limit, page.positions@)
                    },
                    Err(_) => !none && exists|i: int|
                        0 <= i < ids.len() && (!store.positions@.dom().contains(
                            (#[trigger] ids[i]).0@,
                        ) || earns_too_much(store, ids[i].0@)),
                }
            },
        },
{
    if let Ok(account) = host.account {
        if store.owner_positions@.dom().contains(account@) {
            let ids = store.owner_positions@[account@].entries@;
            match r {
                Ok(QueryAnswer::Positions(page)) => {
                    lemma_page(store, ids, start_after, limit, Ok(page));
                },
                Ok(_) => {},
                Err(e) => {
                    lemma_page(store, ids, start_after, limit, Err(e));
                },
            }
        }
    }
}

/// Whether a record is asked for: it is one of the pool, with a last payment and a time as large
/// as those that are named.
pub open spec fn is_wanted(
    c: Committing,
    pool: Seq<char>,
    min_usd: Option<u128>,
    after: Option<u64>,
) -> bool {
    &&& c.pool_contract_address@ == pool
    &&& min_usd matches Some(least) ==> least <= c.last_payment_usd
    &&& after matches Some(t) ==> t <= c.last_committed.nanos as int / 1_000_000_000
}

/// Whether an answer shows a record as it is held.
pub open spec fn shows_committer(store: PoolStore, c: CommitterInfo) -> bool {
    let held = store.commit_info@[c.wallet@];
    &&& store.commit_info@.dom().contains(c.wallet@)
    &&& c.last_payment_bluechip == held.last_payment_bluechip
    &&& c.last_payment_usd == held.last_payment_usd
    &&& c.last_committed == held.last_committed
    &&& c.total_paid_usd == held.total_paid_usd
    &&& c.total_paid_bluechip == held.total_paid_bluechip
}

#[verifier::rlimit(60)]
proof fn lemma_first_passing(
    entries: Seq<(String, Committing)>,
    from: int,
    size: int,
    pool: Seq<char>,
    min_usd: Option<u128>,
    after: Option<u64>,
) -> (at: Seq<int>)
    requires
        0 <= from,
    ensures
        ({
            let page = first_passing(entries, from, size, pool, min_usd, after);
            let most = if size < 1 {
                1
            } else {
                size
            };
            &&& at.len() == page.len() <= most
            &&& forall|k: int|
                0 <= k < at.len() ==> {
                    &&& from <= #[trigger] at[k] < entries.len()
                    &&& page[k] == committer_info(entries[at[k]].0, entries[at[k]].1)
                    &&& passes(entries[at[k]].1, pool, min_usd, after)
                }
            &&& forall|k: int, l: int|
                0 <= k < l < at.len() ==> (#[trigger] at[k]) < (#[trigger] at[l])
            &&& forall|i: int|
                from <= i < entries.len() && passes(
                    (#[trigger] entries[i]).1,
                    pool,
                    min_usd,
                    after,
                ) ==> at.contains(i) || (at.len() == most && at.last() < i)
        }),
    decreases entries.len() - from,
{
    if from >= entries.len() {
        Seq::empty()
    } else if !passes(entries[from].1, pool, min_usd, after) {
        lemma_first_passing(entries, from + 1, size, pool, min_usd, after)
    } else if size <= 1 {
        let at = seq![from];
        assert(at[0] == from);
        assert(at.contains(from));
        at
    } else {
        let rest = lemma_first_passing(entries, from + 1, size - 1, pool, min_usd, after);
        let at = seq![from] + rest;
        let tail = first_passing(entries, from + 1, size - 1, pool, min_usd, after);
        assert(at[0] == from);
        assert forall|i: int|
            from <= i < entries.len() && passes(
                (#[trigger] entries[i]).1,
                pool,
                min_usd,
                after,
            ) implies at.contains(i) || (at.len() == size && at.last() < i) by {
            if i == from {
                assert(at[0] == i);
            } else if rest.contains(i) {
                let k = choose|k: int| 0 <= k < rest.len() && rest[k] == i;
                assert(at[k + 1] == i);
            } else {
                assert(rest.len() == size - 1 && rest.last() < i);
                assert(at.last() == rest.last());
            }
        }
        assert forall|k: int| 0 <= k < at.len() implies {
            &&& from <= #[trigger] at[k] < entries.len()
            &&& first_passing(entries, from, size, pool, min_usd, after)[k] == committer_info(
                entries[at[k]].0,
                entries[at[k]].1,
            )
            &&& passes(entries[at[k]].1, pool, min_usd, after)
        } by {
            if k > 0 {
                assert(at[k] == rest[k - 1]);
            }
        }
        assert forall|k: int, l: int| 0 <= k < l < at.len() implies (#[trigger] at[k]) < (
        #[trigger] at[l]) by {
            assert(at[l] == rest[l - 1]);
            if k > 0 {
                assert(at[k] == rest[k - 1]);
            }
        }
        at
    }
}

/// A page of committers holds the records that are asked for, after its start and in order: thirty
/// where nobody asks for a number, and a hundred at most. None is left out, and a page holds one
/// at least where there is one.
#[verifier::rlimit(60)]
pub proof fn law_pages_of_committers_are_complete(
    store: PoolStore,
    env: Env,
    msg: QueryMsg,
    host: QueryHost,
    r: Result<QueryAnswer, StdError>,
    wallet: Seq<char>,
)
    requires
        store.wf(),
        msg is PoolCommits,
        query_outcome(store, env, msg, host, r),
    ensures
        ({
            let pool = msg->PoolCommits_pool_contract_address@;
            let min_usd = msg->PoolCommits_min_payment_usd;
            let after = msg->after_timestamp;
            let limit = msg->PoolCommits_limit;
            let named = msg->PoolCommits_start_after is Some;
            let start = if named {
                Some(host.account->Ok_0)
            } else {
                None
            };
            let held = store.commit_info@;
            match r {
                Err(e) => named && host.account == Err::<crate::chain::Addr, _>(e),
                Ok(answer) => {
                    &&& named ==> host.account is Ok
                    &&& answer matches QueryAnswer::Committers(c)
                    &&& c.total_count == c.committers@.len()
                    &&& c.committers@.len() <= 1 || fits_page(
                        c.committers@.len() as int,
                        limit,
                        30,
                        100,
                    )
                    &&& forall|k: int|
                        0 <= k < c.committers@.len() ==> {
                            &&& shows_committer(store, #[trigger] c.committers@[k])
                            &&& is_past(start, c.committers@[k].wallet@)
                            &&& is_wanted(held[c.committers@[k].wallet@], pool, min_usd, after)
                        }
                    &&& forall|k: int, l: int|
                        0 <= k < l < c.committers@.len() ==> less(
                            (#[trigger] c.committers@[k]).wallet@,
                            (#[trigger] c.committers@[l]).wallet@,
                        )
                    &&& held.dom().contains(wallet) && is_wanted(held[wallet], pool, min_usd, after)
                        && is_past(start, wallet) ==> {
                        ||| exists|k: int|
                            0 <= k < c.committers@.len() && (#[trigger] c.committers@[k]).wallet@
                                == wallet
                        ||| c.committers@.len() > 0 && !fits_page(
                            (c.committers@.len() + 1) as int,
                            limit,
                            30,
                            100,
                        ) && less(c.committers@.last().wallet@, wallet)
                    }
                },
            }
        }),
{
    let pool = msg->PoolCommits_pool_contract_address@;
    let min_usd = msg->PoolCommits_min_payment_usd;
    let after = msg->after_timestamp;
    let limit = msg->PoolCommits_limit;
    let named = msg->PoolCommits_start_after is Some;
    let start = if named {
        Some(host.account->Ok_0)
    } else {
        None
    };
    let entries = store.commit_info.entries@;
    if let Ok(QueryAnswer::Committers(c)) = r {
        crate::table::lemma_first_after_exists(entries, owned_view(start));
        let from = page_start(entries, owned_view(start));
        assert(is_first_after(entries, owned_view(start), from));
        let size = crate::pool::query::page_size(limit, 30, 100);
        let at = lemma_first_passing(entries, from, size, pool, min_usd, after);
        let page = c.committers@;
        assert forall|k: int| 0 <= k < page.len() implies {
            &&& shows_committer(store, #[trigger] page[k])
            &&& is_past(start, page[k].wallet@)
            &&& is_wanted(store.commit_info@[page[k].wallet@], pool, min_usd, after)
        } by {
            assert(from <= at[k] < entries.len());
            crate::table::lemma_position(entries, at[k]);
        }
        assert forall|k: int, l: int| 0 <= k < l < page.len() implies less(
            (#[trigger] page[k]).wallet@,
            (#[trigger] page[l]).wallet@,
        ) by {
            assert(at[k] < at[l]);
            assert(page[k].wallet == entries[at[k]].0);
            assert(page[l].wallet == entries[at[l]].0);
        }
        let held = store.commit_info@;
        if held.dom().contains(wallet) && is_wanted(held[wallet], pool, min_usd, after) && is_past(
            start,
            wallet,
        ) {
            let i = crate::table::position(entries, wallet);
            assert(crate::table::has_key(entries, wallet));
            assert(entries[i].0@ == wallet);
            assert(from <= i);
            assert(passes(entries[i].1, pool, min_usd, after));
            if at.contains(i) {
                let k = choose|k: int| 0 <= k < at.len() && at[k] == i;
                assert(page[k].wallet@ == wallet);
            } else {
                assert(page.last().wallet == entries[at.last()].0);
            }
        }
    }
}

/// Whether the factory is told the state of the pool as it is.
pub open spec fn is_told(store: PoolStore, t: PoolStateResponseForFactory) -> bool {
    let s = store.pool_state;
    let infos = store.pool_info.pool_info.asset_infos;
    &&& t.pool_contract_address == s.pool_contract_address
    &&& t.nft_ownership_accepted == s.nft_ownership_accepted
    &&& t.reserve0 == s.reserve0 && t.reserve1 == s.reserve1
    &&& t.total_liquidity == s.total_liquidity && t.block_time_last == s.block_time_last
    &&& t.price0_cumulative_last == s.price0_cumulative_last
    &&& t.price1_cumulative_last == s.price1_cumulative_last
    &&& t.assets@.len() == 2
    &&& crate::token_laws::called(infos[0], t.assets@[0]@)
    &&& crate::token_laws::called(infos[1], t.assets@[1]@)
}

/// All other queries tell what is held, as it is.
pub proof fn law_answers_tell_what_is_held(
    store: PoolStore,
    env: Env,
    msg: QueryMsg,
    host: QueryHost,
    r: Result<QueryAnswer, StdError>,
)
    requires
        query_outcome(store, env, msg, host, r),
    ensures
        ({
            let s = store.pool_state;
            let f = store.fee_state;
            &&& msg is Pair ==> (r matches Ok(QueryAnswer::Pair(p)) && *p
                == store.pool_info.pool_info)
            &&& msg is Config ==> (r matches Ok(QueryAnswer::Config(c)) && c.block_time_last
                == s.block_time_last && c.params is None)
            &&& msg is FeeInfo ==> (r matches Ok(QueryAnswer::FeeInfo(fees)) && *fees
                == store.fee_info)
            &&& msg is IsFullyCommited ==> (r matches Ok(QueryAnswer::CommitStatus(status))
                && match status {
                CommitStatus::FullyCommitted => store.threshold_hit,
                CommitStatus::InProgress { raised, target } => !store.threshold_hit && raised
                    == store.usd_raised && target
                    == store.commit_limits.commit_amount_for_threshold_usd,
            })
            &&& msg is PoolState ==> (r matches Ok(QueryAnswer::PoolState(t)) && t.reserve0
                == s.reserve0 && t.reserve1 == s.reserve1 && t.total_liquidity == s.total_liquidity
                && t.block_time_last == s.block_time_last && t.nft_ownership_accepted
                == s.nft_ownership_accepted)
            &&& msg is FeeState ==> (r matches Ok(QueryAnswer::FeeState(g))
                && g.fee_growth_global_0 == f.fee_growth_global_0 && g.fee_growth_global_1
                == f.fee_growth_global_1 && g.total_fees_collected_0 == f.total_fees_collected_0
                && g.total_fees_collected_1 == f.total_fees_collected_1)
            &&& msg is PoolInfo ==> (r matches Ok(QueryAnswer::PoolInfo(i))
                && i.pool_state.reserve0 == s.reserve0 && i.pool_state.reserve1 == s.reserve1
                && i.pool_state.total_liquidity == s.total_liquidity && i.pool_state.block_time_last
                == s.block_time_last && i.pool_state.nft_ownership_accepted
                == s.nft_ownership_accepted && i.fee_state.fee_growth_global_0
                == f.fee_growth_global_0 && i.fee_state.fee_growth_global_1
                == f.fee_growth_global_1 && i.fee_state.total_fees_collected_0
                == f.total_fees_collected_0 && i.fee_state.total_fees_collected_1
                == f.total_fees_collected_1 && i.total_positions == store.next_position_id)
            &&& msg is IsPaused ==> (r matches Ok(QueryAnswer::Paused(p)) && p == store.paused)
            &&& msg is FactoryNotifyStatus ==> (r matches Ok(QueryAnswer::NotifyStatus(n))
                && n.pending == store.pending_factory_notify)
            &&& msg is GetPoolState ==> (r matches Ok(
                QueryAnswer::Factory(PoolQueryAnswer::PoolState(t)),
            ) && is_told(store, t))
            &&& msg is GetAllPools ==> (r matches Ok(
                QueryAnswer::Factory(PoolQueryAnswer::AllPools { pools }),
            ) && pools@.len() == 1 && pools@[0].0 == s.pool_contract_address && is_told(
                store,
                pools@[0].1,
            ))
        }),
{
}

/// Queries about an account tell its record, or that there is none.
pub proof fn law_records_are_told(
    store: PoolStore,
    env: Env,
    msg: QueryMsg,
    host: QueryHost,
    r: Result<QueryAnswer, StdError>,
)
    requires
        msg is CommittingInfo || msg is LastCommited,
        query_outcome(store, env, msg, host, r),
    ensures
        match host.account {
            Err(e) => r == Err::<QueryAnswer, _>(e),
            Ok(account) => {
                let committed = store.commit_info@.dom().contains(account@);
                let held = store.commit_info@[account@];
                &&& msg is CommittingInfo ==> (r matches Ok(QueryAnswer::Committing(c)) && (c is Some
                    <==> committed) && (c matches Some(c) ==> *c == held))
                &&& msg is LastCommited ==> (r matches Ok(QueryAnswer::LastCommitted(l))
                    && l.has_committed == committed && if committed {
                    l.last_committed == Some(held.last_committed) && l.last_payment_bluechip
                        == Some(held.last_payment_bluechip) && l.last_payment_usd == Some(
                        held.last_payment_usd,
                    )
                } else {
                    l.last_committed is None && l.last_payment_bluechip is None
                        && l.last_payment_usd is None
                })
            },
        },
{
}

/// What the pool holds is told as the chain answers it, and an answer that fails is handed on; so
/// are the reverse simulations over it.
pub proof fn law_holdings_are_handed_on(
    store: PoolStore,
    env: Env,
    ask_asset: TokenInfo,
    host: QueryHost,
    told: Result<crate::pool::msg::PoolResponse, StdError>,
    r: Result<QueryAnswer, StdError>,
)
    requires
        call_ensures(query_pool, (host.pools,), told),
        query_outcome(store, env, QueryMsg::ReverseSimulation { ask_asset }, host, r),
    ensures
        told is Ok <==> host.pools is Ok,
        told matches Ok(p) ==> host.pools == Ok::<_, StdError>(p.assets),
        host.pools matches Err(e) ==> told == Err::<crate::pool::msg::PoolResponse, _>(e) && r
            == Err::<QueryAnswer, _>(e),
{
}

/// The threshold has been met where it was crossed, or enough was raised.
pub proof fn law_the_threshold_is_told(store: PoolStore, r: bool)
    requires
        call_ensures(query_check_commit, (&store,), r),
    ensures
        r <==> store.threshold_hit || store.commit_limits.commit_amount_for_threshold_usd
            <= store.usd_raised,
{
}

} // verus!
