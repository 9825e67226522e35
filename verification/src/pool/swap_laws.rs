//! What a swap must satisfy, whichever way it is asked for: what it takes and pays, whom it pays,
//! how far its price may be off, what it books, and why it may be refused.

use vstd::arithmetic::div_mod::*;
use vstd::arithmetic::mul::*;
use vstd::prelude::*;

use crate::asset::{TokenInfo, TokenType};
use crate::chain::{Addr, CosmosMsg, Env, MessageInfo, Response};
use crate::error::StdError;
use crate::number::{limb, Decimal, Timestamp, ONE};
use crate::pool::contract::{
    execute_outcome, guarded_swap_outcome, simple_trade, swap_outcome_of, HostAnswers,
};
use crate::pool::error::ContractError;
use crate::pool::msg::{Cw20HookMsg, Cw20ReceiveMsg, ExecuteMsg};
use crate::pool::payments::{coins_sent, lemma_paid_by_few, tokens_sent};
use crate::pool::state::{PoolFeeState, PoolState, PoolStore};
use crate::pool::swap_helper::{
    gross_return, lemma_commission_at_most_gross, lemma_gross_return_bounds, swap_outcome,
};
use crate::text::digits;

verus! {

/// What messages pay an account in a token.
pub open spec fn paid_in(msgs: Seq<CosmosMsg>, token: TokenType, to: Seq<char>) -> int {
    match token {
        TokenType::Bluechip { denom } => coins_sent(msgs, to, denom@),
        TokenType::CreatorToken { contract_addr } => tokens_sent(msgs, contract_addr@, to),
    }
}

/// `q` is `n / d`, rounded down.
pub open spec fn is_floor(q: int, n: int, d: int) -> bool {
    q * d <= n < q * d + d
}

/// Taking `gross` out of the ask side for `amount` keeps the product of the reserves, up to
/// rounding, and takes as much as that allows.
pub open spec fn product_is_kept(offer: int, ask: int, amount: int, gross: int) -> bool {
    let n = offer + amount;
    &&& offer * ask - (n - 1) / (ONE as int) <= n * (ask - gross)
    &&& n * (ask - gross) < offer * ask + n
}

/// How far a return stays behind what `amount` would return at the price before.
pub open spec fn spread_of(offer: int, ask: int, amount: int, gross: int) -> int {
    let ideal = amount * (ask * ONE / offer) / (ONE as int);
    if ideal > gross {
        ideal - gross
    } else {
        0
    }
}

/// A return is close enough: to what the trader's own price promises, where there is one, and
/// else to the price before. The limit is the trader's, where there is one, and else 0.5%.
pub open spec fn within_limit(
    belief_price: Option<Decimal>,
    max_spread: Option<Decimal>,
    amount: int,
    gross: int,
    spread: int,
) -> bool {
    let limit: int = match max_spread {
        Some(d) => d.atomics as int,
        None => 5_000_000_000_000_000,
    };
    match belief_price {
        None => gross + spread > 0 && spread * ONE / (gross + spread) <= limit,
        Some(p) => {
            let promised = amount * (ONE * ONE / (p.atomics as int)) / (ONE as int);
            &&& p.atomics > 0
            &&& promised > 0
            &&& gross < promised ==> (promised - gross) * ONE / promised <= limit
        },
    }
}

/// A commission is booked on one side: its growth rises by the commission of one share, its
/// totals by the commission, and the other side stays as it is. Without shares nothing is
/// booked.
pub open spec fn commission_is_booked(
    before: PoolFeeState,
    after: PoolFeeState,
    side1: bool,
    shares: int,
    commission: int,
) -> bool {
    if shares == 0 || commission == 0 {
        after == before
    } else if side1 {
        &&& is_floor(
            after.fee_growth_global_1.atomics - before.fee_growth_global_1.atomics,
            commission * ONE,
            shares,
        )
        &&& after.total_fees_collected_1 == before.total_fees_collected_1 + commission
        &&& after.fee_reserve_1 == before.fee_reserve_1 + commission
        &&& after.fee_growth_global_0 == before.fee_growth_global_0
        &&& after.total_fees_collected_0 == before.total_fees_collected_0
        &&& after.fee_reserve_0 == before.fee_reserve_0
    } else {
        &&& is_floor(
            after.fee_growth_global_0.atomics - before.fee_growth_global_0.atomics,
            commission * ONE,
            shares,
        )
        &&& after.total_fees_collected_0 == before.total_fees_collected_0 + commission
        &&& after.fee_reserve_0 == before.fee_reserve_0 + commission
        &&& after.fee_growth_global_1 == before.fee_growth_global_1
        &&& after.total_fees_collected_1 == before.total_fees_collected_1
        &&& after.fee_reserve_1 == before.fee_reserve_1
    }
}

/// The prices of the time since the last update are added up, over the reserves of that time.
pub open spec fn prices_are_added(before: PoolState, after: PoolState, now: u64) -> bool {
    if now > before.block_time_last && before.reserve0 > 0 && before.reserve1 > 0 {
        let elapsed = now - before.block_time_last;
        &&& after.block_time_last == now
        &&& is_floor(
            after.price0_cumulative_last - before.price0_cumulative_last,
            before.reserve1 * elapsed,
            before.reserve0 as int,
        )
        &&& is_floor(
            after.price1_cumulative_last - before.price1_cumulative_last,
            before.reserve0 * elapsed,
            before.reserve1 as int,
        )
    } else {
        &&& after.block_time_last == before.block_time_last
        &&& after.price0_cumulative_last == before.price0_cumulative_last
        &&& after.price1_cumulative_last == before.price1_cumulative_last
    }
}

/// A pool takes trades by `sender` now: it is not paused, both sides hold enough, the deadline
/// has not passed, no other trade is under way, and the sender has waited long enough.
pub open spec fn takes_trades(
    store: PoolStore,
    env: Env,
    sender: Seq<char>,
    deadline: Option<Timestamp>,
) -> bool {
    let now = env.time.nanos as int / 1_000_000_000;
    &&& deadline matches Some(d) ==> env.time.nanos <= d.nanos
    &&& !store.reentrancy_lock
    &&& store.user_last_commit@.dom().contains(sender) ==> now
        >= store.user_last_commit@[sender] + store.pool_specs.min_commit_interval
        || store.pool_specs.min_commit_interval == 0
}

/// What a swap of `amount` of the first token (`first`) or the second one comes to, as seen
/// from the pool before and after, and from the messages that it sends.
pub open spec fn is_swapped(
    before: PoolStore,
    after: PoolStore,
    env: Env,
    sender: Seq<char>,
    receiver: Seq<char>,
    first: bool,
    amount: int,
    belief_price: Option<Decimal>,
    max_spread: Option<Decimal>,
    msgs: Seq<CosmosMsg>,
) -> bool {
    let s = before.pool_state;
    let t = after.pool_state;
    let now = (env.time.nanos as int / 1_000_000_000) as u64;
    let (offer, ask) = if first {
        (s.reserve0 as int, s.reserve1 as int)
    } else {
        (s.reserve1 as int, s.reserve0 as int)
    };
    let (offer_after, ask_after) = if first {
        (t.reserve0 as int, t.reserve1 as int)
    } else {
        (t.reserve1 as int, t.reserve0 as int)
    };
    let asked = if first {
        before.pool_info.pool_info.asset_infos[1]
    } else {
        before.pool_info.pool_info.asset_infos[0]
    };
    let gross = ask - ask_after;
    let paid = paid_in(msgs, asked, receiver);
    // What the pool takes and gives.
    &&& offer >= 1000 && ask >= 1000 && ask_after >= 1000
    &&& offer_after == offer + amount
    &&& product_is_kept(offer, ask, amount, gross)
    // What the trader is paid, and in what.
    &&& is_floor(gross - paid, gross * before.pool_specs.lp_fee.atomics, ONE as int)
    &&& msgs.len() == (if paid == 0 { 0int } else { 1int })
    // The price.
    &&& within_limit(
        belief_price,
        max_spread,
        amount,
        gross,
        spread_of(offer, ask, amount, gross),
    )
    // What is booked.
    &&& commission_is_booked(
        before.fee_state,
        after.fee_state,
        first,
        s.total_liquidity as int,
        gross - paid,
    )
    &&& prices_are_added(s, t, now)
    &&& t.total_liquidity == s.total_liquidity
    &&& t.pool_contract_address == s.pool_contract_address
    &&& t.nft_ownership_accepted == s.nft_ownership_accepted
    &&& before.analytics.total_swap_count < u64::MAX ==> after.analytics.total_swap_count
        == before.analytics.total_swap_count + 1
    &&& after.analytics.total_commit_count == before.analytics.total_commit_count
    &&& after.analytics.last_trade_block == env.height
    &&& after.analytics.last_trade_timestamp == now
    &&& volumes_grow(
        before,
        after,
        if first { amount } else { paid },
        if first { paid } else { amount },
    )
    // Who is noted, and what stays.
    &&& after.user_last_commit@ == before.user_last_commit@.insert(sender, now)
    &&& after == (PoolStore {
        pool_state: after.pool_state,
        fee_state: after.fee_state,
        analytics: after.analytics,
        user_last_commit: after.user_last_commit,
        ..before
    })
}

/// The volumes of both tokens grow, up to the largest amount.
pub open spec fn volumes_grow(before: PoolStore, after: PoolStore, volume0: int, volume1: int) -> bool {
    &&& after.analytics.total_volume_0 == (if before.analytics.total_volume_0 + volume0
        <= u128::MAX {
        before.analytics.total_volume_0 + volume0
    } else {
        u128::MAX as int
    })
    &&& after.analytics.total_volume_1 == (if before.analytics.total_volume_1 + volume1
        <= u128::MAX {
        before.analytics.total_volume_1 + volume1
    } else {
        u128::MAX as int
    })
    &&& after.analytics.total_lp_deposit_count == before.analytics.total_lp_deposit_count
    &&& after.analytics.total_lp_withdrawal_count == before.analytics.total_lp_withdrawal_count
}

/// Rounded down, a quotient of non-negative numbers is what `/` gives.
pub proof fn lemma_is_floor(n: int, d: int)
    requires
        0 <= n,
        0 < d,
    ensures
        is_floor(n / d, n, d),
        0 <= n / d,
{
    lemma_fundamental_div_mod(n, d);
    lemma_mod_bound(n, d);
    lemma_mul_is_commutative(d, n / d);
    lemma_div_pos_is_pos(n, d);
}

/// The upper half of keeping the product: no more is kept back than rounding costs.
pub proof fn lemma_return_is_tight(offer: int, ask: int, amount: int)
    requires
        0 < offer,
        0 <= ask <= u128::MAX,
        0 <= amount,
    ensures
        product_is_kept(offer, ask, amount, gross_return(offer, ask, amount)),
        0 <= gross_return(offer, ask, amount) <= ask,
{
    let one = ONE as int;
    let n = offer + amount;
    let cp = offer * ask;
    let q = cp * one / n;
    let g = gross_return(offer, ask, amount);
    lemma_gross_return_bounds(offer, ask, amount);
    lemma_gross_keeps_product(offer, ask, amount);
    assert(cp * one >= 0) by (nonlinear_arith)
        requires
            cp == offer * ask,
            offer > 0,
            ask >= 0,
            one > 0,
    ;
    lemma_is_floor(cp * one, n);
    // g = floor((ask * one - q) / one), so (ask - g - 1) * one < q.
    lemma_is_floor(ask * one - q, one);
    assert((ask - g - 1) * one < q) by (nonlinear_arith)
        requires
            ask * one - q < g * one + one,
    ;
    assert(n * (ask - g) < cp + n) by (nonlinear_arith)
        requires
            (ask - g - 1) * one < q,
            q * n <= cp * one,
            one > 0,
            n > 0,
    ;
}

/// The lower half of keeping the product.
proof fn lemma_gross_keeps_product(offer: int, ask: int, amount: int)
    requires
        0 < offer,
        0 <= ask <= u128::MAX,
        0 <= amount,
    ensures
        offer * ask - (offer + amount - 1) / (ONE as int) <= (offer + amount) * (ask
            - gross_return(offer, ask, amount)),
{
    let one = ONE as int;
    let n = offer + amount;
    let cp = offer * ask;
    let q = cp * one / n;
    let g = gross_return(offer, ask, amount);
    lemma_gross_return_bounds(offer, ask, amount);
    assert(cp * one >= 0) by (nonlinear_arith)
        requires
            cp == offer * ask,
            offer > 0,
            ask >= 0,
            one > 0,
    ;
    lemma_is_floor(cp * one, n);
    lemma_is_floor(ask * one - q, one);
    let d = n * (ask - g);
    assert(d * one >= n * q) by (nonlinear_arith)
        requires
            d == n * (ask - g),
            g * one <= ask * one - q,
            n > 0,
    ;
    assert(n * q > cp * one - n) by (nonlinear_arith)
        requires
            cp * one < q * n + n,
    ;
    // d * one > cp * one - n, so cp - d <= (n - 1) / one.
    if cp - d > 0 {
        assert((cp - d) * one <= n - 1) by (nonlinear_arith)
            requires
                d * one > cp * one - n,
        ;
        lemma_is_floor(n - 1, one);
        let k = (n - 1) / one;
        assert(cp - d <= k) by (nonlinear_arith)
            requires
                (cp - d) * one <= n - 1,
                n - 1 < k * one + one,
                one > 0,
        ;
    } else {
        lemma_div_pos_is_pos(n - 1, one);
    }
}

/// A commission at a rate is rounded down, and no larger than what it is taken from.
pub proof fn lemma_commission_is_floor(gross: int, rate: int)
    requires
        0 <= gross,
        0 <= rate,
    ensures
        is_floor(gross * rate / (ONE as int), gross * rate, ONE as int),
        0 <= gross * rate / (ONE as int),
{
    assert(gross * rate >= 0) by (nonlinear_arith)
        requires
            0 <= gross,
            0 <= rate,
    ;
    lemma_is_floor(gross * rate, ONE as int);
}

/// What pricing a swap comes to, for reserves that hold something.
pub proof fn lemma_swap_outcome(offer: int, ask: int, amount: int, rate: int)
    requires
        0 < offer <= u128::MAX,
        0 <= ask <= u128::MAX,
        0 <= amount <= u128::MAX,
        0 <= rate <= u128::MAX,
    ensures
        swap_outcome(offer, ask, amount, rate) matches Ok((ret, spread, commission)) ==> {
            let gross = ret + commission;
            &&& 0 <= gross <= ask
            &&& product_is_kept(offer, ask, amount, gross)
            &&& is_floor(commission as int, gross * rate, ONE as int)
            &&& spread == spread_of(offer, ask, amount, gross)
        },
{
    lemma_return_is_tight(offer, ask, amount);
    lemma_commission_is_floor(gross_return(offer, ask, amount), rate);
}

proof fn lemma_growth_is_floor(commission: int, shares: int)
    requires
        0 <= commission,
        0 < shares,
    ensures
        is_floor(commission * ONE / shares, commission * ONE, shares),
{
    assert(commission * ONE >= 0) by (nonlinear_arith)
        requires
            commission >= 0,
    ;
    lemma_is_floor(commission * ONE, shares);
}

proof fn lemma_prices_are_floors(s: PoolState, now: u64)
    requires
        now > s.block_time_last,
        s.reserve0 > 0,
        s.reserve1 > 0,
    ensures
        is_floor(
            s.reserve1 * (now - s.block_time_last) / (s.reserve0 as int),
            s.reserve1 * (now - s.block_time_last),
            s.reserve0 as int,
        ),
        is_floor(
            s.reserve0 * (now - s.block_time_last) / (s.reserve1 as int),
            s.reserve0 * (now - s.block_time_last),
            s.reserve1 as int,
        ),
{
    let e = now - s.block_time_last;
    assert(s.reserve1 * e >= 0 && s.reserve0 * e >= 0) by (nonlinear_arith)
        requires
            e > 0,
    ;
    lemma_is_floor(s.reserve1 * e, s.reserve0 as int);
    lemma_is_floor(s.reserve0 * e, s.reserve1 as int);
}

/// What booking a commission comes to.
pub proof fn lemma_booked(
    before: PoolFeeState,
    after: PoolFeeState,
    offer_index: usize,
    shares: u128,
    commission: u128,
)
    ensures
        crate::pool::generic_helpers::fee_growth(before, shares, offer_index, commission) == Ok::<
            PoolFeeState,
            ContractError,
        >(after) ==> commission_is_booked(
            before,
            after,
            offer_index == 0,
            shares as int,
            commission as int,
        ),
{
    if shares > 0 {
        lemma_growth_is_floor(commission as int, shares as int);
    }
}

/// What adding up prices comes to.
pub proof fn lemma_prices_added(s: PoolState, now: u64)
    ensures
        crate::pool::swap_helper::accumulated(s, now) matches Ok(t) ==> {
            &&& prices_are_added(s, t, now)
            &&& t == (PoolState {
                block_time_last: t.block_time_last,
                price0_cumulative_last: t.price0_cumulative_last,
                price1_cumulative_last: t.price1_cumulative_last,
                ..s
            })
        },
{
    if now > s.block_time_last && s.reserve0 > 0 && s.reserve1 > 0 {
        lemma_prices_are_floors(s, now);
    }
}

/// The spread check, in plain terms.
pub proof fn lemma_spread_check(
    belief_price: Option<Decimal>,
    max_spread: Option<Decimal>,
    amount: int,
    gross: int,
    spread: int,
)
    requires
        amount >= 0,
        gross >= 0,
        spread >= 0,
    ensures
        (crate::pool::swap_helper::spread_check(belief_price, max_spread, amount, gross, spread)
            is Ok) == within_limit(belief_price, max_spread, amount, gross, spread),
{
    if let Some(p) = belief_price {
        if p.atomics > 0 {
            let inv = ONE * ONE / (p.atomics as int);
            lemma_div_pos_is_pos(ONE * ONE, p.atomics as int);
            assert(amount * inv >= 0) by (nonlinear_arith)
                requires
                    amount >= 0,
                    inv >= 0,
            ;
            lemma_div_pos_is_pos(amount * inv, ONE as int);
        }
    }
}

/// Every swap that goes through is one.
proof fn lemma_swap_goes_through(
    before: PoolStore,
    after: PoolStore,
    env: Env,
    sender: Addr,
    offer: TokenInfo,
    belief_price: Option<Decimal>,
    max_spread: Option<Decimal>,
    to: Option<Addr>,
    deadline: Option<Timestamp>,
    resp: Response,
    first: bool,
)
    requires
        guarded_swap_outcome(
            before,
            after,
            env,
            sender,
            offer,
            belief_price,
            max_spread,
            to,
            deadline,
            Ok(resp),
        ),
        first == offer.info.same(before.pool_info.pool_info.asset_infos[0]),
    ensures
        is_swapped(
            before,
            after,
            env,
            sender@,
            match to {
                Some(to) => to@,
                None => sender@,
            },
            first,
            offer.amount as int,
            belief_price,
            max_spread,
            resp.messages@,
        ),
        takes_trades(before, env, sender@, deadline),
        !before.paused,
        !first ==> offer.info.same(before.pool_info.pool_info.asset_infos[1]),
{
    let begun = crate::pool::commit::entered(before, after.user_last_commit);
    let trade = simple_trade(begun, env, offer, belief_price, max_spread)->Ok_0;
    let s = before.pool_state;
    let (o, k) = if first {
        (s.reserve0 as int, s.reserve1 as int)
    } else {
        (s.reserve1 as int, s.reserve0 as int)
    };
    let rate = before.pool_specs.lp_fee.atomics as int;
    lemma_swap_outcome(o, k, offer.amount as int, rate);
    let gross = trade.return_amt + trade.commission_amt;
    lemma_spread_check(
        belief_price,
        max_spread,
        offer.amount as int,
        gross,
        trade.spread_amt as int,
    );
    if s.total_liquidity > 0 {
        lemma_growth_is_floor(trade.commission_amt as int, s.total_liquidity as int);
    }
    let now = env.time.seconds();
    if now > s.block_time_last {
        lemma_prices_are_floors(s, now);
    }
    let receiver = match to {
        Some(to) => to@,
        None => sender@,
    };
    let asked = if first {
        before.pool_info.pool_info.asset_infos[1]
    } else {
        before.pool_info.pool_info.asset_infos[0]
    };
    match asked {
        TokenType::Bluechip { denom } => lemma_paid_by_few(resp.messages@, receiver, denom@),
        TokenType::CreatorToken { contract_addr } => lemma_paid_by_few(
            resp.messages@,
            contract_addr@,
            receiver,
        ),
    }
}

/// A swap of native coins that is accepted takes exactly the coins that came with it, and pays
/// the receiver that the caller names, or else the caller, in the other token of the pool.
pub proof fn law_native_swaps_pay_their_receiver(
    before: PoolStore,
    after: PoolStore,
    env: Env,
    info: MessageInfo,
    offer_asset: TokenInfo,
    belief_price: Option<Decimal>,
    max_spread: Option<Decimal>,
    to: Option<String>,
    transaction_deadline: Option<Timestamp>,
    host: HostAnswers,
    resp: Response,
)
    requires
        execute_outcome(
            before,
            after,
            env,
            info,
            ExecuteMsg::SimpleSwap {
                offer_asset,
                belief_price,
                max_spread,
                to,
                transaction_deadline,
            },
            host,
            Ok(resp),
        ),
    ensures
        offer_asset.info matches TokenType::Bluechip { denom } && {
            &&& info.funds@.len() == 1
            &&& info.funds@[0].denom@ == denom@
            &&& info.funds@[0].amount == offer_asset.amount
            &&& offer_asset.amount > 0
        },
        before.threshold_hit || before.usd_raised
            >= before.commit_limits.commit_amount_for_threshold_usd,
        !before.paused,
        takes_trades(before, env, info.sender@, transaction_deadline),
        host.to matches Ok(named) && {
            let receiver = match named {
                Some(receiver) => receiver@,
                None => info.sender@,
            };
            let infos = before.pool_info.pool_info.asset_infos;
            let first = infos[0] matches TokenType::Bluechip { denom } && denom@
                == info.funds@[0].denom@;
            &&& !first ==> (infos[1] matches TokenType::Bluechip { denom } && denom@
                == info.funds@[0].denom@)
            &&& is_swapped(
                before,
                after,
                env,
                info.sender@,
                receiver,
                first,
                info.funds@[0].amount as int,
                belief_price,
                max_spread,
                resp.messages@,
            )
        },
{
    let infos = before.pool_info.pool_info.asset_infos;
    let first = offer_asset.info.same(infos[0]);
    lemma_swap_goes_through(
        before,
        after,
        env,
        info.sender,
        offer_asset,
        belief_price,
        max_spread,
        host.to->Ok_0,
        transaction_deadline,
        resp,
        first,
    );
}

/// A swap of CW20 tokens that is accepted takes the tokens of the contract that calls, which is
/// one of the pool's, and pays the receiver that the hook names, or else whoever sent the tokens,
/// within the limits of the hook.
pub proof fn law_token_swaps_pay_their_receiver(
    before: PoolStore,
    after: PoolStore,
    env: Env,
    info: MessageInfo,
    cw20_msg: Cw20ReceiveMsg,
    host: HostAnswers,
    belief_price: Option<Decimal>,
    max_spread: Option<Decimal>,
    to: Option<String>,
    transaction_deadline: Option<Timestamp>,
    resp: Response,
)
    requires
        execute_outcome(
            before,
            after,
            env,
            info,
            ExecuteMsg::Receive(cw20_msg),
            host,
            Ok(resp),
        ),
        host.hook == Ok::<Cw20HookMsg, StdError>(
            Cw20HookMsg::Swap { belief_price, max_spread, to, transaction_deadline },
        ),
    ensures
        cw20_msg.amount > 0,
        before.threshold_hit || before.usd_raised
            >= before.commit_limits.commit_amount_for_threshold_usd,
        !before.paused,
        host.cw20_sender is Ok,
        takes_trades(before, env, host.cw20_sender->Ok_0@, transaction_deadline),
        host.to matches Ok(named) && {
            let receiver = match named {
                Some(receiver) => receiver@,
                None => host.cw20_sender->Ok_0@,
            };
            let infos = before.pool_info.pool_info.asset_infos;
            let first = infos[0] matches TokenType::CreatorToken { contract_addr }
                && contract_addr@ == info.sender@;
            &&& !first ==> (infos[1] matches TokenType::CreatorToken { contract_addr }
                && contract_addr@ == info.sender@)
            &&& is_swapped(
                before,
                after,
                env,
                host.cw20_sender->Ok_0@,
                receiver,
                first,
                cw20_msg.amount as int,
                belief_price,
                max_spread,
                resp.messages@,
            )
        },
{
    let infos = before.pool_info.pool_info.asset_infos;
    let offer = TokenInfo {
        info: TokenType::CreatorToken { contract_addr: info.sender },
        amount: cw20_msg.amount,
    };
    lemma_swap_goes_through(
        before,
        after,
        env,
        host.cw20_sender->Ok_0,
        offer,
        belief_price,
        max_spread,
        host.to->Ok_0,
        transaction_deadline,
        resp,
        offer.info.same(infos[0]),
    );
}

/// Why a swap may be refused once it has been let in.
pub open spec fn refusal_is_due(
    before: PoolStore,
    env: Env,
    sender: Seq<char>,
    offer: TokenInfo,
    belief_price: Option<Decimal>,
    max_spread: Option<Decimal>,
    deadline: Option<Timestamp>,
    e: ContractError,
) -> bool {
    let infos = before.pool_info.pool_info.asset_infos;
    let s = before.pool_state;
    let (o, k) = if offer.info.same(infos[0]) {
        (s.reserve0 as int, s.reserve1 as int)
    } else {
        (s.reserve1 as int, s.reserve0 as int)
    };
    let n = o + offer.amount;
    let gross = (k * ONE - o * k * ONE / n) / (ONE as int);
    let now = env.time.nanos as int / 1_000_000_000;
    let last = before.user_last_commit@[sender];
    match e {
        ContractError::TransactionExpired {  } => deadline matches Some(d) && env.time.nanos
            > d.nanos,
        ContractError::ReentrancyGuard {  } => before.reentrancy_lock,
        ContractError::TooFrequentCommits { wait_time } => {
            &&& before.user_last_commit@.dom().contains(sender)
            &&& now < last + before.pool_specs.min_commit_interval
            &&& wait_time == (if now > last {
                last + before.pool_specs.min_commit_interval - now
            } else {
                before.pool_specs.min_commit_interval as int
            })
        },
        ContractError::AssetMismatch {  } => !offer.info.same(infos[0]) && !offer.info.same(
            infos[1],
        ),
        ContractError::PoolPausedLowLiquidity {  } => before.paused,
        ContractError::InsufficientReserves {  } => s.reserve0 < 1000 || s.reserve1 < 1000 || o * k
            <= 999 * n + (n - 1) / (ONE as int),
        ContractError::InvalidBeliefPrice {  } => belief_price matches Some(p) && p.atomics == 0,
        ContractError::MaxSpreadAssertion {  } => !within_limit(
            belief_price,
            max_spread,
            offer.amount as int,
            gross,
            spread_of(o, k, offer.amount as int, gross),
        ),
        ContractError::Std(StdError::Overflow(_)) => n > u128::MAX || prices_overflow(
            s,
            now,
        ) || fees_overflow(before.fee_state, k),
        ContractError::Std(StdError::ConversionOverflow) => offer.amount * (k * ONE / o) / (
        ONE as int) > u128::MAX,
        ContractError::Std(StdError::Generic(_)) => offer.amount * (k * ONE / o)
            >= limb() * limb() || before.pool_specs.lp_fee.atomics > ONE || growth_overflows(
            before.fee_state,
            s.total_liquidity as int,
            k,
        ),
        _ => false,
    }
}

/// The time-weighted prices go out of range.
pub open spec fn prices_overflow(s: PoolState, now: int) -> bool {
    let elapsed = now - s.block_time_last;
    &&& elapsed > 0 && s.reserve0 > 0 && s.reserve1 > 0
    &&& {
        ||| s.reserve0 * elapsed > u128::MAX
        ||| s.reserve1 * elapsed > u128::MAX
        ||| s.price0_cumulative_last + s.reserve1 * elapsed / (s.reserve0 as int) > u128::MAX
        ||| s.price1_cumulative_last + s.reserve0 * elapsed / (s.reserve1 as int) > u128::MAX
    }
}

/// A commission of at most `most` may take the totals of the fees out of range.
pub open spec fn fees_overflow(fees: PoolFeeState, most: int) -> bool {
    ||| fees.total_fees_collected_0 + most > u128::MAX
    ||| fees.total_fees_collected_1 + most > u128::MAX
    ||| fees.fee_reserve_0 + most > u128::MAX
    ||| fees.fee_reserve_1 + most > u128::MAX
}

/// A commission of at most `most` may take the growth of the fees out of range.
pub open spec fn growth_overflows(fees: PoolFeeState, shares: int, most: int) -> bool {
    &&& shares > 0
    &&& {
        ||| fees.fee_growth_global_0.atomics + most * ONE / shares > u128::MAX
        ||| fees.fee_growth_global_1.atomics + most * ONE / shares > u128::MAX
    }
}

/// A smaller commission makes for no larger growth.
pub proof fn lemma_growth_is_ordered(a: int, b: int, shares: int)
    requires
        0 <= a <= b,
        0 < shares,
    ensures
        a * ONE / shares <= b * ONE / shares,
{
    assert(a * ONE <= b * ONE) by (nonlinear_arith)
        requires
            a <= b,
    ;
    lemma_div_is_ordered(a * ONE, b * ONE, shares);
}

proof fn lemma_swap_is_refused(
    before: PoolStore,
    after: PoolStore,
    env: Env,
    sender: Addr,
    offer: TokenInfo,
    belief_price: Option<Decimal>,
    max_spread: Option<Decimal>,
    to: Option<Addr>,
    deadline: Option<Timestamp>,
    e: ContractError,
)
    requires
        guarded_swap_outcome(
            before,
            after,
            env,
            sender,
            offer,
            belief_price,
            max_spread,
            to,
            deadline,
            Err(e),
        ),
    ensures
        refusal_is_due(
            before,
            env,
            sender@,
            offer,
            belief_price,
            max_spread,
            deadline,
            e,
        ),
{
    let s = before.pool_state;
    let infos = before.pool_info.pool_info.asset_infos;
    let (o, k) = if offer.info.same(infos[0]) {
        (s.reserve0 as int, s.reserve1 as int)
    } else {
        (s.reserve1 as int, s.reserve0 as int)
    };
    let rate = before.pool_specs.lp_fee.atomics as int;
    let x = offer.amount as int;
    let begun = crate::pool::commit::entered(before, after.user_last_commit);
    if o >= 1000 && k >= 1000 {
        lemma_swap_outcome(o, k, x, rate);
        lemma_return_is_tight(o, k, x);
        let gross = gross_return(o, k, x);
        match swap_outcome(o, k, x, rate) {
            Ok((ret, spread, commission)) => {
                lemma_spread_check(belief_price, max_spread, x, gross, spread as int);
                if s.total_liquidity > 0 {
                    lemma_growth_is_ordered(commission as int, k, s.total_liquidity as int);
                }
                if k - gross < 1000 {
                    let n = o + x;
                    assert(n * (k - gross) <= n * 999) by (nonlinear_arith)
                        requires
                            k - gross <= 999,
                            n > 0,
                    ;
                    assert(n * 999 == 999 * n) by (nonlinear_arith);
                }
            },
            Err(_) => {
                if rate <= ONE {
                    lemma_commission_at_most_gross(gross, rate);
                }
            },
        }
    }
}

/// A swap is refused for a reason: each error comes only where it is due.
pub proof fn law_native_swaps_are_refused_for_a_reason(
    before: PoolStore,
    after: PoolStore,
    env: Env,
    info: MessageInfo,
    offer_asset: TokenInfo,
    belief_price: Option<Decimal>,
    max_spread: Option<Decimal>,
    to: Option<String>,
    transaction_deadline: Option<Timestamp>,
    host: HostAnswers,
    e: ContractError,
)
    requires
        execute_outcome(
            before,
            after,
            env,
            info,
            ExecuteMsg::SimpleSwap {
                offer_asset,
                belief_price,
                max_spread,
                to,
                transaction_deadline,
            },
            host,
            Err(e),
        ),
    ensures
        ({
            let open = before.threshold_hit || before.usd_raised
                >= before.commit_limits.commit_amount_for_threshold_usd;
            let paid = info.funds@.len() == 1 && info.funds@[0].amount > 0
                && info.funds@[0].amount == offer_asset.amount && (
            offer_asset.info matches TokenType::Bluechip { denom } && denom@
                == info.funds@[0].denom@);
            if !open {
                e == (ContractError::ShortOfThreshold {  })
            } else if !paid {
                e is Std
            } else if host.to is Err {
                e == ContractError::Std(host.to->Err_0)
            } else {
                refusal_is_due(
                    before,
                    env,
                    info.sender@,
                    offer_asset,
                    belief_price,
                    max_spread,
                    transaction_deadline,
                    e,
                )
            }
        }),
{
    let open = before.threshold_hit || before.usd_raised
        >= before.commit_limits.commit_amount_for_threshold_usd;
    let paid = info.funds@.len() == 1 && info.funds@[0].amount > 0 && info.funds@[0].amount
        == offer_asset.amount && (offer_asset.info matches TokenType::Bluechip { denom } && denom@
        == info.funds@[0].denom@);
    if open && paid && host.to is Ok {
        lemma_swap_is_refused(
            before,
            after,
            env,
            info.sender,
            offer_asset,
            belief_price,
            max_spread,
            host.to->Ok_0,
            transaction_deadline,
            e,
        );
    }
}

/// A swap of CW20 tokens is refused for a reason.
pub proof fn law_token_swaps_are_refused_for_a_reason(
    before: PoolStore,
    after: PoolStore,
    env: Env,
    info: MessageInfo,
    cw20_msg: Cw20ReceiveMsg,
    host: HostAnswers,
    e: ContractError,
)
    requires
        execute_outcome(
            before,
            after,
            env,
            info,
            ExecuteMsg::Receive(cw20_msg),
            host,
            Err(e),
        ),
    ensures
        ({
            let infos = before.pool_info.pool_info.asset_infos;
            let open = before.threshold_hit || before.usd_raised
                >= before.commit_limits.commit_amount_for_threshold_usd;
            let own = (infos[0] matches TokenType::CreatorToken { contract_addr }
                && contract_addr@ == info.sender@) || (
            infos[1] matches TokenType::CreatorToken { contract_addr } && contract_addr@
                == info.sender@);
            if !open {
                e == (ContractError::ShortOfThreshold {  })
            } else if cw20_msg.amount == 0 {
                e == (ContractError::ZeroAmount {  })
            } else if host.hook is Err {
                e == ContractError::Std(host.hook->Err_0)
            } else if !own {
                e == (ContractError::Unauthorized {  })
            } else if host.to is Err {
                e == ContractError::Std(host.to->Err_0)
            } else if host.cw20_sender is Err {
                e == ContractError::Std(host.cw20_sender->Err_0)
            } else {
                let Cw20HookMsg::Swap { belief_price, max_spread, transaction_deadline, .. } =
                    host.hook->Ok_0;
                refusal_is_due(
                    before,
                    env,
                    host.cw20_sender->Ok_0@,
                    TokenInfo {
                        info: TokenType::CreatorToken { contract_addr: info.sender },
                        amount: cw20_msg.amount,
                    },
                    belief_price,
                    max_spread,
                    transaction_deadline,
                    e,
                )
            }
        }),
{
    let infos = before.pool_info.pool_info.asset_infos;
    let open = before.threshold_hit || before.usd_raised
        >= before.commit_limits.commit_amount_for_threshold_usd;
    let own = (infos[0] matches TokenType::CreatorToken { contract_addr } && contract_addr@
        == info.sender@) || (infos[1] matches TokenType::CreatorToken { contract_addr }
        && contract_addr@ == info.sender@);
    if open && cw20_msg.amount > 0 && host.hook is Ok && own && host.to is Ok && host.cw20_sender
        is Ok {
        let Cw20HookMsg::Swap { belief_price, max_spread, transaction_deadline, .. } =
            host.hook->Ok_0;
        lemma_swap_is_refused(
            before,
            after,
            env,
            host.cw20_sender->Ok_0,
            TokenInfo {
                info: TokenType::CreatorToken { contract_addr: info.sender },
                amount: cw20_msg.amount,
            },
            belief_price,
            max_spread,
            host.to->Ok_0,
            transaction_deadline,
            e,
        );
    }
}

/// Booking a commission adds to what was booked before: two commissions in a row leave the
/// growth of both, and a position that was there from the start has earned on both.
pub proof fn law_fee_growth_accumulates(
    fees: PoolFeeState,
    between: PoolFeeState,
    after: PoolFeeState,
    shares: u128,
    offer_index: usize,
    c1: u128,
    c2: u128,
)
    requires
        shares > 0,
        crate::pool::generic_helpers::fee_growth(fees, shares, offer_index, c1) == Ok::<
            PoolFeeState,
            ContractError,
        >(between),
        crate::pool::generic_helpers::fee_growth(between, shares, offer_index, c2) == Ok::<
            PoolFeeState,
            ContractError,
        >(after),
    ensures
        offer_index == 0 ==> {
            &&& after.fee_growth_global_1.atomics == fees.fee_growth_global_1.atomics + c1 * ONE / (
            shares as int) + c2 * ONE / (shares as int)
            &&& after.fee_growth_global_1.atomics >= between.fee_growth_global_1.atomics
                >= fees.fee_growth_global_1.atomics
            &&& after.total_fees_collected_1 == fees.total_fees_collected_1 + c1 + c2
            &&& after.fee_reserve_1 == fees.fee_reserve_1 + c1 + c2
            &&& after.fee_growth_global_0 == fees.fee_growth_global_0
        },
        offer_index != 0 ==> {
            &&& after.fee_growth_global_0.atomics == fees.fee_growth_global_0.atomics + c1 * ONE / (
            shares as int) + c2 * ONE / (shares as int)
            &&& after.fee_growth_global_0.atomics >= between.fee_growth_global_0.atomics
                >= fees.fee_growth_global_0.atomics
            &&& after.total_fees_collected_0 == fees.total_fees_collected_0 + c1 + c2
            &&& after.fee_reserve_0 == fees.fee_reserve_0 + c1 + c2
            &&& after.fee_growth_global_1 == fees.fee_growth_global_1
        },
{
    lemma_growth_is_floor(c1 as int, shares as int);
    lemma_growth_is_floor(c2 as int, shares as int);
    lemma_div_pos_is_pos(c1 * ONE, shares as int);
    lemma_div_pos_is_pos(c2 * ONE, shares as int);
}

/// A swap is reported as it is: who swapped, for whom, what was paid and what was withheld.
pub proof fn law_swaps_are_reported(
    before: PoolStore,
    after: PoolStore,
    env: Env,
    sender: Addr,
    offer: TokenInfo,
    belief_price: Option<Decimal>,
    max_spread: Option<Decimal>,
    to: Option<Addr>,
    resp: Response,
    first: bool,
)
    requires
        swap_outcome_of(
            before,
            after,
            env,
            sender,
            offer,
            belief_price,
            max_spread,
            to,
            Ok(resp),
        ),
        first == offer.info.same(before.pool_info.pool_info.asset_infos[0]),
    ensures
        ({
            let infos = before.pool_info.pool_info.asset_infos;
            let receiver = match to {
                Some(to) => to@,
                None => sender@,
            };
            let asked = if first {
                infos[1]
            } else {
                infos[0]
            };
            let paid = paid_in(resp.messages@, asked, receiver);
            let ask_before = if first {
                before.pool_state.reserve1
            } else {
                before.pool_state.reserve0
            };
            let ask_after = if first {
                after.pool_state.reserve1
            } else {
                after.pool_state.reserve0
            };
            let asked_name = match asked {
                TokenType::Bluechip { denom } => denom@,
                TokenType::CreatorToken { contract_addr } => contract_addr@,
            };
            let offered_name = match offer.info {
                TokenType::Bluechip { denom } => denom@,
                TokenType::CreatorToken { contract_addr } => contract_addr@,
            };
            &&& paid >= 0
            &&& ask_before - ask_after - paid >= 0
            &&& resp.attrs().contains(("action"@, "swap"@))
            &&& resp.attrs().contains(("sender"@, sender@))
            &&& resp.attrs().contains(("receiver"@, receiver))
            &&& resp.attrs().contains(("offer_asset"@, offered_name))
            &&& resp.attrs().contains(("ask_asset"@, asked_name))
            &&& resp.attrs().contains(("offer_amount"@, digits(offer.amount as nat)))
            &&& resp.attrs().contains(("return_amount"@, digits(paid as nat)))
            &&& resp.attrs().contains(
                ("commission_amount"@, digits((ask_before - ask_after - paid) as nat)),
            )
            &&& resp.attrs().contains(
                ("reserve0_after"@, digits(after.pool_state.reserve0 as nat)),
            )
            &&& resp.attrs().contains(
                ("reserve1_after"@, digits(after.pool_state.reserve1 as nat)),
            )
            &&& resp.attrs().contains(("block_height"@, digits(env.height as nat)))
        }),
{
    let trade = simple_trade(before, env, offer, belief_price, max_spread)->Ok_0;
    let receiver = match to {
        Some(to) => to@,
        None => sender@,
    };
    let asked = if first {
        before.pool_info.pool_info.asset_infos[1]
    } else {
        before.pool_info.pool_info.asset_infos[0]
    };
    match asked {
        TokenType::Bluechip { denom } => lemma_paid_by_few(resp.messages@, receiver, denom@),
        TokenType::CreatorToken { contract_addr } => lemma_paid_by_few(
            resp.messages@,
            contract_addr@,
            receiver,
        ),
    }
    assert(paid_in(resp.messages@, asked, receiver) == trade.return_amt);
    let a = resp.attrs();
    assert(a[0] == ("action"@, "swap"@));
    assert(a[1] == ("sender"@, sender@));
    assert(a[2] == ("receiver"@, receiver));
    assert(a[3].0 == "offer_asset"@);
    assert(a[4].0 == "ask_asset"@);
    assert(a[5] == ("offer_amount"@, digits(offer.amount as nat)));
    assert(a[6] == ("return_amount"@, digits(trade.return_amt as nat)));
    assert(a[8] == ("commission_amount"@, digits(trade.commission_amt as nat)));
    assert(a[10] == ("reserve0_after"@, digits(after.pool_state.reserve0 as nat)));
    assert(a[11] == ("reserve1_after"@, digits(after.pool_state.reserve1 as nat)));
    assert(a[15] == ("block_height"@, digits(env.height as nat)));
}

} // verus!
