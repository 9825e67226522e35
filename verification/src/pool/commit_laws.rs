//! What a commit must satisfy: whom it pays, what it books, how it opens the pool, and why it may
//! be refused.

use vstd::arithmetic::div_mod::*;
use vstd::prelude::*;

use crate::asset::{TokenInfo, TokenType};
use crate::chain::{Addr, CosmosMsg, Env, MessageInfo, Response};
use crate::error::StdError;
use crate::number::{Decimal, Timestamp, ONE};
use crate::pool::commit::{
    beyond_threshold, checked_commit, commit_trade, crossing_msgs, crossing_outcome, crossing_trade,
    entered, exact_outcome, excess_trade, fee_msgs, phase_of, sent_amount, ExcessTrade, Phase,
    Quotes,
};
use crate::pool::contract::{execute_outcome, HostAnswers};
use crate::pool::error::ContractError;
use crate::pool::generic_helpers::{fees_restarted, payout_error, payout_msgs, seeded};
use crate::pool::msg::ExecuteMsg;
use crate::pool::payments::{
    all_paid, are_payments, coins_sent, is_payment, lemma_paid_adds_up, lemma_paid_by_few,
    tokens_minted, tokens_sent,
};
use crate::pool::state::{CommitFeeInfo, PoolAnalytics, PoolFeeState, PoolState, PoolStore};
use crate::pool::swap_helper::swap_outcome;
use crate::pool::swap_laws::{
    commission_is_booked, is_floor, lemma_is_floor, lemma_spread_check, lemma_swap_outcome,
    prices_are_added, product_is_kept, spread_of, takes_trades, volumes_grow, within_limit,
};

verus! {

/// An amount, for whom it is meant.
pub open spec fn share_of(to: Seq<char>, who: Seq<char>, amount: int) -> int {
    if to == who {
        amount
    } else {
        0
    }
}

/// The denomination of the pool's bluechip token: that of the first token, or else of the second.
pub open spec fn is_native(store: PoolStore, denom: Seq<char>) -> bool {
    let infos = store.pool_info.pool_info.asset_infos;
    match infos[0] {
        TokenType::Bluechip { denom: d } => d@ == denom,
        TokenType::CreatorToken { .. } => infos[1] matches TokenType::Bluechip { denom: d } && d@
            == denom,
    }
}

/// The fees of a commit: both are rounded down, and together they leave something.
pub open spec fn are_fees(fee_info: CommitFeeInfo, amount: int, platform: int, creator: int) -> bool {
    &&& is_floor(platform, amount * fee_info.commit_fee_bluechip.atomics, ONE as int)
    &&& is_floor(creator, amount * fee_info.commit_fee_creator.atomics, ONE as int)
    &&& 0 <= platform && 0 <= creator
    &&& platform + creator < amount
}

/// The fee of the platform on a commit.
pub open spec fn platform_fee(store: PoolStore, amount: int) -> int {
    amount * store.fee_info.commit_fee_bluechip.atomics / (ONE as int)
}

/// The fee of the creator on a commit.
pub open spec fn creator_fee(store: PoolStore, amount: int) -> int {
    amount * store.fee_info.commit_fee_creator.atomics / (ONE as int)
}

/// What messages pay in coins is both fees, to whom they are due, and `back` to the sender.
pub open spec fn coins_are_paid(
    store: PoolStore,
    msgs: Seq<CosmosMsg>,
    denom: Seq<char>,
    amount: int,
    sender: Seq<char>,
    back: int,
    to: Seq<char>,
) -> bool {
    &&& coins_sent(msgs, to, denom) == share_of(
        to,
        store.fee_info.bluechip_wallet_address@,
        platform_fee(store, amount),
    ) + share_of(to, store.fee_info.creator_wallet_address@, creator_fee(store, amount))
        + share_of(to, sender, back)
    &&& all_paid(msgs).0 == platform_fee(store, amount) + creator_fee(store, amount) + back
}

/// What an account has in a table of amounts.
pub open spec fn held(m: Map<Seq<char>, u128>, who: Seq<char>) -> int {
    if m.dom().contains(who) {
        m[who] as int
    } else {
        0
    }
}

/// The record of an account grows by a payment; other records stay.
pub open spec fn record_grows(
    before: PoolStore,
    after: PoolStore,
    env: Env,
    sender: Seq<char>,
    amount: int,
    usd: int,
) -> bool {
    &&& after.commit_info@.dom() == before.commit_info@.dom().insert(sender)
    &&& forall|k: Seq<char>| #[trigger]
        before.commit_info@.dom().contains(k) && k != sender ==> after.commit_info@[k]
            == before.commit_info@[k]
    &&& {
        let r = after.commit_info@[sender];
        &&& r.last_committed == env.time
        &&& if before.commit_info@.dom().contains(sender) {
            let b = before.commit_info@[sender];
            &&& r.total_paid_bluechip == b.total_paid_bluechip + amount
            &&& r.total_paid_usd == b.total_paid_usd + usd
            &&& r.committer == b.committer
            &&& r.pool_contract_address == b.pool_contract_address
        } else {
            &&& r.total_paid_bluechip == amount
            &&& r.total_paid_usd == usd
            &&& r.committer@ == sender
            &&& r.pool_contract_address == before.pool_state.pool_contract_address
        }
    }
}

/// What both fees and nothing else pay.
proof fn lemma_fees_are_paid(
    store: PoolStore,
    denom: String,
    amount: int,
    platform: u128,
    creator: u128,
    sender: Seq<char>,
    x: Seq<char>,
    y: Seq<char>,
)
    requires
        platform == platform_fee(store, amount),
        creator == creator_fee(store, amount),
    ensures
        coins_are_paid(
            store,
            fee_msgs(store.fee_info, denom, platform, creator),
            denom@,
            amount,
            sender,
            0,
            x,
        ),
        tokens_sent(fee_msgs(store.fee_info, denom, platform, creator), x, y) == 0,
        tokens_minted(fee_msgs(store.fee_info, denom, platform, creator), x, y) == 0,
        all_paid(fee_msgs(store.fee_info, denom, platform, creator)).1 == 0,
        all_paid(fee_msgs(store.fee_info, denom, platform, creator)).2 == 0,
{
    let msgs = fee_msgs(store.fee_info, denom, platform, creator);
    lemma_paid_by_few(msgs, x, denom@);
    lemma_paid_by_few(msgs, x, y);
    reveal_with_fuel(all_paid, 4);
}

pub proof fn lemma_checked_commit(
    store: PoolStore,
    info: MessageInfo,
    asset: TokenInfo,
    usd_value: Result<u128, StdError>,
)
    ensures
        checked_commit(store, info, asset, usd_value) matches Ok(c) ==> {
            &&& asset.info == (TokenType::Bluechip { denom: c.denom })
            &&& is_native(store, c.denom@)
            &&& usd_value == Ok::<u128, StdError>(c.usd_value)
            &&& c.usd_value >= 1_000_000
            &&& asset.amount > 0
            &&& sent_amount(info.funds@, c.denom@, 0) >= asset.amount
            &&& c.bluechip_fee == platform_fee(store, asset.amount as int)
            &&& c.creator_fee == creator_fee(store, asset.amount as int)
            &&& c.amount_after_fees == asset.amount - c.bluechip_fee - c.creator_fee
            &&& are_fees(
                store.fee_info,
                asset.amount as int,
                c.bluechip_fee as int,
                c.creator_fee as int,
            )
        },
{
    let a = asset.amount as int;
    let f = store.fee_info.commit_fee_bluechip.atomics as int;
    let g = store.fee_info.commit_fee_creator.atomics as int;
    assert(a * f >= 0 && a * g >= 0) by (nonlinear_arith)
        requires
            a >= 0,
            f >= 0,
            g >= 0,
    ;
    lemma_is_floor(a * f, ONE as int);
    lemma_is_floor(a * g, ONE as int);
}

/// The coins that a commit is made of came with it: the first coin of the denomination covers it.
proof fn lemma_coins_came(funds: Seq<crate::chain::Coin>, denom: Seq<char>, from: int, amount: int)
    requires
        0 <= from <= funds.len(),
        amount > 0,
        sent_amount(funds, denom, from) >= amount,
    ensures
        exists|i: int|
            from <= i < funds.len() && (#[trigger] funds[i]).denom@ == denom && funds[i].amount
                >= amount,
    decreases funds.len() - from,
{
    if from < funds.len() {
        if funds[from].denom@ != denom {
            lemma_coins_came(funds, denom, from + 1, amount);
        } else {
            assert(funds[from].denom@ == denom);
        }
    }
}

/// A commit that is accepted is in order: the pool takes trades, the coins came with it and are
/// the pool's bluechips, they are worth a dollar at least, and the fees leave something of them.
/// Its sender is noted, its record grows by the whole of it, and it is counted.
pub proof fn law_accepted_commits_are_in_order(
    before: PoolStore,
    after: PoolStore,
    env: Env,
    info: MessageInfo,
    asset: TokenInfo,
    transaction_deadline: Option<Timestamp>,
    belief_price: Option<Decimal>,
    max_spread: Option<Decimal>,
    host: HostAnswers,
    resp: Response,
)
    requires
        execute_outcome(
            before,
            after,
            env,
            info,
            ExecuteMsg::Commit { asset, transaction_deadline, belief_price, max_spread },
            host,
            Ok(resp),
        ),
    ensures
        !before.paused && !before.drained,
        takes_trades(before, env, info.sender@, transaction_deadline),
        asset.info matches TokenType::Bluechip { denom } && {
            &&& is_native(before, denom@)
            &&& exists|i: int|
                0 <= i < info.funds@.len() && (#[trigger] info.funds@[i]).denom@ == denom@
                    && info.funds@[i].amount >= asset.amount
        },
        host.quotes.usd_value matches Ok(usd) && usd >= 1_000_000,
        are_fees(
            before.fee_info,
            asset.amount as int,
            platform_fee(before, asset.amount as int),
            creator_fee(before, asset.amount as int),
        ),
        after.user_last_commit@ == before.user_last_commit@.insert(
            info.sender@,
            (env.time.nanos / 1_000_000_000) as u64,
        ),
        after.reentrancy_lock == before.reentrancy_lock,
        before.analytics.total_commit_count < u64::MAX ==> after.analytics.total_commit_count
            == before.analytics.total_commit_count + 1,
        after == (PoolStore {
            usd_raised: after.usd_raised,
            native_raised: after.native_raised,
            threshold_hit: after.threshold_hit,
            threshold_processing: after.threshold_processing,
            last_threshold_attempt: after.last_threshold_attempt,
            pool_state: after.pool_state,
            fee_state: after.fee_state,
            analytics: after.analytics,
            creator_excess: after.creator_excess,
            distribution: after.distribution,
            commit_info: after.commit_info,
            commit_ledger: after.commit_ledger,
            user_last_commit: after.user_last_commit,
            ..before
        }),
        // The pool opens with the commit that raises the last dollar, and not before.
        after.threshold_hit == (before.threshold_hit || (before.usd_raised
            + host.quotes.usd_value->Ok_0 >= before.commit_limits.commit_amount_for_threshold_usd
            && !before.threshold_processing)),
{
    let begun = entered(before, after.user_last_commit);
    lemma_checked_commit(begun, info, asset, host.quotes.usd_value);
    let c = checked_commit(begun, info, asset, host.quotes.usd_value)->Ok_0;
    lemma_coins_came(info.funds@, c.denom@, 0, asset.amount as int);
}

/// A commit before the threshold pays both fees to whom they are due, and nothing else. Its
/// dollars are owed to its sender, and its dollars and bluechips are raised; no reserve moves.
pub proof fn law_funding_is_booked(
    before: PoolStore,
    after: PoolStore,
    env: Env,
    info: MessageInfo,
    asset: TokenInfo,
    transaction_deadline: Option<Timestamp>,
    belief_price: Option<Decimal>,
    max_spread: Option<Decimal>,
    host: HostAnswers,
    resp: Response,
    denom: String,
    usd: u128,
    to: Seq<char>,
)
    requires
        execute_outcome(
            before,
            after,
            env,
            info,
            ExecuteMsg::Commit { asset, transaction_deadline, belief_price, max_spread },
            host,
            Ok(resp),
        ),
        asset.info == (TokenType::Bluechip { denom }),
        host.quotes.usd_value == Ok::<u128, StdError>(usd),
        !before.threshold_hit,
        before.usd_raised + usd < before.commit_limits.commit_amount_for_threshold_usd
            || before.threshold_processing,
    ensures
        coins_are_paid(
            before,
            resp.messages@,
            denom@,
            asset.amount as int,
            info.sender@,
            0,
            to,
        ),
        all_paid(resp.messages@).1 == 0 && all_paid(resp.messages@).2 == 0,
        are_payments(resp.messages@),
        after.usd_raised == before.usd_raised + usd,
        after.native_raised == before.native_raised + asset.amount,
        held(after.commit_ledger@, info.sender@) == held(before.commit_ledger@, info.sender@) + usd,
        to != info.sender@ ==> held(after.commit_ledger@, to) == held(before.commit_ledger@, to),
        record_grows(before, after, env, info.sender@, asset.amount as int, usd as int),
        after.commit_info@[info.sender@].last_payment_bluechip == asset.amount,
        after.commit_info@[info.sender@].last_payment_usd == usd,
        after.analytics == (PoolAnalytics {
            total_commit_count: after.analytics.total_commit_count,
            ..before.analytics
        }),
        after.pool_state == before.pool_state,
        after.fee_state == before.fee_state,
        after.distribution == before.distribution,
        after.creator_excess == before.creator_excess,
        after.threshold_processing == before.threshold_processing,
        after.last_threshold_attempt == (if before.usd_raised + usd
            >= before.commit_limits.commit_amount_for_threshold_usd {
            Some(env.time)
        } else {
            before.last_threshold_attempt
        }),
{
    let begun = entered(before, after.user_last_commit);
    lemma_checked_commit(begun, info, asset, host.quotes.usd_value);
    let c = checked_commit(begun, info, asset, host.quotes.usd_value)->Ok_0;
    lemma_fees_are_paid(
        before,
        denom,
        asset.amount as int,
        c.bluechip_fee,
        c.creator_fee,
        info.sender@,
        to,
        to,
    );
    assert(after.commit_info@.dom() =~= before.commit_info@.dom().insert(info.sender@));
}

/// A commit after the threshold pays both fees, and swaps the rest for creator tokens, which go
/// to its sender: within the sender's limit, or else 0.5%. What was raised and owed stays.
#[verifier::rlimit(60)]
pub proof fn law_late_commits_are_swapped(
    before: PoolStore,
    after: PoolStore,
    env: Env,
    info: MessageInfo,
    asset: TokenInfo,
    transaction_deadline: Option<Timestamp>,
    belief_price: Option<Decimal>,
    max_spread: Option<Decimal>,
    host: HostAnswers,
    resp: Response,
    denom: String,
    usd: u128,
    to: Seq<char>,
)
    requires
        execute_outcome(
            before,
            after,
            env,
            info,
            ExecuteMsg::Commit { asset, transaction_deadline, belief_price, max_spread },
            host,
            Ok(resp),
        ),
        asset.info == (TokenType::Bluechip { denom }),
        host.quotes.usd_value == Ok::<u128, StdError>(usd),
        before.threshold_hit,
        before.pool_state.reserve0 > 0,
    ensures
        ({
            let s = before.pool_state;
            let t = after.pool_state;
            let now = (env.time.nanos / 1_000_000_000) as u64;
            let amount = asset.amount as int;
            let swapped = amount - platform_fee(before, amount) - creator_fee(before, amount);
            let gross = s.reserve1 - t.reserve1;
            let token = before.pool_info.token_address@;
            let paid = tokens_sent(resp.messages@, token, info.sender@);
            &&& coins_are_paid(before, resp.messages@, denom@, amount, info.sender@, 0, to)
            &&& paid > 0
            &&& to != info.sender@ ==> tokens_sent(resp.messages@, token, to) == 0
            &&& all_paid(resp.messages@).1 == paid && all_paid(resp.messages@).2 == 0
            &&& are_payments(resp.messages@)
            &&& t.reserve0 == s.reserve0 + swapped
            &&& product_is_kept(s.reserve0 as int, s.reserve1 as int, swapped, gross)
            &&& is_floor(gross - paid, gross * before.pool_specs.lp_fee.atomics, ONE as int)
            &&& within_limit(
                belief_price,
                max_spread,
                swapped,
                paid,
                spread_of(s.reserve0 as int, s.reserve1 as int, swapped, gross),
            )
            &&& commission_is_booked(
                before.fee_state,
                after.fee_state,
                true,
                s.total_liquidity as int,
                gross - paid,
            )
            &&& prices_are_added(s, t, now)
            &&& t.total_liquidity == s.total_liquidity
            &&& record_grows(before, after, env, info.sender@, amount, usd as int)
            &&& after.commit_info@[info.sender@].last_payment_bluechip == amount
            &&& after.commit_info@[info.sender@].last_payment_usd == usd
            &&& before.analytics.total_swap_count < u64::MAX ==> after.analytics.total_swap_count
                == before.analytics.total_swap_count + 1
            &&& volumes_grow(before, after, swapped, paid)
            &&& after.analytics.last_trade_block == env.height
            &&& after.analytics.last_trade_timestamp == now
            &&& t.pool_contract_address == s.pool_contract_address
            &&& t.nft_ownership_accepted == s.nft_ownership_accepted
            &&& after.threshold_processing == before.threshold_processing
            &&& after.last_threshold_attempt == before.last_threshold_attempt
            &&& after.usd_raised == before.usd_raised
            &&& after.native_raised == before.native_raised
            &&& after.commit_ledger == before.commit_ledger
            &&& after.distribution == before.distribution
            &&& after.creator_excess == before.creator_excess
        }),
{
    let begun = entered(before, after.user_last_commit);
    lemma_checked_commit(begun, info, asset, host.quotes.usd_value);
    let c = checked_commit(begun, info, asset, host.quotes.usd_value)->Ok_0;
    let token = before.pool_info.token_address@;
    let fees = fee_msgs(before.fee_info, c.denom, c.bluechip_fee, c.creator_fee);
    lemma_fees_are_paid(
        before,
        denom,
        asset.amount as int,
        c.bluechip_fee,
        c.creator_fee,
        info.sender@,
        to,
        to,
    );
    lemma_fees_are_paid(
        before,
        denom,
        asset.amount as int,
        c.bluechip_fee,
        c.creator_fee,
        info.sender@,
        token,
        to,
    );
    lemma_fees_are_paid(
        before,
        denom,
        asset.amount as int,
        c.bluechip_fee,
        c.creator_fee,
        info.sender@,
        token,
        info.sender@,
    );
    let trade = commit_trade(begun, env, c.amount_after_fees, belief_price, max_spread)->Ok_0;
    let s = before.pool_state;
    lemma_swap_outcome(
        s.reserve0 as int,
        s.reserve1 as int,
        c.amount_after_fees as int,
        before.pool_specs.lp_fee.atomics as int,
    );
    lemma_spread_check(
        belief_price,
        max_spread,
        c.amount_after_fees as int,
        trade.return_amt as int,
        trade.spread_amt as int,
    );
    crate::pool::swap_laws::lemma_booked(
        before.fee_state,
        after.fee_state,
        0,
        s.total_liquidity,
        trade.commission_amt,
    );
    crate::pool::swap_laws::lemma_prices_added(s, env.time.seconds());
    let last = CosmosMsg::Cw20Transfer {
        contract_addr: before.pool_info.token_address,
        recipient: info.sender,
        amount: trade.return_amt,
    };
    assert(resp.messages@ == fees.push(last));
    assert(resp.messages@.drop_last() =~= fees);
    assert(after.commit_info@.dom() =~= before.commit_info@.dom().insert(info.sender@));
}

/// What was raised, less the fees of the commits.
pub open spec fn net_raised(store: PoolStore, raised: int) -> int {
    raised * (ONE - store.fee_info.commit_fee_bluechip.atomics
        - store.fee_info.commit_fee_creator.atomics) / (ONE as int)
}

/// The bluechips that seed the pool: what was raised, up to the cap.
pub open spec fn first_bluechips(store: PoolStore, raised: int) -> int {
    let net = net_raised(store, raised);
    if net > store.commit_limits.max_bluechip_lock_per_pool {
        store.commit_limits.max_bluechip_lock_per_pool as int
    } else {
        net
    }
}

/// The creator tokens that are locked with what is beyond the cap, in the same proportion.
pub open spec fn locked_tokens(store: PoolStore, raised: int) -> int {
    let net = net_raised(store, raised);
    if net > store.commit_limits.max_bluechip_lock_per_pool {
        store.threshold_payout.pool_seed_amount * (net
            - store.commit_limits.max_bluechip_lock_per_pool) / net
    } else {
        0
    }
}

/// The creator tokens that seed the pool.
pub open spec fn first_tokens(store: PoolStore, raised: int) -> int {
    store.threshold_payout.pool_seed_amount - locked_tokens(store, raised)
}

/// The dollars that are missing up to the threshold.
pub open spec fn dollars_missing(store: PoolStore) -> int {
    if store.commit_limits.commit_amount_for_threshold_usd > store.usd_raised {
        store.commit_limits.commit_amount_for_threshold_usd - store.usd_raised
    } else {
        0
    }
}

/// What is left of a commit beyond the threshold, after fees.
pub open spec fn left_over(store: PoolStore, amount: int, to_threshold: int) -> int {
    let kept = amount - platform_fee(store, amount) - creator_fee(store, amount);
    kept - kept * to_threshold / amount
}

/// What is swapped of it: at most a fifth of the bluechip reserve.
pub open spec fn swapped_of(reserve: int, excess: int) -> int {
    if excess < reserve * 20 / 100 {
        excess
    } else {
        reserve * 20 / 100
    }
}

/// The first swap on a pool: it stays within the committer's limit, or else within 25%, and is
/// taken, paid and booked as any other swap.
pub open spec fn is_first_swap(
    store: PoolStore,
    after: PoolStore,
    env: Env,
    reserve0: int,
    reserve1: int,
    swapped: int,
    belief_price: Option<Decimal>,
    max_spread: Option<Decimal>,
    paid: int,
) -> bool {
    let t = after.pool_state;
    let gross = reserve1 - t.reserve1;
    let limit = match max_spread {
        Some(d) => d,
        None => Decimal { atomics: 250_000_000_000_000_000 },
    };
    &&& t.reserve0 == reserve0 + swapped
    &&& t.total_liquidity * t.total_liquidity <= reserve0 * reserve1 < (t.total_liquidity + 1) * (
    t.total_liquidity + 1)
    &&& commission_is_booked(
        PoolFeeState {
            fee_growth_global_0: Decimal { atomics: 0 },
            fee_growth_global_1: Decimal { atomics: 0 },
            total_fees_collected_0: 0,
            total_fees_collected_1: 0,
            ..store.fee_state
        },
        after.fee_state,
        true,
        t.total_liquidity as int,
        gross - paid,
    )
    &&& if swapped == 0 {
        gross == 0 && paid == 0
    } else {
        &&& product_is_kept(reserve0, reserve1, swapped, gross)
        &&& is_floor(gross - paid, gross * store.pool_specs.lp_fee.atomics, ONE as int)
        &&& within_limit(
            belief_price,
            Some(limit),
            swapped,
            gross,
            spread_of(reserve0, reserve1, swapped, gross),
        )
    }
}

/// The distribution that an opened pool starts with.
pub open spec fn distribution_starts(store: PoolStore, after: PoolStore, env: Env) -> bool {
    after.distribution matches Some(d) && {
        &&& d.is_distributing
        &&& d.total_to_distribute == store.threshold_payout.commit_return_amount
        &&& d.total_committed_usd == store.commit_limits.commit_amount_for_threshold_usd
        &&& d.last_processed_key is None
        &&& d.distributions_remaining == u32::MAX
        &&& d.estimated_gas_per_distribution == 50_000
        &&& d.max_gas_per_tx == 2_000_000
        &&& d.last_successful_batch_size is None
        &&& d.consecutive_failures == 0
        &&& d.started_at == env.time
        &&& d.last_updated == env.time
    }
}

/// What is beyond the cap is locked for the creator, for as many days as the pool says.
pub open spec fn excess_is_locked(store: PoolStore, after: PoolStore, env: Env, raised: int) -> bool {
    let net = net_raised(store, raised);
    let cap = store.commit_limits.max_bluechip_lock_per_pool;
    if net > cap {
        after.creator_excess matches Some(e) && {
            &&& e.creator == store.fee_info.creator_wallet_address
            &&& e.bluechip_amount == net - cap
            &&& e.token_amount == locked_tokens(store, raised)
            &&& env.time.nanos + store.commit_limits.creator_excess_liquidity_lock_days * 86400
                * 1_000_000_000 <= u64::MAX ==> e.unlock_time.nanos == env.time.nanos
                + store.commit_limits.creator_excess_liquidity_lock_days * 86400 * 1_000_000_000
            &&& e.excess_nft_id is None
        }
    } else {
        after.creator_excess == store.creator_excess
    }
}

/// The tokens that a payout mints, for whom.
pub open spec fn payout_share(store: PoolStore, env: Env, to: Seq<char>) -> int {
    share_of(
        to,
        store.fee_info.creator_wallet_address@,
        store.threshold_payout.creator_reward_amount as int,
    ) + share_of(
        to,
        store.fee_info.bluechip_wallet_address@,
        store.threshold_payout.bluechip_reward_amount as int,
    ) + share_of(to, env.contract@, store.threshold_payout.pool_seed_amount as int)
}

proof fn lemma_payout_pays(store: PoolStore, env: Env, x: Seq<char>, y: Seq<char>)
    ensures
        ({
            let msgs = payout_msgs(store.pool_info, store.threshold_payout, store.fee_info, env);
            &&& coins_sent(msgs, x, y) == 0
            &&& tokens_sent(msgs, x, y) == 0
            &&& tokens_minted(msgs, store.pool_info.token_address@, y) == payout_share(
                store,
                env,
                y,
            )
            &&& all_paid(msgs) == (
                0int,
                0int,
                store.threshold_payout.creator_reward_amount
                    + store.threshold_payout.bluechip_reward_amount
                    + store.threshold_payout.pool_seed_amount,
            )
            &&& msgs.contains(
                CosmosMsg::NotifyThresholdCrossed {
                    factory_addr: store.pool_info.factory_addr,
                    pool_id: store.pool_info.pool_id,
                },
            )
        }),
{
    let msgs = payout_msgs(store.pool_info, store.threshold_payout, store.fee_info, env);
    lemma_paid_by_few(msgs, x, y);
    lemma_paid_by_few(msgs, store.pool_info.token_address@, y);
    reveal_with_fuel(all_paid, 6);
    assert(msgs[0] == (CosmosMsg::NotifyThresholdCrossed {
        factory_addr: store.pool_info.factory_addr,
        pool_id: store.pool_info.pool_id,
    }));
}

proof fn lemma_crossing_pays(
    store: PoolStore,
    sender: Addr,
    t: ExcessTrade,
    denom: Seq<char>,
    x: Seq<char>,
    y: Seq<char>,
)
    requires
        crossing_msgs(store, sender, t) is Ok,
        is_native(store, denom),
    ensures
        ({
            let msgs = crossing_msgs(store, sender, t)->Ok_0;
            &&& coins_sent(msgs, y, denom) == share_of(y, sender@, t.refunded as int)
            &&& tokens_sent(msgs, store.pool_info.token_address@, y) == share_of(
                y,
                sender@,
                t.trade.return_amt as int,
            )
            &&& tokens_minted(msgs, x, y) == 0
            &&& all_paid(msgs) == (t.refunded as int, t.trade.return_amt as int, 0int)
        }),
{
    let msgs = crossing_msgs(store, sender, t)->Ok_0;
    lemma_paid_by_few(msgs, y, denom);
    lemma_paid_by_few(msgs, store.pool_info.token_address@, y);
    lemma_paid_by_few(msgs, x, y);
    reveal_with_fuel(all_paid, 4);
}

/// What the reserves of a freshly seeded pool come to.
pub proof fn lemma_seed(store: PoolStore, raised: u128)
    requires
        payout_error(raised, store.commit_limits, store.threshold_payout, store.fee_info) is None,
    ensures
        ({
            let s = seeded(
                store.pool_state,
                raised,
                store.commit_limits,
                store.threshold_payout,
                store.fee_info,
            );
            &&& s.reserve0 == first_bluechips(store, raised as int)
            &&& s.reserve1 == first_tokens(store, raised as int)
            &&& s.total_liquidity * s.total_liquidity <= s.reserve0 * s.reserve1 < (
            s.total_liquidity + 1) * (s.total_liquidity + 1)
            &&& s == (PoolState {
                reserve0: s.reserve0,
                reserve1: s.reserve1,
                total_liquidity: s.total_liquidity,
                ..store.pool_state
            })
        }),
        store.threshold_payout.creator_reward_amount
            + store.threshold_payout.bluechip_reward_amount
            + store.threshold_payout.pool_seed_amount + store.threshold_payout.commit_return_amount
            == 1_200_000_000_000,
        0 <= net_raised(store, raised as int) <= raised,
        0 <= locked_tokens(store, raised as int) <= store.threshold_payout.pool_seed_amount,
{
    crate::pool::laws::law_payout_is_accounted_for(
        raised,
        store.commit_limits,
        store.threshold_payout,
        store.fee_info,
    );
    let r0 = first_bluechips(store, raised as int);
    let r1 = first_tokens(store, raised as int);
    assert(0 <= r0 * r1) by (nonlinear_arith)
        requires
            0 <= r0,
            0 <= r1,
    ;
    crate::pool::liquidity_helpers::lemma_sqrt_exists(r0 * r1);
}

/// What the first swap comes to.
#[verifier::rlimit(60)]
pub proof fn lemma_first_swap(
    store: PoolStore,
    env: Env,
    s: PoolState,
    fees: PoolFeeState,
    excess: int,
    belief_price: Option<Decimal>,
    max_spread: Option<Decimal>,
    t: ExcessTrade,
)
    requires
        0 <= excess <= u128::MAX,
        excess_trade(
            s,
            fees,
            excess,
            store.pool_specs.lp_fee.atomics as int,
            belief_price,
            max_spread,
            env,
        ) == Ok::<ExcessTrade, ContractError>(t),
    ensures
        t.swapped == swapped_of(s.reserve0 as int, excess),
        t.refunded == excess - t.swapped,
        t.trade.pool_state.reserve0 == s.reserve0 + t.swapped,
        t.trade.pool_state.total_liquidity == s.total_liquidity,
        prices_are_added(s, t.trade.pool_state, env.time.seconds()),
        commission_is_booked(
            fees,
            t.trade.fee_state,
            true,
            s.total_liquidity as int,
            t.trade.commission_amt as int,
        ),
        s.reserve1 - t.trade.pool_state.reserve1 == t.trade.return_amt + t.trade.commission_amt,
        t.swapped == 0 ==> t.trade.return_amt == 0 && t.trade.commission_amt == 0,
        t.swapped > 0 ==> {
            let gross = t.trade.return_amt + t.trade.commission_amt;
            &&& product_is_kept(s.reserve0 as int, s.reserve1 as int, t.swapped as int, gross)
            &&& is_floor(
                t.trade.commission_amt as int,
                gross * store.pool_specs.lp_fee.atomics,
                ONE as int,
            )
            &&& within_limit(
                belief_price,
                Some(
                    match max_spread {
                        Some(d) => d,
                        None => Decimal { atomics: 250_000_000_000_000_000 },
                    },
                ),
                t.swapped as int,
                gross,
                spread_of(s.reserve0 as int, s.reserve1 as int, t.swapped as int, gross),
            )
        },
{
    let o = s.reserve0 as int;
    let k = s.reserve1 as int;
    let x = t.swapped as int;
    let rate = store.pool_specs.lp_fee.atomics as int;
    lemma_div_pos_is_pos(o * 20, 100);
    lemma_div_is_ordered(o * 20, o * 100, 100);
    if x > 0 {
        assert(o > 0);
        lemma_swap_outcome(o, k, x, rate);
        let gross = t.trade.return_amt + t.trade.commission_amt;
        if k == 0 {
            assert(k * ONE / o == 0) by {
                lemma_div_of0(o);
            }
            assert(o * k == 0) by (nonlinear_arith)
                requires
                    k == 0,
            ;
            lemma_div_pos_is_pos(o + x - 1, ONE as int);
            lemma_div_of0(ONE as int);
            assert(gross == 0);
            let n = o + x;
            assert(n * (k - gross) == 0) by (nonlinear_arith)
                requires
                    k == 0,
                    gross == 0,
            ;
            assert(product_is_kept(o, k, x, gross));
            let price = k * ONE / o;
            assert(x * price == 0 && gross * rate == 0) by (nonlinear_arith)
                requires
                    price == 0,
                    gross == 0,
            ;
            assert(spread_of(o, k, x, gross) == 0);
            assert(t.trade.spread_amt == 0 && t.trade.commission_amt == 0);
        }
        assert(product_is_kept(o, k, x, gross));
        assert(is_floor(t.trade.commission_amt as int, gross * rate, ONE as int));
        assert(t.trade.spread_amt == spread_of(o, k, x, gross));
        lemma_spread_check(
            belief_price,
            Some(
                match max_spread {
                    Some(d) => d,
                    None => Decimal { atomics: 250_000_000_000_000_000 },
                },
            ),
            x,
            gross,
            t.trade.spread_amt as int,
        );
    }
    crate::pool::swap_laws::lemma_booked(
        fees,
        t.trade.fee_state,
        0,
        s.total_liquidity,
        t.trade.commission_amt,
    );
    crate::pool::swap_laws::lemma_prices_added(s, env.time.seconds());
}

/// The commit that raises the last dollar opens the pool. What is beyond the threshold is swapped,
/// up to a fifth of the reserve and within the committer's limit, and the rest of it goes back;
/// the payout is minted for whom it is due, and the pool is seeded with what was raised.
#[verifier::rlimit(60)]
pub proof fn law_crossing_opens_the_pool(
    before: PoolStore,
    after: PoolStore,
    env: Env,
    info: MessageInfo,
    asset: TokenInfo,
    transaction_deadline: Option<Timestamp>,
    belief_price: Option<Decimal>,
    max_spread: Option<Decimal>,
    host: HostAnswers,
    resp: Response,
    denom: String,
    usd: u128,
    to: Seq<char>,
)
    requires
        execute_outcome(
            before,
            after,
            env,
            info,
            ExecuteMsg::Commit { asset, transaction_deadline, belief_price, max_spread },
            host,
            Ok(resp),
        ),
        asset.info == (TokenType::Bluechip { denom }),
        host.quotes.usd_value == Ok::<u128, StdError>(usd),
        !before.threshold_hit,
        !before.threshold_processing,
        before.usd_raised + usd >= before.commit_limits.commit_amount_for_threshold_usd,
    ensures
        ({
            let amount = asset.amount as int;
            let sender = info.sender@;
            let missing = dollars_missing(before);
            let split = usd > missing && missing > 0;
            let funded = if split {
                host.quotes.to_threshold->Ok_0 as int
            } else {
                amount
            };
            let owed = if split {
                missing
            } else {
                usd as int
            };
            let raised = before.native_raised + funded;
            let excess = if split {
                left_over(before, amount, funded)
            } else {
                0
            };
            let reserve0 = first_bluechips(before, raised);
            let reserve1 = first_tokens(before, raised);
            let swapped = swapped_of(reserve0, excess);
            let token = before.pool_info.token_address@;
            let paid = tokens_sent(resp.messages@, token, sender);
            // What is raised and owed.
            &&& split ==> host.quotes.to_threshold is Ok
            &&& 0 <= funded <= amount
            &&& after.threshold_hit && !after.threshold_processing
            &&& after.last_threshold_attempt == Some(env.time)
            &&& after.usd_raised == before.commit_limits.commit_amount_for_threshold_usd
            &&& after.native_raised == raised
            &&& held(after.commit_ledger@, sender) == held(before.commit_ledger@, sender) + owed
            &&& to != sender ==> held(after.commit_ledger@, to) == held(before.commit_ledger@, to)
            &&& record_grows(
                before,
                after,
                env,
                sender,
                amount,
                if excess > 0 { usd as int } else { owed },
            )
            // What is paid, and to whom.
            &&& 0 <= swapped <= excess
            &&& coins_are_paid(
                before,
                resp.messages@,
                denom@,
                amount,
                sender,
                excess - swapped,
                to,
            )
            &&& to != sender ==> tokens_sent(resp.messages@, token, to) == 0
            &&& all_paid(resp.messages@).1 == paid
            &&& tokens_minted(resp.messages@, token, to) == payout_share(before, env, to)
            &&& all_paid(resp.messages@).2 + before.threshold_payout.commit_return_amount
                == 1_200_000_000_000
            &&& resp.messages@.contains(
                CosmosMsg::NotifyThresholdCrossed {
                    factory_addr: before.pool_info.factory_addr,
                    pool_id: before.pool_info.pool_id,
                },
            )
            &&& exists|n: int|
                #![trigger resp.messages@[n]]
                0 <= n < resp.messages@.len() && resp.messages@[n] is NotifyThresholdCrossed && (
                forall|i: int|
                    0 <= i < resp.messages@.len() && i != n ==> is_payment(
                        #[trigger] resp.messages@[i],
                    ) || resp.messages@[i] is Cw20Mint)
            // How the pool starts.
            &&& is_first_swap(
                before,
                after,
                env,
                reserve0,
                reserve1,
                swapped,
                belief_price,
                max_spread,
                paid,
            )
            &&& excess > 0 ==> prices_are_added(
                PoolState {
                    reserve0: reserve0 as u128,
                    reserve1: reserve1 as u128,
                    ..before.pool_state
                },
                after.pool_state,
                (env.time.nanos / 1_000_000_000) as u64,
            )
            &&& distribution_starts(before, after, env)
            &&& excess_is_locked(before, after, env, raised)
            &&& before.analytics.total_swap_count < u64::MAX ==> after.analytics.total_swap_count
                == before.analytics.total_swap_count + (if paid > 0 {
                1int
            } else {
                0
            })
            &&& paid > 0 ==> volumes_grow(before, after, swapped, paid)
                && after.analytics.last_trade_block == env.height
                && after.analytics.last_trade_timestamp == env.time.nanos / 1_000_000_000
            &&& paid == 0 ==> after.analytics == (PoolAnalytics {
                total_commit_count: after.analytics.total_commit_count,
                ..before.analytics
            })
            // What the record and the pool tell of it.
            &&& after.commit_info@[sender].last_payment_bluechip == (if excess > 0 {
                amount - funded
            } else {
                funded
            })
            &&& after.commit_info@[sender].last_payment_usd == (if excess > 0 {
                usd - owed
            } else {
                owed
            })
            &&& excess == 0 ==> {
                &&& after.pool_state.block_time_last == before.pool_state.block_time_last
                &&& after.pool_state.price0_cumulative_last
                    == before.pool_state.price0_cumulative_last
                &&& after.pool_state.price1_cumulative_last
                    == before.pool_state.price1_cumulative_last
            }
            &&& after.pool_state.pool_contract_address == before.pool_state.pool_contract_address
            &&& after.pool_state.nft_ownership_accepted == before.pool_state.nft_ownership_accepted
        }),
{
    let begun = entered(before, after.user_last_commit);
    let ended = PoolStore { reentrancy_lock: true, ..after };
    lemma_checked_commit(begun, info, asset, host.quotes.usd_value);
    let c = checked_commit(begun, info, asset, host.quotes.usd_value)->Ok_0;
    let sender = info.sender@;
    let token = before.pool_info.token_address@;
    let amount = asset.amount as int;
    let missing = dollars_missing(before);
    let split = usd > missing && missing > 0;
    let fees = fee_msgs(before.fee_info, c.denom, c.bluechip_fee, c.creator_fee);
    let payout = payout_msgs(before.pool_info, before.threshold_payout, before.fee_info, env);
    lemma_fees_are_paid(before, denom, amount, c.bluechip_fee, c.creator_fee, sender, to, to);
    lemma_fees_are_paid(before, denom, amount, c.bluechip_fee, c.creator_fee, sender, token, to);
    lemma_fees_are_paid(
        before,
        denom,
        amount,
        c.bluechip_fee,
        c.creator_fee,
        sender,
        token,
        sender,
    );
    lemma_payout_pays(before, env, to, denom@);
    lemma_payout_pays(before, env, token, to);
    lemma_payout_pays(before, env, token, sender);
    lemma_paid_adds_up(fees, payout, to, denom@);
    lemma_paid_adds_up(fees, payout, token, to);
    lemma_paid_adds_up(fees, payout, token, sender);
    let notice = CosmosMsg::NotifyThresholdCrossed {
        factory_addr: before.pool_info.factory_addr,
        pool_id: before.pool_info.pool_id,
    };
    assert(payout[0] == notice);
    assert((fees + payout)[fees.len() as int] == notice);
    assert(are_payments(fees));
    assert forall|i: int| 0 <= i < (fees + payout).len() && i != fees.len() implies is_payment(
        #[trigger] (fees + payout)[i],
    ) || (fees + payout)[i] is Cw20Mint by {
        if i < fees.len() {
            assert((fees + payout)[i] == fees[i]);
        } else {
            assert((fees + payout)[i] == payout[i - fees.len()]);
        }
    }
    assert(after.commit_info@.dom() =~= before.commit_info@.dom().insert(sender));
    if split {
        assert(phase_of(begun, usd) == Ok::<Phase, ContractError>(Phase::Crossing));
        let funded = host.quotes.to_threshold->Ok_0;
        let raised = (before.native_raised + funded) as u128;
        lemma_seed(before, raised);
        let excess = beyond_threshold(amount, c.amount_after_fees as int, funded as int);
        crate::pool::generic_helpers::lemma_part_of(
            c.amount_after_fees as int,
            funded as int,
            amount,
        );
        let t = crossing_trade(begun, env, raised, excess, belief_price, max_spread)->Ok_0;
        let s = seeded(
            before.pool_state,
            raised,
            before.commit_limits,
            before.threshold_payout,
            before.fee_info,
        );
        let restarted = fees_restarted(before.fee_state);
        if excess > 0 {
            lemma_first_swap(
                before,
                env,
                s,
                restarted,
                excess,
                belief_price,
                max_spread,
                t,
            );
        } else {
            let q = c.amount_after_fees * funded / amount;
            assert(funded == amount) by {
                lemma_fundamental_div_mod(c.amount_after_fees * funded, amount);
                lemma_mod_bound(c.amount_after_fees * funded, amount);
                if funded < amount {
                    assert(c.amount_after_fees * funded < c.amount_after_fees * amount)
                        by (nonlinear_arith)
                        requires
                            funded < amount,
                            c.amount_after_fees > 0,
                    ;
                    assert(amount * c.amount_after_fees == c.amount_after_fees * amount)
                        by (nonlinear_arith);
                }
            }
            lemma_div_pos_is_pos(s.reserve0 * 20, 100);
        }
        let rest = crossing_msgs(begun, info.sender, t)->Ok_0;
        lemma_crossing_pays(begun, info.sender, t, denom@, to, to);
        lemma_crossing_pays(begun, info.sender, t, denom@, token, to);
        lemma_crossing_pays(begun, info.sender, t, denom@, token, sender);
        lemma_paid_adds_up(fees + payout, rest, to, denom@);
        lemma_paid_adds_up(fees + payout, rest, token, to);
        lemma_paid_adds_up(fees + payout, rest, token, sender);
        assert(((fees + payout) + rest)[fees.len() as int] == notice);
        assert(are_payments(rest));
        assert forall|i: int|
            0 <= i < ((fees + payout) + rest).len() && i != fees.len() implies is_payment(
            #[trigger] ((fees + payout) + rest)[i],
        ) || ((fees + payout) + rest)[i] is Cw20Mint by {
            if i < (fees + payout).len() {
                assert(((fees + payout) + rest)[i] == (fees + payout)[i]);
            } else {
                assert(((fees + payout) + rest)[i] == rest[i - (fees + payout).len()]);
            }
        }
        assert(crossing_outcome(
            begun,
            ended,
            env,
            info.sender,
            asset.amount,
            c.amount_after_fees,
            usd,
            crate::pool::commit::missing_usd(begun),
            host.quotes.to_threshold,
            fees,
            belief_price,
            max_spread,
            Ok(resp),
        ));
    } else {
        assert(phase_of(begun, usd) == Ok::<Phase, ContractError>(Phase::Exact));
        let raised = (before.native_raised + asset.amount) as u128;
        lemma_seed(before, raised);
        lemma_div_pos_is_pos(first_bluechips(before, raised as int) * 20, 100);
        assert(exact_outcome(
            begun,
            ended,
            env,
            info.sender,
            asset.amount,
            usd,
            fees,
            Ok(resp),
        ));
    }
}

/// The first coin of a denomination does not cover an amount.
pub open spec fn falls_short(funds: Seq<crate::chain::Coin>, denom: Seq<char>, amount: int) -> bool {
    forall|i: int|
        0 <= i < funds.len() && (#[trigger] funds[i]).denom@ == denom && (forall|j: int|
            0 <= j < i ==> (#[trigger] funds[j]).denom@ != denom) ==> funds[i].amount < amount
}

proof fn lemma_falls_short(funds: Seq<crate::chain::Coin>, denom: Seq<char>, from: int, amount: int)
    requires
        0 <= from <= funds.len(),
        forall|j: int| 0 <= j < from ==> (#[trigger] funds[j]).denom@ != denom,
        sent_amount(funds, denom, from) < amount,
    ensures
        falls_short(funds, denom, amount),
    decreases funds.len() - from,
{
    if from < funds.len() {
        if funds[from].denom@ != denom {
            lemma_falls_short(funds, denom, from + 1, amount);
        }
    }
}

/// Why a commit may be refused.
pub open spec fn commit_refusal_is_due(
    before: PoolStore,
    env: Env,
    info: MessageInfo,
    asset: TokenInfo,
    deadline: Option<Timestamp>,
    belief_price: Option<Decimal>,
    max_spread: Option<Decimal>,
    quotes: Quotes,
    e: ContractError,
) -> bool {
    let amount = asset.amount as int;
    let sender = info.sender@;
    let now = env.time.nanos as int / 1_000_000_000;
    let last = before.user_last_commit@[sender];
    let interval = before.pool_specs.min_commit_interval as int;
    let usd = quotes.usd_value->Ok_0 as int;
    let opens = !before.threshold_hit && !before.threshold_processing && before.usd_raised + usd
        >= before.commit_limits.commit_amount_for_threshold_usd;
    let trades = before.threshold_hit || opens;
    let kept = amount - platform_fee(before, amount) - creator_fee(before, amount);
    let s = before.pool_state;
    let o = s.reserve0 as int;
    let k = s.reserve1 as int;
    let gross = (k * ONE - o * k * ONE / (o + kept)) / (ONE as int);
    match e {
        ContractError::PoolPausedLowLiquidity {  } => before.paused,
        ContractError::EmergencyDrained {  } => before.drained,
        ContractError::TransactionExpired {  } => deadline matches Some(d) && env.time.nanos
            > d.nanos,
        ContractError::ReentrancyGuard {  } => before.reentrancy_lock,
        ContractError::TooFrequentCommits { wait_time } => {
            &&& before.user_last_commit@.dom().contains(sender)
            &&& now < last + interval
            &&& wait_time == (if now > last {
                last + interval - now
            } else {
                interval
            })
        },
        ContractError::AssetMismatch {  } => !(asset.info matches TokenType::Bluechip { denom }
            && is_native(before, denom@)),
        ContractError::ZeroAmount {  } => amount == 0 || (before.threshold_hit && gross - gross
            * before.pool_specs.lp_fee.atomics / (ONE as int) == 0),
        ContractError::InvalidOraclePrice {  } => quotes.usd_value == Ok::<u128, StdError>(0u128),
        ContractError::MismatchAmount {  } => asset.info matches TokenType::Bluechip { denom }
            && falls_short(info.funds@, denom@, amount),
        ContractError::InvalidFee {  } => platform_fee(before, amount) + creator_fee(before, amount)
            >= amount,
        ContractError::InvalidBeliefPrice {  } => trades && (belief_price matches Some(p)
            && p.atomics == 0),
        ContractError::MaxSpreadAssertion {  } => if before.threshold_hit {
            !within_limit(
                belief_price,
                max_spread,
                kept,
                gross - gross * before.pool_specs.lp_fee.atomics / (ONE as int),
                spread_of(o, k, kept, gross),
            )
        } else {
            opens && first_swap_is_off(before, amount, quotes, belief_price, max_spread)
        },
        ContractError::Std(x) => {
            ||| quotes.usd_value == Err::<u128, StdError>(x)
            ||| quotes.to_threshold == Err::<u128, StdError>(x)
            ||| match x {
                StdError::CommitTooSmall { usd_value } => quotes.usd_value == Ok::<u128, StdError>(
                    usd_value,
                ) && usd_value < 1_000_000,
                StdError::Overflow(_) => trades || numbers_overflow(before, sender, amount, usd),
                StdError::ConversionOverflow => trades,
                StdError::Generic(_) => trades || no_native(before),
                _ => false,
            }
        },
        _ => false,
    }
}

/// Booking a commit before the threshold goes out of range.
pub open spec fn numbers_overflow(store: PoolStore, sender: Seq<char>, amount: int, usd: int) -> bool {
    ||| amount * store.fee_info.commit_fee_bluechip.atomics > u128::MAX
    ||| amount * store.fee_info.commit_fee_creator.atomics > u128::MAX
    ||| platform_fee(store, amount) + creator_fee(store, amount) > u128::MAX
    ||| store.usd_raised + usd > u128::MAX
    ||| store.native_raised + amount > u128::MAX
    ||| held(store.commit_ledger@, sender) + usd > u128::MAX
    ||| store.commit_info@.dom().contains(sender) && (
    store.commit_info@[sender].total_paid_bluechip + amount > u128::MAX
        || store.commit_info@[sender].total_paid_usd + usd > u128::MAX)
}

/// The pair has no bluechip token.
pub open spec fn no_native(store: PoolStore) -> bool {
    let infos = store.pool_info.pool_info.asset_infos;
    infos[0] is CreatorToken && infos[1] is CreatorToken
}

/// The first swap on the pool would be beyond the committer's limit, or else beyond 25%.
pub open spec fn first_swap_is_off(
    store: PoolStore,
    amount: int,
    quotes: Quotes,
    belief_price: Option<Decimal>,
    max_spread: Option<Decimal>,
) -> bool {
    let funded = quotes.to_threshold->Ok_0 as int;
    let raised = store.native_raised + funded;
    let o = first_bluechips(store, raised);
    let k = first_tokens(store, raised);
    let x = swapped_of(o, left_over(store, amount, funded));
    let gross = (k * ONE - o * k * ONE / (o + x)) / (ONE as int);
    &&& x > 0
    &&& !within_limit(
        belief_price,
        Some(
            match max_spread {
                Some(d) => d,
                None => Decimal { atomics: 250_000_000_000_000_000 },
            },
        ),
        x,
        gross,
        spread_of(o, k, x, gross),
    )
}

/// A commit is refused for a reason: each error comes only where it is due.
#[verifier::rlimit(60)]
pub proof fn law_commits_are_refused_for_a_reason(
    before: PoolStore,
    after: PoolStore,
    env: Env,
    info: MessageInfo,
    asset: TokenInfo,
    transaction_deadline: Option<Timestamp>,
    belief_price: Option<Decimal>,
    max_spread: Option<Decimal>,
    host: HostAnswers,
    e: ContractError,
)
    requires
        execute_outcome(
            before,
            after,
            env,
            info,
            ExecuteMsg::Commit { asset, transaction_deadline, belief_price, max_spread },
            host,
            Err(e),
        ),
        before.threshold_hit ==> before.pool_state.reserve0 > 0,
    ensures
        commit_refusal_is_due(
            before,
            env,
            info,
            asset,
            transaction_deadline,
            belief_price,
            max_spread,
            host.quotes,
            e,
        ),
{
    let begun = entered(before, after.user_last_commit);
    let ended = PoolStore { reentrancy_lock: true, ..after };
    let amount = asset.amount as int;
    let f = before.fee_info.commit_fee_bluechip.atomics as int;
    let g = before.fee_info.commit_fee_creator.atomics as int;
    assert(amount * f >= 0 && amount * g >= 0) by (nonlinear_arith)
        requires
            amount >= 0,
            f >= 0,
            g >= 0,
    ;
    lemma_div_pos_is_pos(amount * f, ONE as int);
    lemma_div_pos_is_pos(amount * g, ONE as int);
    if before.paused || before.drained || crate::pool::commit::turned_away(
        before,
        env,
        info.sender@,
        transaction_deadline,
    ) is Some {
    } else {
        if let TokenType::Bluechip { denom } = asset.info {
            if sent_amount(info.funds@, denom@, 0) < amount {
                lemma_falls_short(info.funds@, denom@, 0, amount);
            }
        }
        lemma_checked_commit(begun, info, asset, host.quotes.usd_value);
        if checked_commit(begun, info, asset, host.quotes.usd_value) is Ok {
            let c = checked_commit(begun, info, asset, host.quotes.usd_value)->Ok_0;
            let kept = c.amount_after_fees as int;
            let s = before.pool_state;
            let rate = before.pool_specs.lp_fee.atomics as int;
            assert(phase_of(begun, c.usd_value) is Err || phase_of(begun, c.usd_value) is Ok);
            if before.threshold_hit {
                let o = s.reserve0 as int;
                let k = s.reserve1 as int;
                lemma_swap_outcome(o, k, kept, rate);
                if let Ok((ret, spread, commission)) = swap_outcome(o, k, kept, rate) {
                    lemma_spread_check(
                        belief_price,
                        max_spread,
                        kept,
                        ret as int,
                        spread as int,
                    );
                }
            } else if phase_of(begun, c.usd_value) == Ok::<Phase, ContractError>(Phase::Crossing)
                && host.quotes.to_threshold is Ok && host.quotes.to_threshold->Ok_0
                <= asset.amount && before.native_raised + host.quotes.to_threshold->Ok_0
                <= u128::MAX {
                let funded = host.quotes.to_threshold->Ok_0;
                let raised = (before.native_raised + funded) as u128;
                if payout_error(
                    raised,
                    before.commit_limits,
                    before.threshold_payout,
                    before.fee_info,
                ) is None {
                    lemma_seed(before, raised);
                    let st = seeded(
                        before.pool_state,
                        raised,
                        before.commit_limits,
                        before.threshold_payout,
                        before.fee_info,
                    );
                    let excess = left_over(before, amount, funded as int);
                    crate::pool::generic_helpers::lemma_part_of(kept, funded as int, amount);
                    let x = swapped_of(st.reserve0 as int, excess);
                    let o = st.reserve0 as int;
                    let k = st.reserve1 as int;
                    lemma_div_pos_is_pos(o * 20, 100);
                    lemma_div_is_ordered(o * 20, o * 100, 100);
                    if x > 0 {
                        lemma_swap_outcome(o, k, x, rate);
                        crate::pool::swap_laws::lemma_return_is_tight(o, k, x);
                        if k == 0 {
                            lemma_div_of0(o);
                            lemma_div_of0(ONE as int);
                            assert(o * k == 0) by (nonlinear_arith)
                                requires
                                    k == 0,
                            ;
                            lemma_div_of0(o + x);
                            let price = k * ONE / o;
                            assert(x * price == 0) by (nonlinear_arith)
                                requires
                                    price == 0,
                            ;
                        }
                        let limit = Some(
                            match max_spread {
                                Some(d) => d,
                                None => Decimal { atomics: 250_000_000_000_000_000 },
                            },
                        );
                        let gross = (k * ONE - o * k * ONE / (o + x)) / (ONE as int);
                        let ideal = x * (k * ONE / o) / (ONE as int);
                        let spread = spread_of(o, k, x, gross);
                        lemma_spread_check(belief_price, limit, x, gross, spread);
                        assert(k == 0 ==> gross == 0 && spread == 0);
                        let priced = crate::pool::commit::excess_swap(st, x, rate);
                        assert(priced matches Ok((ret, sp, commission)) ==> ret + commission == gross
                            && sp == spread);
                    }
                    assert(crossing_outcome(
                        begun,
                        ended,
                        env,
                        info.sender,
                        asset.amount,
                        c.amount_after_fees,
                        c.usd_value,
                        crate::pool::commit::missing_usd(begun),
                        host.quotes.to_threshold,
                        fee_msgs(before.fee_info, c.denom, c.bluechip_fee, c.creator_fee),
                        belief_price,
                        max_spread,
                        Err(e),
                    ));
                    assert(beyond_threshold(amount, kept, funded as int) == excess);
                    assert(excess == 0 ==> x == 0);
                }
            }
        }
    }
}

} // verus!
