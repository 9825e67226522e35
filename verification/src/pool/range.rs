//! Whether a call stays in range.
//!
//! The calls of a pool do not check everything that the arithmetic behind them needs: the
//! price of one token in the other, the fees of one share, the end of a lock. Whoever cannot
//! rule out such a call asks here first.

use vstd::prelude::*;
use vstd::string::*;

use crate::asset::{TokenInfo, TokenInfoPoolExt};
use crate::chain::{Addr, Env, MessageInfo};
use crate::error::StdError;
use crate::number::{
    checked_mul_floor, decimal_inv, limb, multiply_ratio, ratio_defined, wide_checked_div,
    wide_checked_mul, Decimal, Timestamp, Wide, ONE,
};
use crate::pool::commit::{
    check_commit, choose_phase, commit_defined, commit_trade_defined, counters_ok, crossing_defined,
    excess_trade_defined, lemma_swap_is_covered, part_beyond_threshold, turned_away, Phase, Quotes,
};
use crate::pool::contract::{
    cw20_defined, execute_defined, guarded_swap_defined, is_token_contract, simple_trade_defined,
    HostAnswers,
};
use crate::pool::generic_helpers::{
    enforce_transaction_deadline, fee_growth_defined, payout_defined, trigger_threshold_payout,
};
use crate::pool::msg::{Cw20HookMsg, Cw20ReceiveMsg, ExecuteMsg, QueryMsg};
use crate::pool::query::{query_check_commit, query_defined, QueryHost};
use crate::pool::state::{
    CommitFeeInfo, CommitLimitInfo, PoolAnalytics, PoolState, PoolStore, ThresholdPayoutAmounts,
    MINIMUM_LIQUIDITY,
};
use crate::pool::swap_helper::{
    assert_max_spread, compute_swap, lemma_commission_at_most_gross, lemma_inverse_fits,
    spread_check_defined,
};

verus! {

/// Whether `n / d` is a decimal in range.
pub fn ratio_in_range(n: u128, d: u128) -> (r: bool)
    ensures
        r == ratio_defined(n as int, d as int),
{
    if d == 0 {
        return false;
    }
    proof {
        assert(0 <= n * ONE < limb() * limb()) by (nonlinear_arith)
            requires
                0 <= n < limb(),
                0 <= ONE < limb(),
        ;
        vstd::arithmetic::div_mod::lemma_div_pos_is_pos(n * ONE, d as int);
    }
    match wide_checked_mul(Wide::from_u128(n), Wide::from_u128(ONE)) {
        Some(scaled) => match wide_checked_div(scaled, Wide::from_u128(d)) {
            Some(q) => q.to_u128().is_some(),
            None => false,
        },
        None => false,
    }
}

/// Whether a spread check stays in range.
pub fn spread_check_in_range(
    belief_price: Option<Decimal>,
    offer_amount: u128,
    return_amount: u128,
    spread_amount: u128,
) -> (r: bool)
    ensures
        r == spread_check_defined(
            belief_price,
            offer_amount as int,
            return_amount as int,
            spread_amount as int,
        ),
{
    match belief_price {
        Some(price) => match decimal_inv(price) {
            Some(inv) => {
                proof {
                    lemma_inverse_fits(price.atomics as int);
                }
                offer_amount.checked_mul(inv.atomics).is_some()
            },
            None => true,
        },
        None => return_amount.checked_add(spread_amount).is_some(),
    }
}

/// Whether booking a commission stays in range.
pub fn fee_growth_in_range(total_liquidity: u128, commission: u128) -> (r: bool)
    ensures
        r == fee_growth_defined(total_liquidity, commission),
{
    total_liquidity == 0 || commission == 0 || ratio_in_range(commission, total_liquidity)
}

/// Whether a swap stays in range.
pub fn simple_trade_in_range(
    store: &PoolStore,
    offer: &TokenInfo,
    belief_price: Option<Decimal>,
    max_spread: Option<Decimal>,
) -> (r: bool)
    ensures
        r == simple_trade_defined(*store, *offer, belief_price, max_spread),
{
    let (offer_pool, ask_pool): (u128, u128) = if offer.info.equal(
        &store.pool_info.pool_info.asset_infos[0],
    ) {
        (store.pool_state.reserve0, store.pool_state.reserve1)
    } else if offer.info.equal(&store.pool_info.pool_info.asset_infos[1]) {
        (store.pool_state.reserve1, store.pool_state.reserve0)
    } else {
        return true;
    };
    if store.paused || store.pool_state.reserve0 < MINIMUM_LIQUIDITY || store.pool_state.reserve1
        < MINIMUM_LIQUIDITY {
        return true;
    }
    proof {
        lemma_swap_is_covered(
            offer_pool as int,
            ask_pool as int,
            offer.amount as int,
            store.pool_specs.lp_fee.atomics as int,
        );
    }
    match compute_swap(offer_pool, ask_pool, offer.amount, store.pool_specs.lp_fee) {
        Err(_) => true,
        Ok((return_amt, spread_amt, commission_amt)) => {
            let gross: u128 = return_amt + commission_amt;
            spread_check_in_range(belief_price, offer.amount, gross, spread_amt) && (
            assert_max_spread(
                belief_price,
                max_spread,
                offer.amount,
                gross,
                spread_amt,
            ).is_err() || (fee_growth_in_range(
                store.pool_state.total_liquidity,
                commission_amt,
            ) && (offer.amount == 0 || ratio_in_range(return_amt, offer.amount))))
        },
    }
}

/// Whether the swap of a commit after the threshold stays in range.
pub fn commit_trade_in_range(
    store: &PoolStore,
    swap_amount: u128,
    belief_price: Option<Decimal>,
    max_spread: Option<Decimal>,
) -> (r: bool)
    ensures
        r == commit_trade_defined(*store, swap_amount, belief_price, max_spread),
{
    if store.paused {
        return true;
    }
    if store.pool_state.reserve0 == 0 {
        return false;
    }
    match compute_swap(
        store.pool_state.reserve0,
        store.pool_state.reserve1,
        swap_amount,
        store.pool_specs.lp_fee,
    ) {
        Err(_) => true,
        Ok((return_amt, spread_amt, commission_amt)) => return_amt == 0 || (spread_check_in_range(
            belief_price,
            swap_amount,
            return_amt,
            spread_amt,
        ) && (assert_max_spread(
            belief_price,
            max_spread,
            swap_amount,
            return_amt,
            spread_amt,
        ).is_err() || (fee_growth_in_range(store.pool_state.total_liquidity, commission_amt)
            && ratio_in_range(return_amt, swap_amount)))),
    }
}

/// Whether a point in time `days` after another can be represented.
fn days_in_range(time: Timestamp, days: u64) -> (r: bool)
    ensures
        r == time.can_add(days * 86400),
{
    time.nanos as u128 + days as u128 * 86_400_000_000_000u128 <= u64::MAX as u128
}

/// Whether a payout stays in range.
pub fn payout_in_range(
    native_raised: u128,
    limits: &CommitLimitInfo,
    payout: &ThresholdPayoutAmounts,
    fee_info: &CommitFeeInfo,
    env: &Env,
) -> (r: bool)
    ensures
        r == payout_defined(native_raised, *limits, *payout, *fee_info, *env),
{
    let total: Wide = Wide::sum(payout.creator_reward_amount, payout.bluechip_reward_amount);
    let fees = match fee_info.commit_fee_bluechip.checked_add(fee_info.commit_fee_creator) {
        Some(fees) => fees,
        None => {
            return true;
        },
    };
    let kept = match Decimal::one().checked_sub(fees) {
        Some(kept) => kept,
        None => {
            return true;
        },
    };
    let total_is_right = match total.to_u128() {
        Some(a) => match a.checked_add(payout.pool_seed_amount) {
            Some(b) => match b.checked_add(payout.commit_return_amount) {
                Some(c) => c == crate::pool::generic_helpers::EXPECTED_TOTAL,
                None => false,
            },
            None => false,
        },
        None => false,
    };
    proof {
        lemma_commission_at_most_gross(native_raised as int, kept.atomics as int);
    }
    match checked_mul_floor(native_raised, kept) {
        Some(seed) => !total_is_right || seed <= limits.max_bluechip_lock_per_pool
            || days_in_range(env.time, limits.creator_excess_liquidity_lock_days),
        None => {
            assert(false);
            true
        },
    }
}

/// Whether the first swap on a freshly seeded pool stays in range.
fn excess_trade_in_range(
    s: &PoolState,
    excess: u128,
    lp_fee: Decimal,
    belief_price: Option<Decimal>,
    max_spread: Option<Decimal>,
) -> (r: bool)
    ensures
        r == excess_trade_defined(
            *s,
            excess as int,
            lp_fee.atomics as int,
            belief_price,
            max_spread,
        ),
{
    let most: u128 = multiply_ratio(s.reserve0, 20, 100);
    let swapped: u128 = if excess <= most {
        excess
    } else {
        most
    };
    if s.reserve0 == 0 || s.reserve1 == 0 || swapped == 0 {
        if swapped == 0 {
            return true;
        }
        return spread_check_in_range(belief_price, swapped, 0, 0);
    }
    proof {
        lemma_swap_is_covered(
            s.reserve0 as int,
            s.reserve1 as int,
            swapped as int,
            lp_fee.atomics as int,
        );
    }
    match compute_swap(s.reserve0, s.reserve1, swapped, lp_fee) {
        Err(_) => true,
        Ok((return_amt, spread_amt, commission_amt)) => {
            let gross: u128 = return_amt + commission_amt;
            let limit = match max_spread {
                Some(limit) => limit,
                None => Decimal::percent(25),
            };
            spread_check_in_range(belief_price, swapped, gross, spread_amt) && (
            assert_max_spread(belief_price, Some(limit), swapped, gross, spread_amt).is_err()
                || fee_growth_in_range(s.total_liquidity, commission_amt))
        },
    }
}

/// Whether a crossing with an excess stays in range.
pub fn crossing_in_range(
    store: &PoolStore,
    env: &Env,
    amount: u128,
    amount_after_fees: u128,
    to_threshold: &Result<u128, StdError>,
    belief_price: Option<Decimal>,
    max_spread: Option<Decimal>,
) -> (r: bool)
    ensures
        r == crossing_defined(
            *store,
            *env,
            amount,
            amount_after_fees,
            *to_threshold,
            belief_price,
            max_spread,
        ),
{
    let b2t: u128 = match to_threshold {
        Ok(b2t) => *b2t,
        Err(_) => {
            return true;
        },
    };
    if b2t > amount {
        return true;
    }
    let native_raised: u128 = match store.native_raised.checked_add(b2t) {
        Some(native_raised) => native_raised,
        None => {
            return true;
        },
    };
    if !payout_in_range(
        native_raised,
        &store.commit_limits,
        &store.threshold_payout,
        &store.fee_info,
        env,
    ) {
        return false;
    }
    let excess: u128 = part_beyond_threshold(amount, amount_after_fees, b2t);
    match trigger_threshold_payout(
        true,
        native_raised,
        &store.pool_info,
        &store.pool_state,
        &store.fee_state,
        &store.commit_limits,
        &store.threshold_payout,
        &store.fee_info,
        env,
    ) {
        Err(_) => true,
        Ok(payout) => excess == 0 || excess_trade_in_range(
            &payout.pool_state,
            excess,
            store.pool_specs.lp_fee,
            belief_price,
            max_spread,
        ),
    }
}

/// Whether a commit stays in range.
pub fn commit_in_range(
    store: &PoolStore,
    env: &Env,
    info: &MessageInfo,
    asset: &TokenInfo,
    belief_price: Option<Decimal>,
    max_spread: Option<Decimal>,
    quotes: &Quotes,
) -> (r: bool)
    ensures
        r == commit_defined(*store, *env, *info, *asset, belief_price, max_spread, *quotes),
{
    let usd_value: u128 = match &quotes.usd_value {
        Ok(usd_value) => *usd_value,
        Err(_) => {
            return true;
        },
    };
    let c = match check_commit(store, info, asset, Ok(usd_value)) {
        Ok(c) => c,
        Err(_) => {
            return true;
        },
    };
    match choose_phase(store, c.usd_value) {
        Err(_) => true,
        Ok(Phase::Active) => commit_trade_in_range(
            store,
            c.amount_after_fees,
            belief_price,
            max_spread,
        ),
        Ok(Phase::Crossing) => crossing_in_range(
            store,
            env,
            asset.amount,
            c.amount_after_fees,
            &quotes.to_threshold,
            belief_price,
            max_spread,
        ),
        Ok(Phase::Exact) => match store.native_raised.checked_add(asset.amount) {
            Some(native_raised) => payout_in_range(
                native_raised,
                &store.commit_limits,
                &store.threshold_payout,
                &store.fee_info,
                env,
            ),
            None => true,
        },
        Ok(Phase::Funding { .. }) => true,
    }
}

/// Whether a call that trades is let in.
fn let_in(store: &PoolStore, env: &Env, sender: &Addr, deadline: Option<Timestamp>) -> (r: bool)
    requires
        store.wf(),
    ensures
        r == (turned_away(*store, *env, sender@, deadline) is None),
{
    if enforce_transaction_deadline(env.time, deadline).is_err() || store.reentrancy_lock {
        return false;
    }
    match store.user_last_commit.get(sender.as_str()) {
        Some(last) => env.time.seconds().saturating_sub(*last)
            >= store.pool_specs.min_commit_interval,
        None => true,
    }
}

fn guarded_swap_in_range(
    store: &PoolStore,
    env: &Env,
    sender: &Addr,
    offer: &TokenInfo,
    belief_price: Option<Decimal>,
    max_spread: Option<Decimal>,
    deadline: Option<Timestamp>,
) -> (r: bool)
    requires
        store.wf(),
    ensures
        r == guarded_swap_defined(
            *store,
            *env,
            *sender,
            *offer,
            belief_price,
            max_spread,
            deadline,
        ),
{
    !let_in(store, env, sender, deadline) || simple_trade_in_range(
        store,
        offer,
        belief_price,
        max_spread,
    )
}

fn counters_in_range(a: &PoolAnalytics) -> (r: bool)
    ensures
        r == counters_ok(*a),
{
    a.total_commit_count < u64::MAX && a.total_swap_count < u64::MAX
}

fn cw20_in_range(
    store: &PoolStore,
    env: &Env,
    info: &MessageInfo,
    cw20_msg: &Cw20ReceiveMsg,
    hook: &Result<Cw20HookMsg, StdError>,
    to: &Result<Option<Addr>, StdError>,
    cw20_sender: &Result<Addr, StdError>,
) -> (r: bool)
    requires
        store.wf(),
    ensures
        r == cw20_defined(*store, *env, *info, *cw20_msg, *hook, *to, *cw20_sender),
{
    let infos = &store.pool_info.pool_info.asset_infos;
    if !query_check_commit(store) || cw20_msg.amount == 0 || to.is_err() || (!is_token_contract(
        &infos[0],
        &info.sender,
    ) && !is_token_contract(&infos[1], &info.sender)) {
        return true;
    }
    match (hook, cw20_sender) {
        (
            Ok(Cw20HookMsg::Swap { belief_price, max_spread, to: _, transaction_deadline }),
            Ok(sender),
        ) => {
            let offer = TokenInfo {
                info: crate::asset::TokenType::CreatorToken { contract_addr: info.sender.clone() },
                amount: cw20_msg.amount,
            };
            guarded_swap_in_range(
                store,
                env,
                sender,
                &offer,
                *belief_price,
                *max_spread,
                *transaction_deadline,
            )
        },
        _ => true,
    }
}

/// Whether a call stays in range.
pub fn execute_in_range(
    store: &PoolStore,
    env: &Env,
    info: &MessageInfo,
    msg: &ExecuteMsg,
    host: &HostAnswers,
) -> (r: bool)
    requires
        store.wf(),
    ensures
        r == execute_defined(*store, *env, *info, *msg, *host),
{
    match msg {
        ExecuteMsg::EmergencyWithdraw {  } => info.sender != store.pool_info.factory_addr
            || store.pending_emergency_withdraw.is_some() || days_in_range(env.time, 1),
        ExecuteMsg::RecoverStuckStates { .. } => store.commit_ledger.entries.len()
            <= u32::MAX as usize,
        ExecuteMsg::ContinueDistribution {  } => match &store.distribution {
            Some(d) => d.consecutive_failures < u32::MAX,
            None => true,
        },
        ExecuteMsg::Commit { asset, transaction_deadline, belief_price, max_spread } => {
            counters_in_range(&store.analytics) && (store.paused || store.drained || !let_in(
                store,
                env,
                &info.sender,
                *transaction_deadline,
            ) || commit_in_range(
                store,
                env,
                info,
                asset,
                *belief_price,
                *max_spread,
                &host.quotes,
            ))
        },
        ExecuteMsg::SimpleSwap {
            offer_asset,
            belief_price,
            max_spread,
            to: _,
            transaction_deadline,
        } => {
            counters_in_range(&store.analytics) && (!query_check_commit(store)
                || offer_asset.confirm_sent_bluechip_token_balance(info).is_err()
                || host.to.is_err() || guarded_swap_in_range(
                store,
                env,
                &info.sender,
                offer_asset,
                *belief_price,
                *max_spread,
                *transaction_deadline,
            ))
        },
        ExecuteMsg::Receive(cw20_msg) => {
            counters_in_range(&store.analytics) && cw20_in_range(
                store,
                env,
                info,
                cw20_msg,
                &host.hook,
                &host.to,
                &host.cw20_sender,
            )
        },
        _ => true,
    }
}

/// Whether a query stays in range.
pub fn query_in_range(store: &PoolStore, msg: &QueryMsg, host: &QueryHost) -> (r: bool)
    ensures
        r == query_defined(*store, *msg, *host),
{
    let pools = match &host.pools {
        Ok(pools) => pools,
        Err(_) => {
            return true;
        },
    };
    match msg {
        QueryMsg::Simulation { offer_asset } => if offer_asset.info.equal(&pools[0].info) {
            pools[0].amount > 0
        } else if offer_asset.info.equal(&pools[1].info) {
            pools[1].amount > 0
        } else {
            true
        },
        QueryMsg::ReverseSimulation { ask_asset } => {
            (!ask_asset.info.equal(&pools[0].info) && !ask_asset.info.equal(&pools[1].info))
                || store.pool_specs.lp_fee.atomics < ONE
        },
        _ => true,
    }
}

} // verus!
