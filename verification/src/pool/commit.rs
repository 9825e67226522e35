//! Commits: funding before the threshold, crossing it, and swaps from there on; and the
//! distribution of creator tokens to the committers.

use vstd::prelude::*;
use vstd::string::*;

use crate::asset::{bluechip_denom, get_bluechip_denom, TokenInfo, TokenType};
use crate::chain::{at_block, Addr, Coin, CosmosMsg, Env, MessageInfo, Pair, Response};
use crate::error::{Missing, OverflowOperation, StdError};
use crate::number::{
    decimal_from_ratio, decimal_text, decimal_to_text, min, min_u128, minus_or_zero,
    multiply_ratio, ratio, ratio_defined, Decimal, Timestamp, ONE,
};
use crate::pool::error::{difference, in_pool, overflow, product, sum, ContractError};
use crate::pool::admin::ensure_not_drained;
use crate::pool::generic_helpers::{
    batch_answer, batch_done, check_rate_limit, committed, enforce_transaction_deadline, fee_growth,
    fee_growth_defined, fees_restarted, get_bank_transfer_to_msg, in_time,
    lemma_part_of, lookup,
    new_distribution, new_excess, next_committing, payout_defined, payout_error, payout_msgs,
    process_distribution_batch, seeded, trigger_threshold_payout, update_pool_fee_growth,
    wait_time, ThresholdPayout,
};
use crate::pool::state::{
    CommitFeeInfo, DistributionState, PoolAnalytics, PoolFeeState, PoolState, PoolStore,
};
use crate::pool::swap_helper::{
    accumulated, assert_max_spread, compute_swap, lemma_gross_return_bounds, spread_check,
    spread_check_defined, swap_outcome, update_price_accumulator,
};
use crate::table::Table;
use crate::text::digits;

verus! {

/// The smallest commit, in dollars with six decimals: one dollar.
pub const MIN_COMMIT_USD: u128 = 1_000_000;

/// The fees of the platform and of the creator on a commit.
pub open spec fn commit_fees(amount: u128, fee_info: CommitFeeInfo) -> Result<
    (u128, u128),
    ContractError,
> {
    let platform = amount * fee_info.commit_fee_bluechip.atomics;
    let creator = amount * fee_info.commit_fee_creator.atomics;
    if platform > u128::MAX || creator > u128::MAX {
        Err(overflow(OverflowOperation::Mul))
    } else {
        Ok(((platform / (ONE as int)) as u128, (creator / (ONE as int)) as u128))
    }
}

/// The fees of the platform and of the creator on a commit.
pub fn calculate_commit_fees(amount: u128, fee_info: &CommitFeeInfo) -> (r: Result<
    (u128, u128),
    ContractError,
>)
    ensures
        r == commit_fees(amount, *fee_info),
{
    let platform: u128 = product(amount, fee_info.commit_fee_bluechip.atomics)? / ONE;
    let creator: u128 = product(amount, fee_info.commit_fee_creator.atomics)? / ONE;
    Ok((platform, creator))
}

/// The messages that pay the fees of a commit; a fee of zero sends nothing.
pub open spec fn fee_msgs(
    fee_info: CommitFeeInfo,
    denom: String,
    platform: u128,
    creator: u128,
) -> Seq<CosmosMsg> {
    let first = CosmosMsg::BankSend {
        to_address: fee_info.bluechip_wallet_address,
        denom,
        amount: platform,
    };
    let second = CosmosMsg::BankSend {
        to_address: fee_info.creator_wallet_address,
        denom,
        amount: creator,
    };
    let none = Seq::<CosmosMsg>::empty();
    let one = if platform == 0 {
        none
    } else {
        none.push(first)
    };
    if creator == 0 {
        one
    } else {
        one.push(second)
    }
}

/// The messages that pay the fees of a commit.
pub fn build_fee_messages(
    fee_info: &CommitFeeInfo,
    denom: &String,
    bluechip_fee: u128,
    creator_fee: u128,
) -> (r: Vec<CosmosMsg>)
    ensures
        r@ == fee_msgs(*fee_info, *denom, bluechip_fee, creator_fee),
{
    let mut messages: Vec<CosmosMsg> = Vec::new();
    if bluechip_fee != 0 {
        messages.push(
            get_bank_transfer_to_msg(&fee_info.bluechip_wallet_address, denom, bluechip_fee),
        );
    }
    if creator_fee != 0 {
        messages.push(
            get_bank_transfer_to_msg(&fee_info.creator_wallet_address, denom, creator_fee),
        );
    }
    messages
}

/// The counters leave room for one more commit and one more swap.
pub open spec fn counters_ok(a: PoolAnalytics) -> bool {
    a.total_commit_count < u64::MAX && a.total_swap_count < u64::MAX
}

/// The dollars that an account has in the ledger after `usd` more.
pub open spec fn ledger_after(store: PoolStore, sender: Seq<char>, usd: u128) -> Result<
    u128,
    ContractError,
> {
    match lookup(store.commit_ledger@, sender) {
        Some(before) => sum(before, usd),
        None => Ok(usd),
    }
}

fn next_ledger_entry(store: &PoolStore, sender: &Addr, usd: u128) -> (r: Result<
    u128,
    ContractError,
>)
    requires
        store.wf(),
    ensures
        r == ledger_after(*store, sender@, usd),
{
    match store.commit_ledger.get(sender.as_str()) {
        Some(before) => sum(*before, usd),
        None => Ok(usd),
    }
}

/// The counters after one more commit.
pub open spec fn one_commit(a: PoolAnalytics) -> PoolAnalytics {
    PoolAnalytics { total_commit_count: (a.total_commit_count + 1) as u64, ..a }
}

/// `a + b`, or the largest amount.
pub open spec fn sum_or_max(a: u128, b: u128) -> u128 {
    if a + b <= u128::MAX {
        (a + b) as u128
    } else {
        u128::MAX
    }
}

/// The counters after a swap of `volume0` against `volume1`.
pub open spec fn one_swap(a: PoolAnalytics, volume0: u128, volume1: u128, env: Env) -> PoolAnalytics {
    PoolAnalytics {
        total_swap_count: (a.total_swap_count + 1) as u64,
        total_volume_0: sum_or_max(a.total_volume_0, volume0),
        total_volume_1: sum_or_max(a.total_volume_1, volume1),
        last_trade_block: env.height,
        last_trade_timestamp: env.time.seconds(),
        ..a
    }
}

/// Counts a swap.
pub(crate) fn count_swap(a: &mut PoolAnalytics, volume0: u128, volume1: u128, env: &Env)
    requires
        old(a).total_swap_count < u64::MAX,
    ensures
        *final(a) == one_swap(*old(a), volume0, volume1, *env),
{
    a.total_swap_count = a.total_swap_count + 1;
    a.total_volume_0 = a.total_volume_0.saturating_add(volume0);
    a.total_volume_1 = a.total_volume_1.saturating_add(volume1);
    a.last_trade_block = env.height;
    a.last_trade_timestamp = env.time.seconds();
}

/// Why a commit before the threshold fails, where it does.
pub open spec fn funding_error(store: PoolStore, env: Env, sender: Addr, amount: u128, usd: u128) -> Option<
    ContractError,
> {
    let record = committed(
        lookup(store.commit_info@, sender@),
        sender,
        store.pool_state.pool_contract_address,
        amount,
        usd,
        env.time,
    );
    if ledger_after(store, sender@, usd) is Err || store.usd_raised + usd > u128::MAX
        || store.native_raised + amount > u128::MAX || record is Err {
        Some(overflow(OverflowOperation::Add))
    } else {
        None
    }
}

/// The state after a commit before the threshold.
pub open spec fn funded(
    before: PoolStore,
    after: PoolStore,
    env: Env,
    sender: Addr,
    amount: u128,
    usd: u128,
) -> bool {
    &&& after == (PoolStore {
        commit_ledger: after.commit_ledger,
        commit_info: after.commit_info,
        usd_raised: (before.usd_raised + usd) as u128,
        native_raised: (before.native_raised + amount) as u128,
        analytics: one_commit(before.analytics),
        ..before
    })
    &&& after.commit_ledger@ == before.commit_ledger@.insert(
        sender@,
        ledger_after(before, sender@, usd)->Ok_0,
    )
    &&& after.commit_info@ == before.commit_info@.insert(
        sender@,
        committed(
            lookup(before.commit_info@, sender@),
            sender,
            before.pool_state.pool_contract_address,
            amount,
            usd,
            env.time,
        )->Ok_0,
    )
}

/// The attributes of a commit before the threshold.
pub open spec fn funding_attrs(
    after: PoolStore,
    env: Env,
    sender: Addr,
    amount: u128,
    usd: u128,
) -> Seq<Pair> {
    at_block(
        Seq::<Pair>::empty().push(("action"@, "commit"@)).push(("phase"@, "funding"@)).push(
            ("committer"@, sender@),
        ).push(("commit_amount_bluechip"@, digits(amount as nat))).push(
            ("commit_amount_usd"@, digits(usd as nat)),
        ).push(("total_usd_raised_after"@, digits(after.usd_raised as nat))).push(
            ("total_bluechip_raised_after"@, digits(after.native_raised as nat)),
        ).push(("total_commit_count"@, digits(after.analytics.total_commit_count as nat))).push(
            ("pool_contract"@, after.pool_state.pool_contract_address@),
        ),
        env,
    )
}

/// Books a commit before the threshold.
pub fn process_pre_threshold_commit(
    store: &mut PoolStore,
    env: &Env,
    sender: &Addr,
    amount: u128,
    usd_value: u128,
    messages: Vec<CosmosMsg>,
) -> (r: Result<Response, ContractError>)
    requires
        old(store).wf(),
        counters_ok(old(store).analytics),
    ensures
        final(store).wf(),
        match r {
            Err(e) => funding_error(*old(store), *env, *sender, amount, usd_value) == Some(e)
                && *final(store) == *old(store),
            Ok(resp) => {
                &&& funding_error(*old(store), *env, *sender, amount, usd_value) is None
                &&& funded(*old(store), *final(store), *env, *sender, amount, usd_value)
                &&& resp.messages == messages
                &&& resp.attrs() == funding_attrs(*final(store), *env, *sender, amount, usd_value)
            },
        },
{
    let entry: u128 = next_ledger_entry(store, sender, usd_value)?;
    let usd_raised: u128 = sum(store.usd_raised, usd_value)?;
    let native_raised: u128 = sum(store.native_raised, amount)?;
    let record = next_committing(
        store.commit_info.get(sender.as_str()),
        sender,
        &store.pool_state.pool_contract_address,
        amount,
        usd_value,
        env.time,
    )?;
    store.commit_ledger.insert(sender.clone(), entry);
    store.usd_raised = usd_raised;
    store.native_raised = native_raised;
    store.commit_info.insert(sender.clone(), record);
    store.analytics.total_commit_count = store.analytics.total_commit_count + 1;
    Ok(
        Response::with_messages(messages).attr("action", "commit").attr("phase", "funding").attr(
            "committer",
            sender.as_str(),
        ).attr_number("commit_amount_bluechip", amount).attr_number(
            "commit_amount_usd",
            usd_value,
        ).attr_number("total_usd_raised_after", usd_raised).attr_number(
            "total_bluechip_raised_after",
            native_raised,
        ).attr_number(
            "total_commit_count",
            store.analytics.total_commit_count as u128,
        ).attr("pool_contract", store.pool_state.pool_contract_address.as_str()).at_block(env),
    )
}

/// What a swap does to the pool, and what it comes to.
pub struct Trade {
    pub pool_state: PoolState,
    pub fee_state: PoolFeeState,
    pub return_amt: u128,
    pub spread_amt: u128,
    pub commission_amt: u128,
}

/// Both reserves after a swap that offers token `offer_index`.
pub open spec fn with_reserves(s: PoolState, offer_index: usize, offer: int, ask: int) -> PoolState {
    if offer_index == 0 {
        PoolState { reserve0: offer as u128, reserve1: ask as u128, ..s }
    } else {
        PoolState { reserve0: ask as u128, reserve1: offer as u128, ..s }
    }
}

/// The swap of a commit after the threshold: bluechips against creator tokens. A swap
/// that returns nothing is refused.
pub open spec fn commit_trade(
    store: PoolStore,
    env: Env,
    swap_amount: u128,
    belief_price: Option<Decimal>,
    max_spread: Option<Decimal>,
) -> Result<Trade, ContractError> {
    let s = store.pool_state;
    if store.paused {
        Err(ContractError::PoolPausedLowLiquidity {  })
    } else {
        match swap_outcome(
            s.reserve0 as int,
            s.reserve1 as int,
            swap_amount as int,
            store.pool_specs.lp_fee.atomics as int,
        ) {
            Err(e) => Err(ContractError::Std(e)),
            Ok((ret, spread, commission)) => if ret == 0 {
                Err(ContractError::ZeroAmount {  })
            } else if spread_check(
                belief_price,
                max_spread,
                swap_amount as int,
                ret as int,
                spread as int,
            ) is Err {
                Err(
                    spread_check(
                        belief_price,
                        max_spread,
                        swap_amount as int,
                        ret as int,
                        spread as int,
                    )->Err_0,
                )
            } else {
                match accumulated(s, env.time.seconds()) {
                    Err(e) => Err(e),
                    Ok(priced) => if s.reserve0 + swap_amount > u128::MAX {
                        Err(overflow(OverflowOperation::Add))
                    } else {
                        match fee_growth(store.fee_state, s.total_liquidity, 0, commission) {
                            Err(e) => Err(e),
                            Ok(fee_state) => Ok(
                                Trade {
                                    pool_state: with_reserves(
                                        priced,
                                        0,
                                        s.reserve0 + swap_amount,
                                        s.reserve1 - ret - commission,
                                    ),
                                    fee_state,
                                    return_amt: ret,
                                    spread_amt: spread,
                                    commission_amt: commission,
                                },
                            ),
                        }
                    },
                }
            },
        }
    }
}

/// Whether the swap of a commit after the threshold stays in range: there are bluechips
/// to price against, and the spread, the fees of one share and the price paid are numbers
/// in range.
pub open spec fn commit_trade_defined(
    store: PoolStore,
    swap_amount: u128,
    belief_price: Option<Decimal>,
    max_spread: Option<Decimal>,
) -> bool {
    let s = store.pool_state;
    store.paused || {
        &&& s.reserve0 > 0
        &&& swap_outcome(
            s.reserve0 as int,
            s.reserve1 as int,
            swap_amount as int,
            store.pool_specs.lp_fee.atomics as int,
        ) matches Ok((ret, spread, commission)) ==> ret == 0 || {
            &&& spread_check_defined(belief_price, swap_amount as int, ret as int, spread as int)
            &&& spread_check(
                belief_price,
                max_spread,
                swap_amount as int,
                ret as int,
                spread as int,
            ) is Ok ==> {
                &&& fee_growth_defined(s.total_liquidity, commission)
                &&& ratio_defined(ret as int, swap_amount as int)
            }
        }
    }
}

/// A swap pays out of the ask side: return and commission together are its gross return,
/// which the ask side covers.
pub proof fn lemma_swap_is_covered(offer_pool: int, ask_pool: int, amount: int, rate: int)
    requires
        0 < offer_pool,
        0 <= ask_pool <= u128::MAX,
        0 <= amount,
        0 <= rate,
    ensures
        swap_outcome(offer_pool, ask_pool, amount, rate) matches Ok((ret, spread, commission))
            ==> ret + commission == crate::pool::swap_helper::gross_return(
            offer_pool,
            ask_pool,
            amount,
        ) && ret + commission <= ask_pool,
{
    lemma_gross_return_bounds(offer_pool, ask_pool, amount);
    let gross = crate::pool::swap_helper::gross_return(offer_pool, ask_pool, amount);
    assert(gross * rate >= 0) by (nonlinear_arith)
        requires
            gross >= 0,
            rate >= 0,
    ;
    vstd::arithmetic::div_mod::lemma_div_pos_is_pos(gross * rate, ONE as int);
}

fn trade_commit(
    store: &PoolStore,
    env: &Env,
    swap_amount: u128,
    belief_price: Option<Decimal>,
    max_spread: Option<Decimal>,
) -> (r: Result<Trade, ContractError>)
    requires
        commit_trade_defined(*store, swap_amount, belief_price, max_spread),
    ensures
        r == commit_trade(*store, *env, swap_amount, belief_price, max_spread),
{
    if store.paused {
        return Err(ContractError::PoolPausedLowLiquidity {  });
    }
    let offer_pool: u128 = store.pool_state.reserve0;
    let ask_pool: u128 = store.pool_state.reserve1;
    let (return_amt, spread_amt, commission_amt): (u128, u128, u128) = in_pool(
        compute_swap(offer_pool, ask_pool, swap_amount, store.pool_specs.lp_fee),
    )?;
    proof {
        lemma_swap_is_covered(
            offer_pool as int,
            ask_pool as int,
            swap_amount as int,
            store.pool_specs.lp_fee.atomics as int,
        );
    }
    if return_amt == 0 {
        return Err(ContractError::ZeroAmount {  });
    }
    assert_max_spread(belief_price, max_spread, swap_amount, return_amt, spread_amt)?;
    let mut pool_state = store.pool_state.clone();
    update_price_accumulator(&mut pool_state, env.time.seconds())?;
    pool_state.reserve0 = sum(offer_pool, swap_amount)?;
    pool_state.reserve1 = ask_pool - return_amt - commission_amt;
    let mut fee_state = store.fee_state;
    update_pool_fee_growth(&mut fee_state, &pool_state, 0, commission_amt)?;
    Ok(Trade { pool_state, fee_state, return_amt, spread_amt, commission_amt })
}

/// The record of a commit after the threshold.
pub open spec fn active_record(
    store: PoolStore,
    env: Env,
    sender: Addr,
    amount: u128,
    usd: u128,
) -> Result<crate::pool::state::Committing, ContractError> {
    committed(
        lookup(store.commit_info@, sender@),
        sender,
        store.pool_state.pool_contract_address,
        amount,
        usd,
        env.time,
    )
}

/// The attributes of a commit after the threshold.
pub open spec fn active_attrs(
    after: PoolStore,
    trade: Trade,
    env: Env,
    sender: Addr,
    amount: u128,
    swap_amount: u128,
    usd: u128,
) -> Seq<Pair> {
    at_block(
        Seq::<Pair>::empty().push(("action"@, "commit"@)).push(("phase"@, "active"@)).push(
            ("committer"@, sender@),
        ).push(("commit_amount_bluechip"@, digits(amount as nat))).push(
            ("commit_amount_usd"@, digits(usd as nat)),
        ).push(("swap_amount_bluechip"@, digits(swap_amount as nat))).push(
            ("tokens_received"@, digits(trade.return_amt as nat)),
        ).push(("spread_amount"@, digits(trade.spread_amt as nat))).push(
            ("commission_amount"@, digits(trade.commission_amt as nat)),
        ).push(
            (
                "effective_price"@,
                decimal_text(
                    Decimal {
                        atomics: ratio(trade.return_amt as int, swap_amount as int) as u128,
                    },
                ),
            ),
        ).push(("reserve0_after"@, digits(trade.pool_state.reserve0 as nat))).push(
            ("reserve1_after"@, digits(trade.pool_state.reserve1 as nat)),
        ).push(("total_commit_count"@, digits(after.analytics.total_commit_count as nat))).push(
            ("pool_contract"@, after.pool_state.pool_contract_address@),
        ),
        env,
    )
}

/// Swaps a commit after the threshold for creator tokens.
pub fn process_post_threshold_commit(
    store: &mut PoolStore,
    env: &Env,
    sender: &Addr,
    amount: u128,
    swap_amount: u128,
    usd_value: u128,
    messages: Vec<CosmosMsg>,
    belief_price: Option<Decimal>,
    max_spread: Option<Decimal>,
) -> (r: Result<Response, ContractError>)
    requires
        old(store).wf(),
        counters_ok(old(store).analytics),
        commit_trade_defined(*old(store), swap_amount, belief_price, max_spread),
    ensures
        final(store).wf(),
        active_outcome(
            *old(store),
            *final(store),
            *env,
            *sender,
            amount,
            swap_amount,
            usd_value,
            messages@,
            belief_price,
            max_spread,
            r,
        ),
{
    let trade = trade_commit(store, env, swap_amount, belief_price, max_spread)?;
    let mut messages = messages;
    messages.push(
        CosmosMsg::Cw20Transfer {
            contract_addr: store.pool_info.token_address.clone(),
            recipient: sender.clone(),
            amount: trade.return_amt,
        },
    );
    let record = next_committing(
        store.commit_info.get(sender.as_str()),
        sender,
        &trade.pool_state.pool_contract_address,
        amount,
        usd_value,
        env.time,
    )?;
    store.fee_state = trade.fee_state;
    store.pool_state = trade.pool_state;
    store.commit_info.insert(sender.clone(), record);
    store.analytics.total_commit_count = store.analytics.total_commit_count + 1;
    count_swap(&mut store.analytics, swap_amount, trade.return_amt, env);
    let price = decimal_to_text(decimal_from_ratio(trade.return_amt, swap_amount));
    Ok(
        Response::with_messages(messages).attr("action", "commit").attr("phase", "active").attr(
            "committer",
            sender.as_str(),
        ).attr_number("commit_amount_bluechip", amount).attr_number(
            "commit_amount_usd",
            usd_value,
        ).attr_number("swap_amount_bluechip", swap_amount).attr_number(
            "tokens_received",
            trade.return_amt,
        ).attr_number("spread_amount", trade.spread_amt).attr_number(
            "commission_amount",
            trade.commission_amt,
        ).attr("effective_price", price.as_str()).attr_number(
            "reserve0_after",
            store.pool_state.reserve0,
        ).attr_number("reserve1_after", store.pool_state.reserve1).attr_number(
            "total_commit_count",
            store.analytics.total_commit_count as u128,
        ).attr("pool_contract", store.pool_state.pool_contract_address.as_str()).at_block(env),
    )
}

/// What a commit after the threshold does, and what it answers.
pub open spec fn active_outcome(
    before: PoolStore,
    after: PoolStore,
    env: Env,
    sender: Addr,
    amount: u128,
    swap_amount: u128,
    usd: u128,
    messages: Seq<CosmosMsg>,
    belief_price: Option<Decimal>,
    max_spread: Option<Decimal>,
    r: Result<Response, ContractError>,
) -> bool {
    match commit_trade(before, env, swap_amount, belief_price, max_spread) {
        Err(e) => r == Err::<Response, ContractError>(e) && after == before,
        Ok(trade) => match active_record(before, env, sender, amount, usd) {
            Err(e) => r == Err::<Response, ContractError>(e) && after == before,
            Ok(record) => {
                &&& after == (PoolStore {
                    pool_state: trade.pool_state,
                    fee_state: trade.fee_state,
                    commit_info: after.commit_info,
                    analytics: one_swap(
                        one_commit(before.analytics),
                        swap_amount,
                        trade.return_amt,
                        env,
                    ),
                    ..before
                })
                &&& after.commit_info@ == before.commit_info@.insert(sender@, record)
                &&& r matches Ok(resp)
                &&& resp.messages@ == messages.push(
                    CosmosMsg::Cw20Transfer {
                        contract_addr: before.pool_info.token_address,
                        recipient: sender,
                        amount: trade.return_amt,
                    },
                )
                &&& resp.attrs() == active_attrs(
                    after,
                    trade,
                    env,
                    sender,
                    amount,
                    swap_amount,
                    usd,
                )
            },
        },
    }
}

/// The first swap on a freshly seeded pool, by the commit that crossed the threshold.
pub struct ExcessTrade {
    pub trade: Trade,
    /// What is swapped: at most a fifth of the bluechip reserve.
    pub swapped: u128,
    /// What goes back to the committer.
    pub refunded: u128,
}

/// The spread that the first swap is allowed where the committer names none: 25%. It is
/// wider than elsewhere because a swap of a fifth of the reserve moves the price by up to
/// a fifth.
pub open spec fn excess_spread(max_spread: Option<Decimal>) -> Option<Decimal> {
    match max_spread {
        Some(d) => Some(d),
        None => Some(Decimal { atomics: 250_000_000_000_000_000 }),
    }
}

/// The part of an excess that is swapped at once.
pub open spec fn swapped_part(s: PoolState, excess: int) -> int {
    min(excess, s.reserve0 * 20 / 100)
}

/// What swapping comes to; nothing where a side is empty or nothing is swapped.
pub open spec fn excess_swap(s: PoolState, swapped: int, rate: int) -> Result<
    (u128, u128, u128),
    StdError,
> {
    if s.reserve0 == 0 || s.reserve1 == 0 || swapped == 0 {
        Ok((0, 0, 0))
    } else {
        swap_outcome(s.reserve0 as int, s.reserve1 as int, swapped, rate)
    }
}

/// The outcome of the spread check on the first swap; a swap of nothing needs none.
pub open spec fn excess_check(
    belief_price: Option<Decimal>,
    max_spread: Option<Decimal>,
    swapped: int,
    gross: int,
    spread: int,
) -> Result<(), ContractError> {
    if swapped == 0 {
        Ok(())
    } else {
        spread_check(belief_price, excess_spread(max_spread), swapped, gross, spread)
    }
}

/// The first swap on a freshly seeded pool.
pub open spec fn excess_trade(
    s: PoolState,
    fees: PoolFeeState,
    excess: int,
    rate: int,
    belief_price: Option<Decimal>,
    max_spread: Option<Decimal>,
    env: Env,
) -> Result<ExcessTrade, ContractError> {
    let swapped = swapped_part(s, excess);
    match excess_swap(s, swapped, rate) {
        Err(e) => Err(ContractError::Std(e)),
        Ok((ret, spread, commission)) => match excess_check(
            belief_price,
            max_spread,
            swapped,
            ret + commission,
            spread as int,
        ) {
            Err(e) => Err(e),
            Ok(_) => match accumulated(s, env.time.seconds()) {
                Err(e) => Err(e),
                Ok(priced) => if s.reserve0 + swapped > u128::MAX {
                    Err(overflow(OverflowOperation::Add))
                } else {
                    match fee_growth(fees, s.total_liquidity, 0, commission) {
                        Err(e) => Err(e),
                        Ok(fee_state) => Ok(
                            ExcessTrade {
                                trade: Trade {
                                    pool_state: with_reserves(
                                        priced,
                                        0,
                                        s.reserve0 + swapped,
                                        s.reserve1 - ret - commission,
                                    ),
                                    fee_state,
                                    return_amt: ret,
                                    spread_amt: spread,
                                    commission_amt: commission,
                                },
                                swapped: swapped as u128,
                                refunded: (excess - swapped) as u128,
                            },
                        ),
                    }
                },
            },
        },
    }
}

/// Whether the first swap stays in range.
pub open spec fn excess_trade_defined(
    s: PoolState,
    excess: int,
    rate: int,
    belief_price: Option<Decimal>,
    max_spread: Option<Decimal>,
) -> bool {
    let swapped = swapped_part(s, excess);
    excess_swap(s, swapped, rate) matches Ok((ret, spread, commission)) ==> {
        &&& swapped != 0 ==> spread_check_defined(
            belief_price,
            swapped,
            ret + commission,
            spread as int,
        )
        &&& excess_check(belief_price, max_spread, swapped, ret + commission, spread as int) is Ok
            ==> fee_growth_defined(s.total_liquidity, commission)
    }
}

fn trade_excess(
    seeded_state: &PoolState,
    seeded_fees: &PoolFeeState,
    excess: u128,
    lp_fee: Decimal,
    belief_price: Option<Decimal>,
    max_spread: Option<Decimal>,
    env: &Env,
) -> (r: Result<ExcessTrade, ContractError>)
    requires
        excess_trade_defined(
            *seeded_state,
            excess as int,
            lp_fee.atomics as int,
            belief_price,
            max_spread,
        ),
    ensures
        r == excess_trade(
            *seeded_state,
            *seeded_fees,
            excess as int,
            lp_fee.atomics as int,
            belief_price,
            max_spread,
            *env,
        ),
{
    let offer_pool: u128 = seeded_state.reserve0;
    let ask_pool: u128 = seeded_state.reserve1;
    let swapped: u128 = min_u128(excess, multiply_ratio(offer_pool, 20, 100));
    let (return_amt, spread_amt, commission_amt): (u128, u128, u128) = if ask_pool != 0
        && offer_pool != 0 && swapped != 0 {
        in_pool(compute_swap(offer_pool, ask_pool, swapped, lp_fee))?
    } else {
        (0, 0, 0)
    };
    proof {
        if ask_pool != 0 && offer_pool != 0 && swapped != 0 {
            lemma_swap_is_covered(
                offer_pool as int,
                ask_pool as int,
                swapped as int,
                lp_fee.atomics as int,
            );
        }
    }
    if swapped != 0 {
        let limit = match max_spread {
            Some(limit) => limit,
            None => Decimal::percent(25),
        };
        assert_max_spread(
            belief_price,
            Some(limit),
            swapped,
            return_amt + commission_amt,
            spread_amt,
        )?;
    }
    let mut pool_state = seeded_state.clone();
    update_price_accumulator(&mut pool_state, env.time.seconds())?;
    pool_state.reserve0 = sum(offer_pool, swapped)?;
    pool_state.reserve1 = ask_pool - return_amt - commission_amt;
    let mut fee_state = *seeded_fees;
    update_pool_fee_growth(&mut fee_state, &pool_state, 0, commission_amt)?;
    Ok(
        ExcessTrade {
            trade: Trade { pool_state, fee_state, return_amt, spread_amt, commission_amt },
            swapped,
            refunded: excess - swapped,
        },
    )
}

/// The part of a commit after fees that is beyond the threshold; all of it where nothing
/// was committed.
pub open spec fn beyond_threshold(amount: int, amount_after_fees: int, to_threshold: int) -> int {
    if amount == 0 {
        amount_after_fees
    } else {
        amount_after_fees - amount_after_fees * to_threshold / amount
    }
}

/// The part of a commit after fees that is beyond the threshold.
pub(crate) fn part_beyond_threshold(amount: u128, amount_after_fees: u128, to_threshold: u128) -> (r:
    u128)
    requires
        to_threshold <= amount,
    ensures
        r == beyond_threshold(amount as int, amount_after_fees as int, to_threshold as int),
{
    if amount == 0 {
        return amount_after_fees;
    }
    proof {
        lemma_part_of(amount_after_fees as int, to_threshold as int, amount as int);
    }
    amount_after_fees - multiply_ratio(amount_after_fees, to_threshold, amount)
}

/// What the swap of an excess comes to; nothing is traded where there is no excess.
pub open spec fn crossing_trade(
    store: PoolStore,
    env: Env,
    native_raised: u128,
    excess: int,
    belief_price: Option<Decimal>,
    max_spread: Option<Decimal>,
) -> Result<ExcessTrade, ContractError> {
    let s = seeded(
        store.pool_state,
        native_raised,
        store.commit_limits,
        store.threshold_payout,
        store.fee_info,
    );
    let fees = fees_restarted(store.fee_state);
    if excess == 0 {
        Ok(
            ExcessTrade {
                trade: Trade {
                    pool_state: s,
                    fee_state: fees,
                    return_amt: 0,
                    spread_amt: 0,
                    commission_amt: 0,
                },
                swapped: 0,
                refunded: 0,
            },
        )
    } else {
        excess_trade(
            s,
            fees,
            excess,
            store.pool_specs.lp_fee.atomics as int,
            belief_price,
            max_spread,
            env,
        )
    }
}

/// The messages that a swapped and refunded excess sends.
pub open spec fn crossing_msgs(store: PoolStore, sender: Addr, t: ExcessTrade) -> Result<
    Seq<CosmosMsg>,
    ContractError,
> {
    let none = Seq::<CosmosMsg>::empty();
    let tokens = if t.trade.return_amt == 0 {
        none
    } else {
        none.push(
            CosmosMsg::Cw20Transfer {
                contract_addr: store.pool_info.token_address,
                recipient: sender,
                amount: t.trade.return_amt,
            },
        )
    };
    if t.refunded == 0 {
        Ok(tokens)
    } else {
        match bluechip_denom(store.pool_info.pool_info.asset_infos) {
            Err(e) => Err(ContractError::Std(e)),
            Ok(denom) => Ok(
                tokens.push(
                    CosmosMsg::BankSend { to_address: sender, denom, amount: t.refunded },
                ),
            ),
        }
    }
}

/// The record of the committer who crossed the threshold: one payment up to the threshold,
/// and one for all that was committed beyond it. The record holds the whole commit, with what
/// goes back of it.
pub open spec fn crossing_record(
    store: PoolStore,
    env: Env,
    sender: Addr,
    to_threshold: u128,
    usd_to_threshold: u128,
    bluechip_excess: u128,
    usd_excess: u128,
    excess: int,
) -> Result<crate::pool::state::Committing, ContractError> {
    let first = committed(
        lookup(store.commit_info@, sender@),
        sender,
        store.pool_state.pool_contract_address,
        to_threshold,
        usd_to_threshold,
        env.time,
    );
    if excess == 0 || first is Err {
        first
    } else {
        committed(
            Some(first->Ok_0),
            sender,
            store.pool_state.pool_contract_address,
            bluechip_excess,
            usd_excess,
            env.time,
        )
    }
}

/// The counters after a crossing.
pub open spec fn crossing_analytics(a: PoolAnalytics, t: ExcessTrade, env: Env) -> PoolAnalytics {
    if t.swapped != 0 && t.trade.return_amt != 0 {
        one_swap(one_commit(a), t.swapped, t.trade.return_amt, env)
    } else {
        one_commit(a)
    }
}

/// The attributes of a crossing.
pub open spec fn crossing_attrs(
    after: PoolStore,
    t: ExcessTrade,
    env: Env,
    sender: Addr,
    amount: u128,
    to_threshold: u128,
    excess: int,
    usd_to_threshold: u128,
    usd_excess: u128,
) -> Seq<Pair> {
    at_block(
        Seq::<Pair>::empty().push(("action"@, "commit"@)).push(
            ("phase"@, "threshold_crossing"@),
        ).push(("committer"@, sender@)).push(
            ("total_amount_bluechip"@, digits(amount as nat)),
        ).push(("threshold_amount_bluechip"@, digits(to_threshold as nat))).push(
            ("swap_amount_bluechip"@, digits(t.swapped as nat)),
        ).push(("swap_amount_bluechip_pre_cap"@, digits(excess as nat))).push(
            ("threshold_amount_usd"@, digits(usd_to_threshold as nat)),
        ).push(("swap_amount_usd"@, digits(usd_excess as nat))).push(
            ("bluechip_excess_spread"@, digits(t.trade.spread_amt as nat)),
        ).push(("bluechip_excess_returned"@, digits(t.trade.return_amt as nat))).push(
            ("bluechip_excess_commission"@, digits(t.trade.commission_amt as nat)),
        ).push(("bluechip_excess_refunded"@, digits(t.refunded as nat))).push(
            ("reserve0_after"@, digits(after.pool_state.reserve0 as nat)),
        ).push(("reserve1_after"@, digits(after.pool_state.reserve1 as nat))).push(
            ("total_commit_count"@, digits(after.analytics.total_commit_count as nat)),
        ).push(("pool_contract"@, after.pool_state.pool_contract_address@)),
        env,
    )
}

/// What a commit that crosses the threshold with an excess does, and what it answers.
pub open spec fn crossing_outcome(
    before: PoolStore,
    after: PoolStore,
    env: Env,
    sender: Addr,
    amount: u128,
    amount_after_fees: u128,
    usd: u128,
    usd_to_threshold: u128,
    to_threshold: Result<u128, StdError>,
    messages: Seq<CosmosMsg>,
    belief_price: Option<Decimal>,
    max_spread: Option<Decimal>,
    r: Result<Response, ContractError>,
) -> bool {
    let b2t = to_threshold->Ok_0;
    let excess = beyond_threshold(amount as int, amount_after_fees as int, b2t as int);
    let native_raised = (before.native_raised + b2t) as u128;
    let bluechip_excess = (amount - b2t) as u128;
    let usd_excess = (usd - usd_to_threshold) as u128;
    let trade = crossing_trade(before, env, native_raised, excess, belief_price, max_spread);
    let record = crossing_record(
        before,
        env,
        sender,
        b2t,
        usd_to_threshold,
        bluechip_excess,
        usd_excess,
        excess,
    );
    let failed = |e: ContractError| r == Err::<Response, ContractError>(e) && after == before;
    if to_threshold is Err {
        failed(ContractError::Std(to_threshold->Err_0))
    } else if b2t > amount || usd_to_threshold > usd {
        failed(overflow(OverflowOperation::Sub))
    } else if ledger_after(before, sender@, usd_to_threshold) is Err || before.native_raised + b2t
        > u128::MAX {
        failed(overflow(OverflowOperation::Add))
    } else if payout_error(
        native_raised,
        before.commit_limits,
        before.threshold_payout,
        before.fee_info,
    ) is Some {
        failed(
            ContractError::Std(
                payout_error(
                    native_raised,
                    before.commit_limits,
                    before.threshold_payout,
                    before.fee_info,
                )->Some_0,
            ),
        )
    } else if crossing_record(
        before,
        env,
        sender,
        b2t,
        usd_to_threshold,
        bluechip_excess,
        usd_excess,
        0,
    ) is Err {
        failed(overflow(OverflowOperation::Add))
    } else if trade is Err {
        failed(trade->Err_0)
    } else if crossing_msgs(before, sender, trade->Ok_0) is Err {
        failed(crossing_msgs(before, sender, trade->Ok_0)->Err_0)
    } else if record is Err {
        failed(record->Err_0)
    } else {
        &&& after == (PoolStore {
            commit_ledger: after.commit_ledger,
            commit_info: after.commit_info,
            usd_raised: before.commit_limits.commit_amount_for_threshold_usd,
            native_raised,
            threshold_hit: true,
            threshold_processing: false,
            last_threshold_attempt: Some(env.time),
            distribution: Some(
                new_distribution(before.threshold_payout, before.commit_limits, env),
            ),
            creator_excess: excess_after(before, native_raised, env),
            pool_state: trade->Ok_0.trade.pool_state,
            fee_state: trade->Ok_0.trade.fee_state,
            analytics: crossing_analytics(before.analytics, trade->Ok_0, env),
            ..before
        })
        &&& after.commit_ledger@ == before.commit_ledger@.insert(
            sender@,
            ledger_after(before, sender@, usd_to_threshold)->Ok_0,
        )
        &&& after.commit_info@ == before.commit_info@.insert(sender@, record->Ok_0)
        &&& r matches Ok(resp)
        &&& resp.messages@ == messages + payout_msgs(
            before.pool_info,
            before.threshold_payout,
            before.fee_info,
            env,
        ) + crossing_msgs(before, sender, trade->Ok_0)->Ok_0
        &&& resp.attrs() == crossing_attrs(
            after,
            trade->Ok_0,
            env,
            sender,
            amount,
            b2t,
            excess,
            usd_to_threshold,
            usd_excess,
        )
    }
}

/// What is locked for the creator after a payout: a new excess, or what was there.
pub open spec fn excess_after(store: PoolStore, native_raised: u128, env: Env) -> Option<
    crate::pool::state::CreatorExcessLiquidity,
> {
    match new_excess(
        native_raised,
        store.commit_limits,
        store.threshold_payout,
        store.fee_info,
        env,
    ) {
        Some(excess) => Some(excess),
        None => store.creator_excess,
    }
}

/// Whether a crossing with an excess stays in range.
pub open spec fn crossing_defined(
    store: PoolStore,
    env: Env,
    amount: u128,
    amount_after_fees: u128,
    to_threshold: Result<u128, StdError>,
    belief_price: Option<Decimal>,
    max_spread: Option<Decimal>,
) -> bool {
    let b2t = to_threshold->Ok_0;
    let excess = beyond_threshold(amount as int, amount_after_fees as int, b2t as int);
    let native_raised = (store.native_raised + b2t) as u128;
    to_threshold is Ok && b2t <= amount && store.native_raised + b2t <= u128::MAX ==> {
        &&& payout_defined(
            native_raised,
            store.commit_limits,
            store.threshold_payout,
            store.fee_info,
            env,
        )
        &&& payout_error(
            native_raised,
            store.commit_limits,
            store.threshold_payout,
            store.fee_info,
        ) is None && excess > 0 ==> excess_trade_defined(
            seeded(
                store.pool_state,
                native_raised,
                store.commit_limits,
                store.threshold_payout,
                store.fee_info,
            ),
            excess,
            store.pool_specs.lp_fee.atomics as int,
            belief_price,
            max_spread,
        )
    }
}

/// Books a commit that crosses the threshold: the part up to it funds the pool, which is
/// seeded and opened, and the rest is swapped as far as a fifth of the reserve allows.
/// `to_threshold` is the price, in bluechips, of the dollars up to the threshold.
pub fn process_threshold_crossing_with_excess(
    store: &mut PoolStore,
    env: &Env,
    sender: &Addr,
    amount: u128,
    amount_after_fees: u128,
    usd_value: u128,
    usd_to_threshold: u128,
    to_threshold: Result<u128, StdError>,
    messages: Vec<CosmosMsg>,
    belief_price: Option<Decimal>,
    max_spread: Option<Decimal>,
) -> (r: Result<Response, ContractError>)
    requires
        old(store).wf(),
        counters_ok(old(store).analytics),
        crossing_defined(
            *old(store),
            *env,
            amount,
            amount_after_fees,
            to_threshold,
            belief_price,
            max_spread,
        ),
    ensures
        final(store).wf(),
        crossing_outcome(
            *old(store),
            *final(store),
            *env,
            *sender,
            amount,
            amount_after_fees,
            usd_value,
            usd_to_threshold,
            to_threshold,
            messages@,
            belief_price,
            max_spread,
            r,
        ),
{
    let b2t: u128 = in_pool(to_threshold)?;
    let bluechip_excess: u128 = difference(amount, b2t)?;
    let excess: u128 = part_beyond_threshold(amount, amount_after_fees, b2t);
    let usd_excess: u128 = difference(usd_value, usd_to_threshold)?;
    let entry: u128 = next_ledger_entry(store, sender, usd_to_threshold)?;
    let native_raised: u128 = sum(store.native_raised, b2t)?;
    let payout = in_pool(
        trigger_threshold_payout(
            true,
            native_raised,
            &store.pool_info,
            &store.pool_state,
            &store.fee_state,
            &store.commit_limits,
            &store.threshold_payout,
            &store.fee_info,
            env,
        ),
    )?;
    let mut record = next_committing(
        store.commit_info.get(sender.as_str()),
        sender,
        &store.pool_state.pool_contract_address,
        b2t,
        usd_to_threshold,
        env.time,
    )?;
    let ThresholdPayout {
        messages: payout_messages,
        distribution,
        excess: locked,
        pool_state: seeded_state,
        fee_state: seeded_fees,
    } = payout;
    let mut messages = messages;
    let mut payout_messages = payout_messages;
    messages.append(&mut payout_messages);
    let ghost paid_out = messages@;
    let t = if excess > 0 {
        let t = trade_excess(
            &seeded_state,
            &seeded_fees,
            excess,
            store.pool_specs.lp_fee,
            belief_price,
            max_spread,
            env,
        )?;
        if t.trade.return_amt != 0 {
            messages.push(
                CosmosMsg::Cw20Transfer {
                    contract_addr: store.pool_info.token_address.clone(),
                    recipient: sender.clone(),
                    amount: t.trade.return_amt,
                },
            );
        }
        if t.refunded != 0 {
            let denom = in_pool(get_bluechip_denom(&store.pool_info.pool_info.asset_infos))?;
            messages.push(get_bank_transfer_to_msg(sender, &denom, t.refunded));
        }
        let next = next_committing(
            Some(&record),
            sender,
            &store.pool_state.pool_contract_address,
            bluechip_excess,
            usd_excess,
            env.time,
        )?;
        record = next;
        t
    } else {
        ExcessTrade {
            trade: Trade {
                pool_state: seeded_state,
                fee_state: seeded_fees,
                return_amt: 0,
                spread_amt: 0,
                commission_amt: 0,
            },
            swapped: 0,
            refunded: 0,
        }
    };
    proof {
        let tail = crossing_msgs(*old(store), *sender, t)->Ok_0;
        assert(messages@ =~= paid_out + tail);
    }
    store.commit_ledger.insert(sender.clone(), entry);
    store.commit_info.insert(sender.clone(), record);
    store.usd_raised = store.commit_limits.commit_amount_for_threshold_usd;
    store.native_raised = native_raised;
    store.threshold_hit = true;
    store.threshold_processing = false;
    store.last_threshold_attempt = Some(env.time);
    store.distribution = distribution;
    if let Some(locked) = locked {
        store.creator_excess = Some(locked);
    }
    store.pool_state = t.trade.pool_state;
    store.fee_state = t.trade.fee_state;
    store.analytics.total_commit_count = store.analytics.total_commit_count + 1;
    if t.swapped != 0 && t.trade.return_amt != 0 {
        count_swap(&mut store.analytics, t.swapped, t.trade.return_amt, env);
    }
    Ok(
        Response::with_messages(messages).attr("action", "commit").attr(
            "phase",
            "threshold_crossing",
        ).attr("committer", sender.as_str()).attr_number(
            "total_amount_bluechip",
            amount,
        ).attr_number("threshold_amount_bluechip", b2t).attr_number(
            "swap_amount_bluechip",
            t.swapped,
        ).attr_number("swap_amount_bluechip_pre_cap", excess).attr_number(
            "threshold_amount_usd",
            usd_to_threshold,
        ).attr_number("swap_amount_usd", usd_excess).attr_number(
            "bluechip_excess_spread",
            t.trade.spread_amt,
        ).attr_number("bluechip_excess_returned", t.trade.return_amt).attr_number(
            "bluechip_excess_commission",
            t.trade.commission_amt,
        ).attr_number("bluechip_excess_refunded", t.refunded).attr_number(
            "reserve0_after",
            store.pool_state.reserve0,
        ).attr_number("reserve1_after", store.pool_state.reserve1).attr_number(
            "total_commit_count",
            store.analytics.total_commit_count as u128,
        ).attr("pool_contract", store.pool_state.pool_contract_address.as_str()).at_block(env),
    )
}

/// What a commit that meets the threshold without an excess does, and what it answers.
pub open spec fn exact_outcome(
    before: PoolStore,
    after: PoolStore,
    env: Env,
    sender: Addr,
    amount: u128,
    usd: u128,
    messages: Seq<CosmosMsg>,
    r: Result<Response, ContractError>,
) -> bool {
    let native_raised = (before.native_raised + amount) as u128;
    let error = payout_error(
        native_raised,
        before.commit_limits,
        before.threshold_payout,
        before.fee_info,
    );
    let record = active_record(before, env, sender, amount, usd);
    let failed = |e: ContractError| r == Err::<Response, ContractError>(e) && after == before;
    if ledger_after(before, sender@, usd) is Err || before.native_raised + amount > u128::MAX {
        failed(overflow(OverflowOperation::Add))
    } else if error is Some {
        failed(ContractError::Std(error->Some_0))
    } else if record is Err {
        failed(record->Err_0)
    } else {
        &&& after == (PoolStore {
            commit_ledger: after.commit_ledger,
            commit_info: after.commit_info,
            usd_raised: min(
                before.usd_raised + usd,
                before.commit_limits.commit_amount_for_threshold_usd as int,
            ) as u128,
            native_raised,
            threshold_hit: true,
            threshold_processing: false,
            last_threshold_attempt: Some(env.time),
            distribution: Some(
                new_distribution(before.threshold_payout, before.commit_limits, env),
            ),
            creator_excess: excess_after(before, native_raised, env),
            pool_state: seeded(
                before.pool_state,
                native_raised,
                before.commit_limits,
                before.threshold_payout,
                before.fee_info,
            ),
            fee_state: fees_restarted(before.fee_state),
            analytics: one_commit(before.analytics),
            ..before
        })
        &&& after.commit_ledger@ == before.commit_ledger@.insert(
            sender@,
            ledger_after(before, sender@, usd)->Ok_0,
        )
        &&& after.commit_info@ == before.commit_info@.insert(sender@, record->Ok_0)
        &&& r matches Ok(resp)
        &&& resp.messages@ == messages + payout_msgs(
            before.pool_info,
            before.threshold_payout,
            before.fee_info,
            env,
        )
        &&& resp.attrs() == at_block(
            Seq::<Pair>::empty().push(("action"@, "commit"@)).push(
                ("phase"@, "threshold_hit_exact"@),
            ).push(("committer"@, sender@)).push(
                ("commit_amount_bluechip"@, digits(amount as nat)),
            ).push(("commit_amount_usd"@, digits(usd as nat))).push(
                ("total_usd_raised_after"@, digits((before.usd_raised + usd) as nat)),
            ).push(("total_commit_count"@, digits(after.analytics.total_commit_count as nat))).push(
                ("pool_contract"@, after.pool_state.pool_contract_address@),
            ),
            env,
        )
    }
}

/// Books a commit that meets the threshold without an excess.
fn process_exact_threshold_commit(
    store: &mut PoolStore,
    env: &Env,
    sender: &Addr,
    amount: u128,
    usd_value: u128,
    messages: Vec<CosmosMsg>,
) -> (r: Result<Response, ContractError>)
    requires
        old(store).wf(),
        counters_ok(old(store).analytics),
        old(store).usd_raised + usd_value <= u128::MAX,
        old(store).native_raised + amount <= u128::MAX ==> payout_defined(
            (old(store).native_raised + amount) as u128,
            old(store).commit_limits,
            old(store).threshold_payout,
            old(store).fee_info,
            *env,
        ),
    ensures
        final(store).wf(),
        exact_outcome(
            *old(store),
            *final(store),
            *env,
            *sender,
            amount,
            usd_value,
            messages@,
            r,
        ),
{
    let entry: u128 = next_ledger_entry(store, sender, usd_value)?;
    let new_total: u128 = store.usd_raised + usd_value;
    let native_raised: u128 = sum(store.native_raised, amount)?;
    let payout = in_pool(
        trigger_threshold_payout(
            true,
            native_raised,
            &store.pool_info,
            &store.pool_state,
            &store.fee_state,
            &store.commit_limits,
            &store.threshold_payout,
            &store.fee_info,
            env,
        ),
    )?;
    let record = next_committing(
        store.commit_info.get(sender.as_str()),
        sender,
        &store.pool_state.pool_contract_address,
        amount,
        usd_value,
        env.time,
    )?;
    let ThresholdPayout {
        messages: payout_messages,
        distribution,
        excess: locked,
        pool_state: seeded_state,
        fee_state: seeded_fees,
    } = payout;
    let mut messages = messages;
    let mut payout_messages = payout_messages;
    messages.append(&mut payout_messages);
    store.commit_ledger.insert(sender.clone(), entry);
    store.commit_info.insert(sender.clone(), record);
    store.usd_raised = min_u128(new_total, store.commit_limits.commit_amount_for_threshold_usd);
    store.native_raised = native_raised;
    store.threshold_hit = true;
    store.threshold_processing = false;
    store.last_threshold_attempt = Some(env.time);
    store.distribution = distribution;
    if let Some(locked) = locked {
        store.creator_excess = Some(locked);
    }
    store.pool_state = seeded_state;
    store.fee_state = seeded_fees;
    store.analytics.total_commit_count = store.analytics.total_commit_count + 1;
    Ok(
        Response::with_messages(messages).attr("action", "commit").attr(
            "phase",
            "threshold_hit_exact",
        ).attr("committer", sender.as_str()).attr_number(
            "commit_amount_bluechip",
            amount,
        ).attr_number("commit_amount_usd", usd_value).attr_number(
            "total_usd_raised_after",
            new_total,
        ).attr_number(
            "total_commit_count",
            store.analytics.total_commit_count as u128,
        ).attr("pool_contract", store.pool_state.pool_contract_address.as_str()).at_block(env),
    )
}

/// What the factory's oracle answered.
#[derive(Debug)]
pub struct Quotes {
    /// The dollars that the committed bluechips are worth.
    pub usd_value: Result<u128, StdError>,
    /// The bluechips that the dollars up to the threshold cost.
    pub to_threshold: Result<u128, StdError>,
}

/// The dollars that are missing up to the threshold.
pub open spec fn missing_usd(store: PoolStore) -> u128 {
    minus_or_zero(
        store.commit_limits.commit_amount_for_threshold_usd as int,
        store.usd_raised as int,
    ) as u128
}

/// The dollars that are missing up to the threshold.
pub fn usd_to_threshold(store: &PoolStore) -> (r: u128)
    ensures
        r == missing_usd(*store),
{
    store.commit_limits.commit_amount_for_threshold_usd.saturating_sub(store.usd_raised)
}

/// The first coin of a denomination, from position `from` on.
pub open spec fn sent_amount(funds: Seq<Coin>, denom: Seq<char>, from: int) -> u128
    decreases funds.len() - from,
{
    if from >= funds.len() || from < 0 {
        0
    } else if funds[from].denom@ == denom {
        funds[from].amount
    } else {
        sent_amount(funds, denom, from + 1)
    }
}

fn find_sent(funds: &Vec<Coin>, denom: &String) -> (r: u128)
    ensures
        r == sent_amount(funds@, denom@, 0),
{
    let mut i: usize = 0;
    while i < funds.len()
        invariant
            i <= funds@.len(),
            sent_amount(funds@, denom@, 0) == sent_amount(funds@, denom@, i as int),
        decreases funds@.len() - i,
    {
        if funds[i].denom == *denom {
            return funds[i].amount;
        }
        i += 1;
    }
    0
}

/// A commit that has been checked: its dollars, its fees and what is left after them.
pub struct CheckedCommit {
    pub usd_value: u128,
    pub denom: String,
    pub bluechip_fee: u128,
    pub creator_fee: u128,
    pub amount_after_fees: u128,
}

/// Whether a commit is in order: an asset of the pool, worth a dollar at least, in
/// bluechips that came with the call, and not eaten up by the fees.
pub open spec fn checked_commit(
    store: PoolStore,
    info: MessageInfo,
    asset: TokenInfo,
    usd_value: Result<u128, StdError>,
) -> Result<CheckedCommit, ContractError> {
    let infos = store.pool_info.pool_info.asset_infos;
    let fees = commit_fees(asset.amount, store.fee_info);
    let (bluechip_fee, creator_fee) = fees->Ok_0;
    if !asset.info.same(infos[0]) && !asset.info.same(infos[1]) {
        Err(ContractError::AssetMismatch {  })
    } else if asset.amount == 0 {
        Err(ContractError::ZeroAmount {  })
    } else if usd_value is Err {
        Err(ContractError::Std(usd_value->Err_0))
    } else if usd_value->Ok_0 == 0 {
        Err(ContractError::InvalidOraclePrice {  })
    } else if usd_value->Ok_0 < MIN_COMMIT_USD {
        Err(ContractError::Std(StdError::CommitTooSmall { usd_value: usd_value->Ok_0 }))
    } else if bluechip_denom(infos) is Err {
        Err(ContractError::Std(bluechip_denom(infos)->Err_0))
    } else {
        match asset.info {
            TokenType::Bluechip { denom } => if denom@ != bluechip_denom(infos)->Ok_0@ {
                Err(ContractError::AssetMismatch {  })
            } else if sent_amount(info.funds@, denom@, 0) < asset.amount {
                Err(ContractError::MismatchAmount {  })
            } else if fees is Err {
                Err(fees->Err_0)
            } else if bluechip_fee + creator_fee > u128::MAX {
                Err(overflow(OverflowOperation::Add))
            } else if bluechip_fee + creator_fee >= asset.amount {
                Err(ContractError::InvalidFee {  })
            } else {
                Ok(
                    CheckedCommit {
                        usd_value: usd_value->Ok_0,
                        denom,
                        bluechip_fee,
                        creator_fee,
                        amount_after_fees: (asset.amount - bluechip_fee - creator_fee) as u128,
                    },
                )
            },
            TokenType::CreatorToken { .. } => Err(ContractError::AssetMismatch {  }),
        }
    }
}

pub(crate) fn check_commit(
    store: &PoolStore,
    info: &MessageInfo,
    asset: &TokenInfo,
    usd_value: Result<u128, StdError>,
) -> (r: Result<CheckedCommit, ContractError>)
    ensures
        r == checked_commit(*store, *info, *asset, usd_value),
{
    if !asset.info.equal(&store.pool_info.pool_info.asset_infos[0]) && !asset.info.equal(
        &store.pool_info.pool_info.asset_infos[1],
    ) {
        return Err(ContractError::AssetMismatch {  });
    }
    if asset.amount == 0 {
        return Err(ContractError::ZeroAmount {  });
    }
    let usd_value: u128 = in_pool(usd_value)?;
    if usd_value == 0 {
        return Err(ContractError::InvalidOraclePrice {  });
    }
    if usd_value < MIN_COMMIT_USD {
        return Err(ContractError::Std(StdError::CommitTooSmall { usd_value }));
    }
    let native = in_pool(get_bluechip_denom(&store.pool_info.pool_info.asset_infos))?;
    match &asset.info {
        TokenType::Bluechip { denom } => {
            if *denom != native {
                return Err(ContractError::AssetMismatch {  });
            }
            if find_sent(&info.funds, denom) < asset.amount {
                return Err(ContractError::MismatchAmount {  });
            }
            let (bluechip_fee, creator_fee): (u128, u128) = calculate_commit_fees(
                asset.amount,
                &store.fee_info,
            )?;
            let total_fees: u128 = sum(bluechip_fee, creator_fee)?;
            if total_fees >= asset.amount {
                return Err(ContractError::InvalidFee {  });
            }
            Ok(
                CheckedCommit {
                    usd_value,
                    denom: denom.clone(),
                    bluechip_fee,
                    creator_fee,
                    amount_after_fees: asset.amount - total_fees,
                },
            )
        },
        TokenType::CreatorToken { .. } => Err(ContractError::AssetMismatch {  }),
    }
}

/// How a commit is booked.
pub enum Phase {
    /// Before the threshold. The flag says whether it would have crossed it, had not
    /// another crossing been under way.
    Funding { held_back: bool },
    /// It meets the threshold.
    Exact,
    /// It crosses the threshold with an excess.
    Crossing,
    /// After the threshold.
    Active,
}

/// How a commit of `usd` dollars is booked.
pub open spec fn phase_of(store: PoolStore, usd: u128) -> Result<Phase, ContractError> {
    if store.threshold_hit {
        Ok(Phase::Active)
    } else if store.usd_raised + usd > u128::MAX {
        Err(overflow(OverflowOperation::Add))
    } else if store.usd_raised + usd < store.commit_limits.commit_amount_for_threshold_usd {
        Ok(Phase::Funding { held_back: false })
    } else if store.threshold_processing {
        Ok(Phase::Funding { held_back: true })
    } else if usd > missing_usd(store) && missing_usd(store) > 0 {
        Ok(Phase::Crossing)
    } else {
        Ok(Phase::Exact)
    }
}

pub(crate) fn choose_phase(store: &PoolStore, usd: u128) -> (r: Result<Phase, ContractError>)
    ensures
        r == phase_of(*store, usd),
{
    if store.threshold_hit {
        return Ok(Phase::Active);
    }
    let new_total: u128 = sum(store.usd_raised, usd)?;
    if new_total < store.commit_limits.commit_amount_for_threshold_usd {
        return Ok(Phase::Funding { held_back: false });
    }
    if store.threshold_processing {
        return Ok(Phase::Funding { held_back: true });
    }
    let missing: u128 = usd_to_threshold(store);
    if usd > missing && missing > 0 {
        Ok(Phase::Crossing)
    } else {
        Ok(Phase::Exact)
    }
}

/// Whether a commit stays in range, whichever way it is booked.
pub open spec fn commit_defined(
    store: PoolStore,
    env: Env,
    info: MessageInfo,
    asset: TokenInfo,
    belief_price: Option<Decimal>,
    max_spread: Option<Decimal>,
    quotes: Quotes,
) -> bool {
    checked_commit(store, info, asset, quotes.usd_value) matches Ok(c) ==> (phase_of(
        store,
        c.usd_value,
    ) matches Ok(phase) ==> match phase {
        Phase::Active => commit_trade_defined(
            store,
            c.amount_after_fees,
            belief_price,
            max_spread,
        ),
        Phase::Crossing => crossing_defined(
            store,
            env,
            asset.amount,
            c.amount_after_fees,
            quotes.to_threshold,
            belief_price,
            max_spread,
        ),
        Phase::Exact => store.native_raised + asset.amount <= u128::MAX ==> payout_defined(
            (store.native_raised + asset.amount) as u128,
            store.commit_limits,
            store.threshold_payout,
            store.fee_info,
            env,
        ),
        Phase::Funding { .. } => true,
    })
}

/// What a commit does, and what it answers.
pub open spec fn commit_outcome(
    before: PoolStore,
    after: PoolStore,
    env: Env,
    info: MessageInfo,
    asset: TokenInfo,
    belief_price: Option<Decimal>,
    max_spread: Option<Decimal>,
    quotes: Quotes,
    r: Result<Response, ContractError>,
) -> bool {
    let sender = info.sender;
    let amount = asset.amount;
    match checked_commit(before, info, asset, quotes.usd_value) {
        Err(e) => r == Err::<Response, ContractError>(e) && after == before,
        Ok(c) => {
            let usd = c.usd_value;
            let messages = fee_msgs(before.fee_info, c.denom, c.bluechip_fee, c.creator_fee);
            match phase_of(before, usd) {
                Err(e) => r == Err::<Response, ContractError>(e) && after == before,
                Ok(Phase::Active) => active_outcome(
                    before,
                    after,
                    env,
                    sender,
                    amount,
                    c.amount_after_fees,
                    usd,
                    messages,
                    belief_price,
                    max_spread,
                    r,
                ),
                Ok(Phase::Crossing) => crossing_outcome(
                    before,
                    after,
                    env,
                    sender,
                    amount,
                    c.amount_after_fees,
                    usd,
                    missing_usd(before),
                    quotes.to_threshold,
                    messages,
                    belief_price,
                    max_spread,
                    r,
                ),
                Ok(Phase::Exact) => exact_outcome(
                    before,
                    after,
                    env,
                    sender,
                    amount,
                    usd,
                    messages,
                    r,
                ),
                Ok(Phase::Funding { held_back }) => {
                    let noted = if held_back {
                        PoolStore { last_threshold_attempt: Some(env.time), ..before }
                    } else {
                        before
                    };
                    match funding_error(before, env, sender, amount, usd) {
                        Some(e) => r == Err::<Response, ContractError>(e) && after == before,
                        None => {
                            &&& funded(noted, after, env, sender, amount, usd)
                            &&& r matches Ok(resp)
                            &&& resp.messages@ == messages
                            &&& resp.attrs() == funding_attrs(after, env, sender, amount, usd)
                        },
                    }
                },
            }
        },
    }
}

/// Books a commit: before, at or after the threshold. A commit that is refused leaves
/// everything as it was.
pub fn execute_commit_logic(
    store: &mut PoolStore,
    env: &Env,
    info: &MessageInfo,
    asset: &TokenInfo,
    belief_price: Option<Decimal>,
    max_spread: Option<Decimal>,
    quotes: Quotes,
) -> (r: Result<Response, ContractError>)
    requires
        old(store).wf(),
        counters_ok(old(store).analytics),
        commit_defined(*old(store), *env, *info, *asset, belief_price, max_spread, quotes),
    ensures
        final(store).wf(),
        commit_outcome(
            *old(store),
            *final(store),
            *env,
            *info,
            *asset,
            belief_price,
            max_spread,
            quotes,
            r,
        ),
{
    let Quotes { usd_value, to_threshold } = quotes;
    let c = check_commit(store, info, asset, usd_value)?;
    let messages = build_fee_messages(&store.fee_info, &c.denom, c.bluechip_fee, c.creator_fee);
    match choose_phase(store, c.usd_value)? {
        Phase::Active => process_post_threshold_commit(
            store,
            env,
            &info.sender,
            asset.amount,
            c.amount_after_fees,
            c.usd_value,
            messages,
            belief_price,
            max_spread,
        ),
        Phase::Crossing => {
            let missing: u128 = usd_to_threshold(store);
            process_threshold_crossing_with_excess(
                store,
                env,
                &info.sender,
                asset.amount,
                c.amount_after_fees,
                c.usd_value,
                missing,
                to_threshold,
                messages,
                belief_price,
                max_spread,
            )
        },
        Phase::Exact => process_exact_threshold_commit(
            store,
            env,
            &info.sender,
            asset.amount,
            c.usd_value,
            messages,
        ),
        Phase::Funding { held_back } => {
            let response = process_pre_threshold_commit(
                store,
                env,
                &info.sender,
                asset.amount,
                c.usd_value,
                messages,
            )?;
            if held_back {
                store.last_threshold_attempt = Some(env.time);
            }
            Ok(response)
        },
    }
}

/// Why a call that trades is turned away before it is looked at, where it is: its deadline
/// has passed, another one is under way, or its sender was here a moment ago.
pub open spec fn turned_away(
    store: PoolStore,
    env: Env,
    sender: Seq<char>,
    deadline: Option<Timestamp>,
) -> Option<ContractError> {
    let wait = wait_time(
        store.user_last_commit@,
        env.time.seconds(),
        store.pool_specs.min_commit_interval,
        sender,
    );
    if in_time(env.time, deadline) is Err {
        Some(in_time(env.time, deadline)->Err_0)
    } else if store.reentrancy_lock {
        Some(ContractError::ReentrancyGuard {  })
    } else if wait is Some {
        Some(ContractError::TooFrequentCommits { wait_time: wait->Some_0 })
    } else {
        None
    }
}

/// The state while a call that trades runs: the lock is taken and its sender noted in
/// `last_commits`.
pub open spec fn entered(before: PoolStore, last_commits: Table<u64>) -> PoolStore {
    PoolStore { reentrancy_lock: true, user_last_commit: last_commits, ..before }
}

/// Whether a call that trades was entered, and left with the lock free.
pub open spec fn entered_and_left(
    before: PoolStore,
    after: PoolStore,
    env: Env,
    sender: Seq<char>,
) -> bool {
    &&& !after.reentrancy_lock
    &&& after.user_last_commit@ == before.user_last_commit@.insert(sender, env.time.seconds())
}

/// What a commit does that is guarded by its deadline, the lock and the rate limit.
pub open spec fn guarded_commit_outcome(
    before: PoolStore,
    after: PoolStore,
    env: Env,
    info: MessageInfo,
    asset: TokenInfo,
    deadline: Option<Timestamp>,
    belief_price: Option<Decimal>,
    max_spread: Option<Decimal>,
    quotes: Quotes,
    r: Result<Response, ContractError>,
) -> bool {
    if before.drained {
        r == Err::<Response, ContractError>(ContractError::EmergencyDrained {  }) && after
            == before
    } else {
        match turned_away(before, env, info.sender@, deadline) {
            Some(e) => r == Err::<Response, ContractError>(e) && after == before,
            None => {
                &&& entered_and_left(before, after, env, info.sender@)
                &&& commit_outcome(
                    entered(before, after.user_last_commit),
                    PoolStore { reentrancy_lock: true, ..after },
                    env,
                    info,
                    asset,
                    belief_price,
                    max_spread,
                    quotes,
                    r,
                )
            },
        }
    }
}

/// Commits bluechips. The sender of a commit that is refused once it has been looked at
/// stays noted; whoever calls discards all changes of a refused call.
pub fn commit(
    store: &mut PoolStore,
    env: &Env,
    info: &MessageInfo,
    asset: &TokenInfo,
    transaction_deadline: Option<Timestamp>,
    belief_price: Option<Decimal>,
    max_spread: Option<Decimal>,
    quotes: Quotes,
) -> (r: Result<Response, ContractError>)
    requires
        old(store).wf(),
        counters_ok(old(store).analytics),
        !old(store).drained && turned_away(
            *old(store),
            *env,
            info.sender@,
            transaction_deadline,
        ) is None ==> commit_defined(
            *old(store),
            *env,
            *info,
            *asset,
            belief_price,
            max_spread,
            quotes,
        ),
    ensures
        final(store).wf(),
        guarded_commit_outcome(
            *old(store),
            *final(store),
            *env,
            *info,
            *asset,
            transaction_deadline,
            belief_price,
            max_spread,
            quotes,
            r,
        ),
{
    ensure_not_drained(store)?;
    enforce_transaction_deadline(env.time, transaction_deadline)?;
    if store.reentrancy_lock {
        return Err(ContractError::ReentrancyGuard {  });
    }
    check_rate_limit(&mut store.user_last_commit, env, &store.pool_specs, &info.sender)?;
    store.reentrancy_lock = true;
    let ghost begun = *store;
    let result = execute_commit_logic(store, env, info, asset, belief_price, max_spread, quotes);
    let ghost ended = *store;
    store.reentrancy_lock = false;
    assert(PoolStore { reentrancy_lock: true, ..*store } == ended);
    assert(begun == entered(*old(store), store.user_last_commit));
    result
}

/// What a step of the distribution answers.
pub open spec fn continue_attrs(
    before: DistributionState,
    after: Option<DistributionState>,
    processed: u32,
    env: Env,
    sender: Seq<char>,
) -> Seq<Pair> {
    let (remaining, complete) = match after {
        None => (0u32, true),
        Some(d) => (d.distributions_remaining, !d.is_distributing),
    };
    at_block(
        Seq::<Pair>::empty().push(("action"@, "continue_distribution"@)).push(
            ("caller"@, sender),
        ).push(("processed_count"@, digits(processed as nat))).push(
            ("bounty_paid"@, flag(processed > 0)),
        ).push(("remaining_before"@, digits(before.distributions_remaining as nat))).push(
            ("remaining_after"@, digits(remaining as nat)),
        ).push(("distribution_complete"@, flag(complete))).push(("pool_contract"@, env.contract@)),
        env,
    )
}

/// A flag, as text.
pub open spec fn flag(b: bool) -> Seq<char> {
    if b {
        "true"@
    } else {
        "false"@
    }
}

fn flag_text(b: bool) -> (r: &'static str)
    ensures
        r@ == flag(b),
{
    if b {
        "true"
    } else {
        "false"
    }
}

/// What a step of the distribution does, and what it answers.
pub open spec fn continue_outcome(
    before: PoolStore,
    after: PoolStore,
    env: Env,
    info: MessageInfo,
    read_failure: Option<String>,
    r: Result<Response, ContractError>,
) -> bool {
    let failed = |e: ContractError| r == Err::<Response, ContractError>(e) && after == before;
    if before.drained {
        failed(ContractError::EmergencyDrained {  })
    } else if before.distribution is None {
        failed(
            ContractError::Std(
                StdError::NotFound(
                    Missing {
                        type_path: "bluechip::pool::state::DistributionState",
                        namespace: "distribution_state",
                        key: None,
                    },
                ),
            ),
        )
    } else if !before.distribution->Some_0.is_distributing {
        failed(ContractError::NothingToRecover {  })
    } else {
        &&& batch_done(before, after, env, read_failure)
        &&& match batch_answer(before, env, read_failure) {
            Err(e) => r == Err::<Response, ContractError>(ContractError::Std(e)),
            Ok((msgs, processed)) => {
                &&& r matches Ok(resp)
                &&& resp.messages@ == (if processed > 0 {
                    msgs.push(
                        CosmosMsg::PayDistributionBounty {
                            factory_addr: before.pool_info.factory_addr,
                            recipient: info.sender,
                        },
                    )
                } else {
                    msgs
                })
                &&& resp.attrs() == continue_attrs(
                    before.distribution->Some_0,
                    after.distribution,
                    processed,
                    env,
                    info.sender@,
                )
            },
        }
    }
}

/// Pays the next batch of committers; anyone may call. The factory is asked to pay the
/// caller where the batch paid somebody, out of its own funds.
///
/// `read_failure` is what the host reported where the ledger could not be read.
pub fn execute_continue_distribution(
    store: &mut PoolStore,
    env: &Env,
    info: &MessageInfo,
    read_failure: Option<String>,
) -> (r: Result<Response, ContractError>)
    requires
        old(store).wf(),
        old(store).distribution matches Some(d) ==> d.consecutive_failures < u32::MAX,
    ensures
        final(store).wf(),
        continue_outcome(*old(store), *final(store), *env, *info, read_failure, r),
{
    ensure_not_drained(store)?;
    let remaining_before: u32 = match &store.distribution {
        None => {
            return Err(
                ContractError::Std(
                    StdError::NotFound(
                        Missing {
                            type_path: "bluechip::pool::state::DistributionState",
                            namespace: "distribution_state",
                            key: None,
                        },
                    ),
                ),
            );
        },
        Some(d) => {
            if !d.is_distributing {
                return Err(ContractError::NothingToRecover {  });
            }
            d.distributions_remaining
        },
    };
    let (mut msgs, processed): (Vec<CosmosMsg>, u32) = match process_distribution_batch(
        store,
        env,
        read_failure,
    ) {
        Ok(batch) => batch,
        Err(e) => {
            return Err(ContractError::Std(e));
        },
    };
    if processed > 0 {
        msgs.push(
            CosmosMsg::PayDistributionBounty {
                factory_addr: store.pool_info.factory_addr.clone(),
                recipient: info.sender.clone(),
            },
        );
    }
    let (remaining_after, complete): (u32, bool) = match &store.distribution {
        None => (0, true),
        Some(d) => (d.distributions_remaining, !d.is_distributing),
    };
    Ok(
        Response::with_messages(msgs).attr("action", "continue_distribution").attr(
            "caller",
            info.sender.as_str(),
        ).attr_number("processed_count", processed as u128).attr(
            "bounty_paid",
            flag_text(processed > 0),
        ).attr_number("remaining_before", remaining_before as u128).attr_number(
            "remaining_after",
            remaining_after as u128,
        ).attr("distribution_complete", flag_text(complete)).attr(
            "pool_contract",
            env.contract.as_str(),
        ).at_block(env),
    )
}

} // verus!
