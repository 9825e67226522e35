//! What holds of the steps that the calls of a pool share.

use vstd::prelude::*;

use crate::chain::{Addr, CosmosMsg, Env, MessageInfo};
use crate::number::{Decimal, Timestamp, Wide, ONE};
use crate::pool::commit::{build_fee_messages, calculate_commit_fees, usd_to_threshold};
use crate::pool::contract::HostAnswers;
use crate::pool::error::ContractError;
use crate::pool::generic_helpers::{
    decimal2decimal256, enforce_transaction_deadline, get_bank_transfer_to_msg, mint_tokens,
    next_committing, rate_limit_outcome, record_outcome, validate_factory_address,
};
use crate::pool::msg::{ExecuteMsg, QueryMsg};
use crate::pool::payments::{all_paid, are_payments, coins_sent, lemma_paid_by_few};
use crate::pool::query::QueryHost;
use crate::pool::range::{
    execute_in_range, fee_growth_in_range, query_in_range, ratio_in_range, spread_check_in_range,
};
use crate::pool::state::{CommitFeeInfo, Committing, PoolStore};
use crate::pool::swap_helper::assert_max_spread;
use crate::pool::swap_laws::{is_floor, lemma_is_floor, lemma_spread_check, within_limit};
use crate::table::Table;

verus! {

/// Who comes before the interval is over waits for the rest of it; who comes later, or for the
/// first time, is noted with the time. Nobody else is.
pub proof fn law_the_interval_is_kept(
    before: Table<u64>,
    after: Table<u64>,
    now: u64,
    interval: u64,
    sender: Seq<char>,
    r: Result<(), ContractError>,
    other: Seq<char>,
)
    requires
        rate_limit_outcome(before, after, now, interval, sender, r),
    ensures
        r is Ok ==> {
            &&& before@.dom().contains(sender) ==> interval == 0 || now >= before@[sender]
                + interval
            &&& after@.dom().contains(sender) && after@[sender] == now
            &&& other != sender ==> after@.dom().contains(other) == before@.dom().contains(other)
            &&& other != sender && before@.dom().contains(other) ==> after@[other]
                == before@[other]
        },
        r matches Err(e) ==> {
            &&& after == before && before@.dom().contains(sender) && interval > 0
            &&& e matches ContractError::TooFrequentCommits { wait_time } && if now
                >= before@[sender] {
                now + wait_time == before@[sender] + interval && wait_time > 0
            } else {
                wait_time == interval
            }
        },
{
}

/// A deadline is kept to the nanosecond; without one there is no hurry.
pub proof fn law_deadlines_are_kept(
    now: Timestamp,
    deadline: Option<Timestamp>,
    r: Result<(), ContractError>,
)
    requires
        call_ensures(enforce_transaction_deadline, (now, deadline), r),
    ensures
        r is Err <==> (deadline matches Some(d) && d.nanos < now.nanos),
        r matches Err(e) ==> e == (ContractError::TransactionExpired {  }),
{
}

/// A factory passes where it is the one that is known.
pub proof fn law_the_factory_is_known(stored: Addr, other: Addr, r: Result<(), ContractError>)
    requires
        call_ensures(validate_factory_address, (&stored, &other), r),
    ensures
        r is Ok <==> stored@ == other@,
        r matches Err(e) ==> e == (ContractError::InvalidFactory {  }),
{
}

/// A message to mint or to send names its recipient, its token and its amount.
pub proof fn law_messages_say_what_is_meant(
    token: Addr,
    to: Addr,
    denom: String,
    amount: u128,
    mint: CosmosMsg,
    send: CosmosMsg,
    x: Seq<char>,
    y: Seq<char>,
)
    requires
        call_ensures(mint_tokens, (&token, &to, amount), mint),
        call_ensures(get_bank_transfer_to_msg, (&to, &denom, amount), send),
    ensures
        crate::pool::payments::mint_of(mint, x, y) == (if x == token@ && y == to@ {
            amount as int
        } else {
            0
        }),
        crate::pool::payments::coins_of(send, x, y) == (if x == to@ && y == denom@ {
            amount as int
        } else {
            0
        }),
        mint is Cw20Mint && send is BankSend,
{
}

/// Widening a decimal keeps its value.
pub proof fn law_widening_keeps_the_value(d: Decimal, r: Wide)
    requires
        call_ensures(decimal2decimal256, (d,), r),
    ensures
        r.hi == 0 && r.lo == d.atomics,
{
    assert(r.val() == d.atomics);
    let hi = r.hi as int;
    let lo = r.lo as int;
    assert(hi * 0x1_0000_0000_0000_0000_0000_0000_0000_0000int + lo == d.atomics);
    assert(hi == 0);
}

/// Whether a record grows by a payment.
pub open spec fn grows_by(
    before: Option<Committing>,
    after: Committing,
    sender: Addr,
    pool: Addr,
    coins: u128,
    usd: u128,
    now: Timestamp,
) -> bool {
    &&& after.last_payment_bluechip == coins && after.last_payment_usd == usd
    &&& after.last_committed == now
    &&& match before {
        Some(c) => {
            &&& after.total_paid_bluechip - c.total_paid_bluechip == coins
            &&& after.total_paid_usd - c.total_paid_usd == usd
            &&& after.committer == c.committer
            &&& after.pool_contract_address == c.pool_contract_address
        },
        None => {
            &&& after.total_paid_bluechip == coins && after.total_paid_usd == usd
            &&& after.committer == sender && after.pool_contract_address == pool
        },
    }
}

/// The record of an account grows by each of its payments.
pub proof fn law_records_grow(
    before: Option<&Committing>,
    sender: Addr,
    pool: Addr,
    coins: u128,
    usd: u128,
    now: Timestamp,
    r: Result<Committing, ContractError>,
)
    requires
        call_ensures(next_committing, (before, &sender, &pool, coins, usd, now), r),
    ensures
        ({
            let held = match before {
                Some(c) => Some(*c),
                None => None,
            };
            match r {
                Ok(c) => grows_by(held, c, sender, pool, coins, usd, now),
                Err(_) => held matches Some(c) && (c.total_paid_bluechip + coins > u128::MAX
                    || c.total_paid_usd + usd > u128::MAX),
            }
        }),
{
}

/// A payment is added to the record of its sender, and to no other.
pub proof fn law_records_are_kept_apart(
    before: Table<Committing>,
    after: Table<Committing>,
    sender: Addr,
    pool: Addr,
    coins: u128,
    usd: u128,
    now: Timestamp,
    r: Result<(), ContractError>,
    other: Seq<char>,
)
    requires
        record_outcome(before, after, sender, pool, coins, usd, now, r),
    ensures
        ({
            let held = if before@.dom().contains(sender@) {
                Some(before@[sender@])
            } else {
                None
            };
            match r {
                Ok(_) => {
                    &&& after@.dom().contains(sender@)
                    &&& grows_by(held, after@[sender@], sender, pool, coins, usd, now)
                    &&& other != sender@ ==> after@.dom().contains(other)
                        == before@.dom().contains(other)
                    &&& other != sender@ && before@.dom().contains(other) ==> after@[other]
                        == before@[other]
                },
                Err(_) => after == before && (held matches Some(c) && (c.total_paid_bluechip + coins
                    > u128::MAX || c.total_paid_usd + usd > u128::MAX)),
            }
        }),
{
}

/// The fees of a commit are its parts for the platform and for the creator, rounded down, and
/// both are sent to whom they are due.
pub proof fn law_commit_fees_are_paid(
    amount: u128,
    fees: CommitFeeInfo,
    denom: String,
    r: Result<(u128, u128), ContractError>,
    msgs: Vec<CosmosMsg>,
    to: Seq<char>,
)
    requires
        call_ensures(calculate_commit_fees, (amount, &fees), r),
        r matches Ok((platform, creator)) ==> call_ensures(
            build_fee_messages,
            (&fees, &denom, platform, creator),
            msgs,
        ),
    ensures
        match r {
            Ok((platform, creator)) => {
                &&& is_floor(platform as int, amount * fees.commit_fee_bluechip.atomics, ONE as int)
                &&& is_floor(creator as int, amount * fees.commit_fee_creator.atomics, ONE as int)
                &&& coins_sent(msgs@, to, denom@) == (if to == fees.bluechip_wallet_address@ {
                    platform as int
                } else {
                    0
                }) + (if to == fees.creator_wallet_address@ {
                    creator as int
                } else {
                    0
                })
                &&& all_paid(msgs@) == (platform + creator, 0int, 0int)
                &&& are_payments(msgs@)
            },
            Err(_) => amount * fees.commit_fee_bluechip.atomics > u128::MAX || amount
                * fees.commit_fee_creator.atomics > u128::MAX,
        },
{
    if r is Ok {
        assert(amount * fees.commit_fee_bluechip.atomics >= 0) by (nonlinear_arith);
        assert(amount * fees.commit_fee_creator.atomics >= 0) by (nonlinear_arith);
        lemma_is_floor(amount * fees.commit_fee_bluechip.atomics, ONE as int);
        lemma_is_floor(amount * fees.commit_fee_creator.atomics, ONE as int);
        lemma_paid_by_few(msgs@, to, denom@);
        reveal_with_fuel(all_paid, 4);
    }
}

/// What is missing and what was raised make up the threshold, until that is reached.
pub proof fn law_the_rest_makes_the_threshold(store: PoolStore, r: u128)
    requires
        call_ensures(usd_to_threshold, (&store,), r),
    ensures
        r > 0 ==> r + store.usd_raised == store.commit_limits.commit_amount_for_threshold_usd,
        r == 0 <==> store.usd_raised >= store.commit_limits.commit_amount_for_threshold_usd,
{
}

/// A spread passes where it stays within the trader's limit.
pub proof fn law_spreads_are_bounded(
    belief_price: Option<Decimal>,
    max_spread: Option<Decimal>,
    amount: u128,
    gross: u128,
    spread: u128,
    r: Result<(), ContractError>,
)
    requires
        call_ensures(assert_max_spread, (belief_price, max_spread, amount, gross, spread), r),
    ensures
        r is Ok <==> within_limit(
            belief_price,
            max_spread,
            amount as int,
            gross as int,
            spread as int,
        ),
        r matches Err(e) ==> if belief_price matches Some(p) && p.atomics == 0 {
            e == (ContractError::InvalidBeliefPrice {  })
        } else {
            e == (ContractError::MaxSpreadAssertion {  })
        },
{
    lemma_spread_check(belief_price, max_spread, amount as int, gross as int, spread as int);
}

/// A quotient is in range where it is one of a number that is not zero, and below 2^128.
pub proof fn law_quotients_are_in_range(n: u128, d: u128, r: bool, commission: bool)
    requires
        call_ensures(ratio_in_range, (n, d), r),
        call_ensures(fee_growth_in_range, (d, n), commission),
    ensures
        r <==> d > 0 && n * ONE < (u128::MAX + 1) * d,
        commission <==> n == 0 || d == 0 || r,
{
    if d > 0 {
        assert(n * ONE >= 0) by (nonlinear_arith);
        let q = n * ONE / (d as int);
        lemma_is_floor(n * ONE, d as int);
        let end = u128::MAX + 1;
        if q < end {
            assert(q * d + d <= end * d) by (nonlinear_arith)
                requires
                    q + 1 <= end,
                    d > 0,
            ;
        } else {
            assert(q * d >= end * d) by (nonlinear_arith)
                requires
                    q >= end,
                    d > 0,
            ;
        }
    }
}

/// A spread can be checked where what it is measured by is in range.
pub proof fn law_spread_checks_are_in_range(
    belief_price: Option<Decimal>,
    amount: u128,
    gross: u128,
    spread: u128,
    r: bool,
)
    requires
        call_ensures(spread_check_in_range, (belief_price, amount, gross, spread), r),
    ensures
        belief_price is None ==> (r <==> gross + spread <= u128::MAX),
        belief_price matches Some(p) ==> (r <==> p.atomics == 0 || amount * (ONE * ONE / (
        p.atomics as int)) <= u128::MAX),
{
}

/// Which calls can run out of range at all: those that trade, those that wait for a time, and
/// those that count committers or failures.
pub proof fn law_plain_calls_are_in_range(
    store: PoolStore,
    env: Env,
    info: MessageInfo,
    msg: ExecuteMsg,
    host: HostAnswers,
    r: bool,
)
    requires
        call_ensures(execute_in_range, (&store, &env, &info, &msg, &host), r),
    ensures
        !(msg is Commit) && !(msg is SimpleSwap) && !(msg is Receive) && !(msg is EmergencyWithdraw)
            && !(msg is RecoverStuckStates) && !(msg is ContinueDistribution) ==> r,
        msg is EmergencyWithdraw ==> (r <==> info.sender@ != store.pool_info.factory_addr@
            || store.pending_emergency_withdraw is Some || env.time.nanos + 86_400 * 1_000_000_000
            <= u64::MAX),
        msg is RecoverStuckStates ==> (r <==> store.commit_ledger.entries@.len() <= u32::MAX),
        msg is ContinueDistribution ==> (r <==> (store.distribution matches Some(d)
            ==> d.consecutive_failures < u32::MAX)),
{
}

/// Which queries can run out of range: simulations on an empty side, and reverse ones with a
/// commission that leaves nothing.
pub proof fn law_plain_queries_are_in_range(
    store: PoolStore,
    msg: QueryMsg,
    host: QueryHost,
    r: bool,
)
    requires
        call_ensures(query_in_range, (&store, &msg, &host), r),
    ensures
        !(msg is Simulation) && !(msg is ReverseSimulation) ==> r,
        msg matches QueryMsg::Simulation { offer_asset } ==> (host.pools matches Ok(p)
            && p[0].amount > 0 && p[1].amount > 0 ==> r),
        msg is ReverseSimulation && store.pool_specs.lp_fee.atomics < ONE ==> r,
{
}

} // verus!
