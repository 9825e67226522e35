//! What calls report of themselves: what they tell is what they did.

use vstd::arithmetic::div_mod::*;
use vstd::prelude::*;

use crate::asset::{TokenInfo, TokenType};
use crate::chain::{CosmosMsg, Env, MessageInfo, Response};
use crate::error::StdError;
use crate::number::{decimal_text, timestamp_text, Decimal, Timestamp, ONE};
use crate::pool::admin_laws::whole_seconds;
use crate::pool::commit::{
    beyond_threshold, checked_commit, crossing_trade, entered, phase_of, Phase,
};
use crate::pool::commit_laws::{
    dollars_missing, first_bluechips, first_tokens, law_crossing_opens_the_pool, left_over,
    lemma_checked_commit, lemma_first_swap, lemma_seed, swapped_of,
};
use crate::pool::contract::{execute_outcome, simple_trade, swap_outcome_of, HostAnswers};
use crate::pool::generic_helpers::{fees_restarted, seeded};
use crate::pool::msg::{ExecuteMsg, PoolConfigUpdate};
use crate::pool::payments::{lemma_paid_by_few, tokens_sent};
use crate::pool::state::{DistributionState, PoolStore};
use crate::pool::swap_laws::{is_floor, lemma_swap_outcome, paid_in, spread_of};
use crate::text::digits;

verus! {

/// Whether an answer tells something, in one of its attributes.
pub open spec fn tells(resp: Response, key: Seq<char>, value: Seq<char>) -> bool {
    resp.attrs().contains((key, value))
}

/// Whether an answer tells a number.
pub open spec fn counts(resp: Response, key: Seq<char>, n: int) -> bool {
    0 <= n && tells(resp, key, digits(n as nat))
}

/// Whether an answer tells its block.
pub open spec fn tells_block(resp: Response, env: Env) -> bool {
    &&& counts(resp, "block_height"@, env.height as int)
    &&& counts(resp, "block_time"@, whole_seconds(env.time.nanos))
}

/// A swap reports the fees that were collected so far, how often was swapped, the spread and the
/// price that it came to.
pub proof fn law_swaps_report_their_price(
    before: PoolStore,
    after: PoolStore,
    env: Env,
    sender: crate::chain::Addr,
    offer: TokenInfo,
    belief_price: Option<Decimal>,
    max_spread: Option<Decimal>,
    to: Option<crate::chain::Addr>,
    resp: Response,
    first: bool,
    price: u128,
)
    requires
        swap_outcome_of(
            before,
            after,
            env,
            sender,
            offer,
            belief_price,
            max_spread,
            to,
            Ok(resp),
        ),
        first == offer.info.same(before.pool_info.pool_info.asset_infos[0]),
        offer.amount > 0 ==> is_floor(
            price as int,
            paid_in(
                resp.messages@,
                before.pool_info.pool_info.asset_infos[if first { 1 } else { 0 }],
                match to {
                    Some(to) => to@,
                    None => sender@,
                },
            ) * ONE,
            offer.amount as int,
        ),
    ensures
        ({
            let s = before.pool_state;
            let t = after.pool_state;
            let (o, a, b) = if first {
                (s.reserve0 as int, s.reserve1 as int, t.reserve1 as int)
            } else {
                (s.reserve1 as int, s.reserve0 as int, t.reserve0 as int)
            };
            &&& counts(resp, "spread_amount"@, spread_of(o, a, offer.amount as int, a - b))
            &&& offer.amount > 0 ==> tells(
                resp,
                "effective_price"@,
                decimal_text(Decimal { atomics: price }),
            )
            &&& counts(
                resp,
                "total_fee_collected_0"@,
                after.fee_state.total_fees_collected_0 as int,
            )
            &&& counts(
                resp,
                "total_fee_collected_1"@,
                after.fee_state.total_fees_collected_1 as int,
            )
            &&& counts(resp, "total_swap_count"@, after.analytics.total_swap_count as int)
            &&& tells(resp, "pool_contract"@, before.pool_state.pool_contract_address@)
            &&& tells_block(resp, env)
        }),
{
    let trade = simple_trade(before, env, offer, belief_price, max_spread)->Ok_0;
    let s = before.pool_state;
    let (o, a) = if first {
        (s.reserve0 as int, s.reserve1 as int)
    } else {
        (s.reserve1 as int, s.reserve0 as int)
    };
    lemma_swap_outcome(o, a, offer.amount as int, before.pool_specs.lp_fee.atomics as int);
    let receiver = match to {
        Some(to) => to@,
        None => sender@,
    };
    let asked = before.pool_info.pool_info.asset_infos[if first { 1 } else { 0 }];
    match asked {
        TokenType::Bluechip { denom } => lemma_paid_by_few(resp.messages@, receiver, denom@),
        TokenType::CreatorToken { contract_addr } => lemma_paid_by_few(
            resp.messages@,
            contract_addr@,
            receiver,
        ),
    }
    let paid = paid_in(resp.messages@, asked, receiver);
    assert(paid == trade.return_amt);
    if offer.amount > 0 {
        lemma_fundamental_div_mod_converse(
            paid * ONE,
            offer.amount as int,
            price as int,
            paid * ONE - price * offer.amount,
        );
    }
    let x = resp.attrs();
    assert(x[7] == ("spread_amount"@, digits(trade.spread_amt as nat)));
    assert(x[9].0 == "effective_price"@);
    assert(x[12].0 == "total_fee_collected_0"@);
    assert(x[13].0 == "total_fee_collected_1"@);
    assert(x[14].0 == "pool_contract"@);
    assert(x[15].0 == "block_height"@);
    assert(x[16].0 == "block_time"@);
    assert(x[17].0 == "total_swap_count"@);
}

/// Claims report who was paid, and what.
pub proof fn law_claims_report_what_is_paid(
    before: PoolStore,
    after: PoolStore,
    env: Env,
    info: MessageInfo,
    msg: ExecuteMsg,
    host: HostAnswers,
    resp: Response,
)
    requires
        execute_outcome(before, after, env, info, msg, host, Ok(resp)),
    ensures
        msg is ClaimCreatorFees ==> {
            &&& tells(resp, "action"@, "claim_creator_fees"@)
            &&& tells(resp, "creator"@, info.sender@)
            &&& counts(resp, "amount_0"@, before.creator_fee_pot.amount_0 as int)
            &&& counts(resp, "amount_1"@, before.creator_fee_pot.amount_1 as int)
            &&& tells(resp, "pool_contract"@, env.contract@) && tells_block(resp, env)
        },
        msg is ClaimCreatorExcessLiquidity ==> {
            &&& tells(resp, "action"@, "claim_creator_excess"@)
            &&& tells(resp, "creator"@, info.sender@)
            &&& before.creator_excess matches Some(x) && counts(
                resp,
                "bluechip_amount"@,
                x.bluechip_amount as int,
            ) && counts(resp, "token_amount"@, x.token_amount as int)
            &&& tells(resp, "pool_contract"@, env.contract@) && tells_block(resp, env)
        },
{
    let x = resp.attrs();
    if msg is ClaimCreatorFees || msg is ClaimCreatorExcessLiquidity {
        assert(x[0].0 == "action"@);
        assert(x[1] == ("creator"@, info.sender@));
        assert(x[2].0 == (if msg is ClaimCreatorFees {
            "amount_0"@
        } else {
            "bluechip_amount"@
        }));
        assert(x[3].0 == (if msg is ClaimCreatorFees {
            "amount_1"@
        } else {
            "token_amount"@
        }));
        assert(x[4] == ("pool_contract"@, env.contract@));
        assert(x[5].0 == "block_height"@);
        assert(x[6].0 == "block_time"@);
    }
}

/// A step of the distribution reports how many it paid, how many are left, and whether it was the
/// last.
pub proof fn law_steps_report_their_progress(
    before: PoolStore,
    after: PoolStore,
    env: Env,
    info: MessageInfo,
    host: HostAnswers,
    resp: Response,
    d: DistributionState,
)
    requires
        before.wf(),
        before.distribution == Some(d),
        execute_outcome(
            before,
            after,
            env,
            info,
            ExecuteMsg::ContinueDistribution {  },
            host,
            Ok(resp),
        ),
    ensures
        ({
            let count = before.commit_ledger.entries@.len() - after.commit_ledger.entries@.len();
            &&& tells(resp, "action"@, "continue_distribution"@)
            &&& tells(resp, "caller"@, info.sender@)
            &&& counts(resp, "processed_count"@, count)
            &&& tells(
                resp,
                "bounty_paid"@,
                if count > 0 {
                    "true"@
                } else {
                    "false"@
                },
            )
            &&& counts(resp, "remaining_before"@, d.distributions_remaining as int)
            &&& match after.distribution {
                None => counts(resp, "remaining_after"@, 0) && tells(
                    resp,
                    "distribution_complete"@,
                    "true"@,
                ),
                Some(n) => counts(resp, "remaining_after"@, n.distributions_remaining as int)
                    && tells(resp, "distribution_complete"@, "false"@),
            }
            &&& tells(resp, "pool_contract"@, env.contract@) && tells_block(resp, env)
        }),
{
    crate::pool::laws::law_batch_pays_once(before, after, env, d);
    let x = resp.attrs();
    assert(x[0].0 == "action"@);
    assert(x[1].0 == "caller"@);
    assert(x[2].0 == "processed_count"@);
    assert(x[3].0 == "bounty_paid"@);
    assert(x[4].0 == "remaining_before"@);
    assert(x[5].0 == "remaining_after"@);
    assert(x[6].0 == "distribution_complete"@);
    assert(x[7].0 == "pool_contract"@);
    assert(x[8].0 == "block_height"@);
    assert(x[9].0 == "block_time"@);
}

/// The calls of the factory report what they set, when, and for whom.
pub proof fn law_settings_are_reported(
    before: PoolStore,
    after: PoolStore,
    env: Env,
    info: MessageInfo,
    update: PoolConfigUpdate,
    host: HostAnswers,
    resp: Response,
)
    requires
        execute_outcome(
            before,
            after,
            env,
            info,
            ExecuteMsg::UpdateConfigFromFactory { update },
            host,
            Ok(resp),
        ),
    ensures
        update.lp_fee is Some ==> tells(resp, "lp_fee"@, "updated"@),
        update.min_commit_interval is Some ==> tells(resp, "min_commit_interval"@, "updated"@),
        update.usd_payment_tolerance_bps is Some ==> tells(
            resp,
            "usd_payment_tolerance_bps"@,
            "updated"@,
        ),
        update.oracle_address is Some ==> tells(resp, "oracle_address"@, "updated"@),
        tells(resp, "updated_by"@, info.sender@),
        tells(resp, "pool_contract"@, before.pool_info.pool_info.contract_addr@),
        tells_block(resp, env),
{
    let x = resp.attrs();
    let a: int = 1;
    let b: int = a + (if update.lp_fee is Some {
        1int
    } else {
        0
    });
    let c: int = b + (if update.min_commit_interval is Some {
        1int
    } else {
        0
    });
    let e: int = c + (if update.usd_payment_tolerance_bps is Some {
        1int
    } else {
        0
    });
    let f: int = e + (if update.oracle_address is Some {
        1int
    } else {
        0
    });
    if update.lp_fee is Some {
        assert(x[a] == ("lp_fee"@, "updated"@));
    }
    if update.min_commit_interval is Some {
        assert(x[b] == ("min_commit_interval"@, "updated"@));
    }
    if update.usd_payment_tolerance_bps is Some {
        assert(x[c] == ("usd_payment_tolerance_bps"@, "updated"@));
    }
    if update.oracle_address is Some {
        assert(x[e] == ("oracle_address"@, "updated"@));
    }
    assert(x[f] == ("pool_contract"@, before.pool_info.pool_info.contract_addr@));
    assert(x[f + 1] == ("updated_by"@, info.sender@));
    assert(x[f + 2].0 == "block_height"@);
    assert(x[f + 3].0 == "block_time"@);
}

/// An emergency withdrawal reports from when on it may run, and what it took of the shares.
pub proof fn law_emergencies_are_reported(
    before: PoolStore,
    after: PoolStore,
    env: Env,
    info: MessageInfo,
    host: HostAnswers,
    resp: Response,
)
    requires
        execute_outcome(
            before,
            after,
            env,
            info,
            ExecuteMsg::EmergencyWithdraw {  },
            host,
            Ok(resp),
        ),
    ensures
        tells(resp, "pool_contract"@, env.contract@),
        tells_block(resp, env),
        before.pending_emergency_withdraw is None ==> (
        after.pending_emergency_withdraw matches Some(t) && tells(
            resp,
            "effective_after"@,
            timestamp_text(t),
        )),
        before.pending_emergency_withdraw is Some ==> counts(
            resp,
            "total_liquidity"@,
            before.pool_state.total_liquidity as int,
        ),
{
    let x = resp.attrs();
    if before.pending_emergency_withdraw is None {
        assert(x[1].0 == "effective_after"@);
        assert(x[2] == ("pool_contract"@, env.contract@));
        assert(x[4].0 == "block_height"@);
        assert(x[5].0 == "block_time"@);
    } else {
        assert(x[4].0 == "total_liquidity"@);
        assert(x[5] == ("pool_contract"@, env.contract@));
        assert(x[6].0 == "block_height"@);
        assert(x[7].0 == "block_time"@);
    }
}

/// A commit reports its phase, its sender, its amounts, and what was raised or swapped.
#[verifier::rlimit(60)]
pub proof fn law_commits_are_reported(
    before: PoolStore,
    after: PoolStore,
    env: Env,
    info: MessageInfo,
    asset: TokenInfo,
    transaction_deadline: Option<Timestamp>,
    belief_price: Option<Decimal>,
    max_spread: Option<Decimal>,
    host: HostAnswers,
    resp: Response,
    denom: String,
    usd: u128,
    price: u128,
)
    requires
        execute_outcome(
            before,
            after,
            env,
            info,
            ExecuteMsg::Commit { asset, transaction_deadline, belief_price, max_spread },
            host,
            Ok(resp),
        ),
        asset.info == (TokenType::Bluechip { denom }),
        host.quotes.usd_value == Ok::<u128, StdError>(usd),
        before.threshold_hit ==> before.pool_state.reserve0 > 0,
        before.threshold_hit ==> (
        resp.messages@.last() matches CosmosMsg::Cw20Transfer { amount, .. } ==> is_floor(
            price as int,
            amount * ONE,
            after.pool_state.reserve0 - before.pool_state.reserve0,
        )),
    ensures
        ({
            let s = before.pool_state;
            let t = after.pool_state;
            let amount = asset.amount as int;
            let limit = before.commit_limits.commit_amount_for_threshold_usd;
            let funding = !before.threshold_hit && (before.usd_raised + usd < limit
                || before.threshold_processing);
            let missing = dollars_missing(before);
            &&& tells(resp, "action"@, "commit"@) && tells(resp, "committer"@, info.sender@)
            &&& counts(
                resp,
                "total_commit_count"@,
                after.analytics.total_commit_count as int,
            )
            &&& tells(resp, "pool_contract"@, before.pool_state.pool_contract_address@)
            &&& tells_block(resp, env)
            &&& funding ==> {
                &&& tells(resp, "phase"@, "funding"@)
                &&& counts(resp, "commit_amount_bluechip"@, amount)
                &&& counts(resp, "commit_amount_usd"@, usd as int)
                &&& counts(resp, "total_usd_raised_after"@, after.usd_raised as int)
                &&& counts(resp, "total_bluechip_raised_after"@, after.native_raised as int)
            }
            &&& before.threshold_hit ==> {
                let swapped = t.reserve0 - s.reserve0;
                let gross = s.reserve1 - t.reserve1;
                &&& tells(resp, "phase"@, "active"@)
                &&& counts(resp, "commit_amount_bluechip"@, amount)
                &&& counts(resp, "commit_amount_usd"@, usd as int)
                &&& counts(resp, "swap_amount_bluechip"@, swapped)
                &&& counts(
                    resp,
                    "spread_amount"@,
                    spread_of(s.reserve0 as int, s.reserve1 as int, swapped, gross),
                )
                &&& counts(resp, "reserve0_after"@, t.reserve0 as int)
                &&& counts(resp, "reserve1_after"@, t.reserve1 as int)
                &&& resp.messages@.len() > 0
                &&& resp.messages@.last() matches CosmosMsg::Cw20Transfer { amount: paid, .. }
                    && counts(resp, "tokens_received"@, paid as int) && counts(
                    resp,
                    "commission_amount"@,
                    gross - paid,
                ) && tells(resp, "effective_price"@, decimal_text(Decimal { atomics: price }))
            }
            &&& !funding && !before.threshold_hit && (usd <= missing || missing == 0) ==> {
                &&& tells(resp, "phase"@, "threshold_hit_exact"@)
                &&& counts(resp, "commit_amount_bluechip"@, amount)
                &&& counts(resp, "commit_amount_usd"@, usd as int)
                &&& counts(resp, "total_usd_raised_after"@, before.usd_raised + usd)
            }
            &&& !funding && !before.threshold_hit && usd > missing > 0 ==> {
                let funded = after.native_raised - before.native_raised;
                let excess = left_over(before, amount, funded);
                let reserve0 = first_bluechips(before, after.native_raised as int);
                let reserve1 = first_tokens(before, after.native_raised as int);
                let swapped = swapped_of(reserve0, excess);
                let paid = tokens_sent(
                    resp.messages@,
                    before.pool_info.token_address@,
                    info.sender@,
                );
                &&& tells(resp, "phase"@, "threshold_crossing"@)
                &&& counts(resp, "total_amount_bluechip"@, amount)
                &&& counts(resp, "threshold_amount_bluechip"@, funded)
                &&& counts(resp, "threshold_amount_usd"@, missing)
                &&& counts(resp, "swap_amount_usd"@, usd - missing)
                &&& counts(resp, "swap_amount_bluechip"@, swapped)
                &&& counts(resp, "swap_amount_bluechip_pre_cap"@, excess)
                &&& counts(resp, "bluechip_excess_refunded"@, excess - swapped)
                &&& counts(resp, "bluechip_excess_returned"@, paid)
                &&& counts(resp, "bluechip_excess_commission"@, reserve1 - t.reserve1 - paid)
                &&& swapped > 0 && reserve1 > 0 ==> counts(
                    resp,
                    "bluechip_excess_spread"@,
                    spread_of(reserve0, reserve1, swapped, reserve1 - t.reserve1),
                )
                &&& counts(resp, "reserve0_after"@, t.reserve0 as int)
                &&& counts(resp, "reserve1_after"@, t.reserve1 as int)
            }
        }),
{
    let begun = entered(before, after.user_last_commit);
    let ended = PoolStore { reentrancy_lock: true, ..after };
    lemma_checked_commit(begun, info, asset, host.quotes.usd_value);
    let c = checked_commit(begun, info, asset, host.quotes.usd_value)->Ok_0;
    let s = before.pool_state;
    let amount = asset.amount as int;
    let limit = before.commit_limits.commit_amount_for_threshold_usd;
    let funding = !before.threshold_hit && (before.usd_raised + usd < limit
        || before.threshold_processing);
    let missing = dollars_missing(before);
    let x = resp.attrs();
    assert(x[0].0 == "action"@);
    assert(x[1].0 == "phase"@);
    assert(x[2].0 == "committer"@);
    if before.threshold_hit {
        let rate = before.pool_specs.lp_fee.atomics as int;
        lemma_swap_outcome(s.reserve0 as int, s.reserve1 as int, c.amount_after_fees as int, rate);
        assert(x[3].0 == "commit_amount_bluechip"@);
        assert(x[4].0 == "commit_amount_usd"@);
        assert(x[5].0 == "swap_amount_bluechip"@);
        assert(x[6].0 == "tokens_received"@);
        assert(x[7].0 == "spread_amount"@);
        assert(x[8].0 == "commission_amount"@);
        assert(x[9].0 == "effective_price"@);
        assert(x[10].0 == "reserve0_after"@);
        assert(x[11].0 == "reserve1_after"@);
        assert(x[12].0 == "total_commit_count"@);
        assert(x[13].0 == "pool_contract"@);
        assert(x[14].0 == "block_height"@);
        assert(x[15].0 == "block_time"@);
        let paid = resp.messages@.last()->Cw20Transfer_amount;
        let swapped = after.pool_state.reserve0 - s.reserve0;
        assert(swapped == c.amount_after_fees);
        lemma_fundamental_div_mod_converse(
            paid * ONE,
            swapped,
            price as int,
            paid * ONE - price * swapped,
        );
    } else if funding {
        assert(x[3].0 == "commit_amount_bluechip"@);
        assert(x[4].0 == "commit_amount_usd"@);
        assert(x[5].0 == "total_usd_raised_after"@);
        assert(x[6].0 == "total_bluechip_raised_after"@);
        assert(x[7].0 == "total_commit_count"@);
        assert(x[8].0 == "pool_contract"@);
        assert(x[9].0 == "block_height"@);
        assert(x[10].0 == "block_time"@);
    } else if usd > missing && missing > 0 {
        assert(phase_of(begun, usd) == Ok::<Phase, crate::pool::error::ContractError>(
            Phase::Crossing,
        ));
        law_crossing_opens_the_pool(
            before,
            after,
            env,
            info,
            asset,
            transaction_deadline,
            belief_price,
            max_spread,
            host,
            resp,
            denom,
            usd,
            info.sender@,
        );
        let funded = host.quotes.to_threshold->Ok_0;
        let raised = (before.native_raised + funded) as u128;
        lemma_seed(before, raised);
        let excess = beyond_threshold(amount, c.amount_after_fees as int, funded as int);
        let t = crossing_trade(begun, env, raised, excess, belief_price, max_spread)->Ok_0;
        let z = seeded(
            before.pool_state,
            raised,
            before.commit_limits,
            before.threshold_payout,
            before.fee_info,
        );
        crate::pool::generic_helpers::lemma_part_of(
            c.amount_after_fees as int,
            funded as int,
            amount,
        );
        if excess > 0 {
            lemma_first_swap(
                before,
                env,
                z,
                fees_restarted(before.fee_state),
                excess,
                belief_price,
                max_spread,
                t,
            );
            let paid = tokens_sent(
                resp.messages@,
                before.pool_info.token_address@,
                info.sender@,
            );
            let gross = t.trade.return_amt + t.trade.commission_amt;
            let rate = before.pool_specs.lp_fee.atomics as int;
            if t.swapped > 0 {
                lemma_fundamental_div_mod_converse(
                    gross * rate,
                    ONE as int,
                    t.trade.commission_amt as int,
                    gross * rate - t.trade.commission_amt * ONE,
                );
                lemma_fundamental_div_mod_converse(
                    gross * rate,
                    ONE as int,
                    gross - paid,
                    gross * rate - (gross - paid) * ONE,
                );
                if z.reserve1 > 0 {
                    lemma_swap_outcome(
                        z.reserve0 as int,
                        z.reserve1 as int,
                        t.swapped as int,
                        rate,
                    );
                }
            }
        } else {
            lemma_div_pos_is_pos(z.reserve0 * 20, 100);
        }
        assert(x[3].0 == "total_amount_bluechip"@);
        assert(x[4].0 == "threshold_amount_bluechip"@);
        assert(x[5].0 == "swap_amount_bluechip"@);
        assert(x[6].0 == "swap_amount_bluechip_pre_cap"@);
        assert(x[7].0 == "threshold_amount_usd"@);
        assert(x[8].0 == "swap_amount_usd"@);
        assert(x[9].0 == "bluechip_excess_spread"@);
        assert(x[10].0 == "bluechip_excess_returned"@);
        assert(x[11].0 == "bluechip_excess_commission"@);
        assert(x[12].0 == "bluechip_excess_refunded"@);
        assert(x[13].0 == "reserve0_after"@);
        assert(x[14].0 == "reserve1_after"@);
        assert(x[15].0 == "total_commit_count"@);
        assert(x[16].0 == "pool_contract"@);
        assert(x[17].0 == "block_height"@);
        assert(x[18].0 == "block_time"@);
    } else {
        assert(x[3].0 == "commit_amount_bluechip"@);
        assert(x[4].0 == "commit_amount_usd"@);
        assert(x[5].0 == "total_usd_raised_after"@);
        assert(x[6].0 == "total_commit_count"@);
        assert(x[7].0 == "pool_contract"@);
        assert(x[8].0 == "block_height"@);
        assert(x[9].0 == "block_time"@);
    }
}

} // verus!
