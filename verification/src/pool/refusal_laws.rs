//! Which refusal comes first, and that trades fail only where a number goes out of range.

use vstd::arithmetic::div_mod::*;
use vstd::prelude::*;

use crate::asset::{TokenInfo, TokenType};
use crate::chain::{Env, MessageInfo, Response};
use crate::error::StdError;
use crate::number::{Decimal, Timestamp, ONE};
use crate::pool::commit::{
    beyond_threshold, checked_commit, entered, excess_swap, phase_of, swapped_part, Phase,
};
use crate::pool::commit_laws::{
    creator_fee, dollars_missing, first_bluechips, first_tokens, left_over, lemma_checked_commit,
    lemma_seed, numbers_overflow, platform_fee, swapped_of,
};
use crate::pool::contract::{execute_outcome, HostAnswers};
use crate::pool::error::ContractError;
use crate::pool::generic_helpers::{payout_error, seeded};
use crate::pool::msg::{Cw20HookMsg, ExecuteMsg};
use crate::pool::query_laws::lemma_swap_refused;
use crate::pool::state::{PoolState, PoolStore};
use crate::pool::swap_helper::swap_outcome;
use crate::pool::swap_laws::{
    fees_overflow, growth_overflows, lemma_growth_is_ordered, lemma_swap_outcome, prices_overflow,
};
use crate::token_laws::one_token;

verus! {

/// Whether a call is refused with an error.
pub open spec fn is_refused(r: Result<Response, ContractError>, e: ContractError) -> bool {
    r matches Err(x) && x == e
}

/// Whether a deadline has passed.
pub open spec fn is_late(env: Env, deadline: Option<Timestamp>) -> bool {
    deadline matches Some(d) && d.nanos < env.time.nanos
}

/// Whether an account has to wait before it trades again.
pub open spec fn has_to_wait(store: PoolStore, env: Env, sender: Seq<char>) -> bool {
    let now = env.time.nanos as int / 1_000_000_000;
    &&& store.user_last_commit@.dom().contains(sender)
    &&& store.pool_specs.min_commit_interval > 0
    &&& now < store.user_last_commit@[sender] + store.pool_specs.min_commit_interval
}

/// The checks of a commit come in order: whether the pool is paused or drained, the deadline, the
/// lock, the interval, and then what is committed.
pub proof fn law_commits_are_checked_in_order(
    before: PoolStore,
    after: PoolStore,
    env: Env,
    info: MessageInfo,
    asset: TokenInfo,
    transaction_deadline: Option<Timestamp>,
    belief_price: Option<Decimal>,
    max_spread: Option<Decimal>,
    host: HostAnswers,
    r: Result<Response, ContractError>,
)
    requires
        execute_outcome(
            before,
            after,
            env,
            info,
            ExecuteMsg::Commit { asset, transaction_deadline, belief_price, max_spread },
            host,
            r,
        ),
    ensures
        ({
            let infos = before.pool_info.pool_info.asset_infos;
            if before.paused {
                is_refused(r, ContractError::PoolPausedLowLiquidity {  }) && after == before
            } else if before.drained {
                is_refused(r, ContractError::EmergencyDrained {  }) && after == before
            } else if is_late(env, transaction_deadline) {
                is_refused(r, ContractError::TransactionExpired {  }) && after == before
            } else if before.reentrancy_lock {
                is_refused(r, ContractError::ReentrancyGuard {  }) && after == before
            } else if has_to_wait(before, env, info.sender@) {
                (r matches Err(e) && e is TooFrequentCommits) && after == before
            } else if !one_token(asset.info, infos[0]) && !one_token(asset.info, infos[1]) {
                is_refused(r, ContractError::AssetMismatch {  })
            } else if asset.amount == 0 {
                is_refused(r, ContractError::ZeroAmount {  })
            } else {
                match host.quotes.usd_value {
                    Err(x) => is_refused(r, ContractError::Std(x)),
                    Ok(usd) => if usd == 0 {
                        is_refused(r, ContractError::InvalidOraclePrice {  })
                    } else if usd < 1_000_000 {
                        is_refused(
                            r,
                            ContractError::Std(StdError::CommitTooSmall { usd_value: usd }),
                        )
                    } else {
                        true
                    },
                }
            }
        }),
{
    let infos = before.pool_info.pool_info.asset_infos;
    assert(asset.info.same(infos[0]) == one_token(asset.info, infos[0]));
    assert(asset.info.same(infos[1]) == one_token(asset.info, infos[1]));
}

/// Whether the checks of a swap that has been let in refuse it, in order.
pub open spec fn swap_is_checked(
    store: PoolStore,
    env: Env,
    sender: Seq<char>,
    offer: TokenType,
    deadline: Option<Timestamp>,
    r: Result<Response, ContractError>,
) -> bool {
    let infos = store.pool_info.pool_info.asset_infos;
    if is_late(env, deadline) {
        is_refused(r, ContractError::TransactionExpired {  })
    } else if store.reentrancy_lock {
        is_refused(r, ContractError::ReentrancyGuard {  })
    } else if has_to_wait(store, env, sender) {
        r matches Err(e) && e is TooFrequentCommits
    } else if !one_token(offer, infos[0]) && !one_token(offer, infos[1]) {
        is_refused(r, ContractError::AssetMismatch {  })
    } else if store.paused {
        is_refused(r, ContractError::PoolPausedLowLiquidity {  })
    } else if store.pool_state.reserve0 < 1000 || store.pool_state.reserve1 < 1000 {
        is_refused(r, ContractError::InsufficientReserves {  })
    } else {
        true
    }
}

/// The checks of a swap come in order: the threshold, the payment, the addresses, the deadline,
/// the lock, the interval, the pair, whether the pool is paused, and its reserves.
pub proof fn law_swaps_are_checked_in_order(
    before: PoolStore,
    after: PoolStore,
    env: Env,
    info: MessageInfo,
    msg: ExecuteMsg,
    host: HostAnswers,
    r: Result<Response, ContractError>,
)
    requires
        execute_outcome(before, after, env, info, msg, host, r),
    ensures
        ({
            let infos = before.pool_info.pool_info.asset_infos;
            let open = before.threshold_hit || before.usd_raised
                >= before.commit_limits.commit_amount_for_threshold_usd;
            &&& msg matches ExecuteMsg::SimpleSwap { offer_asset, transaction_deadline, .. } ==> {
                let paid = info.funds@.len() == 1 && info.funds@[0].amount > 0
                    && info.funds@[0].amount == offer_asset.amount && (
                offer_asset.info matches TokenType::Bluechip { denom } && denom@
                    == info.funds@[0].denom@);
                if !open {
                    is_refused(r, ContractError::ShortOfThreshold {  }) && after == before
                } else if !paid {
                    (r matches Err(e) && e is Std) && after == before
                } else if host.to is Err {
                    is_refused(r, ContractError::Std(host.to->Err_0)) && after == before
                } else {
                    swap_is_checked(
                        before,
                        env,
                        info.sender@,
                        offer_asset.info,
                        transaction_deadline,
                        r,
                    )
                }
            }
            &&& msg matches ExecuteMsg::Receive(cw20_msg) ==> {
                let own = TokenType::CreatorToken { contract_addr: info.sender };
                if !open {
                    is_refused(r, ContractError::ShortOfThreshold {  }) && after == before
                } else if cw20_msg.amount == 0 {
                    is_refused(r, ContractError::ZeroAmount {  }) && after == before
                } else if host.hook is Err {
                    is_refused(r, ContractError::Std(host.hook->Err_0)) && after == before
                } else if !one_token(own, infos[0]) && !one_token(own, infos[1]) {
                    is_refused(r, ContractError::Unauthorized {  }) && after == before
                } else if host.to is Err {
                    is_refused(r, ContractError::Std(host.to->Err_0)) && after == before
                } else if host.cw20_sender is Err {
                    is_refused(r, ContractError::Std(host.cw20_sender->Err_0)) && after == before
                } else {
                    let Cw20HookMsg::Swap { transaction_deadline, .. } = host.hook->Ok_0;
                    swap_is_checked(
                        before,
                        env,
                        host.cw20_sender->Ok_0@,
                        own,
                        transaction_deadline,
                        r,
                    )
                }
            }
        }),
{
    let infos = before.pool_info.pool_info.asset_infos;
    match msg {
        ExecuteMsg::SimpleSwap { offer_asset, .. } => {
            assert(offer_asset.info.same(infos[0]) == one_token(offer_asset.info, infos[0]));
            assert(offer_asset.info.same(infos[1]) == one_token(offer_asset.info, infos[1]));
        },
        ExecuteMsg::Receive(_) => {
            let own = TokenType::CreatorToken { contract_addr: info.sender };
            assert(own.same(infos[0]) == one_token(own, infos[0]));
            assert(own.same(infos[1]) == one_token(own, infos[1]));
        },
        _ => {},
    }
}

/// The checks of the calls of the factory and of claims come in order: who calls, or how late,
/// and then what there is to do.
pub proof fn law_other_calls_are_checked_in_order(
    before: PoolStore,
    after: PoolStore,
    env: Env,
    info: MessageInfo,
    msg: ExecuteMsg,
    host: HostAnswers,
    r: Result<Response, ContractError>,
)
    requires
        execute_outcome(before, after, env, info, msg, host, r),
    ensures
        ({
            let factory = info.sender@ == before.pool_info.factory_addr@;
            &&& (msg is CancelEmergencyWithdraw || msg is EmergencyWithdraw
                || msg is UpdateConfigFromFactory || msg is Pause || msg is Unpause) && !factory
                ==> is_refused(r, ContractError::Unauthorized {  })
            &&& msg is RecoverStuckStates && info.sender@
                != before.expected_factory.expected_factory_address@ ==> is_refused(
                r,
                ContractError::Unauthorized {  },
            )
            &&& msg matches ExecuteMsg::ClaimCreatorFees { transaction_deadline } ==> if is_late(
                env,
                transaction_deadline,
            ) {
                is_refused(r, ContractError::TransactionExpired {  })
            } else if info.sender@ != before.fee_info.creator_wallet_address@ {
                is_refused(r, ContractError::Unauthorized {  })
            } else {
                before.creator_fee_pot.amount_0 == 0 && before.creator_fee_pot.amount_1 == 0
                    ==> is_refused(r, ContractError::ZeroAmount {  })
            }
            &&& msg matches ExecuteMsg::ClaimCreatorExcessLiquidity { transaction_deadline } ==> if is_late(
                env,
                transaction_deadline,
            ) {
                is_refused(r, ContractError::TransactionExpired {  })
            } else {
                match before.creator_excess {
                    None => r matches Err(ContractError::Std(StdError::NotFound(_))),
                    Some(x) => if info.sender@ != x.creator@ {
                        is_refused(r, ContractError::Unauthorized {  })
                    } else {
                        env.time.nanos < x.unlock_time.nanos ==> is_refused(
                            r,
                            ContractError::PositionLocked { unlock_time: x.unlock_time },
                        )
                    },
                }
            }
            &&& msg matches ExecuteMsg::UpdateConfigFromFactory { update } ==> {
                &&& factory && (update.lp_fee matches Some(fee) && fee.atomics
                    > 100_000_000_000_000_000) ==> is_refused(
                    r,
                    ContractError::Std(StdError::Generic("lp_fee must not exceed 10% (0.1)")),
                )
                &&& factory && (update.lp_fee matches Some(fee) && fee.atomics
                    < 1_000_000_000_000_000) ==> is_refused(
                    r,
                    ContractError::Std(StdError::Generic("lp_fee must be at least 0.1% (0.001)")),
                )
            }
        }),
{
}

/// Whether a number of a commit after the threshold goes out of range.
pub open spec fn late_commit_overflows(
    store: PoolStore,
    env: Env,
    sender: Seq<char>,
    amount: int,
    usd: int,
) -> bool {
    let s = store.pool_state;
    let o = s.reserve0 as int;
    let k = s.reserve1 as int;
    let kept = amount - platform_fee(store, amount) - creator_fee(store, amount);
    ||| numbers_overflow(store, sender, amount, usd)
    ||| o + kept > u128::MAX
    ||| prices_overflow(s, env.time.nanos as int / 1_000_000_000)
    ||| fees_overflow(store.fee_state, k)
    ||| growth_overflows(store.fee_state, s.total_liquidity as int, k)
    ||| store.pool_specs.lp_fee.atomics > ONE
    ||| kept * (k * ONE / o) / (ONE as int) > u128::MAX
}

/// A commit after the threshold that is worth a dollar fails with an error of the chain only where
/// a number goes out of range, or the pair has no coins.
#[verifier::rlimit(60)]
pub proof fn law_late_commits_fail_for_a_number(
    before: PoolStore,
    after: PoolStore,
    env: Env,
    info: MessageInfo,
    asset: TokenInfo,
    transaction_deadline: Option<Timestamp>,
    belief_price: Option<Decimal>,
    max_spread: Option<Decimal>,
    host: HostAnswers,
    usd: u128,
    x: StdError,
)
    requires
        execute_outcome(
            before,
            after,
            env,
            info,
            ExecuteMsg::Commit { asset, transaction_deadline, belief_price, max_spread },
            host,
            Err(ContractError::Std(x)),
        ),
        host.quotes.usd_value == Ok::<u128, StdError>(usd),
        usd >= 1_000_000,
        before.threshold_hit,
        before.pool_state.reserve0 > 0,
    ensures
        late_commit_overflows(before, env, info.sender@, asset.amount as int, usd as int)
            || crate::pool::commit_laws::no_native(before),
{
    let begun = entered(before, after.user_last_commit);
    lemma_checked_commit(begun, info, asset, host.quotes.usd_value);
    lemma_fees_are_parts(before, asset.amount as int);
    if let Ok(c) = checked_commit(begun, info, asset, host.quotes.usd_value) {
        let s = before.pool_state;
        let o = s.reserve0 as int;
        let k = s.reserve1 as int;
        let kept = c.amount_after_fees as int;
        let rate = before.pool_specs.lp_fee.atomics as int;
        lemma_swap_outcome(o, k, kept, rate);
        match swap_outcome(o, k, kept, rate) {
            Ok((ret, spread, commission)) => {
                if s.total_liquidity > 0 {
                    lemma_growth_is_ordered(commission as int, k, s.total_liquidity as int);
                }
            },
            Err(_) => {
                lemma_swap_refused(o, k, kept, rate);
            },
        }
    }
}

proof fn lemma_fees_are_parts(store: PoolStore, amount: int)
    requires
        amount >= 0,
    ensures
        platform_fee(store, amount) >= 0,
        creator_fee(store, amount) >= 0,
{
    let f = store.fee_info.commit_fee_bluechip.atomics as int;
    let g = store.fee_info.commit_fee_creator.atomics as int;
    assert(amount * f >= 0 && amount * g >= 0) by (nonlinear_arith)
        requires
            amount >= 0,
            f >= 0,
            g >= 0,
    ;
    lemma_div_pos_is_pos(amount * f, ONE as int);
    lemma_div_pos_is_pos(amount * g, ONE as int);
}

/// Whether a number of the commit that opens the pool goes out of range, or the payout is not the
/// one that pools are set up with.
pub open spec fn opening_overflows(
    store: PoolStore,
    env: Env,
    sender: Seq<char>,
    amount: int,
    usd: int,
    to_threshold: int,
) -> bool {
    let missing = dollars_missing(store);
    let split = usd > missing && missing > 0;
    let funded = if split {
        to_threshold
    } else {
        amount
    };
    let raised = store.native_raised + funded;
    let r0 = first_bluechips(store, raised);
    let r1 = first_tokens(store, raised);
    let x = swapped_of(r0, left_over(store, amount, funded));
    let payout = store.threshold_payout;
    ||| numbers_overflow(store, sender, amount, usd)
    ||| payout.creator_reward_amount + payout.bluechip_reward_amount + payout.pool_seed_amount
        + payout.commit_return_amount != 1_200_000_000_000
    ||| store.fee_info.commit_fee_bluechip.atomics + store.fee_info.commit_fee_creator.atomics > ONE
    ||| r0 * r1 > u128::MAX
    ||| split && {
        ||| to_threshold > amount
        ||| prices_overflow(
            PoolState { reserve0: r0 as u128, reserve1: r1 as u128, ..store.pool_state },
            env.time.nanos as int / 1_000_000_000,
        )
        ||| r0 + x > u128::MAX
        ||| store.fee_state.fee_reserve_0 + r1 > u128::MAX
        ||| store.fee_state.fee_reserve_1 + r1 > u128::MAX
        ||| store.pool_specs.lp_fee.atomics > ONE
        ||| x * (r1 * ONE / r0) / (ONE as int) > u128::MAX
    }
}

/// The commit that opens the pool fails with an error of the chain only where a number goes out of
/// range, the payout is another one, the pair has no coins, or the price to the threshold cannot
/// be told.
#[verifier::rlimit(60)]
pub proof fn law_openings_fail_for_a_number(
    before: PoolStore,
    after: PoolStore,
    env: Env,
    info: MessageInfo,
    asset: TokenInfo,
    transaction_deadline: Option<Timestamp>,
    belief_price: Option<Decimal>,
    max_spread: Option<Decimal>,
    host: HostAnswers,
    usd: u128,
    x: StdError,
)
    requires
        execute_outcome(
            before,
            after,
            env,
            info,
            ExecuteMsg::Commit { asset, transaction_deadline, belief_price, max_spread },
            host,
            Err(ContractError::Std(x)),
        ),
        host.quotes.usd_value == Ok::<u128, StdError>(usd),
        usd >= 1_000_000,
        !before.threshold_hit && !before.threshold_processing,
        before.usd_raised + usd >= before.commit_limits.commit_amount_for_threshold_usd,
    ensures
        opening_overflows(
            before,
            env,
            info.sender@,
            asset.amount as int,
            usd as int,
            host.quotes.to_threshold->Ok_0 as int,
        ) || host.quotes.to_threshold == Err::<u128, StdError>(x)
            || crate::pool::commit_laws::no_native(before),
{
    let begun = entered(before, after.user_last_commit);
    lemma_checked_commit(begun, info, asset, host.quotes.usd_value);
    lemma_fees_are_parts(before, asset.amount as int);
    if let Ok(c) = checked_commit(begun, info, asset, host.quotes.usd_value) {
        let amount = asset.amount as int;
        let missing = dollars_missing(before);
        let split = usd > missing && missing > 0;
        let rate = before.pool_specs.lp_fee.atomics as int;
        if before.usd_raised + usd <= u128::MAX {
            if split {
                assert(phase_of(begun, usd) == Ok::<Phase, ContractError>(Phase::Crossing));
                if let Ok(funded) = host.quotes.to_threshold {
                    if funded <= amount && before.native_raised + funded <= u128::MAX {
                        let raised = (before.native_raised + funded) as u128;
                        crate::pool::generic_helpers::lemma_part_of(
                            c.amount_after_fees as int,
                            funded as int,
                            amount,
                        );
                        if payout_error(
                            raised,
                            before.commit_limits,
                            before.threshold_payout,
                            before.fee_info,
                        ) is None {
                            lemma_seed(before, raised);
                            let s = seeded(
                                before.pool_state,
                                raised,
                                before.commit_limits,
                                before.threshold_payout,
                                before.fee_info,
                            );
                            let excess = beyond_threshold(
                                amount,
                                c.amount_after_fees as int,
                                funded as int,
                            );
                            let swapped = swapped_part(s, excess);
                            let o = s.reserve0 as int;
                            let k = s.reserve1 as int;
                            lemma_div_pos_is_pos(o * 20, 100);
                            lemma_div_is_ordered(o * 20, o * 100, 100);
                            if o > 0 && k > 0 && swapped > 0 {
                                lemma_swap_outcome(o, k, swapped, rate);
                                if swap_outcome(o, k, swapped, rate) is Err {
                                    lemma_swap_refused(o, k, swapped, rate);
                                }
                            }
                            if let Ok((ret, spread, commission)) = excess_swap(s, swapped, rate) {
                                assert(0 <= commission <= k);
                                if s.total_liquidity > 0 {
                                    lemma_small_growth(commission as int, s.total_liquidity as int);
                                }
                            }
                        } else {
                            lemma_payout_error(before, raised);
                        }
                    }
                }
            } else {
                assert(phase_of(begun, usd) == Ok::<Phase, ContractError>(Phase::Exact));
                if before.native_raised + amount <= u128::MAX {
                    let raised = (before.native_raised + amount) as u128;
                    if payout_error(
                        raised,
                        before.commit_limits,
                        before.threshold_payout,
                        before.fee_info,
                    ) is Some {
                        lemma_payout_error(before, raised);
                    }
                }
            }
        }
    }
}

proof fn lemma_payout_error(store: PoolStore, raised: u128)
    requires
        payout_error(raised, store.commit_limits, store.threshold_payout, store.fee_info) is Some,
    ensures
        ({
            let payout = store.threshold_payout;
            ||| payout.creator_reward_amount + payout.bluechip_reward_amount
                + payout.pool_seed_amount + payout.commit_return_amount != 1_200_000_000_000
            ||| store.fee_info.commit_fee_bluechip.atomics
                + store.fee_info.commit_fee_creator.atomics > ONE
            ||| first_bluechips(store, raised as int) * first_tokens(store, raised as int)
                > u128::MAX
        }),
{
}

proof fn lemma_small_growth(commission: int, shares: int)
    requires
        0 <= commission <= 1_200_000_000_000,
        shares > 0,
    ensures
        0 <= commission * ONE / shares <= u128::MAX,
{
    assert(0 <= commission * ONE <= 1_200_000_000_000 * ONE) by (nonlinear_arith)
        requires
            0 <= commission <= 1_200_000_000_000,
    ;
    lemma_div_pos_is_pos(commission * ONE, shares);
    lemma_div_nonincreasing(commission * ONE, shares);
}

} // verus!
