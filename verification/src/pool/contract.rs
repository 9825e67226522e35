//! The calls of a pool: setting it up, swaps, and the dispatch of messages.

use vstd::prelude::*;
use vstd::string::*;

use crate::asset::{
    offer_sent, transfer_msg, PoolPairType, TokenInfo, TokenInfoPoolExt, TokenType,
};
use crate::chain::{at_block, Addr, CosmosMsg, Env, MessageInfo, Pair, Response};
use crate::error::{OverflowOperation, StdError};
use crate::number::{
    decimal_from_ratio, decimal_text, decimal_to_text, ratio, ratio_defined, Decimal, Timestamp,
    ONE,
};
use crate::pool::admin::{
    cancel_outcome, check_lp_fee, emergency_defined, emergency_outcome, ensure_not_drained,
    execute_cancel_emergency_withdraw, execute_emergency_withdraw, execute_pause,
    execute_recover_stuck_states, execute_unpause, execute_update_config_from_factory,
    lp_fee_check, pause_outcome, recover_outcome, update_outcome,
};
use crate::pool::commit::{
    commit, commit_defined, continue_outcome, count_swap, counters_ok, entered, entered_and_left,
    execute_continue_distribution, guarded_commit_outcome, lemma_swap_is_covered, one_swap,
    turned_away, with_reserves, Quotes, Trade,
};
use crate::pool::error::{in_pool, overflow, sum, ContractError};
use crate::pool::generic_helpers::{
    check_rate_limit, enforce_transaction_deadline, fee_growth, fee_growth_defined, payout_check,
    update_pool_fee_growth, validate_pool_threshold_payments,
};
use crate::pool::liquidity_helpers::{
    claim_excess_outcome, claim_fees_outcome, execute_claim_creator_excess,
    execute_claim_creator_fees, list_position, listed,
};
use crate::pool::msg::{
    CommitPoolInstantiateMsg, Cw20HookMsg, Cw20ReceiveMsg, ExecuteMsg, MigrateMsg,
};
use crate::pool::query::{committed_enough, query_check_commit};
use crate::pool::state::{
    no_analytics, CommitLimitInfo, Committing, CreatorFeePot, ExpectedFactory, OracleInfo,
    PoolAnalytics, PoolDetails, PoolFeeState, PoolInfo, PoolSpecs, PoolState, PoolStore, Position,
    ThresholdPayoutAmounts, MINIMUM_LIQUIDITY, REPLY_ID_FACTORY_NOTIFY_INITIAL,
    REPLY_ID_FACTORY_NOTIFY_RETRY,
};
use crate::pool::swap_helper::{
    accumulated, assert_max_spread, compute_swap, spread_check, spread_check_defined,
    swap_outcome, update_price_accumulator,
};
use crate::table::Table;
use crate::text::digits;

verus! {

/// Which of the two tokens of the pool is offered.
pub open spec fn offer_index_of(store: PoolStore, token: TokenType) -> Option<usize> {
    let infos = store.pool_info.pool_info.asset_infos;
    if token.same(infos[0]) {
        Some(0usize)
    } else if token.same(infos[1]) {
        Some(1usize)
    } else {
        None
    }
}

/// The reserve of the token that is offered, and of the one that is asked for.
pub open spec fn offer_and_ask(store: PoolStore, offer_index: usize) -> (u128, u128) {
    if offer_index == 0 {
        (store.pool_state.reserve0, store.pool_state.reserve1)
    } else {
        (store.pool_state.reserve1, store.pool_state.reserve0)
    }
}

/// Why a swap is not even priced, where it is not.
pub open spec fn swap_refused(store: PoolStore, token: TokenType) -> Option<ContractError> {
    if offer_index_of(store, token) is None {
        Some(ContractError::AssetMismatch {  })
    } else if store.paused {
        Some(ContractError::PoolPausedLowLiquidity {  })
    } else if store.pool_state.reserve0 < MINIMUM_LIQUIDITY || store.pool_state.reserve1
        < MINIMUM_LIQUIDITY {
        Some(ContractError::InsufficientReserves {  })
    } else {
        None
    }
}

/// What a swap comes to.
pub open spec fn simple_trade(
    store: PoolStore,
    env: Env,
    offer: TokenInfo,
    belief_price: Option<Decimal>,
    max_spread: Option<Decimal>,
) -> Result<Trade, ContractError> {
    let s = store.pool_state;
    let index = offer_index_of(store, offer.info)->Some_0;
    let (offer_pool, ask_pool) = offer_and_ask(store, index);
    if swap_refused(store, offer.info) is Some {
        Err(swap_refused(store, offer.info)->Some_0)
    } else {
        match swap_outcome(
            offer_pool as int,
            ask_pool as int,
            offer.amount as int,
            store.pool_specs.lp_fee.atomics as int,
        ) {
            Err(e) => Err(ContractError::Std(e)),
            Ok((ret, spread, commission)) => match spread_check(
                belief_price,
                max_spread,
                offer.amount as int,
                ret + commission,
                spread as int,
            ) {
                Err(e) => Err(e),
                Ok(_) => if offer_pool + offer.amount > u128::MAX {
                    Err(overflow(OverflowOperation::Add))
                } else if ask_pool - ret - commission < MINIMUM_LIQUIDITY {
                    Err(ContractError::InsufficientReserves {  })
                } else {
                    match accumulated(s, env.time.seconds()) {
                        Err(e) => Err(e),
                        Ok(priced) => match fee_growth(
                            store.fee_state,
                            s.total_liquidity,
                            index,
                            commission,
                        ) {
                            Err(e) => Err(e),
                            Ok(fee_state) => Ok(
                                Trade {
                                    pool_state: with_reserves(
                                        priced,
                                        index,
                                        offer_pool + offer.amount,
                                        ask_pool - ret - commission,
                                    ),
                                    fee_state,
                                    return_amt: ret,
                                    spread_amt: spread,
                                    commission_amt: commission,
                                },
                            ),
                        },
                    }
                },
            },
        }
    }
}

/// Whether a swap stays in range: the spread, the fees of one share and the price paid are
/// numbers in range.
pub open spec fn simple_trade_defined(
    store: PoolStore,
    offer: TokenInfo,
    belief_price: Option<Decimal>,
    max_spread: Option<Decimal>,
) -> bool {
    let s = store.pool_state;
    let index = offer_index_of(store, offer.info)->Some_0;
    let (offer_pool, ask_pool) = offer_and_ask(store, index);
    swap_refused(store, offer.info) is None ==> (swap_outcome(
        offer_pool as int,
        ask_pool as int,
        offer.amount as int,
        store.pool_specs.lp_fee.atomics as int,
    ) matches Ok((ret, spread, commission)) ==> {
        &&& spread_check_defined(
            belief_price,
            offer.amount as int,
            ret + commission,
            spread as int,
        )
        &&& spread_check(
            belief_price,
            max_spread,
            offer.amount as int,
            ret + commission,
            spread as int,
        ) is Ok ==> {
            &&& fee_growth_defined(s.total_liquidity, commission)
            &&& offer.amount != 0 ==> ratio_defined(ret as int, offer.amount as int)
        }
    })
}

fn trade_simple(
    store: &PoolStore,
    env: &Env,
    offer: &TokenInfo,
    belief_price: Option<Decimal>,
    max_spread: Option<Decimal>,
) -> (r: Result<(Trade, usize), ContractError>)
    requires
        simple_trade_defined(*store, *offer, belief_price, max_spread),
    ensures
        match r {
            Ok((trade, index)) => simple_trade(*store, *env, *offer, belief_price, max_spread)
                == Ok::<Trade, ContractError>(trade) && offer_index_of(*store, offer.info) == Some(
                index,
            ),
            Err(e) => simple_trade(*store, *env, *offer, belief_price, max_spread) == Err::<
                Trade,
                ContractError,
            >(e),
        },
{
    let (index, offer_pool, ask_pool): (usize, u128, u128) = if offer.info.equal(
        &store.pool_info.pool_info.asset_infos[0],
    ) {
        (0, store.pool_state.reserve0, store.pool_state.reserve1)
    } else if offer.info.equal(&store.pool_info.pool_info.asset_infos[1]) {
        (1, store.pool_state.reserve1, store.pool_state.reserve0)
    } else {
        return Err(ContractError::AssetMismatch {  });
    };
    if store.paused {
        return Err(ContractError::PoolPausedLowLiquidity {  });
    }
    if store.pool_state.reserve0 < MINIMUM_LIQUIDITY || store.pool_state.reserve1
        < MINIMUM_LIQUIDITY {
        return Err(ContractError::InsufficientReserves {  });
    }
    let (return_amt, spread_amt, commission_amt): (u128, u128, u128) = in_pool(
        compute_swap(offer_pool, ask_pool, offer.amount, store.pool_specs.lp_fee),
    )?;
    proof {
        lemma_swap_is_covered(
            offer_pool as int,
            ask_pool as int,
            offer.amount as int,
            store.pool_specs.lp_fee.atomics as int,
        );
    }
    let gross: u128 = return_amt + commission_amt;
    assert_max_spread(belief_price, max_spread, offer.amount, gross, spread_amt)?;
    let offer_after: u128 = sum(offer_pool, offer.amount)?;
    let ask_after: u128 = ask_pool - gross;
    if ask_after < MINIMUM_LIQUIDITY {
        return Err(ContractError::InsufficientReserves {  });
    }
    let mut pool_state = store.pool_state.clone();
    update_price_accumulator(&mut pool_state, env.time.seconds())?;
    if index == 0 {
        pool_state.reserve0 = offer_after;
        pool_state.reserve1 = ask_after;
    } else {
        pool_state.reserve0 = ask_after;
        pool_state.reserve1 = offer_after;
    }
    let mut fee_state = store.fee_state;
    update_pool_fee_growth(&mut fee_state, &pool_state, index, commission_amt)?;
    Ok((Trade { pool_state, fee_state, return_amt, spread_amt, commission_amt }, index))
}

/// The token that a swap asks for.
pub open spec fn ask_token(store: PoolStore, offer_index: usize) -> TokenType {
    if offer_index == 0 {
        store.pool_info.pool_info.asset_infos[1]
    } else {
        store.pool_info.pool_info.asset_infos[0]
    }
}

/// The ask tokens that were received for one of the offered ones.
pub open spec fn price_text(return_amt: u128, offer_amount: u128) -> Seq<char> {
    if offer_amount == 0 {
        "0"@
    } else {
        decimal_text(
            Decimal { atomics: ratio(return_amt as int, offer_amount as int) as u128 },
        )
    }
}

fn render_price(return_amt: u128, offer_amount: u128) -> (r: String)
    requires
        offer_amount != 0 ==> ratio_defined(return_amt as int, offer_amount as int),
    ensures
        r@ == price_text(return_amt, offer_amount),
{
    if offer_amount == 0 {
        "0".to_string()
    } else {
        decimal_to_text(decimal_from_ratio(return_amt, offer_amount))
    }
}

/// The attributes of a swap.
pub open spec fn swap_attrs(
    after: PoolStore,
    trade: Trade,
    env: Env,
    sender: Addr,
    receiver: Addr,
    offer: TokenInfo,
    ask: TokenType,
) -> Seq<Pair> {
    at_block(
        Seq::<Pair>::empty().push(("action"@, "swap"@)).push(("sender"@, sender@)).push(
            ("receiver"@, receiver@),
        ).push(("offer_asset"@, offer.info.name())).push(("ask_asset"@, ask.name())).push(
            ("offer_amount"@, digits(offer.amount as nat)),
        ).push(("return_amount"@, digits(trade.return_amt as nat))).push(
            ("spread_amount"@, digits(trade.spread_amt as nat)),
        ).push(("commission_amount"@, digits(trade.commission_amt as nat))).push(
            ("effective_price"@, price_text(trade.return_amt, offer.amount)),
        ).push(("reserve0_after"@, digits(after.pool_state.reserve0 as nat))).push(
            ("reserve1_after"@, digits(after.pool_state.reserve1 as nat)),
        ).push(
            ("total_fee_collected_0"@, digits(after.fee_state.total_fees_collected_0 as nat)),
        ).push(
            ("total_fee_collected_1"@, digits(after.fee_state.total_fees_collected_1 as nat)),
        ).push(("pool_contract"@, after.pool_state.pool_contract_address@)),
        env,
    ).push(("total_swap_count"@, digits(after.analytics.total_swap_count as nat)))
}

/// What a swap does, and what it answers.
pub open spec fn swap_outcome_of(
    before: PoolStore,
    after: PoolStore,
    env: Env,
    sender: Addr,
    offer: TokenInfo,
    belief_price: Option<Decimal>,
    max_spread: Option<Decimal>,
    to: Option<Addr>,
    r: Result<Response, ContractError>,
) -> bool {
    let index = offer_index_of(before, offer.info)->Some_0;
    let receiver = match to {
        Some(to) => to,
        None => sender,
    };
    match simple_trade(before, env, offer, belief_price, max_spread) {
        Err(e) => r == Err::<Response, ContractError>(e) && after == before,
        Ok(trade) => {
            &&& after == (PoolStore {
                pool_state: trade.pool_state,
                fee_state: trade.fee_state,
                analytics: if index == 0 {
                    one_swap(before.analytics, offer.amount, trade.return_amt, env)
                } else {
                    one_swap(before.analytics, trade.return_amt, offer.amount, env)
                },
                ..before
            })
            &&& r matches Ok(resp)
            &&& resp.messages@ == (if trade.return_amt == 0 {
                Seq::<CosmosMsg>::empty()
            } else {
                seq![transfer_msg(ask_token(before, index), trade.return_amt, receiver)]
            })
            &&& resp.attrs() == swap_attrs(
                after,
                trade,
                env,
                sender,
                receiver,
                offer,
                ask_token(before, index),
            )
        },
    }
}

/// Swaps an amount of one token of the pool for the other. A swap that is refused leaves
/// everything as it was.
pub fn execute_simple_swap(
    store: &mut PoolStore,
    env: &Env,
    sender: &Addr,
    offer_asset: &TokenInfo,
    belief_price: Option<Decimal>,
    max_spread: Option<Decimal>,
    to: Option<Addr>,
) -> (r: Result<Response, ContractError>)
    requires
        old(store).wf(),
        counters_ok(old(store).analytics),
        simple_trade_defined(*old(store), *offer_asset, belief_price, max_spread),
    ensures
        final(store).wf(),
        swap_outcome_of(
            *old(store),
            *final(store),
            *env,
            *sender,
            *offer_asset,
            belief_price,
            max_spread,
            to,
            r,
        ),
{
    let (trade, index) = trade_simple(store, env, offer_asset, belief_price, max_spread)?;
    let ask_info = if index == 0 {
        store.pool_info.pool_info.asset_infos[1].clone()
    } else {
        store.pool_info.pool_info.asset_infos[0].clone()
    };
    store.fee_state = trade.fee_state;
    store.pool_state = trade.pool_state;
    if index == 0 {
        count_swap(&mut store.analytics, offer_asset.amount, trade.return_amt, env);
    } else {
        count_swap(&mut store.analytics, trade.return_amt, offer_asset.amount, env);
    }
    let receiver = match to {
        Some(to) => to,
        None => sender.clone(),
    };
    let mut messages: Vec<CosmosMsg> = Vec::new();
    if trade.return_amt != 0 {
        let payment = TokenInfo { info: ask_info.clone(), amount: trade.return_amt };
        messages.push(payment.into_msg(receiver.clone()));
    }
    assert(messages@ =~= if trade.return_amt == 0 {
        Seq::<CosmosMsg>::empty()
    } else {
        seq![transfer_msg(ask_info, trade.return_amt, receiver)]
    });
    let price = render_price(trade.return_amt, offer_asset.amount);
    Ok(
        Response::with_messages(messages).attr("action", "swap").attr(
            "sender",
            sender.as_str(),
        ).attr("receiver", receiver.as_str()).attr("offer_asset", offer_asset.info.text()).attr(
            "ask_asset",
            ask_info.text(),
        ).attr_number("offer_amount", offer_asset.amount).attr_number(
            "return_amount",
            trade.return_amt,
        ).attr_number("spread_amount", trade.spread_amt).attr_number(
            "commission_amount",
            trade.commission_amt,
        ).attr("effective_price", price.as_str()).attr_number(
            "reserve0_after",
            store.pool_state.reserve0,
        ).attr_number("reserve1_after", store.pool_state.reserve1).attr_number(
            "total_fee_collected_0",
            store.fee_state.total_fees_collected_0,
        ).attr_number("total_fee_collected_1", store.fee_state.total_fees_collected_1).attr(
            "pool_contract",
            store.pool_state.pool_contract_address.as_str(),
        ).at_block(env).attr_number(
            "total_swap_count",
            store.analytics.total_swap_count as u128,
        ),
    )
}

/// What a swap does that is guarded by its deadline, the lock and the rate limit.
pub open spec fn guarded_swap_outcome(
    before: PoolStore,
    after: PoolStore,
    env: Env,
    sender: Addr,
    offer: TokenInfo,
    belief_price: Option<Decimal>,
    max_spread: Option<Decimal>,
    to: Option<Addr>,
    deadline: Option<Timestamp>,
    r: Result<Response, ContractError>,
) -> bool {
    match turned_away(before, env, sender@, deadline) {
        Some(e) => r == Err::<Response, ContractError>(e) && after == before,
        None => {
            &&& entered_and_left(before, after, env, sender@)
            &&& swap_outcome_of(
                entered(before, after.user_last_commit),
                PoolStore { reentrancy_lock: true, ..after },
                env,
                sender,
                offer,
                belief_price,
                max_spread,
                to,
                r,
            )
        },
    }
}

/// Whether a guarded swap stays in range.
pub open spec fn guarded_swap_defined(
    store: PoolStore,
    env: Env,
    sender: Addr,
    offer: TokenInfo,
    belief_price: Option<Decimal>,
    max_spread: Option<Decimal>,
    deadline: Option<Timestamp>,
) -> bool {
    turned_away(store, env, sender@, deadline) is None ==> simple_trade_defined(
        store,
        offer,
        belief_price,
        max_spread,
    )
}

/// Swaps, guarded by a deadline, the lock and the rate limit. The sender of a swap that is
/// refused once it has been looked at stays noted; whoever calls discards all changes of a
/// refused call.
pub fn simple_swap(
    store: &mut PoolStore,
    env: &Env,
    sender: &Addr,
    offer_asset: &TokenInfo,
    belief_price: Option<Decimal>,
    max_spread: Option<Decimal>,
    to: Option<Addr>,
    transaction_deadline: Option<Timestamp>,
) -> (r: Result<Response, ContractError>)
    requires
        old(store).wf(),
        counters_ok(old(store).analytics),
        guarded_swap_defined(
            *old(store),
            *env,
            *sender,
            *offer_asset,
            belief_price,
            max_spread,
            transaction_deadline,
        ),
    ensures
        final(store).wf(),
        guarded_swap_outcome(
            *old(store),
            *final(store),
            *env,
            *sender,
            *offer_asset,
            belief_price,
            max_spread,
            to,
            transaction_deadline,
            r,
        ),
{
    enforce_transaction_deadline(env.time, transaction_deadline)?;
    if store.reentrancy_lock {
        return Err(ContractError::ReentrancyGuard {  });
    }
    check_rate_limit(&mut store.user_last_commit, env, &store.pool_specs, sender)?;
    store.reentrancy_lock = true;
    let ghost begun = *store;
    let result = execute_simple_swap(
        store,
        env,
        sender,
        offer_asset,
        belief_price,
        max_spread,
        to,
    );
    let ghost ended = *store;
    store.reentrancy_lock = false;
    assert(PoolStore { reentrancy_lock: true, ..*store } == ended);
    assert(begun == entered(*old(store), store.user_last_commit));
    result
}

/// What the host says of the addresses and messages inside a call, and what it found out for
/// it. Only what a call needs is looked at.
#[derive(Debug)]
pub struct HostAnswers {
    /// What the oracle answered for a commit.
    pub quotes: Quotes,
    /// The receiver of a swap, where one was named.
    pub to: Result<Option<Addr>, StdError>,
    /// The sender of CW20 tokens.
    pub cw20_sender: Result<Addr, StdError>,
    /// What the sender of CW20 tokens wants done with them.
    pub hook: Result<Cw20HookMsg, StdError>,
    /// The new oracle of an update of the settings.
    pub oracle_address: Result<Addr, StdError>,
    /// What went wrong with reading the committers' ledger, where something did.
    pub ledger_failure: Option<String>,
}

/// Whether a contract is that of a creator token of the pool.
pub open spec fn is_creator_token(store: PoolStore, contract: Seq<char>) -> bool {
    let infos = store.pool_info.pool_info.asset_infos;
    ||| infos[0] matches TokenType::CreatorToken { contract_addr } && contract_addr@ == contract
    ||| infos[1] matches TokenType::CreatorToken { contract_addr } && contract_addr@ == contract
}

pub(crate) fn is_token_contract(token: &TokenType, contract: &Addr) -> (r: bool)
    ensures
        r == (*token matches TokenType::CreatorToken { contract_addr } && contract_addr@
            == contract@),
{
    match token {
        TokenType::CreatorToken { contract_addr } => *contract_addr == *contract,
        TokenType::Bluechip { .. } => false,
    }
}

/// Why a swap of CW20 tokens is turned away, where it is.
pub open spec fn cw20_refused(
    store: PoolStore,
    info: MessageInfo,
    cw20_msg: Cw20ReceiveMsg,
    hook: Result<Cw20HookMsg, StdError>,
    to: Result<Option<Addr>, StdError>,
    cw20_sender: Result<Addr, StdError>,
) -> Option<ContractError> {
    if !committed_enough(store) {
        Some(ContractError::ShortOfThreshold {  })
    } else if cw20_msg.amount == 0 {
        Some(ContractError::ZeroAmount {  })
    } else if hook is Err {
        Some(ContractError::Std(hook->Err_0))
    } else if !is_creator_token(store, info.sender@) {
        Some(ContractError::Unauthorized {  })
    } else if to is Err {
        Some(ContractError::Std(to->Err_0))
    } else if cw20_sender is Err {
        Some(ContractError::Std(cw20_sender->Err_0))
    } else {
        None
    }
}

/// What CW20 tokens that were sent to the pool are an offer of.
pub open spec fn cw20_offer(info: MessageInfo, cw20_msg: Cw20ReceiveMsg) -> TokenInfo {
    TokenInfo {
        info: TokenType::CreatorToken { contract_addr: info.sender },
        amount: cw20_msg.amount,
    }
}

/// What a swap of CW20 tokens does, and what it answers.
pub open spec fn cw20_outcome(
    before: PoolStore,
    after: PoolStore,
    env: Env,
    info: MessageInfo,
    cw20_msg: Cw20ReceiveMsg,
    hook: Result<Cw20HookMsg, StdError>,
    to: Result<Option<Addr>, StdError>,
    cw20_sender: Result<Addr, StdError>,
    r: Result<Response, ContractError>,
) -> bool {
    match cw20_refused(before, info, cw20_msg, hook, to, cw20_sender) {
        Some(e) => r == Err::<Response, ContractError>(e) && after == before,
        None => {
            let Cw20HookMsg::Swap { belief_price, max_spread, transaction_deadline, .. } =
                hook->Ok_0;
            guarded_swap_outcome(
                before,
                after,
                env,
                cw20_sender->Ok_0,
                cw20_offer(info, cw20_msg),
                belief_price,
                max_spread,
                to->Ok_0,
                transaction_deadline,
                r,
            )
        },
    }
}

/// Whether a swap of CW20 tokens stays in range.
pub open spec fn cw20_defined(
    store: PoolStore,
    env: Env,
    info: MessageInfo,
    cw20_msg: Cw20ReceiveMsg,
    hook: Result<Cw20HookMsg, StdError>,
    to: Result<Option<Addr>, StdError>,
    cw20_sender: Result<Addr, StdError>,
) -> bool {
    cw20_refused(store, info, cw20_msg, hook, to, cw20_sender) is None ==> {
        let Cw20HookMsg::Swap { belief_price, max_spread, transaction_deadline, .. } = hook->Ok_0;
        guarded_swap_defined(
            store,
            env,
            cw20_sender->Ok_0,
            cw20_offer(info, cw20_msg),
            belief_price,
            max_spread,
            transaction_deadline,
        )
    }
}

/// Swaps CW20 tokens that were sent to the pool.
pub fn execute_swap_cw20(
    store: &mut PoolStore,
    env: &Env,
    info: &MessageInfo,
    cw20_msg: &Cw20ReceiveMsg,
    hook: Result<Cw20HookMsg, StdError>,
    to: Result<Option<Addr>, StdError>,
    cw20_sender: Result<Addr, StdError>,
) -> (r: Result<Response, ContractError>)
    requires
        old(store).wf(),
        counters_ok(old(store).analytics),
        cw20_defined(*old(store), *env, *info, *cw20_msg, hook, to, cw20_sender),
    ensures
        final(store).wf(),
        cw20_outcome(
            *old(store),
            *final(store),
            *env,
            *info,
            *cw20_msg,
            hook,
            to,
            cw20_sender,
            r,
        ),
{
    if !query_check_commit(store) {
        return Err(ContractError::ShortOfThreshold {  });
    }
    if cw20_msg.amount == 0 {
        return Err(ContractError::ZeroAmount {  });
    }
    match hook {
        Err(e) => Err(ContractError::Std(e)),
        Ok(Cw20HookMsg::Swap { belief_price, max_spread, to: _, transaction_deadline }) => {
            let infos = &store.pool_info.pool_info.asset_infos;
            if !is_token_contract(&infos[0], &info.sender) && !is_token_contract(
                &infos[1],
                &info.sender,
            ) {
                return Err(ContractError::Unauthorized {  });
            }
            let to = in_pool(to)?;
            let sender = in_pool(cw20_sender)?;
            let offer = TokenInfo {
                info: TokenType::CreatorToken { contract_addr: info.sender.clone() },
                amount: cw20_msg.amount,
            };
            simple_swap(
                store,
                env,
                &sender,
                &offer,
                belief_price,
                max_spread,
                to,
                transaction_deadline,
            )
        },
    }
}

/// Why a swap of native coins is turned away, where it is.
pub open spec fn native_refused(
    store: PoolStore,
    info: MessageInfo,
    offer: TokenInfo,
    to: Result<Option<Addr>, StdError>,
) -> Option<ContractError> {
    let sent = offer_sent(offer.info, offer.amount, info.funds@);
    if !committed_enough(store) {
        Some(ContractError::ShortOfThreshold {  })
    } else if sent is Err {
        Some(ContractError::Std(sent->Err_0))
    } else if to is Err {
        Some(ContractError::Std(to->Err_0))
    } else {
        None
    }
}

/// What a swap of native coins does, and what it answers.
pub open spec fn native_outcome(
    before: PoolStore,
    after: PoolStore,
    env: Env,
    info: MessageInfo,
    offer: TokenInfo,
    belief_price: Option<Decimal>,
    max_spread: Option<Decimal>,
    to: Result<Option<Addr>, StdError>,
    deadline: Option<Timestamp>,
    r: Result<Response, ContractError>,
) -> bool {
    match native_refused(before, info, offer, to) {
        Some(e) => r == Err::<Response, ContractError>(e) && after == before,
        None => guarded_swap_outcome(
            before,
            after,
            env,
            info.sender,
            offer,
            belief_price,
            max_spread,
            to->Ok_0,
            deadline,
            r,
        ),
    }
}

fn execute_swap_native(
    store: &mut PoolStore,
    env: &Env,
    info: &MessageInfo,
    offer_asset: &TokenInfo,
    belief_price: Option<Decimal>,
    max_spread: Option<Decimal>,
    to: Result<Option<Addr>, StdError>,
    transaction_deadline: Option<Timestamp>,
) -> (r: Result<Response, ContractError>)
    requires
        old(store).wf(),
        counters_ok(old(store).analytics),
        native_refused(*old(store), *info, *offer_asset, to) is None ==> guarded_swap_defined(
            *old(store),
            *env,
            info.sender,
            *offer_asset,
            belief_price,
            max_spread,
            transaction_deadline,
        ),
    ensures
        final(store).wf(),
        native_outcome(
            *old(store),
            *final(store),
            *env,
            *info,
            *offer_asset,
            belief_price,
            max_spread,
            to,
            transaction_deadline,
            r,
        ),
{
    if !query_check_commit(store) {
        return Err(ContractError::ShortOfThreshold {  });
    }
    in_pool(offer_asset.confirm_sent_bluechip_token_balance(info))?;
    let to = in_pool(to)?;
    simple_swap(
        store,
        env,
        &info.sender,
        offer_asset,
        belief_price,
        max_spread,
        to,
        transaction_deadline,
    )
}

/// What telling the factory once more answers.
pub open spec fn retry_outcome(store: PoolStore, r: Result<Response, ContractError>) -> bool {
    if !store.pending_factory_notify {
        r == Err::<Response, ContractError>(ContractError::NothingToRecover {  })
    } else {
        &&& r matches Ok(resp)
        &&& resp.messages@ == seq![
            CosmosMsg::NotifyThresholdCrossed {
                factory_addr: store.pool_info.factory_addr,
                pool_id: store.pool_info.pool_id,
            },
        ]
        &&& resp.attrs() == Seq::<Pair>::empty().push(("action"@, "retry_factory_notify"@))
    }
}

/// Tells the factory once more that the threshold was crossed, where telling it failed.
/// Anyone may call. The note that it failed stays until the factory has answered.
pub fn execute_retry_factory_notify(store: &PoolStore) -> (r: Result<Response, ContractError>)
    ensures
        retry_outcome(*store, r),
{
    if !store.pending_factory_notify {
        return Err(ContractError::NothingToRecover {  });
    }
    let mut messages: Vec<CosmosMsg> = Vec::new();
    messages.push(
        CosmosMsg::NotifyThresholdCrossed {
            factory_addr: store.pool_info.factory_addr.clone(),
            pool_id: store.pool_info.pool_id,
        },
    );
    assert(messages@ =~= seq![messages@[0]]);
    Ok(Response::with_messages(messages).attr("action", "retry_factory_notify"))
}

/// What the reply of the factory does.
pub open spec fn notify_outcome(
    before: PoolStore,
    after: PoolStore,
    id: u64,
    succeeded: bool,
    r: Result<(), ContractError>,
) -> bool {
    if id == REPLY_ID_FACTORY_NOTIFY_INITIAL {
        r is Ok && after == (PoolStore {
            pending_factory_notify: before.pending_factory_notify || !succeeded,
            ..before
        })
    } else if id == REPLY_ID_FACTORY_NOTIFY_RETRY {
        r is Ok && after == (PoolStore {
            pending_factory_notify: before.pending_factory_notify && !succeeded,
            ..before
        })
    } else {
        r == Err::<(), ContractError>(ContractError::Std(StdError::UnknownReply { id })) && after
            == before
    }
}

/// Notes what became of telling the factory: a first attempt that failed is pending, and a
/// retry that succeeded is not.
pub fn reply_factory_notify(store: &mut PoolStore, id: u64, succeeded: bool) -> (r: Result<
    (),
    ContractError,
>)
    requires
        old(store).wf(),
    ensures
        final(store).wf(),
        notify_outcome(*old(store), *final(store), id, succeeded, r),
{
    if id == REPLY_ID_FACTORY_NOTIFY_INITIAL {
        if !succeeded {
            store.pending_factory_notify = true;
        }
        Ok(())
    } else if id == REPLY_ID_FACTORY_NOTIFY_RETRY {
        if succeeded {
            store.pending_factory_notify = false;
        }
        Ok(())
    } else {
        Err(ContractError::Std(StdError::UnknownReply { id }))
    }
}

/// What a call comes to: it is answered, or it is a call on liquidity that may go on.
#[derive(Debug)]
pub enum Dispatch {
    Done(Response),
    Liquidity,
}

/// Why a call on liquidity is turned away, where it is.
pub open spec fn liquidity_refused(store: PoolStore, msg: ExecuteMsg) -> Option<ContractError> {
    match msg {
        ExecuteMsg::DepositLiquidity { .. } | ExecuteMsg::AddToPosition { .. } => if store.drained {
            Some(ContractError::EmergencyDrained {  })
        } else if !committed_enough(store) {
            Some(ContractError::ShortOfThreshold {  })
        } else {
            None
        },
        ExecuteMsg::CollectFees { .. } => if store.drained {
            Some(ContractError::EmergencyDrained {  })
        } else if store.paused {
            Some(ContractError::PoolPausedLowLiquidity {  })
        } else {
            None
        },
        _ => None,
    }
}

/// Whether a call stays in range.
pub open spec fn execute_defined(
    store: PoolStore,
    env: Env,
    info: MessageInfo,
    msg: ExecuteMsg,
    host: HostAnswers,
) -> bool {
    match msg {
        ExecuteMsg::EmergencyWithdraw {  } => emergency_defined(store, env, info),
        ExecuteMsg::RecoverStuckStates { .. } => store.commit_ledger.entries@.len() <= u32::MAX,
        ExecuteMsg::ContinueDistribution {  } => store.distribution matches Some(d)
            ==> d.consecutive_failures < u32::MAX,
        ExecuteMsg::Commit { asset, transaction_deadline, belief_price, max_spread } => {
            &&& counters_ok(store.analytics)
            &&& !store.paused && !store.drained && turned_away(
                store,
                env,
                info.sender@,
                transaction_deadline,
            ) is None ==> commit_defined(
                store,
                env,
                info,
                asset,
                belief_price,
                max_spread,
                host.quotes,
            )
        },
        ExecuteMsg::SimpleSwap {
            offer_asset,
            belief_price,
            max_spread,
            to,
            transaction_deadline,
        } => {
            &&& counters_ok(store.analytics)
            &&& native_refused(store, info, offer_asset, host.to) is None ==> guarded_swap_defined(
                store,
                env,
                info.sender,
                offer_asset,
                belief_price,
                max_spread,
                transaction_deadline,
            )
        },
        ExecuteMsg::Receive(cw20_msg) => {
            &&& counters_ok(store.analytics)
            &&& cw20_defined(
                store,
                env,
                info,
                cw20_msg,
                host.hook,
                host.to,
                host.cw20_sender,
            )
        },
        _ => true,
    }
}

/// What a call does, and what it answers.
pub open spec fn execute_outcome(
    before: PoolStore,
    after: PoolStore,
    env: Env,
    info: MessageInfo,
    msg: ExecuteMsg,
    host: HostAnswers,
    r: Result<Response, ContractError>,
) -> bool {
    match msg {
        ExecuteMsg::UpdateConfigFromFactory { update } => update_outcome(
            before,
            after,
            env,
            info,
            update,
            host.oracle_address,
            r,
        ),
        ExecuteMsg::Pause {  } => pause_outcome(before, after, env, info, true, r),
        ExecuteMsg::Unpause {  } => pause_outcome(before, after, env, info, false, r),
        ExecuteMsg::EmergencyWithdraw {  } => emergency_outcome(before, after, env, info, r),
        ExecuteMsg::CancelEmergencyWithdraw {  } => cancel_outcome(before, after, env, info, r),
        ExecuteMsg::RecoverStuckStates { recovery_type } => recover_outcome(
            before,
            after,
            env,
            info,
            recovery_type,
            r,
        ),
        ExecuteMsg::Commit { asset, transaction_deadline, belief_price, max_spread } =>
            if before.paused {
            r == Err::<Response, ContractError>(ContractError::PoolPausedLowLiquidity {  })
                && after == before
        } else {
            guarded_commit_outcome(
                before,
                after,
                env,
                info,
                asset,
                transaction_deadline,
                belief_price,
                max_spread,
                host.quotes,
                r,
            )
        },
        ExecuteMsg::ContinueDistribution {  } => continue_outcome(
            before,
            after,
            env,
            info,
            host.ledger_failure,
            r,
        ),
        ExecuteMsg::SimpleSwap {
            offer_asset,
            belief_price,
            max_spread,
            to,
            transaction_deadline,
        } => native_outcome(
            before,
            after,
            env,
            info,
            offer_asset,
            belief_price,
            max_spread,
            host.to,
            transaction_deadline,
            r,
        ),
        ExecuteMsg::Receive(cw20_msg) => cw20_outcome(
            before,
            after,
            env,
            info,
            cw20_msg,
            host.hook,
            host.to,
            host.cw20_sender,
            r,
        ),
        ExecuteMsg::ClaimCreatorExcessLiquidity { transaction_deadline } => claim_excess_outcome(
            before,
            after,
            env,
            info,
            transaction_deadline,
            r,
        ),
        ExecuteMsg::ClaimCreatorFees { transaction_deadline } => claim_fees_outcome(
            before,
            after,
            env,
            info,
            transaction_deadline,
            r,
        ),
        ExecuteMsg::RetryFactoryNotify {  } => after == before && retry_outcome(before, r),
        _ => false,
    }
}

/// Whether a call is one on liquidity.
pub open spec fn is_liquidity_call(msg: ExecuteMsg) -> bool {
    match msg {
        ExecuteMsg::DepositLiquidity { .. }
        | ExecuteMsg::AddToPosition { .. }
        | ExecuteMsg::CollectFees { .. }
        | ExecuteMsg::RemovePartialLiquidity { .. }
        | ExecuteMsg::RemovePartialLiquidityByPercent { .. }
        | ExecuteMsg::RemoveAllLiquidity { .. } => true,
        _ => false,
    }
}

/// What running a call does, and what comes of it.
pub open spec fn dispatch_outcome(
    before: PoolStore,
    after: PoolStore,
    env: Env,
    info: MessageInfo,
    msg: ExecuteMsg,
    host: HostAnswers,
    r: Result<Dispatch, ContractError>,
) -> bool {
    if is_liquidity_call(msg) {
        after == before && match liquidity_refused(before, msg) {
            Some(e) => r == Err::<Dispatch, ContractError>(e),
            None => r == Ok::<Dispatch, ContractError>(Dispatch::Liquidity),
        }
    } else {
        match r {
            Ok(Dispatch::Done(resp)) => execute_outcome(
                before,
                after,
                env,
                info,
                msg,
                host,
                Ok(resp),
            ),
            Ok(Dispatch::Liquidity) => false,
            Err(e) => execute_outcome(before, after, env, info, msg, host, Err(e)),
        }
    }
}

/// Runs a call. Calls on liquidity are let through or turned away here, and carried out by
/// the liquidity handlers.
pub fn execute(
    store: &mut PoolStore,
    env: &Env,
    info: &MessageInfo,
    msg: &ExecuteMsg,
    host: HostAnswers,
) -> (r: Result<Dispatch, ContractError>)
    requires
        old(store).wf(),
        execute_defined(*old(store), *env, *info, *msg, host),
    ensures
        final(store).wf(),
        dispatch_outcome(*old(store), *final(store), *env, *info, *msg, host, r),
{
    let response = match msg {
        ExecuteMsg::UpdateConfigFromFactory { update } => execute_update_config_from_factory(
            store,
            env,
            info,
            update,
            host.oracle_address,
        )?,
        ExecuteMsg::Pause {  } => execute_pause(store, env, info)?,
        ExecuteMsg::Unpause {  } => execute_unpause(store, env, info)?,
        ExecuteMsg::EmergencyWithdraw {  } => execute_emergency_withdraw(store, env, info)?,
        ExecuteMsg::CancelEmergencyWithdraw {  } => execute_cancel_emergency_withdraw(
            store,
            env,
            info,
        )?,
        ExecuteMsg::RecoverStuckStates { recovery_type } => execute_recover_stuck_states(
            store,
            env,
            info,
            *recovery_type,
        )?,
        ExecuteMsg::Commit { asset, transaction_deadline, belief_price, max_spread } => {
            if store.paused {
                return Err(ContractError::PoolPausedLowLiquidity {  });
            }
            commit(
                store,
                env,
                info,
                asset,
                *transaction_deadline,
                *belief_price,
                *max_spread,
                host.quotes,
            )?
        },
        ExecuteMsg::ContinueDistribution {  } => execute_continue_distribution(
            store,
            env,
            info,
            host.ledger_failure,
        )?,
        ExecuteMsg::SimpleSwap {
            offer_asset,
            belief_price,
            max_spread,
            to: _,
            transaction_deadline,
        } => execute_swap_native(
            store,
            env,
            info,
            offer_asset,
            *belief_price,
            *max_spread,
            host.to,
            *transaction_deadline,
        )?,
        ExecuteMsg::Receive(cw20_msg) => execute_swap_cw20(
            store,
            env,
            info,
            cw20_msg,
            host.hook,
            host.to,
            host.cw20_sender,
        )?,
        ExecuteMsg::ClaimCreatorExcessLiquidity { transaction_deadline } =>
            execute_claim_creator_excess(store, env, info, *transaction_deadline)?,
        ExecuteMsg::ClaimCreatorFees { transaction_deadline } => execute_claim_creator_fees(
            store,
            env,
            info,
            *transaction_deadline,
        )?,
        ExecuteMsg::RetryFactoryNotify {  } => execute_retry_factory_notify(store)?,
        ExecuteMsg::DepositLiquidity { .. } | ExecuteMsg::AddToPosition { .. } => {
            ensure_not_drained(store)?;
            if !query_check_commit(store) {
                return Err(ContractError::ShortOfThreshold {  });
            }
            return Ok(Dispatch::Liquidity);
        },
        ExecuteMsg::CollectFees { .. } => {
            ensure_not_drained(store)?;
            if store.paused {
                return Err(ContractError::PoolPausedLowLiquidity {  });
            }
            return Ok(Dispatch::Liquidity);
        },
        ExecuteMsg::RemovePartialLiquidity { .. }
        | ExecuteMsg::RemovePartialLiquidityByPercent { .. }
        | ExecuteMsg::RemoveAllLiquidity { .. } => {
            return Ok(Dispatch::Liquidity);
        },
    };
    Ok(Dispatch::Done(response))
}

/// What is minted at the threshold of a pool that is set up: nothing for a standard pool,
/// which opens at once.
pub open spec fn payout_of(msg: CommitPoolInstantiateMsg) -> Result<
    ThresholdPayoutAmounts,
    ContractError,
> {
    if msg.is_standard_pool == Some(true) {
        Ok(
            ThresholdPayoutAmounts {
                creator_reward_amount: 0,
                bluechip_reward_amount: 0,
                pool_seed_amount: 0,
                commit_return_amount: 0,
            },
        )
    } else {
        match msg.threshold_payout {
            None => Err(
                ContractError::InvalidThresholdParams {
                    msg: "Your params could not be validated during pool instantiation.",
                },
            ),
            Some(Err(e)) => Err(ContractError::Std(e)),
            Some(Ok(p)) => match payout_check(p) {
                Ok(_) => Ok(p),
                Err(e) => Err(e),
            },
        }
    }
}

/// Why a pool is not set up, where it is not.
pub open spec fn instantiate_error(
    info: MessageInfo,
    msg: CommitPoolInstantiateMsg,
    token0: Result<(), StdError>,
    token1: Result<(), StdError>,
) -> Option<ContractError> {
    let fees = msg.commit_fee_info;
    if info.sender@ != msg.used_factory_addr@ {
        Some(ContractError::Unauthorized {  })
    } else if token0 is Err {
        Some(ContractError::Std(token0->Err_0))
    } else if token1 is Err {
        Some(ContractError::Std(token1->Err_0))
    } else if msg.pool_token_info[0].same(msg.pool_token_info[1]) {
        Some(ContractError::DoublingAssets {  })
    } else if fees.commit_fee_bluechip.atomics + fees.commit_fee_creator.atomics > ONE {
        Some(ContractError::InvalidFee {  })
    } else if payout_of(msg) is Err {
        Some(payout_of(msg)->Err_0)
    } else {
        None
    }
}

/// The position that the pool itself holds from the start: no shares.
pub open spec fn own_position(env: Env) -> Position {
    Position {
        liquidity: 0,
        owner: env.contract,
        fee_growth_inside_0_last: Decimal { atomics: 0 },
        fee_growth_inside_1_last: Decimal { atomics: 0 },
        created_at: env.time.seconds(),
        last_fee_collection: env.time.seconds(),
        fee_size_multiplier: Decimal { atomics: ONE },
        unclaimed_fees_0: 0,
        unclaimed_fees_1: 0,
    }
}

/// Whether a store is that of a pool that was set up just now.
pub open spec fn fresh_store(store: PoolStore, env: Env, msg: CommitPoolInstantiateMsg) -> bool {
    let zero = Decimal { atomics: 0 };
    &&& store == (PoolStore {
        usd_raised: 0,
        native_raised: 0,
        threshold_hit: msg.is_standard_pool == Some(true),
        threshold_processing: false,
        last_threshold_attempt: None,
        reentrancy_lock: false,
        paused: false,
        drained: false,
        pending_factory_notify: false,
        pending_emergency_withdraw: None,
        emergency_withdrawal: None,
        expected_factory: ExpectedFactory { expected_factory_address: msg.used_factory_addr },
        pool_info: PoolInfo {
            pool_id: msg.pool_id,
            pool_info: PoolDetails {
                asset_infos: msg.pool_token_info,
                contract_addr: env.contract,
                pool_type: PoolPairType::Xyk {  },
            },
            factory_addr: msg.used_factory_addr,
            token_address: msg.token_address,
            position_nft_address: msg.position_nft_address,
        },
        pool_state: PoolState {
            pool_contract_address: env.contract,
            nft_ownership_accepted: false,
            reserve0: 0,
            reserve1: 0,
            total_liquidity: 0,
            block_time_last: env.time.seconds(),
            price0_cumulative_last: 0,
            price1_cumulative_last: 0,
        },
        pool_specs: PoolSpecs {
            lp_fee: Decimal { atomics: 3_000_000_000_000_000 },
            min_commit_interval: 13,
            usd_payment_tolerance_bps: 100,
        },
        fee_state: PoolFeeState {
            fee_growth_global_0: zero,
            fee_growth_global_1: zero,
            total_fees_collected_0: 0,
            total_fees_collected_1: 0,
            fee_reserve_0: 0,
            fee_reserve_1: 0,
        },
        fee_info: msg.commit_fee_info,
        commit_limits: CommitLimitInfo {
            commit_amount_for_threshold: msg.commit_amount_for_threshold,
            commit_amount_for_threshold_usd: msg.commit_threshold_limit_usd,
            max_bluechip_lock_per_pool: msg.max_bluechip_lock_per_pool,
            creator_excess_liquidity_lock_days: msg.creator_excess_liquidity_lock_days,
        },
        threshold_payout: payout_of(msg)->Ok_0,
        oracle_info: OracleInfo { oracle_addr: msg.used_factory_addr },
        analytics: no_analytics(),
        creator_excess: None,
        creator_fee_pot: CreatorFeePot { amount_0: 0, amount_1: 0 },
        distribution: None,
        next_position_id: 0,
        commit_info: store.commit_info,
        commit_ledger: store.commit_ledger,
        user_last_commit: store.user_last_commit,
        positions: store.positions,
        owner_positions: store.owner_positions,
    })
    &&& store.commit_info@ == Map::<Seq<char>, Committing>::empty()
    &&& store.commit_ledger@ == Map::<Seq<char>, u128>::empty()
    &&& store.user_last_commit@ == Map::<Seq<char>, u64>::empty()
    &&& store.positions@ == Map::<Seq<char>, Position>::empty().insert("0"@, own_position(env))
    &&& forall|o: Seq<char>, p: Seq<char>| #[trigger]
        listed(store.owner_positions@, o, p) <==> o == env.contract@ && p == "0"@
}

/// Sets up a pool; only the factory that it names may call. `token0` and `token1` are what
/// the host says of the addresses of both tokens.
pub fn instantiate(
    env: &Env,
    info: &MessageInfo,
    msg: CommitPoolInstantiateMsg,
    token0: Result<(), StdError>,
    token1: Result<(), StdError>,
) -> (r: Result<(PoolStore, Response), ContractError>)
    requires
        info.sender@ == msg.used_factory_addr@ && token0 is Ok && token1 is Ok
            && !msg.pool_token_info[0].same(msg.pool_token_info[1])
            ==> msg.commit_fee_info.commit_fee_bluechip.atomics
            + msg.commit_fee_info.commit_fee_creator.atomics <= u128::MAX,
    ensures
        match instantiate_error(*info, msg, token0, token1) {
            Some(e) => r == Err::<(PoolStore, Response), ContractError>(e),
            None => {
                &&& r matches Ok((store, resp))
                &&& store.wf()
                &&& fresh_store(store, *env, msg)
                &&& resp.messages@.len() == 0
                &&& resp.attrs() == Seq::<Pair>::empty().push(("action"@, "instantiate"@)).push(
                    ("pool"@, env.contract@),
                )
            },
        },
{
    if info.sender != msg.used_factory_addr {
        return Err(ContractError::Unauthorized {  });
    }
    in_pool(token0)?;
    in_pool(token1)?;
    if msg.pool_token_info[0].equal(&msg.pool_token_info[1]) {
        return Err(ContractError::DoublingAssets {  });
    }
    if msg.commit_fee_info.commit_fee_bluechip.atomics
        + msg.commit_fee_info.commit_fee_creator.atomics > ONE {
        return Err(ContractError::InvalidFee {  });
    }
    let is_standard_pool = match msg.is_standard_pool {
        Some(standard) => standard,
        None => false,
    };
    let threshold_payout = if is_standard_pool {
        ThresholdPayoutAmounts {
            creator_reward_amount: 0,
            bluechip_reward_amount: 0,
            pool_seed_amount: 0,
            commit_return_amount: 0,
        }
    } else {
        match msg.threshold_payout {
            None => {
                return Err(
                    ContractError::InvalidThresholdParams {
                        msg: "Your params could not be validated during pool instantiation.",
                    },
                );
            },
            Some(Err(e)) => {
                return Err(ContractError::Std(e));
            },
            Some(Ok(params)) => {
                validate_pool_threshold_payments(&params)?;
                params
            },
        }
    };
    let mut positions: Table<Position> = Table::new();
    positions.insert(
        "0".to_string(),
        Position {
            liquidity: 0,
            owner: env.contract.clone(),
            fee_growth_inside_0_last: Decimal::zero(),
            fee_growth_inside_1_last: Decimal::zero(),
            created_at: env.time.seconds(),
            last_fee_collection: env.time.seconds(),
            fee_size_multiplier: Decimal::one(),
            unclaimed_fees_0: 0,
            unclaimed_fees_1: 0,
        },
    );
    let mut owner_positions: Table<Table<bool>> = Table::new();
    list_position(&mut owner_positions, &env.contract, &"0".to_string());
    let factory_addr = msg.used_factory_addr;
    let store = PoolStore {
        usd_raised: 0,
        native_raised: 0,
        threshold_hit: is_standard_pool,
        threshold_processing: false,
        last_threshold_attempt: None,
        reentrancy_lock: false,
        paused: false,
        drained: false,
        pending_factory_notify: false,
        pending_emergency_withdraw: None,
        emergency_withdrawal: None,
        expected_factory: ExpectedFactory { expected_factory_address: factory_addr.clone() },
        oracle_info: OracleInfo { oracle_addr: factory_addr.clone() },
        pool_info: PoolInfo {
            pool_id: msg.pool_id,
            pool_info: PoolDetails {
                asset_infos: msg.pool_token_info,
                contract_addr: env.contract.clone(),
                pool_type: PoolPairType::Xyk {  },
            },
            factory_addr,
            token_address: msg.token_address,
            position_nft_address: msg.position_nft_address,
        },
        pool_state: PoolState {
            pool_contract_address: env.contract.clone(),
            nft_ownership_accepted: false,
            reserve0: 0,
            reserve1: 0,
            total_liquidity: 0,
            block_time_last: env.time.seconds(),
            price0_cumulative_last: 0,
            price1_cumulative_last: 0,
        },
        pool_specs: PoolSpecs {
            lp_fee: Decimal::permille(3),
            min_commit_interval: 13,
            usd_payment_tolerance_bps: 100,
        },
        fee_state: PoolFeeState {
            fee_growth_global_0: Decimal::zero(),
            fee_growth_global_1: Decimal::zero(),
            total_fees_collected_0: 0,
            total_fees_collected_1: 0,
            fee_reserve_0: 0,
            fee_reserve_1: 0,
        },
        fee_info: msg.commit_fee_info,
        commit_limits: CommitLimitInfo {
            commit_amount_for_threshold: msg.commit_amount_for_threshold,
            commit_amount_for_threshold_usd: msg.commit_threshold_limit_usd,
            max_bluechip_lock_per_pool: msg.max_bluechip_lock_per_pool,
            creator_excess_liquidity_lock_days: msg.creator_excess_liquidity_lock_days,
        },
        threshold_payout,
        analytics: PoolAnalytics::default(),
        creator_excess: None,
        creator_fee_pot: CreatorFeePot::default(),
        distribution: None,
        next_position_id: 0,
        commit_info: Table::new(),
        commit_ledger: Table::new(),
        user_last_commit: Table::new(),
        positions,
        owner_positions,
    };
    let response = Response::new().attr("action", "instantiate").attr(
        "pool",
        env.contract.as_str(),
    );
    Ok((store, response))
}

/// What an upgrade does, and what it answers.
pub open spec fn migrate_outcome(
    before: PoolStore,
    after: PoolStore,
    msg: MigrateMsg,
    version: Seq<char>,
    r: Result<Response, StdError>,
) -> bool {
    match msg {
        MigrateMsg::UpdateFees { new_fees } if lp_fee_check(new_fees) is Err => r == Err::<
            Response,
            StdError,
        >(lp_fee_check(new_fees)->Err_0) && after == before,
        _ => {
            &&& after == (PoolStore {
                pool_specs: match msg {
                    MigrateMsg::UpdateFees { new_fees } => PoolSpecs {
                        lp_fee: new_fees,
                        ..before.pool_specs
                    },
                    MigrateMsg::UpdateVersion {  } => before.pool_specs,
                },
                ..before
            })
            &&& r matches Ok(resp)
            &&& resp.messages@.len() == 0
            &&& resp.attrs() == Seq::<Pair>::empty().push(("action"@, "migrate"@)).push(
                ("version"@, version),
            )
        },
    }
}

/// Upgrades a pool to a version, with another fee of liquidity providers where one is
/// given.
pub fn migrate(store: &mut PoolStore, msg: MigrateMsg, version: &str) -> (r: Result<
    Response,
    StdError,
>)
    requires
        old(store).wf(),
    ensures
        final(store).wf(),
        migrate_outcome(*old(store), *final(store), msg, version@, r),
{
    match msg {
        MigrateMsg::UpdateFees { new_fees } => {
            check_lp_fee(new_fees)?;
            store.pool_specs.lp_fee = new_fees;
        },
        MigrateMsg::UpdateVersion {  } => {},
    }
    Ok(Response::new().attr("action", "migrate").attr("version", version))
}

} // verus!
