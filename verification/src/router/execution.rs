//! Running a route.
//!
//! The router calls itself once per hop, in order, and once more at the end. Every hop but
//! the last sends its output back to the router; the last one sends it to the recipient.
//! The final call compares what the recipient holds with what they held before.
//!
//! A hop swaps all that the router holds of its offer token. That is the output of the hop
//! before it, because the router holds nothing between two calls.

use vstd::prelude::*;
use vstd::string::*;

use crate::asset::{TokenInfo, TokenType};
use crate::chain::{Addr, Coin, Env, MessageInfo, Pair};
use crate::error::StdError;
use crate::number::Timestamp;
use crate::router::error::{in_router, RouterError};
use crate::router::msg::{
    Cw20HookMsg, Cw20ReceiveMsg, HopReplyPayload, Response, RouterMsg, SwapOperation,
};
use crate::router::state::MAX_HOPS;
use crate::text::digits;

verus! {

/// Replies to hops are numbered from here.
pub const REPLY_ID_HOP_BASE: u64 = 1000;

/// The number of the reply to a hop.
pub fn hop_reply_id(hop_index: u32) -> (r: u64)
    ensures
        r == REPLY_ID_HOP_BASE + hop_index,
{
    REPLY_ID_HOP_BASE + hop_index as u64
}

/// The hop that a reply is to, where it is to one.
pub open spec fn hop_of_reply(id: u64) -> Option<u32> {
    if REPLY_ID_HOP_BASE <= id < REPLY_ID_HOP_BASE + MAX_HOPS {
        Some((id - REPLY_ID_HOP_BASE) as u32)
    } else {
        None
    }
}

/// The hop that a reply is to, where it is to one.
pub fn parse_hop_reply_id(id: u64) -> (r: Option<u32>)
    ensures
        r == hop_of_reply(id),
{
    if id >= REPLY_ID_HOP_BASE && id < REPLY_ID_HOP_BASE + MAX_HOPS as u64 {
        Some((id - REPLY_ID_HOP_BASE) as u32)
    } else {
        None
    }
}

/// The first hop, from `from` on, that offers what it asks for.
pub open spec fn idle_hop(ops: Seq<SwapOperation>, from: int) -> Option<int>
    decreases ops.len() - from,
{
    if from < 0 || from >= ops.len() {
        None
    } else if ops[from].offer_asset_info.same(ops[from].ask_asset_info) {
        Some(from)
    } else {
        idle_hop(ops, from + 1)
    }
}

/// The first hop, from `from` on, that asks for another token than the next hop offers.
pub open spec fn broken_hop(ops: Seq<SwapOperation>, from: int) -> Option<int>
    decreases ops.len() - from,
{
    if from < 0 || from + 1 >= ops.len() {
        None
    } else if !ops[from].ask_asset_info.same(ops[from + 1].offer_asset_info) {
        Some(from)
    } else {
        broken_hop(ops, from + 1)
    }
}

/// What is wrong with a route, where something is.
pub open spec fn route_error(ops: Seq<SwapOperation>) -> Option<RouterError> {
    if ops.len() == 0 {
        Some(RouterError::EmptyRoute)
    } else if ops.len() > MAX_HOPS {
        Some(RouterError::MaxHopsExceeded { max: MAX_HOPS, got: ops.len() as usize })
    } else if idle_hop(ops, 0) is Some {
        let i = idle_hop(ops, 0)->Some_0;
        Some(
            RouterError::Std(
                StdError::HopOffersItsAsk {
                    hop: i as usize,
                    token: ops[i].offer_asset_info.label_of(),
                },
            ),
        )
    } else if broken_hop(ops, 0) is Some {
        let i = broken_hop(ops, 0)->Some_0;
        Some(
            RouterError::RouteDiscontinuity {
                hop_index: i as usize,
                next_hop_index: (i + 1) as usize,
                ask: ops[i].ask_asset_info.label_of(),
                next_offer: ops[i + 1].offer_asset_info.label_of(),
            },
        )
    } else if ops[0].offer_asset_info.same(ops.last().ask_asset_info) {
        Some(RouterError::SameInputOutput)
    } else {
        None
    }
}

/// Checks a route by itself: its length, that every hop swaps something, that the hops
/// join, and that it ends in another token than it starts from.
pub fn validate_route(operations: &Vec<SwapOperation>) -> (r: Result<(), RouterError>)
    ensures
        r == (match route_error(operations@) {
            Some(e) => Err::<(), RouterError>(e),
            None => Ok(()),
        }),
{
    let len: usize = operations.len();
    if len == 0 {
        return Err(RouterError::EmptyRoute);
    }
    if len > MAX_HOPS {
        return Err(RouterError::MaxHopsExceeded { max: MAX_HOPS, got: len });
    }
    let mut i: usize = 0;
    while i < len
        invariant
            len == operations@.len(),
            i <= len,
            idle_hop(operations@, 0) == idle_hop(operations@, i as int),
            0 < len <= MAX_HOPS,
        decreases len - i,
    {
        let op = &operations[i];
        if op.offer_asset_info.equal(&op.ask_asset_info) {
            return Err(
                RouterError::Std(
                    StdError::HopOffersItsAsk { hop: i, token: op.offer_asset_info.label() },
                ),
            );
        }
        i += 1;
    }
    let mut j: usize = 0;
    while j + 1 < len
        invariant
            len == operations@.len(),
            j < len,
            idle_hop(operations@, 0) is None,
            broken_hop(operations@, 0) == broken_hop(operations@, j as int),
            0 < len <= MAX_HOPS,
        decreases len - j,
    {
        let ask = &operations[j].ask_asset_info;
        let next_offer = &operations[j + 1].offer_asset_info;
        if !ask.equal(next_offer) {
            return Err(
                RouterError::RouteDiscontinuity {
                    hop_index: j,
                    next_hop_index: j + 1,
                    ask: ask.label(),
                    next_offer: next_offer.label(),
                },
            );
        }
        j += 1;
    }
    if operations[0].offer_asset_info.equal(&operations[len - 1].ask_asset_info) {
        return Err(RouterError::SameInputOutput);
    }
    Ok(())
}

/// The message of one hop.
pub open spec fn hop_msg(
    ops: Seq<SwapOperation>,
    i: int,
    contract: Addr,
    recipient: Addr,
) -> RouterMsg {
    RouterMsg::Hop {
        contract_addr: contract,
        operation: ops[i],
        hop_index: i as u32,
        to: if i == ops.len() - 1 {
            recipient
        } else {
            contract
        },
        reply_id: (REPLY_ID_HOP_BASE + i) as u64,
        payload: HopReplyPayload { hop_index: i as u32, pool_addr: ops[i].pool_addr },
    }
}

/// The messages of a route: one for each hop in order, and the final check.
pub open spec fn route_msgs(
    ops: Seq<SwapOperation>,
    contract: Addr,
    recipient: Addr,
    balance: u128,
    minimum: u128,
) -> Seq<RouterMsg> {
    Seq::new(ops.len(), |i: int| hop_msg(ops, i, contract, recipient)).push(
        RouterMsg::AssertReceived {
            contract_addr: contract,
            ask_info: ops.last().ask_asset_info,
            recipient,
            prev_balance: balance,
            minimum_receive: minimum,
        },
    )
}

/// What starting a route answers.
pub open spec fn start_outcome(
    env: Env,
    sender: Addr,
    offer_amount: u128,
    ops: Seq<SwapOperation>,
    minimum: u128,
    deadline: Option<Timestamp>,
    recipient: Result<Option<Addr>, StdError>,
    balance: Result<u128, StdError>,
    r: Result<Response, RouterError>,
) -> bool {
    let late = deadline matches Some(d) && env.time.nanos > d.nanos;
    let to = match recipient->Ok_0 {
        Some(to) => to,
        None => sender,
    };
    let failed = |e: RouterError| r == Err::<Response, RouterError>(e);
    if offer_amount == 0 {
        failed(RouterError::ZeroAmount)
    } else if late {
        failed(
            RouterError::DeadlineExceeded {
                deadline: deadline->Some_0.seconds(),
                current: env.time.seconds(),
            },
        )
    } else if route_error(ops) is Some {
        failed(route_error(ops)->Some_0)
    } else if recipient is Err {
        failed(RouterError::Std(recipient->Err_0))
    } else if balance is Err {
        failed(RouterError::Std(balance->Err_0))
    } else {
        &&& r matches Ok(resp)
        &&& resp.messages@ == route_msgs(ops, env.contract, to, balance->Ok_0, minimum)
        &&& resp.attrs() == Seq::<Pair>::empty().push(("action"@, "execute_multi_hop"@)).push(
            ("sender"@, sender@),
        ).push(("recipient"@, to@)).push(("offer_amount"@, digits(offer_amount as nat))).push(
            ("hops"@, digits(ops.len())),
        ).push(("minimum_receive"@, digits(minimum as nat)))
    }
}

/// Starts a route. `recipient` is what the host says of the recipient's address, where one
/// was named, and `balance` what the recipient holds of the final token: a balance that
/// cannot be read fails the route, since it would be taken for received.
fn start_multi_hop(
    env: &Env,
    sender: &Addr,
    offer_amount: u128,
    operations: &Vec<SwapOperation>,
    minimum_receive: u128,
    deadline: Option<Timestamp>,
    recipient: Result<Option<Addr>, StdError>,
    balance: Result<u128, StdError>,
) -> (r: Result<Response, RouterError>)
    ensures
        start_outcome(
            *env,
            *sender,
            offer_amount,
            operations@,
            minimum_receive,
            deadline,
            recipient,
            balance,
            r,
        ),
{
    if offer_amount == 0 {
        return Err(RouterError::ZeroAmount);
    }
    if let Some(d) = deadline {
        if env.time.nanos > d.nanos {
            return Err(
                RouterError::DeadlineExceeded {
                    deadline: d.seconds(),
                    current: env.time.seconds(),
                },
            );
        }
    }
    validate_route(operations)?;
    let to = match in_router(recipient)? {
        Some(to) => to,
        None => sender.clone(),
    };
    let prev_balance: u128 = in_router(balance)?;
    let len: usize = operations.len();
    let mut messages: Vec<RouterMsg> = Vec::new();
    let mut i: usize = 0;
    while i < len
        invariant
            len == operations@.len(),
            0 < len <= MAX_HOPS,
            i <= len,
            messages@.len() == i,
            forall|k: int| 0 <= k < i ==> #[trigger] messages@[k] == hop_msg(
                operations@,
                k,
                env.contract,
                to,
            ),
        decreases len - i,
    {
        let op = &operations[i];
        messages.push(
            RouterMsg::Hop {
                contract_addr: env.contract.clone(),
                operation: op.clone(),
                hop_index: i as u32,
                to: if i == len - 1 {
                    to.clone()
                } else {
                    env.contract.clone()
                },
                reply_id: hop_reply_id(i as u32),
                payload: HopReplyPayload { hop_index: i as u32, pool_addr: op.pool_addr.clone() },
            },
        );
        i += 1;
    }
    messages.push(
        RouterMsg::AssertReceived {
            contract_addr: env.contract.clone(),
            ask_info: operations[len - 1].ask_asset_info.clone(),
            recipient: to.clone(),
            prev_balance,
            minimum_receive,
        },
    );
    assert(messages@ =~= route_msgs(
        operations@,
        env.contract,
        to,
        prev_balance,
        minimum_receive,
    ));
    Ok(
        Response::with_messages(messages).attr("action", "execute_multi_hop").attr(
            "sender",
            sender.as_str(),
        ).attr("recipient", to.as_str()).attr_number("offer_amount", offer_amount).attr_number(
            "hops",
            len as u128,
        ).attr_number("minimum_receive", minimum_receive),
    )
}

/// The native amount that a route starts from.
pub open spec fn native_offer(funds: Seq<Coin>, denom: String) -> Result<u128, RouterError> {
    if funds.len() != 1 {
        Err(
            RouterError::Std(
                StdError::Generic(
                    "ExecuteMultiHop requires exactly one funds coin matching the first hop offer denom",
                ),
            ),
        )
    } else if funds[0].denom@ != denom@ {
        Err(
            RouterError::Std(
                StdError::FundsDenomMismatch { funds: funds[0].denom, offer: denom },
            ),
        )
    } else {
        Ok(funds[0].amount)
    }
}

fn extract_native_offer(info: &MessageInfo, denom: &String) -> (r: Result<u128, RouterError>)
    ensures
        r == native_offer(info.funds@, *denom),
{
    if info.funds.len() != 1 {
        return Err(
            RouterError::Std(
                StdError::Generic(
                    "ExecuteMultiHop requires exactly one funds coin matching the first hop offer denom",
                ),
            ),
        );
    }
    let coin = &info.funds[0];
    if coin.denom != *denom {
        return Err(
            RouterError::Std(
                StdError::FundsDenomMismatch { funds: coin.denom.clone(), offer: denom.clone() },
            ),
        );
    }
    Ok(coin.amount)
}

/// What a route of native coins answers.
pub open spec fn native_route_outcome(
    env: Env,
    info: MessageInfo,
    ops: Seq<SwapOperation>,
    minimum: u128,
    deadline: Option<Timestamp>,
    recipient: Result<Option<Addr>, StdError>,
    balance: Result<u128, StdError>,
    r: Result<Response, RouterError>,
) -> bool {
    if ops.len() == 0 {
        r == Err::<Response, RouterError>(RouterError::EmptyRoute)
    } else {
        match ops[0].offer_asset_info {
            TokenType::CreatorToken { .. } => r == Err::<Response, RouterError>(
                RouterError::Std(
                    StdError::Generic(
                        "ExecuteMultiHop is for native offers; use cw20::Send for CW20-offered routes",
                    ),
                ),
            ),
            TokenType::Bluechip { denom } => match native_offer(info.funds@, denom) {
                Err(e) => r == Err::<Response, RouterError>(e),
                Ok(amount) => start_outcome(
                    env,
                    info.sender,
                    amount,
                    ops,
                    minimum,
                    deadline,
                    recipient,
                    balance,
                    r,
                ),
            },
        }
    }
}

/// Starts a route with the one native coin that came with the call.
pub fn execute_multi_hop(
    env: &Env,
    info: &MessageInfo,
    operations: &Vec<SwapOperation>,
    minimum_receive: u128,
    deadline: Option<Timestamp>,
    recipient: Result<Option<Addr>, StdError>,
    balance: Result<u128, StdError>,
) -> (r: Result<Response, RouterError>)
    ensures
        native_route_outcome(
            *env,
            *info,
            operations@,
            minimum_receive,
            deadline,
            recipient,
            balance,
            r,
        ),
{
    if operations.len() == 0 {
        return Err(RouterError::EmptyRoute);
    }
    let offer_amount: u128 = match &operations[0].offer_asset_info {
        TokenType::Bluechip { denom } => extract_native_offer(info, denom)?,
        TokenType::CreatorToken { .. } => {
            return Err(
                RouterError::Std(
                    StdError::Generic(
                        "ExecuteMultiHop is for native offers; use cw20::Send for CW20-offered routes",
                    ),
                ),
            );
        },
    };
    start_multi_hop(
        env,
        &info.sender,
        offer_amount,
        operations,
        minimum_receive,
        deadline,
        recipient,
        balance,
    )
}

/// What a route of CW20 tokens answers.
pub open spec fn cw20_route_outcome(
    env: Env,
    info: MessageInfo,
    cw20_msg: Cw20ReceiveMsg,
    hook: Result<Cw20HookMsg, StdError>,
    user: Result<Addr, StdError>,
    recipient: Result<Option<Addr>, StdError>,
    balance: Result<u128, StdError>,
    r: Result<Response, RouterError>,
) -> bool {
    let failed = |e: RouterError| r == Err::<Response, RouterError>(e);
    match hook {
        Err(e) => failed(RouterError::Std(e)),
        Ok(Cw20HookMsg::ExecuteMultiHop { operations, minimum_receive, deadline, .. }) =>
            if operations@.len() == 0 {
            failed(RouterError::EmptyRoute)
        } else {
            match operations@[0].offer_asset_info {
                TokenType::Bluechip { .. } => failed(
                    RouterError::Std(
                        StdError::Generic(
                            "first hop is native; do not call cw20::Send for native offers",
                        ),
                    ),
                ),
                TokenType::CreatorToken { contract_addr } => if contract_addr@ != info.sender@ {
                    failed(
                        RouterError::Std(
                            StdError::OfferNotFromSender {
                                offer: contract_addr,
                                sender: info.sender,
                            },
                        ),
                    )
                } else if user is Err {
                    failed(RouterError::Std(user->Err_0))
                } else {
                    start_outcome(
                        env,
                        user->Ok_0,
                        cw20_msg.amount,
                        operations@,
                        minimum_receive,
                        deadline,
                        recipient,
                        balance,
                        r,
                    )
                },
            }
        },
    }
}

/// Starts a route with CW20 tokens that were sent to the router.
pub fn execute_receive_cw20(
    env: &Env,
    info: &MessageInfo,
    cw20_msg: &Cw20ReceiveMsg,
    hook: Result<Cw20HookMsg, StdError>,
    user: Result<Addr, StdError>,
    recipient: Result<Option<Addr>, StdError>,
    balance: Result<u128, StdError>,
) -> (r: Result<Response, RouterError>)
    ensures
        cw20_route_outcome(*env, *info, *cw20_msg, hook, user, recipient, balance, r),
{
    match in_router(hook)? {
        Cw20HookMsg::ExecuteMultiHop { operations, minimum_receive, deadline, recipient: _ } => {
            if operations.len() == 0 {
                return Err(RouterError::EmptyRoute);
            }
            match &operations[0].offer_asset_info {
                TokenType::CreatorToken { contract_addr } => {
                    if *contract_addr != info.sender {
                        return Err(
                            RouterError::Std(
                                StdError::OfferNotFromSender {
                                    offer: contract_addr.clone(),
                                    sender: info.sender.clone(),
                                },
                            ),
                        );
                    }
                },
                TokenType::Bluechip { .. } => {
                    return Err(
                        RouterError::Std(
                            StdError::Generic(
                                "first hop is native; do not call cw20::Send for native offers",
                            ),
                        ),
                    );
                },
            }
            let user = in_router(user)?;
            start_multi_hop(
                env,
                &user,
                cw20_msg.amount,
                &operations,
                minimum_receive,
                deadline,
                recipient,
                balance,
            )
        },
    }
}

/// The message that swaps `amount` in the pool of a hop. No price is set for the hop: the
/// whole route is held to its minimum at the end.
pub open spec fn pool_swap_msg(op: SwapOperation, amount: u128, to: Addr) -> RouterMsg {
    match op.offer_asset_info {
        TokenType::Bluechip { denom } => RouterMsg::PoolSwap {
            pool_addr: op.pool_addr,
            offer_asset: TokenInfo { info: op.offer_asset_info, amount },
            to,
            funds: Coin { denom, amount },
        },
        TokenType::CreatorToken { contract_addr } => RouterMsg::Cw20Swap {
            contract_addr,
            pool_addr: op.pool_addr,
            amount,
            to,
        },
    }
}

fn build_pool_swap_msg(operation: &SwapOperation, offer_amount: u128, to: Addr) -> (r: RouterMsg)
    ensures
        r == pool_swap_msg(*operation, offer_amount, to),
{
    match &operation.offer_asset_info {
        TokenType::Bluechip { denom } => RouterMsg::PoolSwap {
            pool_addr: operation.pool_addr.clone(),
            offer_asset: TokenInfo {
                info: operation.offer_asset_info.clone(),
                amount: offer_amount,
            },
            to,
            funds: Coin { denom: denom.clone(), amount: offer_amount },
        },
        TokenType::CreatorToken { contract_addr } => RouterMsg::Cw20Swap {
            contract_addr: contract_addr.clone(),
            pool_addr: operation.pool_addr.clone(),
            amount: offer_amount,
            to,
        },
    }
}

/// What one hop answers.
pub open spec fn hop_outcome(
    env: Env,
    info: MessageInfo,
    op: SwapOperation,
    hop_index: u32,
    to: Result<Addr, StdError>,
    balance: Result<u128, StdError>,
    r: Result<Response, RouterError>,
) -> bool {
    let failed = |e: RouterError| r == Err::<Response, RouterError>(e);
    if info.sender@ != env.contract@ {
        failed(RouterError::Unauthorized)
    } else if to is Err {
        failed(RouterError::Std(to->Err_0))
    } else if balance is Err {
        failed(RouterError::Std(balance->Err_0))
    } else if balance->Ok_0 == 0 {
        r matches Err(RouterError::HopFailed { hop_index: hop, pool_addr, reason }) && hop
            == hop_index && pool_addr == op.pool_addr && reason@
            == "router holds zero balance of the offer token at hop start"@
    } else {
        &&& r matches Ok(resp)
        &&& resp.messages@ == seq![pool_swap_msg(op, balance->Ok_0, to->Ok_0)]
        &&& resp.attrs() == Seq::<Pair>::empty().push(
            ("action"@, "execute_swap_operation"@),
        ).push(("hop_index"@, digits(hop_index as nat))).push(("pool"@, op.pool_addr@)).push(
            ("offer_amount"@, digits(balance->Ok_0 as nat)),
        ).push(("to"@, to->Ok_0@))
    }
}

/// Runs one hop; only the router itself may call. `balance` is what the router holds of the
/// token that the hop offers.
pub fn execute_swap_operation(
    env: &Env,
    info: &MessageInfo,
    operation: &SwapOperation,
    hop_index: u32,
    to: Result<Addr, StdError>,
    balance: Result<u128, StdError>,
) -> (r: Result<Response, RouterError>)
    ensures
        hop_outcome(*env, *info, *operation, hop_index, to, balance, r),
{
    if info.sender != env.contract {
        return Err(RouterError::Unauthorized);
    }
    let to = in_router(to)?;
    let offer_balance: u128 = in_router(balance)?;
    if offer_balance == 0 {
        return Err(
            RouterError::HopFailed {
                hop_index: hop_index as usize,
                pool_addr: operation.pool_addr.clone(),
                reason: "router holds zero balance of the offer token at hop start".to_string(),
            },
        );
    }
    let mut messages: Vec<RouterMsg> = Vec::new();
    messages.push(build_pool_swap_msg(operation, offer_balance, to.clone()));
    assert(messages@ =~= seq![pool_swap_msg(*operation, offer_balance, to)]);
    Ok(
        Response::with_messages(messages).attr("action", "execute_swap_operation").attr_number(
            "hop_index",
            hop_index as u128,
        ).attr("pool", operation.pool_addr.as_str()).attr_number(
            "offer_amount",
            offer_balance,
        ).attr("to", to.as_str()),
    )
}

/// What the check of the final output answers.
pub open spec fn received_outcome(
    env: Env,
    info: MessageInfo,
    recipient: Result<Addr, StdError>,
    prev_balance: u128,
    minimum: u128,
    balance: Result<u128, StdError>,
    r: Result<Response, RouterError>,
) -> bool {
    let received = balance->Ok_0 - prev_balance;
    let failed = |e: RouterError| r == Err::<Response, RouterError>(e);
    if info.sender@ != env.contract@ {
        failed(RouterError::Unauthorized)
    } else if recipient is Err {
        failed(RouterError::Std(recipient->Err_0))
    } else if balance is Err {
        failed(RouterError::Std(balance->Err_0))
    } else if received < 0 {
        failed(
            RouterError::Std(
                StdError::Generic("recipient balance decreased during route; impossible state"),
            ),
        )
    } else if received < minimum {
        failed(RouterError::SlippageExceeded { minimum, actual: received as u128 })
    } else {
        &&& r matches Ok(resp)
        &&& resp.messages@.len() == 0
        &&& resp.attrs() == Seq::<Pair>::empty().push(("action"@, "assert_received"@)).push(
            ("recipient"@, recipient->Ok_0@),
        ).push(("received"@, digits(received as nat))).push(
            ("minimum_receive"@, digits(minimum as nat)),
        )
    }
}

/// Checks the final output; only the router itself may call. `balance` is what the
/// recipient holds of the final token now.
pub fn execute_assert_received(
    env: &Env,
    info: &MessageInfo,
    recipient: Result<Addr, StdError>,
    prev_balance: u128,
    minimum_receive: u128,
    balance: Result<u128, StdError>,
) -> (r: Result<Response, RouterError>)
    ensures
        received_outcome(
            *env,
            *info,
            recipient,
            prev_balance,
            minimum_receive,
            balance,
            r,
        ),
{
    if info.sender != env.contract {
        return Err(RouterError::Unauthorized);
    }
    let recipient = in_router(recipient)?;
    let current: u128 = in_router(balance)?;
    let received: u128 = match current.checked_sub(prev_balance) {
        Some(received) => received,
        None => {
            return Err(
                RouterError::Std(
                    StdError::Generic("recipient balance decreased during route; impossible state"),
                ),
            );
        },
    };
    if received < minimum_receive {
        return Err(
            RouterError::SlippageExceeded { minimum: minimum_receive, actual: received },
        );
    }
    Ok(
        Response::new().attr("action", "assert_received").attr(
            "recipient",
            recipient.as_str(),
        ).attr_number("received", received).attr_number("minimum_receive", minimum_receive),
    )
}

/// What the reply to a hop answers.
pub open spec fn reply_outcome(
    id: u64,
    payload: Option<HopReplyPayload>,
    result: Result<(), String>,
    r: Result<Response, RouterError>,
) -> bool {
    match hop_of_reply(id) {
        None => r == Err::<Response, RouterError>(
            RouterError::Std(StdError::UnknownReply { id }),
        ),
        Some(hop) => match result {
            Ok(_) => r matches Ok(resp) && resp.messages@.len() == 0 && resp.attrs()
                == Seq::<Pair>::empty(),
            Err(why) => r matches Err(RouterError::HopFailed { hop_index, pool_addr, reason })
                && hop_index == hop && reason == why && pool_addr@ == (match payload {
                Some(p) => p.pool_addr@,
                None => Seq::<char>::empty(),
            }),
        },
    }
}

/// Reports a failed hop with its index and its pool. `payload` is what came back with the
/// reply, where it can be read: without it the pool stays unnamed.
pub fn handle_reply(id: u64, payload: Option<HopReplyPayload>, result: Result<(), String>) -> (r:
    Result<Response, RouterError>)
    ensures
        reply_outcome(id, payload, result, r),
{
    let hop: u32 = match parse_hop_reply_id(id) {
        Some(hop) => hop,
        None => {
            return Err(RouterError::Std(StdError::UnknownReply { id }));
        },
    };
    let pool_addr = match payload {
        Some(p) => p.pool_addr,
        None => String::new(),
    };
    match result {
        Ok(_) => Ok(Response::new()),
        Err(reason) => Err(
            RouterError::HopFailed { hop_index: hop as usize, pool_addr, reason },
        ),
    }
}

} // verus!
