//! What the calls of the router must satisfy, each stated of the call itself.

use vstd::arithmetic::div_mod::*;
use vstd::prelude::*;

use crate::asset::TokenType;
use crate::chain::{Addr, Env, MessageInfo};
use crate::error::StdError;
use crate::number::{timestamp_text, Timestamp};
use crate::pool::swap_laws::is_floor;
use crate::router::contract::{execute_outcome, instantiate, query_config, HostAnswers};
use crate::router::error::RouterError;
use crate::router::execution::{
    broken_hop, execute_assert_received, execute_multi_hop, execute_receive_cw20,
    execute_swap_operation, handle_reply, hop_reply_id, idle_hop, parse_hop_reply_id, route_error,
    start_outcome, validate_route,
};
use crate::router::laws::{lemma_broken_hop, lemma_idle_hop};
use crate::router::msg::{
    ConfigResponse, Cw20HookMsg, Cw20ReceiveMsg, ExecuteMsg, HopReplyPayload, InstantiateMsg,
    Response, RouterMsg, SimulateMultiHopResponse, SwapOperation,
};
use crate::router::simulation::{
    first_hop_error, lemma_survival_bounds, simulate_multi_hop, survival_of, HopAnswer,
    RouterPoolCommitStatus,
};
use crate::router::state::RouterStore;
use crate::text::digits;
use crate::token_laws::{called, one_token};

verus! {

/// Whether the operations make a route.
pub open spec fn makes_a_route(ops: Seq<SwapOperation>) -> bool {
    &&& 1 <= ops.len() <= 3
    &&& forall|i: int|
        0 <= i < ops.len() ==> !one_token(
            (#[trigger] ops[i]).offer_asset_info,
            ops[i].ask_asset_info,
        )
    &&& forall|i: int|
        0 <= i < ops.len() - 1 ==> one_token(
            (#[trigger] ops[i]).ask_asset_info,
            ops[i + 1].offer_asset_info,
        )
    &&& !one_token(ops[0].offer_asset_info, ops[ops.len() - 1].ask_asset_info)
}

/// Whether an error names what is wrong with the operations.
pub open spec fn names_the_fault(ops: Seq<SwapOperation>, e: RouterError) -> bool {
    match e {
        RouterError::EmptyRoute => ops.len() == 0,
        RouterError::MaxHopsExceeded { max, got } => max == 3 && got == ops.len() && ops.len() > 3,
        RouterError::Std(StdError::HopOffersItsAsk { hop, token }) => {
            &&& 1 <= ops.len() <= 3 && 0 <= hop < ops.len()
            &&& one_token(ops[hop as int].offer_asset_info, ops[hop as int].ask_asset_info)
            &&& called(ops[hop as int].offer_asset_info, token@)
            &&& forall|i: int|
                0 <= i < hop ==> !one_token(
                    (#[trigger] ops[i]).offer_asset_info,
                    ops[i].ask_asset_info,
                )
        },
        RouterError::RouteDiscontinuity { hop_index, next_hop_index, ask, next_offer } => {
            &&& ops.len() <= 3 && next_hop_index == hop_index + 1 && next_hop_index < ops.len()
            &&& !one_token(
                ops[hop_index as int].ask_asset_info,
                ops[next_hop_index as int].offer_asset_info,
            )
            &&& called(ops[hop_index as int].ask_asset_info, ask@)
            &&& called(ops[next_hop_index as int].offer_asset_info, next_offer@)
            &&& forall|i: int|
                0 <= i < ops.len() ==> !one_token(
                    (#[trigger] ops[i]).offer_asset_info,
                    ops[i].ask_asset_info,
                )
            &&& forall|i: int|
                0 <= i < hop_index ==> one_token(
                    (#[trigger] ops[i]).ask_asset_info,
                    ops[i + 1].offer_asset_info,
                )
        },
        RouterError::SameInputOutput => {
            &&& 1 <= ops.len() <= 3
            &&& one_token(ops[0].offer_asset_info, ops[ops.len() - 1].ask_asset_info)
            &&& forall|i: int|
                0 <= i < ops.len() ==> !one_token(
                    (#[trigger] ops[i]).offer_asset_info,
                    ops[i].ask_asset_info,
                )
            &&& forall|i: int|
                0 <= i < ops.len() - 1 ==> one_token(
                    (#[trigger] ops[i]).ask_asset_info,
                    ops[i + 1].offer_asset_info,
                )
        },
        _ => false,
    }
}

#[verifier::rlimit(60)]
proof fn lemma_route_error(ops: Seq<SwapOperation>)
    requires
        ops.len() <= usize::MAX,
    ensures
        match route_error(ops) {
            None => makes_a_route(ops),
            Some(e) => names_the_fault(ops, e) && !makes_a_route(ops),
        },
{
    lemma_idle_hop(ops, 0);
    lemma_broken_hop(ops, 0);
    lemma_first_idle(ops, 0);
    lemma_first_broken(ops, 0);
    assert forall|i: int| 0 <= i < ops.len() implies one_token(
        (#[trigger] ops[i]).offer_asset_info,
        ops[i].ask_asset_info,
    ) == ops[i].offer_asset_info.same(ops[i].ask_asset_info) by {
        lemma_one_token(ops[i].offer_asset_info, ops[i].ask_asset_info);
    }
    assert forall|i: int| 0 <= i < ops.len() - 1 implies one_token(
        (#[trigger] ops[i]).ask_asset_info,
        ops[i + 1].offer_asset_info,
    ) == ops[i].ask_asset_info.same(ops[i + 1].offer_asset_info) by {
        lemma_one_token(ops[i].ask_asset_info, ops[i + 1].offer_asset_info);
    }
    if 0 < ops.len() <= 3 {
        lemma_one_token(ops[0].offer_asset_info, ops.last().ask_asset_info);
        if let Some(i) = idle_hop(ops, 0) {
            assert(one_token(ops[i].offer_asset_info, ops[i].ask_asset_info));
        } else if let Some(i) = broken_hop(ops, 0) {
            assert(!one_token(ops[i].ask_asset_info, ops[i + 1].offer_asset_info));
        }
    }
}

proof fn lemma_one_token(a: TokenType, b: TokenType)
    ensures
        a.same(b) == one_token(a, b),
{
}

proof fn lemma_first_idle(ops: Seq<SwapOperation>, from: int)
    requires
        0 <= from,
    ensures
        idle_hop(ops, from) matches Some(k) ==> forall|i: int|
            from <= i < k ==> !(#[trigger] ops[i]).offer_asset_info.same(ops[i].ask_asset_info),
    decreases ops.len() - from,
{
    if from < ops.len() {
        lemma_first_idle(ops, from + 1);
    }
}

proof fn lemma_first_broken(ops: Seq<SwapOperation>, from: int)
    requires
        0 <= from,
    ensures
        broken_hop(ops, from) matches Some(k) ==> forall|i: int|
            from <= i < k ==> (#[trigger] ops[i]).ask_asset_info.same(ops[i + 1].offer_asset_info),
    decreases ops.len() - from,
{
    if from < ops.len() {
        lemma_first_broken(ops, from + 1);
    }
}

/// The check of a route lets the routes through, and names the first fault of the others.
pub proof fn law_routes_are_checked(ops: Vec<SwapOperation>, r: Result<(), RouterError>)
    requires
        call_ensures(validate_route, (&ops,), r),
    ensures
        r is Ok <==> makes_a_route(ops@),
        r matches Err(e) ==> names_the_fault(ops@, e),
{
    assert(ops.len() == ops@.len());
    lemma_route_error(ops@);
}

/// Whether a route is under way: its hops in order, every one paying the router but the last,
/// which pays the recipient, and then the check of the minimum.
pub open spec fn route_starts(
    env: Env,
    sender: Addr,
    amount: u128,
    ops: Seq<SwapOperation>,
    minimum: u128,
    deadline: Option<Timestamp>,
    recipient: Result<Option<Addr>, StdError>,
    balance: Result<u128, StdError>,
    resp: Response,
) -> bool {
    let msgs = resp.messages@;
    let n = ops.len() as int;
    &&& amount > 0 && makes_a_route(ops) && recipient is Ok && balance is Ok
    &&& deadline matches Some(d) ==> env.time.nanos <= d.nanos
    &&& msgs.len() == n + 1
    &&& forall|i: int|
        0 <= i < n ==> {
            &&& (#[trigger] msgs[i]) matches RouterMsg::Hop {
                contract_addr,
                operation,
                hop_index,
                to,
                reply_id,
                payload,
            }
            &&& contract_addr == env.contract && operation == ops[i] && hop_index == i
            &&& reply_id == 1000 + i
            &&& payload.hop_index == i && payload.pool_addr == ops[i].pool_addr
            &&& i < n - 1 ==> to == env.contract
            &&& i == n - 1 ==> match recipient->Ok_0 {
                Some(named) => to == named,
                None => to == sender,
            }
        }
    &&& msgs[n] matches RouterMsg::AssertReceived {
        contract_addr,
        ask_info,
        recipient: to,
        prev_balance,
        minimum_receive,
    } && {
        &&& contract_addr == env.contract && ask_info == ops[n - 1].ask_asset_info
        &&& prev_balance == balance->Ok_0 && minimum_receive == minimum
        &&& match recipient->Ok_0 {
            Some(named) => to == named && resp.attrs().contains(("recipient"@, named@)),
            None => to == sender && resp.attrs().contains(("recipient"@, sender@)),
        }
    }
    &&& resp.attrs().contains(("action"@, "execute_multi_hop"@))
    &&& resp.attrs().contains(("sender"@, sender@))
    &&& resp.attrs().contains(("offer_amount"@, digits(amount as nat)))
    &&& resp.attrs().contains(("hops"@, digits(ops.len())))
    &&& resp.attrs().contains(("minimum_receive"@, digits(minimum as nat)))
}

/// Whether an error tells why a route does not start.
pub open spec fn start_refusal_is_due(
    env: Env,
    amount: u128,
    ops: Seq<SwapOperation>,
    deadline: Option<Timestamp>,
    recipient: Result<Option<Addr>, StdError>,
    balance: Result<u128, StdError>,
    e: RouterError,
) -> bool {
    match e {
        RouterError::ZeroAmount => amount == 0,
        RouterError::DeadlineExceeded { deadline: d, current } => {
            &&& deadline matches Some(end) && env.time.nanos > end.nanos && d == end.nanos
                / 1_000_000_000
            &&& current == env.time.nanos / 1_000_000_000
        },
        RouterError::Std(x) => names_the_fault(ops, e) || recipient == Err::<Option<Addr>, _>(x)
            || balance == Err::<u128, _>(x),
        _ => names_the_fault(ops, e),
    }
}

#[verifier::rlimit(60)]
proof fn lemma_start(
    env: Env,
    sender: Addr,
    amount: u128,
    ops: Seq<SwapOperation>,
    minimum: u128,
    deadline: Option<Timestamp>,
    recipient: Result<Option<Addr>, StdError>,
    balance: Result<u128, StdError>,
    r: Result<Response, RouterError>,
)
    requires
        ops.len() <= usize::MAX,
        start_outcome(env, sender, amount, ops, minimum, deadline, recipient, balance, r),
    ensures
        match r {
            Ok(resp) => route_starts(
                env,
                sender,
                amount,
                ops,
                minimum,
                deadline,
                recipient,
                balance,
                resp,
            ),
            Err(e) => start_refusal_is_due(env, amount, ops, deadline, recipient, balance, e),
        },
{
    lemma_route_error(ops);
    if let Ok(resp) = r {
        let a = resp.attrs();
        assert(a[0] == ("action"@, "execute_multi_hop"@));
        assert(a[1] == ("sender"@, sender@));
        assert(a[2].0 == "recipient"@);
        assert(a[3] == ("offer_amount"@, digits(amount as nat)));
        assert(a[4] == ("hops"@, digits(ops.len())));
        assert(a[5] == ("minimum_receive"@, digits(minimum as nat)));
    }
}

/// A route of native coins starts with the one coin that came along, of the denomination that its
/// first hop offers, and is held to the minimum and the deadline that its sender named; or it is
/// refused for a reason that the error names.
pub proof fn law_native_routes_keep_their_terms(
    env: Env,
    info: MessageInfo,
    ops: Vec<SwapOperation>,
    minimum: u128,
    deadline: Option<Timestamp>,
    recipient: Result<Option<Addr>, StdError>,
    balance: Result<u128, StdError>,
    r: Result<Response, RouterError>,
)
    requires
        call_ensures(
            execute_multi_hop,
            (&env, &info, &ops, minimum, deadline, recipient, balance),
            r,
        ),
    ensures
        native_terms(env, info, ops@, minimum, deadline, recipient, balance, r),
{
    assert(ops.len() == ops@.len());
    if ops@.len() > 0 && info.funds@.len() == 1 {
        if let TokenType::Bluechip { denom } = ops@[0].offer_asset_info {
            if info.funds@[0].denom@ == denom@ {
                lemma_start(
                    env,
                    info.sender,
                    info.funds@[0].amount,
                    ops@,
                    minimum,
                    deadline,
                    recipient,
                    balance,
                    r,
                );
            }
        }
    }
}

/// What the sender of a native route is owed.
pub open spec fn native_terms(
    env: Env,
    info: MessageInfo,
    ops: Seq<SwapOperation>,
    minimum: u128,
    deadline: Option<Timestamp>,
    recipient: Result<Option<Addr>, StdError>,
    balance: Result<u128, StdError>,
    r: Result<Response, RouterError>,
) -> bool {
    let fits = ops.len() > 0 && info.funds@.len() == 1 && (
    ops[0].offer_asset_info matches TokenType::Bluechip { denom } && denom@
        == info.funds@[0].denom@);
    match r {
        Ok(resp) => fits && route_starts(
            env,
            info.sender,
            info.funds@[0].amount,
            ops,
            minimum,
            deadline,
            recipient,
            balance,
            resp,
        ),
        Err(e) => if fits {
            start_refusal_is_due(
                env,
                info.funds@[0].amount,
                ops,
                deadline,
                recipient,
                balance,
                e,
            )
        } else {
            match e {
                RouterError::EmptyRoute => ops.len() == 0,
                RouterError::Std(StdError::FundsDenomMismatch { funds, offer }) => {
                    &&& ops.len() > 0 && info.funds@.len() == 1 && funds == info.funds@[0].denom
                    &&& ops[0].offer_asset_info == (TokenType::Bluechip { denom: offer })
                },
                RouterError::Std(StdError::Generic(_)) => ops.len() > 0 && (
                ops[0].offer_asset_info is CreatorToken || info.funds@.len() != 1),
                _ => false,
            }
        },
    }
}

/// What the sender of a route of CW20 tokens is owed.
pub open spec fn token_terms(
    env: Env,
    info: MessageInfo,
    amount: u128,
    hook: Result<Cw20HookMsg, StdError>,
    user: Result<Addr, StdError>,
    recipient: Result<Option<Addr>, StdError>,
    balance: Result<u128, StdError>,
    r: Result<Response, RouterError>,
) -> bool {
    match hook {
        Err(x) => r == Err::<Response, _>(RouterError::Std(x)),
        Ok(Cw20HookMsg::ExecuteMultiHop { operations, minimum_receive, deadline, .. }) => {
            let ops = operations@;
            let fits = ops.len() > 0 && user is Ok && (
            ops[0].offer_asset_info matches TokenType::CreatorToken { contract_addr }
                && contract_addr@ == info.sender@);
            match r {
                Ok(resp) => fits && route_starts(
                    env,
                    user->Ok_0,
                    amount,
                    ops,
                    minimum_receive,
                    deadline,
                    recipient,
                    balance,
                    resp,
                ),
                Err(e) => if fits {
                    start_refusal_is_due(env, amount, ops, deadline, recipient, balance, e)
                } else {
                    match e {
                        RouterError::EmptyRoute => ops.len() == 0,
                        RouterError::Std(x) => {
                            &&& ops.len() > 0
                            &&& match ops[0].offer_asset_info {
                                TokenType::Bluechip { .. } => x is Generic,
                                TokenType::CreatorToken { contract_addr } => if contract_addr@
                                    != info.sender@ {
                                    x == (StdError::OfferNotFromSender {
                                        offer: contract_addr,
                                        sender: info.sender,
                                    })
                                } else {
                                    user == Err::<Addr, _>(x)
                                },
                            }
                        },
                        _ => false,
                    }
                },
            }
        },
    }
}

/// A route of CW20 tokens starts with the tokens that the contract of its first hop sent, and is
/// held to the minimum, the deadline and the recipient that their sender named; or it is refused
/// for a reason that the error names.
pub proof fn law_token_routes_keep_their_terms(
    env: Env,
    info: MessageInfo,
    cw20_msg: Cw20ReceiveMsg,
    hook: Result<Cw20HookMsg, StdError>,
    user: Result<Addr, StdError>,
    recipient: Result<Option<Addr>, StdError>,
    balance: Result<u128, StdError>,
    r: Result<Response, RouterError>,
)
    requires
        call_ensures(
            execute_receive_cw20,
            (&env, &info, &cw20_msg, hook, user, recipient, balance),
            r,
        ),
    ensures
        token_terms(env, info, cw20_msg.amount, hook, user, recipient, balance, r),
{
    if let Ok(Cw20HookMsg::ExecuteMultiHop { operations, minimum_receive, deadline, .. }) = hook {
        assert(operations.len() == operations@.len());
        if operations@.len() > 0 && user is Ok {
            if let TokenType::CreatorToken { contract_addr } = operations@[0].offer_asset_info {
                if contract_addr@ == info.sender@ {
                    lemma_start(
                        env,
                        user->Ok_0,
                        cw20_msg.amount,
                        operations@,
                        minimum_receive,
                        deadline,
                        recipient,
                        balance,
                        r,
                    );
                }
            }
        }
    }
}

/// A call that starts a route keeps the terms of the call or of the message that came with the
/// tokens, and changes no setting.
pub proof fn law_calls_start_routes_on_their_terms(
    before: RouterStore,
    after: RouterStore,
    env: Env,
    info: MessageInfo,
    msg: ExecuteMsg,
    host: HostAnswers,
    r: Result<Response, RouterError>,
)
    requires
        execute_outcome(before, after, env, info, msg, host, r),
    ensures
        msg matches ExecuteMsg::ExecuteMultiHop { operations, minimum_receive, deadline, .. }
            ==> after == before && native_terms(
            env,
            info,
            operations@,
            minimum_receive,
            deadline,
            host.recipient,
            host.balance,
            r,
        ),
        msg matches ExecuteMsg::Receive(cw20_msg) ==> after == before && token_terms(
            env,
            info,
            cw20_msg.amount,
            host.hook,
            host.user,
            host.recipient,
            host.balance,
            r,
        ),
{
    match msg {
        ExecuteMsg::ExecuteMultiHop { operations, minimum_receive, deadline, .. } => {
            let ops = operations@;
            assert(operations.len() == ops.len());
            if ops.len() > 0 && info.funds@.len() == 1 {
                if let TokenType::Bluechip { denom } = ops[0].offer_asset_info {
                    if info.funds@[0].denom@ == denom@ {
                        lemma_start(
                            env,
                            info.sender,
                            info.funds@[0].amount,
                            ops,
                            minimum_receive,
                            deadline,
                            host.recipient,
                            host.balance,
                            r,
                        );
                    }
                }
            }
        },
        ExecuteMsg::Receive(cw20_msg) => {
            if let Ok(
                Cw20HookMsg::ExecuteMultiHop { operations, minimum_receive, deadline, .. },
            ) = host.hook {
                assert(operations.len() == operations@.len());
                if operations@.len() > 0 && host.user is Ok {
                    if let TokenType::CreatorToken { contract_addr } =
                        operations@[0].offer_asset_info {
                        if contract_addr@ == info.sender@ {
                            lemma_start(
                                env,
                                host.user->Ok_0,
                                cw20_msg.amount,
                                operations@,
                                minimum_receive,
                                deadline,
                                host.recipient,
                                host.balance,
                                r,
                            );
                        }
                    }
                }
            }
        },
        _ => {},
    }
}

/// What a hop is to do: swap all that the router holds of what it offers, in its pool, for the
/// receiver.
pub open spec fn hop_terms(
    env: Env,
    info: MessageInfo,
    op: SwapOperation,
    hop_index: u32,
    to: Result<Addr, StdError>,
    balance: Result<u128, StdError>,
    r: Result<Response, RouterError>,
) -> bool {
    match r {
        Ok(resp) => {
            &&& info.sender@ == env.contract@ && to is Ok && balance is Ok && balance->Ok_0 > 0
            &&& resp.messages@.len() == 1
            &&& match resp.messages@[0] {
                RouterMsg::PoolSwap { pool_addr, offer_asset, to: receiver, funds } => {
                    &&& pool_addr == op.pool_addr && receiver == to->Ok_0
                    &&& offer_asset.info == op.offer_asset_info
                    &&& offer_asset.amount == balance->Ok_0 && funds.amount == balance->Ok_0
                    &&& op.offer_asset_info == (TokenType::Bluechip { denom: funds.denom })
                },
                RouterMsg::Cw20Swap { contract_addr, pool_addr, amount, to: receiver } => {
                    &&& pool_addr == op.pool_addr && receiver == to->Ok_0 && amount == balance->Ok_0
                    &&& op.offer_asset_info == (TokenType::CreatorToken { contract_addr })
                },
                _ => false,
            }
            &&& resp.attrs().contains(("action"@, "execute_swap_operation"@))
            &&& resp.attrs().contains(("hop_index"@, digits(hop_index as nat)))
            &&& resp.attrs().contains(("pool"@, op.pool_addr@))
            &&& resp.attrs().contains(("offer_amount"@, digits(balance->Ok_0 as nat)))
            &&& resp.attrs().contains(("to"@, to->Ok_0@))
        },
        Err(RouterError::Unauthorized) => info.sender@ != env.contract@,
        Err(RouterError::Std(x)) => info.sender@ == env.contract@ && (to == Err::<Addr, _>(x)
            || balance == Err::<u128, _>(x)),
        Err(RouterError::HopFailed { hop_index: hop, pool_addr, .. }) => {
            &&& info.sender@ == env.contract@ && balance == Ok::<_, StdError>(0u128)
            &&& hop == hop_index && pool_addr == op.pool_addr
        },
        Err(_) => false,
    }
}

/// What the last check is to do: let a route pass that brought the minimum.
pub open spec fn check_terms(
    env: Env,
    info: MessageInfo,
    recipient: Result<Addr, StdError>,
    prev_balance: u128,
    minimum: u128,
    balance: Result<u128, StdError>,
    r: Result<Response, RouterError>,
) -> bool {
    match r {
        Ok(resp) => {
            &&& info.sender@ == env.contract@ && recipient is Ok && balance is Ok
            &&& prev_balance + minimum <= balance->Ok_0
            &&& resp.messages@.len() == 0
            &&& resp.attrs().contains(("action"@, "assert_received"@))
            &&& resp.attrs().contains(("recipient"@, recipient->Ok_0@))
            &&& resp.attrs().contains(
                ("received"@, digits((balance->Ok_0 - prev_balance) as nat)),
            )
            &&& resp.attrs().contains(("minimum_receive"@, digits(minimum as nat)))
        },
        Err(RouterError::Unauthorized) => info.sender@ != env.contract@,
        Err(RouterError::SlippageExceeded { minimum: least, actual }) => {
            &&& info.sender@ == env.contract@ && balance is Ok
            &&& least == minimum && prev_balance + actual == balance->Ok_0 && actual < minimum
        },
        Err(RouterError::Std(x)) => info.sender@ == env.contract@ && (recipient == Err::<Addr, _>(x)
            || balance == Err::<u128, _>(x) || (x is Generic && balance is Ok && balance->Ok_0
            < prev_balance)),
        Err(_) => false,
    }
}

proof fn lemma_hop(
    env: Env,
    info: MessageInfo,
    op: SwapOperation,
    hop_index: u32,
    to: Result<Addr, StdError>,
    balance: Result<u128, StdError>,
    r: Result<Response, RouterError>,
)
    requires
        crate::router::execution::hop_outcome(env, info, op, hop_index, to, balance, r),
    ensures
        hop_terms(env, info, op, hop_index, to, balance, r),
{
    if let Ok(resp) = r {
        let a = resp.attrs();
        assert(a[0] == ("action"@, "execute_swap_operation"@));
        assert(a[1] == ("hop_index"@, digits(hop_index as nat)));
        assert(a[2] == ("pool"@, op.pool_addr@));
        assert(a[3] == ("offer_amount"@, digits(balance->Ok_0 as nat)));
        assert(a[4] == ("to"@, to->Ok_0@));
    }
}

proof fn lemma_check(
    env: Env,
    info: MessageInfo,
    recipient: Result<Addr, StdError>,
    prev_balance: u128,
    minimum: u128,
    balance: Result<u128, StdError>,
    r: Result<Response, RouterError>,
)
    requires
        crate::router::execution::received_outcome(
            env,
            info,
            recipient,
            prev_balance,
            minimum,
            balance,
            r,
        ),
    ensures
        check_terms(env, info, recipient, prev_balance, minimum, balance, r),
{
    if let Ok(resp) = r {
        let a = resp.attrs();
        assert(a[0] == ("action"@, "assert_received"@));
        assert(a[1] == ("recipient"@, recipient->Ok_0@));
        assert(a[2] == ("received"@, digits((balance->Ok_0 - prev_balance) as nat)));
        assert(a[3] == ("minimum_receive"@, digits(minimum as nat)));
    }
}

/// A hop swaps all that the router holds of the token that it offers, in its own pool, for its
/// receiver.
pub proof fn law_hops_swap_what_is_held(
    env: Env,
    info: MessageInfo,
    op: SwapOperation,
    hop_index: u32,
    to: Result<Addr, StdError>,
    balance: Result<u128, StdError>,
    r: Result<Response, RouterError>,
)
    requires
        call_ensures(execute_swap_operation, (&env, &info, &op, hop_index, to, balance), r),
    ensures
        hop_terms(env, info, op, hop_index, to, balance, r),
{
    lemma_hop(env, info, op, hop_index, to, balance, r);
}

/// The last check lets a route pass exactly where the recipient got the minimum.
pub proof fn law_the_minimum_decides(
    env: Env,
    info: MessageInfo,
    recipient: Result<Addr, StdError>,
    prev_balance: u128,
    minimum: u128,
    balance: Result<u128, StdError>,
    r: Result<Response, RouterError>,
)
    requires
        call_ensures(
            execute_assert_received,
            (&env, &info, recipient, prev_balance, minimum, balance),
            r,
        ),
    ensures
        check_terms(env, info, recipient, prev_balance, minimum, balance, r),
{
    lemma_check(env, info, recipient, prev_balance, minimum, balance, r);
}

/// The calls of the router to itself do what the hop and the check are to do, with the amounts of
/// the call.
pub proof fn law_inner_calls_do_their_part(
    before: RouterStore,
    after: RouterStore,
    env: Env,
    info: MessageInfo,
    msg: ExecuteMsg,
    host: HostAnswers,
    r: Result<Response, RouterError>,
)
    requires
        execute_outcome(before, after, env, info, msg, host, r),
    ensures
        msg matches ExecuteMsg::ExecuteSwapOperation { operation, hop_index, .. } ==> after
            == before && hop_terms(env, info, operation, hop_index, host.to, host.balance, r),
        msg matches ExecuteMsg::AssertReceived { prev_balance, minimum_receive, .. } ==> after
            == before && check_terms(
            env,
            info,
            host.to,
            prev_balance,
            minimum_receive,
            host.balance,
            r,
        ),
{
    match msg {
        ExecuteMsg::ExecuteSwapOperation { operation, hop_index, .. } => {
            lemma_hop(env, info, operation, hop_index, host.to, host.balance, r);
        },
        ExecuteMsg::AssertReceived { prev_balance, minimum_receive, .. } => {
            lemma_check(
                env,
                info,
                host.to,
                prev_balance,
                minimum_receive,
                host.balance,
                r,
            );
        },
        _ => {},
    }
}

/// The numbers of the replies tell the hops apart, and only those of three hops are taken.
pub proof fn law_reply_numbers_read_back(hop: u32, id: u64, read: Option<u32>)
    requires
        call_ensures(parse_hop_reply_id, (id,), read),
    ensures
        call_ensures(hop_reply_id, (hop,), id) && hop < 3 ==> read == Some(hop),
        call_ensures(hop_reply_id, (hop,), id) ==> id == 1000 + hop,
        read is Some <==> 1000 <= id <= 1002,
        read matches Some(h) ==> h + 1000 == id,
{
}

/// The reply of a hop that failed fails with the hop, its pool and its reason; that of one that
/// went through says nothing.
pub proof fn law_replies_report_their_hop(
    id: u64,
    payload: Option<HopReplyPayload>,
    result: Result<(), String>,
    r: Result<Response, RouterError>,
)
    requires
        call_ensures(handle_reply, (id, payload, result), r),
    ensures
        r is Ok <==> 1000 <= id <= 1002 && result is Ok,
        r matches Ok(resp) ==> resp.messages@.len() == 0 && resp.attrs().len() == 0,
        r matches Err(e) ==> if 1000 <= id <= 1002 {
            e matches RouterError::HopFailed { hop_index, pool_addr, reason } && hop_index + 1000
                == id && result == Err::<(), _>(reason) && (payload matches Some(p) ==> pool_addr@
                == p.pool_addr@) && (payload is None ==> pool_addr@.len() == 0)
        } else {
            e == RouterError::Std(StdError::UnknownReply { id })
        },
{
}

/// The settings change by announcement: the admin alone announces, makes and drops a change, one
/// at a time, after two days, and a setting that the change does not name stays as it was.
pub proof fn law_changes_are_made_as_announced(
    before: RouterStore,
    after: RouterStore,
    env: Env,
    info: MessageInfo,
    msg: ExecuteMsg,
    host: HostAnswers,
    r: Result<Response, RouterError>,
)
    requires
        env.time.nanos + 172_800 * 1_000_000_000 <= u64::MAX,
        execute_outcome(before, after, env, info, msg, host, r),
    ensures
        msg matches ExecuteMsg::ProposeConfigUpdate { admin, factory_addr } ==> {
            let named = (admin is Some ==> host.admin is Ok) && (factory_addr is Some
                ==> host.factory is Ok);
            &&& r is Ok <==> info.sender@ == before.config.admin@ && before.pending_config is None
                && named
            &&& r matches Ok(resp) ==> {
                &&& after.config == before.config
                &&& after.pending_config matches Some(p) && p.admin == admin && p.factory_addr
                    == factory_addr && p.effective_after.nanos == env.time.nanos + 172_800
                    * 1_000_000_000
                &&& resp.messages@.len() == 0
                &&& resp.attrs().contains(("action"@, "propose_config_update"@))
                &&& resp.attrs().contains(
                    (
                        "effective_after"@,
                        timestamp_text(after.pending_config->Some_0.effective_after),
                    ),
                )
            }
            &&& r matches Err(e) ==> after == before && match e {
                RouterError::Unauthorized => info.sender@ != before.config.admin@,
                RouterError::ConfigUpdateAlreadyPending => before.pending_config is Some,
                RouterError::Std(x) => (admin is Some && host.admin == Err::<Addr, _>(x)) || (
                factory_addr is Some && host.factory == Err::<Addr, _>(x)),
                _ => false,
            }
        },
        msg is UpdateConfig ==> {
            let due = before.pending_config matches Some(p) && p.effective_after.nanos
                <= env.time.nanos && (p.admin is Some ==> host.admin is Ok) && (
            p.factory_addr is Some ==> host.factory is Ok);
            &&& r is Ok <==> info.sender@ == before.config.admin@ && due
            &&& r matches Ok(resp) ==> {
                let p = before.pending_config->Some_0;
                &&& after.pending_config is None
                &&& p.admin is Some ==> Ok::<_, StdError>(after.config.admin) == host.admin
                &&& p.admin is None ==> after.config.admin == before.config.admin
                &&& p.factory_addr is Some ==> Ok::<_, StdError>(after.config.factory_addr)
                    == host.factory
                &&& p.factory_addr is None ==> after.config.factory_addr
                    == before.config.factory_addr
                &&& after.config.bluechip_denom == before.config.bluechip_denom
                &&& resp.messages@.len() == 0
                &&& resp.attrs().contains(("action"@, "update_config"@))
                &&& resp.attrs().contains(("admin"@, after.config.admin@))
                &&& resp.attrs().contains(("factory_addr"@, after.config.factory_addr@))
            }
            &&& r matches Err(e) ==> after == before && match e {
                RouterError::Unauthorized => info.sender@ != before.config.admin@,
                RouterError::NoPendingConfigUpdate => before.pending_config is None,
                RouterError::TimelockNotExpired { effective_after } => (
                before.pending_config matches Some(p) && env.time.nanos < p.effective_after.nanos
                    && effective_after == p.effective_after.nanos / 1_000_000_000),
                RouterError::Std(x) => host.admin == Err::<Addr, _>(x) || host.factory
                    == Err::<Addr, _>(x),
                _ => false,
            }
        },
        msg is CancelConfigUpdate ==> {
            &&& r is Ok <==> info.sender@ == before.config.admin@ && before.pending_config is Some
            &&& r matches Ok(resp) ==> {
                &&& after.config == before.config && after.pending_config is None
                &&& resp.messages@.len() == 0
                &&& resp.attrs().contains(("action"@, "cancel_config_update"@))
            }
            &&& r matches Err(e) ==> after == before && match e {
                RouterError::Unauthorized => info.sender@ != before.config.admin@,
                RouterError::NoPendingConfigUpdate => before.pending_config is None,
                _ => false,
            }
        },
{
    if let Ok(resp) = r {
        let a = resp.attrs();
        match msg {
            ExecuteMsg::ProposeConfigUpdate { .. } => {
                assert(a[0] == ("action"@, "propose_config_update"@));
                assert(a[1].0 == "effective_after"@);
            },
            ExecuteMsg::UpdateConfig {  } => {
                assert(a[0] == ("action"@, "update_config"@));
                assert(a[1] == ("admin"@, after.config.admin@));
                assert(a[2] == ("factory_addr"@, after.config.factory_addr@));
            },
            ExecuteMsg::CancelConfigUpdate {  } => {
                assert(a[0] == ("action"@, "cancel_config_update"@));
            },
            _ => {},
        }
    }
}

/// The router starts with the settings that it is given, and tells them when it is asked.
pub proof fn law_settings_are_kept(
    msg: InstantiateMsg,
    factory: Result<Addr, StdError>,
    admin: Result<Addr, StdError>,
    r: Result<(RouterStore, Response), RouterError>,
    answer: ConfigResponse,
)
    requires
        call_ensures(instantiate, (msg, factory, admin), r),
        r matches Ok((store, _)) ==> call_ensures(query_config, (&store,), answer),
    ensures
        r is Ok <==> factory is Ok && admin is Ok,
        r matches Ok((store, resp)) ==> {
            &&& Ok::<_, StdError>(answer.factory_addr) == factory
            &&& Ok::<_, StdError>(answer.admin) == admin
            &&& answer.bluechip_denom == msg.bluechip_denom
            &&& store.pending_config is None
            &&& resp.messages@.len() == 0
            &&& resp.attrs().contains(("action"@, "instantiate"@))
            &&& resp.attrs().contains(("factory_addr"@, answer.factory_addr@))
            &&& resp.attrs().contains(("bluechip_denom"@, msg.bluechip_denom@))
            &&& resp.attrs().contains(("admin"@, answer.admin@))
        },
        r matches Err(e) ==> (e matches RouterError::Std(x) && (factory == Err::<Addr, _>(x)
            || admin == Err::<Addr, _>(x))),
{
    if let Ok((store, resp)) = r {
        let a = resp.attrs();
        assert(a[0] == ("action"@, "instantiate"@));
        assert(a[1] == ("factory_addr"@, answer.factory_addr@));
        assert(a[2] == ("bluechip_denom"@, msg.bluechip_denom@));
        assert(a[3] == ("admin"@, answer.admin@));
    }
}

/// The parts that are left after every hop: `left[0]` is all of it, and every hop leaves of that
/// the part which its return is of its return and spread, rounded down twice.
pub open spec fn is_left_over(answers: Seq<HopAnswer>, left: Seq<int>, parts: Seq<int>) -> bool {
    &&& left.len() == answers.len() + 1 && parts.len() == answers.len()
    &&& left[0] == 1_000_000_000_000_000_000
    &&& forall|i: int|
        0 <= i < answers.len() ==> {
            let sim = (#[trigger] answers[i]).simulation->Ok_0;
            let ideal = sim.return_amount + sim.spread_amount;
            if ideal == 0 {
                left[i + 1] == left[i]
            } else {
                &&& is_floor(parts[i], sim.return_amount * 1_000_000_000_000_000_000, ideal)
                &&& is_floor(left[i + 1], left[i] * parts[i], 1_000_000_000_000_000_000)
            }
        }
}

/// The parts that are left are told by what the pools answer.
proof fn lemma_left_over(answers: Seq<HopAnswer>, left: Seq<int>, parts: Seq<int>, n: int)
    requires
        is_left_over(answers, left, parts),
        0 <= n <= answers.len(),
    ensures
        left[n] == survival_of(answers, n),
        0 <= left[n] <= 1_000_000_000_000_000_000,
    decreases n,
{
    if n > 0 {
        lemma_left_over(answers, left, parts, n - 1);
        let sim = answers[n - 1].simulation->Ok_0;
        let ideal = sim.return_amount + sim.spread_amount;
        let one: int = 1_000_000_000_000_000_000;
        lemma_survival_bounds(left[n - 1], sim);
        if ideal != 0 {
            lemma_fundamental_div_mod_converse(
                sim.return_amount * one,
                ideal,
                parts[n - 1],
                sim.return_amount * one - parts[n - 1] * ideal,
            );
            lemma_fundamental_div_mod_converse(
                left[n - 1] * parts[n - 1],
                one,
                left[n],
                left[n - 1] * parts[n - 1] - left[n] * one,
            );
        }
    }
}

/// A simulation that succeeds hands on what every pool says it returns, the last of which is the
/// final amount, and its price impact is what the hops together do not leave. One that fails
/// names the first hop that fails, or what is wrong with the route.
pub proof fn law_simulations_add_up(
    operations: Vec<SwapOperation>,
    offer_amount: u128,
    answers: Vec<HopAnswer>,
    r: Result<SimulateMultiHopResponse, RouterError>,
    left: Seq<int>,
    parts: Seq<int>,
)
    requires
        answers@.len() == operations@.len(),
        call_ensures(simulate_multi_hop, (&operations, offer_amount, answers), r),
        is_left_over(answers@, left, parts),
    ensures
        r matches Ok(s) ==> {
            &&& offer_amount > 0 && makes_a_route(operations@)
            &&& s.intermediate_amounts@.len() == answers@.len()
            &&& forall|i: int|
                0 <= i < answers@.len() ==> (#[trigger] answers@[i]).status == Ok::<_, StdError>(
                    RouterPoolCommitStatus::FullyCommitted,
                ) && (answers@[i].simulation matches Ok(sim) && sim.return_amount
                    == s.intermediate_amounts@[i] && sim.return_amount + sim.spread_amount
                    <= u128::MAX)
            &&& answers@[answers@.len() - 1].simulation->Ok_0.return_amount == s.final_amount
            &&& s.price_impact.atomics + left[answers@.len() as int] == 1_000_000_000_000_000_000
        },
        r matches Err(e) ==> {
            ||| e is ZeroAmount && offer_amount == 0
            ||| offer_amount > 0 && names_the_fault(operations@, e)
            ||| offer_amount > 0 && makes_a_route(operations@) && exists|i: int|
                #![trigger answers@[i]]
                0 <= i < answers@.len() && hop_fails(operations@[i], i, answers@[i], e) && (
                forall|j: int|
                    0 <= j < i ==> (#[trigger] answers@[j]).simulation is Ok
                        && answers@[j].status == Ok::<_, StdError>(
                        RouterPoolCommitStatus::FullyCommitted,
                    ))
        },
{
    assert(operations.len() == operations@.len());
    lemma_route_error(operations@);
    lemma_left_over(answers@, left, parts, answers@.len() as int);
    if operations@.len() <= 3 {
        lemma_first_failure(operations@, answers@, 0);
    }
    if let Ok(s) = r {
        assert forall|i: int| 0 <= i < answers@.len() implies (#[trigger] answers@[i]).status
            == Ok::<_, StdError>(RouterPoolCommitStatus::FullyCommitted) && (
        answers@[i].simulation matches Ok(sim) && sim.return_amount == s.intermediate_amounts@[i]
            && sim.return_amount + sim.spread_amount <= u128::MAX) by {
            assert(crate::router::simulation::hop_error(operations@[i], i, answers@[i]) is None);
        }
    }
}

/// Whether a hop fails with an error: its pool is still in its commit phase, or what it answers
/// cannot be used.
pub open spec fn hop_fails(op: SwapOperation, i: int, answer: HopAnswer, e: RouterError) -> bool {
    match e {
        RouterError::PoolInCommitPhase { hop_index, pool_addr, raised, target } => {
            &&& hop_index == i && pool_addr == op.pool_addr
            &&& answer.status == Ok::<_, StdError>(
                RouterPoolCommitStatus::InProgress { raised, target },
            )
        },
        RouterError::Std(x) => {
            ||| answer.status == Err::<RouterPoolCommitStatus, _>(x)
            ||| answer.status is Ok && (answer.simulation matches Err(y) && y == x)
            ||| x is Generic && (answer.simulation matches Ok(sim) && sim.return_amount
                + sim.spread_amount > u128::MAX)
        },
        _ => false,
    }
}

proof fn lemma_first_failure(ops: Seq<SwapOperation>, answers: Seq<HopAnswer>, from: int)
    requires
        0 <= from,
        answers.len() == ops.len() <= 3,
    ensures
        match first_hop_error(ops, answers, from) {
            None => forall|i: int|
                from <= i < ops.len() ==> crate::router::simulation::hop_error(
                    #[trigger] ops[i],
                    i,
                    answers[i],
                ) is None,
            Some(e) => exists|i: int|
                #![trigger answers[i]]
                from <= i < answers.len() && hop_fails(ops[i], i, answers[i], e) && (forall|j: int|
                    from <= j < i ==> (#[trigger] answers[j]).simulation is Ok && answers[j].status
                        == Ok::<_, StdError>(RouterPoolCommitStatus::FullyCommitted)),
        },
    decreases ops.len() - from,
{
    if from < ops.len() {
        lemma_first_failure(ops, answers, from + 1);
        match crate::router::simulation::hop_error(ops[from], from, answers[from]) {
            Some(e) => {
                assert(hop_fails(ops[from], from, answers[from], e));
            },
            None => {
                if let Some(e) = first_hop_error(ops, answers, from + 1) {
                    let i = choose|i: int|
                        #![trigger answers[i]]
                        from + 1 <= i < answers.len() && hop_fails(ops[i], i, answers[i], e) && (
                        forall|j: int|
                            from + 1 <= j < i ==> (#[trigger] answers[j]).simulation is Ok
                                && answers[j].status == Ok::<_, StdError>(
                                RouterPoolCommitStatus::FullyCommitted,
                            ));
                    assert(hop_fails(ops[i], i, answers[i], e));
                    assert forall|j: int| from <= j < i implies (
                    #[trigger] answers[j]).simulation is Ok && answers[j].status == Ok::<
                        _,
                        StdError,
                    >(RouterPoolCommitStatus::FullyCommitted) by {}
                }
            },
        }
    }
}

/// Whether a call of the router is refused with an error.
pub open spec fn is_refused(r: Result<Response, RouterError>, e: RouterError) -> bool {
    r matches Err(x) && x == e
}

/// Whether the checks of a route come in order: its amount, its deadline, its operations, its
/// recipient and what that holds.
pub open spec fn start_is_checked(
    env: Env,
    amount: u128,
    ops: Seq<SwapOperation>,
    deadline: Option<Timestamp>,
    recipient: Result<Option<Addr>, StdError>,
    balance: Result<u128, StdError>,
    r: Result<Response, RouterError>,
) -> bool {
    if amount == 0 {
        is_refused(r, RouterError::ZeroAmount)
    } else if deadline matches Some(d) && d.nanos < env.time.nanos {
        r matches Err(e) && e is DeadlineExceeded
    } else if !makes_a_route(ops) {
        r matches Err(e) && names_the_fault(ops, e)
    } else if recipient is Err {
        is_refused(r, RouterError::Std(recipient->Err_0))
    } else if balance is Err {
        is_refused(r, RouterError::Std(balance->Err_0))
    } else {
        r is Ok
    }
}

/// The checks of the router come in order, and a call that passes them all goes through.
#[verifier::rlimit(60)]
pub proof fn law_calls_of_the_router_are_checked_in_order(
    before: RouterStore,
    after: RouterStore,
    env: Env,
    info: MessageInfo,
    msg: ExecuteMsg,
    host: HostAnswers,
    r: Result<Response, RouterError>,
)
    requires
        execute_outcome(before, after, env, info, msg, host, r),
    ensures
        ({
            let admin = info.sender@ == before.config.admin@;
            let own = info.sender@ == env.contract@;
            &&& msg matches ExecuteMsg::ExecuteMultiHop { operations, deadline, .. } ==> {
                let ops = operations@;
                if ops.len() == 0 {
                    is_refused(r, RouterError::EmptyRoute)
                } else {
                    match ops[0].offer_asset_info {
                        TokenType::CreatorToken { .. } => r matches Err(
                            RouterError::Std(StdError::Generic(_)),
                        ),
                        TokenType::Bluechip { denom } => if info.funds@.len() != 1 {
                            r matches Err(RouterError::Std(StdError::Generic(_)))
                        } else if info.funds@[0].denom@ != denom@ {
                            r matches Err(RouterError::Std(StdError::FundsDenomMismatch { .. }))
                        } else {
                            start_is_checked(
                                env,
                                info.funds@[0].amount,
                                ops,
                                deadline,
                                host.recipient,
                                host.balance,
                                r,
                            )
                        },
                    }
                }
            }
            &&& msg matches ExecuteMsg::Receive(cw20_msg) ==> match host.hook {
                Err(x) => is_refused(r, RouterError::Std(x)),
                Ok(Cw20HookMsg::ExecuteMultiHop { operations, deadline, .. }) => {
                    let ops = operations@;
                    if ops.len() == 0 {
                        is_refused(r, RouterError::EmptyRoute)
                    } else {
                        match ops[0].offer_asset_info {
                            TokenType::Bluechip { .. } => r matches Err(
                                RouterError::Std(StdError::Generic(_)),
                            ),
                            TokenType::CreatorToken { contract_addr } => if contract_addr@
                                != info.sender@ {
                                r matches Err(RouterError::Std(StdError::OfferNotFromSender { .. }))
                            } else if host.user is Err {
                                is_refused(r, RouterError::Std(host.user->Err_0))
                            } else {
                                start_is_checked(
                                    env,
                                    cw20_msg.amount,
                                    ops,
                                    deadline,
                                    host.recipient,
                                    host.balance,
                                    r,
                                )
                            },
                        }
                    }
                },
            }
            &&& msg is ExecuteSwapOperation ==> if !own {
                is_refused(r, RouterError::Unauthorized)
            } else if host.to is Err {
                is_refused(r, RouterError::Std(host.to->Err_0))
            } else if host.balance is Err {
                is_refused(r, RouterError::Std(host.balance->Err_0))
            } else {
                r is Ok <==> host.balance->Ok_0 > 0
            }
            &&& msg matches ExecuteMsg::AssertReceived { prev_balance, minimum_receive, .. }
                ==> if !own {
                is_refused(r, RouterError::Unauthorized)
            } else if host.to is Err {
                is_refused(r, RouterError::Std(host.to->Err_0))
            } else if host.balance is Err {
                is_refused(r, RouterError::Std(host.balance->Err_0))
            } else {
                r is Ok <==> prev_balance + minimum_receive <= host.balance->Ok_0
            }
            &&& msg is ProposeConfigUpdate ==> if !admin {
                is_refused(r, RouterError::Unauthorized)
            } else {
                before.pending_config is Some ==> is_refused(
                    r,
                    RouterError::ConfigUpdateAlreadyPending,
                )
            }
            &&& msg matches ExecuteMsg::ProposeConfigUpdate { admin: Some(_), .. } ==> (admin
                && before.pending_config is None && host.admin is Err ==> is_refused(
                r,
                RouterError::Std(host.admin->Err_0),
            ))
            &&& msg is UpdateConfig || msg is CancelConfigUpdate ==> if !admin {
                is_refused(r, RouterError::Unauthorized)
            } else {
                before.pending_config is None ==> is_refused(r, RouterError::NoPendingConfigUpdate)
            }
            &&& msg is UpdateConfig && admin ==> (before.pending_config matches Some(p) ==> if env.time.nanos
                < p.effective_after.nanos {
                r matches Err(e) && e is TimelockNotExpired
            } else {
                p.admin is Some && host.admin is Err ==> is_refused(
                    r,
                    RouterError::Std(host.admin->Err_0),
                )
            })
        }),
{
    match msg {
        ExecuteMsg::ExecuteMultiHop { operations, .. } => {
            assert(operations.len() == operations@.len());
            lemma_route_error(operations@);
        },
        ExecuteMsg::Receive(_) => {
            if let Ok(Cw20HookMsg::ExecuteMultiHop { operations, .. }) = host.hook {
                assert(operations.len() == operations@.len());
                lemma_route_error(operations@);
            }
        },
        _ => {},
    }
}

} // verus!
