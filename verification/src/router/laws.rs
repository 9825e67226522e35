//! What holds of the router as a whole.

use vstd::prelude::*;

use crate::chain::{Addr, Env, MessageInfo};
use crate::error::StdError;
use crate::number::{Timestamp, ONE};
use crate::router::contract::{cancel_outcome, execute_outcome, propose_outcome, HostAnswers};
use crate::router::error::RouterError;
use crate::router::execution::{
    broken_hop, hop_of_reply, idle_hop, received_outcome, route_error, start_outcome,
    REPLY_ID_HOP_BASE,
};
use crate::router::msg::{ExecuteMsg, Response, RouterMsg, SwapOperation};
use crate::router::simulation::{lemma_survival_bounds, survival_of, HopAnswer};
use crate::router::state::{RouterStore, MAX_HOPS};

verus! {

/// The number of a reply names its hop: reading it back gives the hop, for every hop that a
/// route can have, and no other number is a hop's.
pub proof fn law_replies_name_their_hop(hop: u32, id: u64)
    ensures
        hop < MAX_HOPS ==> hop_of_reply((REPLY_ID_HOP_BASE + hop) as u64) == Some(hop),
        hop_of_reply(id) matches Some(h) ==> h < MAX_HOPS && id == REPLY_ID_HOP_BASE + h,
{
}

/// Whether a route is sound: one to three hops, each of which swaps something, that join and
/// end in another token than they start from.
pub open spec fn sound_route(ops: Seq<SwapOperation>) -> bool {
    &&& 1 <= ops.len() <= MAX_HOPS
    &&& forall|i: int|
        0 <= i < ops.len() ==> !(#[trigger] ops[i]).offer_asset_info.same(ops[i].ask_asset_info)
    &&& forall|i: int|
        0 <= i < ops.len() - 1 ==> (#[trigger] ops[i]).ask_asset_info.same(
            ops[i + 1].offer_asset_info,
        )
    &&& !ops[0].offer_asset_info.same(ops.last().ask_asset_info)
}

/// The routes that pass the check are the sound ones.
pub proof fn law_checked_routes_are_sound(ops: Seq<SwapOperation>)
    ensures
        route_error(ops) is None <==> sound_route(ops),
{
    lemma_idle_hop(ops, 0);
    lemma_broken_hop(ops, 0);
}

pub proof fn lemma_idle_hop(ops: Seq<SwapOperation>, from: int)
    requires
        0 <= from,
    ensures
        match idle_hop(ops, from) {
            Some(i) => from <= i < ops.len() && ops[i].offer_asset_info.same(ops[i].ask_asset_info),
            None => forall|i: int|
                from <= i < ops.len() ==> !(#[trigger] ops[i]).offer_asset_info.same(
                    ops[i].ask_asset_info,
                ),
        },
    decreases ops.len() - from,
{
    if from < ops.len() {
        lemma_idle_hop(ops, from + 1);
    }
}

pub proof fn lemma_broken_hop(ops: Seq<SwapOperation>, from: int)
    requires
        0 <= from,
    ensures
        match broken_hop(ops, from) {
            Some(i) => from <= i < ops.len() - 1 && !ops[i].ask_asset_info.same(
                ops[i + 1].offer_asset_info,
            ),
            None => forall|i: int|
                from <= i < ops.len() - 1 ==> (#[trigger] ops[i]).ask_asset_info.same(
                    ops[i + 1].offer_asset_info,
                ),
        },
    decreases ops.len() - from,
{
    if from < ops.len() {
        lemma_broken_hop(ops, from + 1);
    }
}

/// A route that is started runs its hops in order. Every hop but the last pays the router,
/// the last one pays the recipient, and the check of the minimum comes at the end.
pub proof fn law_routes_end_with_the_check(
    env: Env,
    sender: Addr,
    offer_amount: u128,
    ops: Seq<SwapOperation>,
    minimum: u128,
    deadline: Option<Timestamp>,
    recipient: Result<Option<Addr>, StdError>,
    balance: Result<u128, StdError>,
    r: Result<Response, RouterError>,
)
    requires
        start_outcome(
            env,
            sender,
            offer_amount,
            ops,
            minimum,
            deadline,
            recipient,
            balance,
            r,
        ),
    ensures
        r matches Ok(resp) ==> {
            let to = match recipient->Ok_0 {
                Some(to) => to,
                None => sender,
            };
            let msgs = resp.messages@;
            &&& sound_route(ops)
            &&& msgs.len() == ops.len() + 1
            &&& forall|i: int|
                0 <= i < ops.len() ==> {
                    &&& (#[trigger] msgs[i]) matches RouterMsg::Hop {
                        operation,
                        hop_index,
                        to: receiver,
                        ..
                    }
                    &&& operation == ops[i]
                    &&& hop_index == i
                    &&& receiver == (if i == ops.len() - 1 {
                        to
                    } else {
                        env.contract
                    })
                }
            &&& msgs.last() == (RouterMsg::AssertReceived {
                contract_addr: env.contract,
                ask_info: ops.last().ask_asset_info,
                recipient: to,
                prev_balance: balance->Ok_0,
                minimum_receive: minimum,
            })
        },
{
    law_checked_routes_are_sound(ops);
}

/// A route that ends well has paid the recipient the minimum at least; otherwise its last
/// call fails, and all of it is undone.
pub proof fn law_minimum_is_paid(
    env: Env,
    info: MessageInfo,
    recipient: Result<Addr, StdError>,
    prev_balance: u128,
    minimum: u128,
    balance: Result<u128, StdError>,
    r: Result<Response, RouterError>,
)
    requires
        received_outcome(env, info, recipient, prev_balance, minimum, balance, r),
    ensures
        r is Ok ==> balance->Ok_0 >= prev_balance + minimum,
        r is Ok ==> info.sender@ == env.contract@,
{
}

/// Only the router itself runs hops and checks.
pub proof fn law_inner_calls_are_private(
    before: RouterStore,
    after: RouterStore,
    env: Env,
    info: MessageInfo,
    msg: ExecuteMsg,
    host: HostAnswers,
    r: Result<Response, RouterError>,
)
    requires
        execute_outcome(before, after, env, info, msg, host, r),
        msg is ExecuteSwapOperation || msg is AssertReceived,
        info.sender@ != env.contract@,
    ensures
        r == Err::<Response, RouterError>(RouterError::Unauthorized),
{
}

/// The settings change in one way only: the admin makes a change that was announced, once
/// its time has come. The denomination never changes.
pub proof fn law_settings_change_by_announcement(
    before: RouterStore,
    after: RouterStore,
    env: Env,
    info: MessageInfo,
    msg: ExecuteMsg,
    host: HostAnswers,
    r: Result<Response, RouterError>,
)
    requires
        execute_outcome(before, after, env, info, msg, host, r),
    ensures
        after.config != before.config ==> {
            &&& msg is UpdateConfig
            &&& r is Ok
            &&& info.sender@ == before.config.admin@
            &&& before.pending_config matches Some(pending)
            &&& env.time.nanos >= pending.effective_after.nanos
        },
        after.config.bluechip_denom == before.config.bluechip_denom,
        r is Err ==> after == before,
{
}

/// A change that was announced waits for two days, and no other is announced meanwhile.
pub proof fn law_changes_wait_two_days(
    before: RouterStore,
    between: RouterStore,
    after: RouterStore,
    env1: Env,
    env2: Env,
    info1: MessageInfo,
    info2: MessageInfo,
    admin: Option<String>,
    factory_addr: Option<String>,
    msg: ExecuteMsg,
    host: HostAnswers,
    r1: Result<Response, RouterError>,
    r2: Result<Response, RouterError>,
)
    requires
        env1.time.can_add(172_800),
        propose_outcome(
            before,
            between,
            env1,
            info1,
            admin,
            factory_addr,
            Ok(()),
            Ok(()),
            r1,
        ),
        r1 is Ok,
        execute_outcome(between, after, env2, info2, msg, host, r2),
    ensures
        between.config == before.config,
        env2.time.nanos < env1.time.nanos + 172_800 * 1_000_000_000 ==> after.config
            == before.config,
        msg is ProposeConfigUpdate ==> r2 is Err && after == between,
{
}

/// Announcing a change and dropping it leaves the router as it was.
pub proof fn law_dropping_undoes_announcing(
    before: RouterStore,
    between: RouterStore,
    after: RouterStore,
    env: Env,
    info: MessageInfo,
    admin: Option<String>,
    factory_addr: Option<String>,
    r1: Result<Response, RouterError>,
    r2: Result<Response, RouterError>,
)
    requires
        propose_outcome(
            before,
            between,
            env,
            info,
            admin,
            factory_addr,
            Ok(()),
            Ok(()),
            r1,
        ),
        r1 is Ok,
        cancel_outcome(between, after, info, r2),
    ensures
        r2 is Ok,
        after == before,
{
}

/// The price impact of a route lies between nothing and all of it, and never shrinks with
/// another hop.
pub proof fn law_price_impact_is_a_part(answers: Seq<HopAnswer>, n: int)
    requires
        0 <= n <= answers.len(),
    ensures
        0 <= survival_of(answers, n) <= ONE,
        n > 0 ==> survival_of(answers, n) <= survival_of(answers, n - 1),
    decreases n,
{
    if n > 0 {
        law_price_impact_is_a_part(answers, n - 1);
        lemma_survival_bounds(survival_of(answers, n - 1), answers[n - 1].simulation->Ok_0);
    }
}

} // verus!
