//! The calls of the router: setting it up, its settings, and the dispatch of messages.

use vstd::prelude::*;
use vstd::string::*;

use crate::chain::{Addr, Env, MessageInfo, Pair};
use crate::error::StdError;
use crate::number::{timestamp_text, timestamp_to_text, Timestamp};
use crate::router::error::{in_router, RouterError};
use crate::router::execution::{
    cw20_route_outcome, execute_assert_received, execute_multi_hop, execute_receive_cw20,
    execute_swap_operation, hop_outcome, native_route_outcome, received_outcome,
};
use crate::router::msg::{ConfigResponse, Cw20HookMsg, ExecuteMsg, InstantiateMsg, Response};
use crate::router::state::{Config, PendingConfigUpdate, RouterStore, ROUTER_TIMELOCK_SECONDS};

verus! {

/// Sets up the router. `factory` and `admin` are what the host says of these addresses.
pub fn instantiate(
    msg: InstantiateMsg,
    factory: Result<Addr, StdError>,
    admin: Result<Addr, StdError>,
) -> (r: Result<(RouterStore, Response), RouterError>)
    ensures
        match (factory, admin) {
            (Err(e), _) => r == Err::<(RouterStore, Response), RouterError>(RouterError::Std(e)),
            (_, Err(e)) => r == Err::<(RouterStore, Response), RouterError>(RouterError::Std(e)),
            (Ok(factory), Ok(admin)) => {
                &&& r matches Ok((store, resp))
                &&& store == (RouterStore {
                    config: Config {
                        factory_addr: factory,
                        bluechip_denom: msg.bluechip_denom,
                        admin,
                    },
                    pending_config: None,
                })
                &&& resp.messages@.len() == 0
                &&& resp.attrs() == Seq::<Pair>::empty().push(("action"@, "instantiate"@)).push(
                    ("factory_addr"@, factory@),
                ).push(("bluechip_denom"@, msg.bluechip_denom@)).push(("admin"@, admin@))
            },
        },
{
    let factory_addr = in_router(factory)?;
    let admin = in_router(admin)?;
    let response = Response::new().attr("action", "instantiate").attr(
        "factory_addr",
        factory_addr.as_str(),
    ).attr("bluechip_denom", msg.bluechip_denom.as_str()).attr("admin", admin.as_str());
    let store = RouterStore {
        config: Config { factory_addr, bluechip_denom: msg.bluechip_denom, admin },
        pending_config: None,
    };
    Ok((store, response))
}

/// The point in time from which a change that is announced now may be made.
pub open spec fn change_after(now: Timestamp) -> Timestamp {
    Timestamp { nanos: (now.nanos + ROUTER_TIMELOCK_SECONDS * 1_000_000_000) as u64 }
}

/// Whether the end of the delay can be represented.
pub open spec fn propose_defined(
    store: RouterStore,
    env: Env,
    info: MessageInfo,
    admin_check: Result<(), StdError>,
    factory_check: Result<(), StdError>,
) -> bool {
    info.sender@ == store.config.admin@ && store.pending_config is None && admin_check is Ok
        && factory_check is Ok ==> env.time.can_add(ROUTER_TIMELOCK_SECONDS as int)
}

/// What announcing a change does, and what it answers. A second change is not announced
/// while one waits: the first has to be dropped for all to see.
pub open spec fn propose_outcome(
    before: RouterStore,
    after: RouterStore,
    env: Env,
    info: MessageInfo,
    new_admin: Option<String>,
    new_factory_addr: Option<String>,
    admin_check: Result<(), StdError>,
    factory_check: Result<(), StdError>,
    r: Result<Response, RouterError>,
) -> bool {
    let failed = |e: RouterError| r == Err::<Response, RouterError>(e) && after == before;
    if info.sender@ != before.config.admin@ {
        failed(RouterError::Unauthorized)
    } else if before.pending_config is Some {
        failed(RouterError::ConfigUpdateAlreadyPending)
    } else if admin_check is Err {
        failed(RouterError::Std(admin_check->Err_0))
    } else if factory_check is Err {
        failed(RouterError::Std(factory_check->Err_0))
    } else {
        &&& after == (RouterStore {
            pending_config: Some(
                PendingConfigUpdate {
                    admin: new_admin,
                    factory_addr: new_factory_addr,
                    effective_after: change_after(env.time),
                },
            ),
            ..before
        })
        &&& r matches Ok(resp)
        &&& resp.messages@.len() == 0
        &&& resp.attrs() == Seq::<Pair>::empty().push(("action"@, "propose_config_update"@)).push(
            ("effective_after"@, timestamp_text(change_after(env.time))),
        )
    }
}

/// Announces a change of the settings; only the admin may call. `admin_check` and
/// `factory_check` are what the host says of the new addresses, where there are any, so
/// that a malformed one fails now and not two days later.
pub fn execute_propose_config_update(
    store: &mut RouterStore,
    env: &Env,
    info: &MessageInfo,
    new_admin: Option<String>,
    new_factory_addr: Option<String>,
    admin_check: Result<(), StdError>,
    factory_check: Result<(), StdError>,
) -> (r: Result<Response, RouterError>)
    requires
        propose_defined(*old(store), *env, *info, admin_check, factory_check),
    ensures
        propose_outcome(
            *old(store),
            *final(store),
            *env,
            *info,
            new_admin,
            new_factory_addr,
            admin_check,
            factory_check,
            r,
        ),
{
    if info.sender != store.config.admin {
        return Err(RouterError::Unauthorized);
    }
    if store.pending_config.is_some() {
        return Err(RouterError::ConfigUpdateAlreadyPending);
    }
    in_router(admin_check)?;
    in_router(factory_check)?;
    let effective_after = env.time.plus_seconds(ROUTER_TIMELOCK_SECONDS);
    store.pending_config =
    Some(
        PendingConfigUpdate {
            admin: new_admin,
            factory_addr: new_factory_addr,
            effective_after,
        },
    );
    let when = timestamp_to_text(effective_after);
    Ok(
        Response::new().attr("action", "propose_config_update").attr(
            "effective_after",
            when.as_str(),
        ),
    )
}

/// Why a change is not made, where it is not.
pub open spec fn apply_error(
    store: RouterStore,
    env: Env,
    info: MessageInfo,
    admin: Result<Addr, StdError>,
    factory: Result<Addr, StdError>,
) -> Option<RouterError> {
    if info.sender@ != store.config.admin@ {
        Some(RouterError::Unauthorized)
    } else {
        match store.pending_config {
            None => Some(RouterError::NoPendingConfigUpdate),
            Some(pending) => if env.time.nanos < pending.effective_after.nanos {
                Some(
                    RouterError::TimelockNotExpired {
                        effective_after: pending.effective_after.seconds(),
                    },
                )
            } else if pending.admin is Some && admin is Err {
                Some(RouterError::Std(admin->Err_0))
            } else if pending.factory_addr is Some && factory is Err {
                Some(RouterError::Std(factory->Err_0))
            } else {
                None
            },
        }
    }
}

/// The settings after a change.
pub open spec fn changed_config(
    store: RouterStore,
    admin: Result<Addr, StdError>,
    factory: Result<Addr, StdError>,
) -> Config {
    let pending = store.pending_config->Some_0;
    Config {
        admin: if pending.admin is Some {
            admin->Ok_0
        } else {
            store.config.admin
        },
        factory_addr: if pending.factory_addr is Some {
            factory->Ok_0
        } else {
            store.config.factory_addr
        },
        bluechip_denom: store.config.bluechip_denom,
    }
}

/// What making a change does, and what it answers.
pub open spec fn apply_outcome(
    before: RouterStore,
    after: RouterStore,
    env: Env,
    info: MessageInfo,
    admin: Result<Addr, StdError>,
    factory: Result<Addr, StdError>,
    r: Result<Response, RouterError>,
) -> bool {
    match apply_error(before, env, info, admin, factory) {
        Some(e) => r == Err::<Response, RouterError>(e) && after == before,
        None => {
            &&& after == (RouterStore {
                config: changed_config(before, admin, factory),
                pending_config: None,
            })
            &&& r matches Ok(resp)
            &&& resp.messages@.len() == 0
            &&& resp.attrs() == Seq::<Pair>::empty().push(("action"@, "update_config"@)).push(
                ("admin"@, after.config.admin@),
            ).push(("factory_addr"@, after.config.factory_addr@))
        },
    }
}

/// Makes the change that was announced; only the admin may call. `admin` and `factory` are
/// what the host says of the new addresses, where there are any.
pub fn execute_apply_config_update(
    store: &mut RouterStore,
    env: &Env,
    info: &MessageInfo,
    admin: Result<Addr, StdError>,
    factory: Result<Addr, StdError>,
) -> (r: Result<Response, RouterError>)
    ensures
        apply_outcome(*old(store), *final(store), *env, *info, admin, factory, r),
{
    if info.sender != store.config.admin {
        return Err(RouterError::Unauthorized);
    }
    let (new_admin, new_factory): (bool, bool) = match &store.pending_config {
        None => {
            return Err(RouterError::NoPendingConfigUpdate);
        },
        Some(pending) => {
            if env.time.nanos < pending.effective_after.nanos {
                return Err(
                    RouterError::TimelockNotExpired {
                        effective_after: pending.effective_after.seconds(),
                    },
                );
            }
            (pending.admin.is_some(), pending.factory_addr.is_some())
        },
    };
    let admin = if new_admin {
        in_router(admin)?
    } else {
        store.config.admin.clone()
    };
    let factory_addr = if new_factory {
        in_router(factory)?
    } else {
        store.config.factory_addr.clone()
    };
    let response = Response::new().attr("action", "update_config").attr(
        "admin",
        admin.as_str(),
    ).attr("factory_addr", factory_addr.as_str());
    store.config.admin = admin;
    store.config.factory_addr = factory_addr;
    store.pending_config = None;
    Ok(response)
}

/// What dropping a change does, and what it answers.
pub open spec fn cancel_outcome(
    before: RouterStore,
    after: RouterStore,
    info: MessageInfo,
    r: Result<Response, RouterError>,
) -> bool {
    let failed = |e: RouterError| r == Err::<Response, RouterError>(e) && after == before;
    if info.sender@ != before.config.admin@ {
        failed(RouterError::Unauthorized)
    } else if before.pending_config is None {
        failed(RouterError::NoPendingConfigUpdate)
    } else {
        &&& after == (RouterStore { pending_config: None, ..before })
        &&& r matches Ok(resp)
        &&& resp.messages@.len() == 0
        &&& resp.attrs() == Seq::<Pair>::empty().push(("action"@, "cancel_config_update"@))
    }
}

/// Drops the change that was announced; only the admin may call.
pub fn execute_cancel_config_update(store: &mut RouterStore, info: &MessageInfo) -> (r: Result<
    Response,
    RouterError,
>)
    ensures
        cancel_outcome(*old(store), *final(store), *info, r),
{
    if info.sender != store.config.admin {
        return Err(RouterError::Unauthorized);
    }
    if store.pending_config.is_none() {
        return Err(RouterError::NoPendingConfigUpdate);
    }
    store.pending_config = None;
    Ok(Response::new().attr("action", "cancel_config_update"))
}

/// The settings of the router.
pub fn query_config(store: &RouterStore) -> (r: ConfigResponse)
    ensures
        r == (ConfigResponse {
            factory_addr: store.config.factory_addr,
            bluechip_denom: store.config.bluechip_denom,
            admin: store.config.admin,
        }),
{
    ConfigResponse {
        factory_addr: store.config.factory_addr.clone(),
        bluechip_denom: store.config.bluechip_denom.clone(),
        admin: store.config.admin.clone(),
    }
}

/// What the host says of the addresses and messages inside a call, and what it found out for
/// it. Only what a call needs is looked at.
#[derive(Debug)]
pub struct HostAnswers {
    /// The recipient of a route, where one was named.
    pub recipient: Result<Option<Addr>, StdError>,
    /// What the recipient, or for a hop the router, holds of the token in question.
    pub balance: Result<u128, StdError>,
    /// What the sender of CW20 tokens wants done with them.
    pub hook: Result<Cw20HookMsg, StdError>,
    /// The sender of CW20 tokens.
    pub user: Result<Addr, StdError>,
    /// The receiver of a hop, or the recipient of the final output.
    pub to: Result<Addr, StdError>,
    /// The new admin of a change of the settings, where there is one.
    pub admin: Result<Addr, StdError>,
    /// The new factory of a change of the settings, where there is one.
    pub factory: Result<Addr, StdError>,
}

/// Whether an address that is to be set was found to be well formed.
pub open spec fn wanted_check(wanted: Option<String>, answer: Result<Addr, StdError>) -> Result<
    (),
    StdError,
> {
    if wanted is Some && answer is Err {
        Err(answer->Err_0)
    } else {
        Ok(())
    }
}

fn check_wanted(wanted: &Option<String>, answer: Result<Addr, StdError>) -> (r: Result<
    (),
    StdError,
>)
    ensures
        r == wanted_check(*wanted, answer),
{
    if wanted.is_some() {
        let _addr = answer?;
    }
    Ok(())
}

/// What a call does, and what it answers.
pub open spec fn execute_outcome(
    before: RouterStore,
    after: RouterStore,
    env: Env,
    info: MessageInfo,
    msg: ExecuteMsg,
    host: HostAnswers,
    r: Result<Response, RouterError>,
) -> bool {
    match msg {
        ExecuteMsg::ExecuteMultiHop { operations, minimum_receive, deadline, .. } => after == before
            && native_route_outcome(
            env,
            info,
            operations@,
            minimum_receive,
            deadline,
            host.recipient,
            host.balance,
            r,
        ),
        ExecuteMsg::ProposeConfigUpdate { admin, factory_addr } => propose_outcome(
            before,
            after,
            env,
            info,
            admin,
            factory_addr,
            wanted_check(admin, host.admin),
            wanted_check(factory_addr, host.factory),
            r,
        ),
        ExecuteMsg::UpdateConfig {  } => apply_outcome(
            before,
            after,
            env,
            info,
            host.admin,
            host.factory,
            r,
        ),
        ExecuteMsg::CancelConfigUpdate {  } => cancel_outcome(before, after, info, r),
        ExecuteMsg::Receive(cw20_msg) => after == before && cw20_route_outcome(
            env,
            info,
            cw20_msg,
            host.hook,
            host.user,
            host.recipient,
            host.balance,
            r,
        ),
        ExecuteMsg::ExecuteSwapOperation { operation, hop_index, .. } => after == before
            && hop_outcome(env, info, operation, hop_index, host.to, host.balance, r),
        ExecuteMsg::AssertReceived { prev_balance, minimum_receive, .. } => after == before
            && received_outcome(
            env,
            info,
            host.to,
            prev_balance,
            minimum_receive,
            host.balance,
            r,
        ),
    }
}

/// Runs a call.
pub fn execute(
    store: &mut RouterStore,
    env: &Env,
    info: &MessageInfo,
    msg: ExecuteMsg,
    host: HostAnswers,
) -> (r: Result<Response, RouterError>)
    requires
        msg matches ExecuteMsg::ProposeConfigUpdate { admin, factory_addr } ==> propose_defined(
            *old(store),
            *env,
            *info,
            wanted_check(admin, host.admin),
            wanted_check(factory_addr, host.factory),
        ),
    ensures
        execute_outcome(*old(store), *final(store), *env, *info, msg, host, r),
{
    match msg {
        ExecuteMsg::ExecuteMultiHop { operations, minimum_receive, deadline, recipient: _ } =>
            execute_multi_hop(
            env,
            info,
            &operations,
            minimum_receive,
            deadline,
            host.recipient,
            host.balance,
        ),
        ExecuteMsg::ProposeConfigUpdate { admin, factory_addr } => {
            let admin_check = check_wanted(&admin, host.admin);
            let factory_check = check_wanted(&factory_addr, host.factory);
            execute_propose_config_update(
                store,
                env,
                info,
                admin,
                factory_addr,
                admin_check,
                factory_check,
            )
        },
        ExecuteMsg::UpdateConfig {  } => execute_apply_config_update(
            store,
            env,
            info,
            host.admin,
            host.factory,
        ),
        ExecuteMsg::CancelConfigUpdate {  } => execute_cancel_config_update(store, info),
        ExecuteMsg::Receive(cw20_msg) => execute_receive_cw20(
            env,
            info,
            &cw20_msg,
            host.hook,
            host.user,
            host.recipient,
            host.balance,
        ),
        ExecuteMsg::ExecuteSwapOperation { operation, hop_index, to: _ } => execute_swap_operation(
            env,
            info,
            &operation,
            hop_index,
            host.to,
            host.balance,
        ),
        ExecuteMsg::AssertReceived {
            ask_info: _,
            recipient: _,
            prev_balance,
            minimum_receive,
        } => execute_assert_received(
            env,
            info,
            host.to,
            prev_balance,
            minimum_receive,
            host.balance,
        ),
    }
}

} // verus!
