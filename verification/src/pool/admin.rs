//! What only the factory may do: pausing, the emergency withdrawal, settings and
//! recoveries.

use vstd::prelude::*;
use vstd::string::*;

use crate::asset::{transfer_msg, TokenInfo, TokenInfoPoolExt};
use crate::chain::{at_block, Addr, CosmosMsg, Env, MessageInfo, Pair, Response};
use crate::error::{OverflowOperation, StdError};
use crate::number::{minus_or_zero, timestamp_text, timestamp_to_text, Decimal, Timestamp};
use crate::pool::error::{in_pool, overflow, sum, ContractError};
use crate::pool::msg::PoolConfigUpdate;
use crate::pool::state::{
    DistributionState, EmergencyWithdrawalInfo, OracleInfo, PoolFeeState, PoolSpecs, PoolState,
    PoolStore, RecoveryType, DEFAULT_ESTIMATED_GAS_PER_DISTRIBUTION, DEFAULT_MAX_GAS_PER_TX,
    EMERGENCY_WITHDRAW_DELAY_SECONDS,
};
use crate::text::{digits, number};

verus! {

/// Checks that the pool has not been drained for good.
pub fn ensure_not_drained(store: &PoolStore) -> (r: Result<(), ContractError>)
    ensures
        r == (if store.drained {
            Err::<(), ContractError>(ContractError::EmergencyDrained {  })
        } else {
            Ok(())
        }),
{
    if store.drained {
        return Err(ContractError::EmergencyDrained {  });
    }
    Ok(())
}

/// What pausing (or unpausing) does, and what it answers.
pub open spec fn pause_outcome(
    before: PoolStore,
    after: PoolStore,
    env: Env,
    info: MessageInfo,
    paused: bool,
    r: Result<Response, ContractError>,
) -> bool {
    if info.sender@ != before.pool_info.factory_addr@ {
        r == Err::<Response, ContractError>(ContractError::Unauthorized {  }) && after == before
    } else {
        &&& after == (PoolStore { paused, ..before })
        &&& r matches Ok(resp)
        &&& resp.messages@.len() == 0
        &&& resp.attrs() == at_block(
            Seq::<Pair>::empty().push(
                (
                    "action"@,
                    if paused {
                        "pause"@
                    } else {
                        "unpause"@
                    },
                ),
            ).push(("pool_contract"@, before.pool_info.pool_info.contract_addr@)).push(
                (
                    if paused {
                        "paused_by"@
                    } else {
                        "unpaused_by"@
                    },
                    info.sender@,
                ),
            ),
            env,
        )
    }
}

/// Stops all trading and committing.
pub fn execute_pause(store: &mut PoolStore, env: &Env, info: &MessageInfo) -> (r: Result<
    Response,
    ContractError,
>)
    requires
        old(store).wf(),
    ensures
        final(store).wf(),
        pause_outcome(*old(store), *final(store), *env, *info, true, r),
{
    if info.sender != store.pool_info.factory_addr {
        return Err(ContractError::Unauthorized {  });
    }
    store.paused = true;
    Ok(
        Response::new().attr("action", "pause").attr(
            "pool_contract",
            store.pool_info.pool_info.contract_addr.as_str(),
        ).attr("paused_by", info.sender.as_str()).at_block(env),
    )
}

/// Lets trading and committing go on.
pub fn execute_unpause(store: &mut PoolStore, env: &Env, info: &MessageInfo) -> (r: Result<
    Response,
    ContractError,
>)
    requires
        old(store).wf(),
    ensures
        final(store).wf(),
        pause_outcome(*old(store), *final(store), *env, *info, false, r),
{
    if info.sender != store.pool_info.factory_addr {
        return Err(ContractError::Unauthorized {  });
    }
    store.paused = false;
    Ok(
        Response::new().attr("action", "unpause").attr(
            "pool_contract",
            store.pool_info.pool_info.contract_addr.as_str(),
        ).attr("unpaused_by", info.sender.as_str()).at_block(env),
    )
}

/// All of token 0 that an emergency withdrawal takes: the reserve, the fees and what is
/// locked for the creator.
pub open spec fn withdrawn_0(store: PoolStore) -> int {
    store.pool_state.reserve0 + store.fee_state.fee_reserve_0 + match store.creator_excess {
        Some(excess) => excess.bluechip_amount as int,
        None => 0,
    }
}

/// All of token 1 that an emergency withdrawal takes.
pub open spec fn withdrawn_1(store: PoolStore) -> int {
    store.pool_state.reserve1 + store.fee_state.fee_reserve_1 + match store.creator_excess {
        Some(excess) => excess.token_amount as int,
        None => 0,
    }
}

/// The messages of an emergency withdrawal; a side of zero sends nothing.
pub open spec fn withdrawal_msgs(store: PoolStore) -> Seq<CosmosMsg> {
    let infos = store.pool_info.pool_info.asset_infos;
    let recipient = store.fee_info.bluechip_wallet_address;
    let none = Seq::<CosmosMsg>::empty();
    let first = if withdrawn_0(store) == 0 {
        none
    } else {
        none.push(transfer_msg(infos[0], withdrawn_0(store) as u128, recipient))
    };
    if withdrawn_1(store) == 0 {
        first
    } else {
        first.push(transfer_msg(infos[1], withdrawn_1(store) as u128, recipient))
    }
}

/// The distribution of a drained pool: nobody is left to pay.
pub open spec fn distribution_stopped(d: Option<DistributionState>) -> Option<DistributionState> {
    match d {
        Some(d) => Some(
            DistributionState { is_distributing: false, distributions_remaining: 0, ..d },
        ),
        None => None,
    }
}

/// The state after an emergency withdrawal.
pub open spec fn drained_store(before: PoolStore, now: Timestamp) -> PoolStore {
    PoolStore {
        pending_emergency_withdraw: None,
        creator_excess: None,
        emergency_withdrawal: Some(
            EmergencyWithdrawalInfo {
                withdrawn_at: now.seconds(),
                recipient: before.fee_info.bluechip_wallet_address,
                amount0: withdrawn_0(before) as u128,
                amount1: withdrawn_1(before) as u128,
                total_liquidity_at_withdrawal: before.pool_state.total_liquidity,
            },
        ),
        pool_state: PoolState { reserve0: 0, reserve1: 0, total_liquidity: 0, ..before.pool_state },
        fee_state: PoolFeeState { fee_reserve_0: 0, fee_reserve_1: 0, ..before.fee_state },
        drained: true,
        distribution: distribution_stopped(before.distribution),
        ..before
    }
}

/// The point in time from which an emergency withdrawal that is announced now may run.
pub open spec fn withdraw_after(now: Timestamp) -> Timestamp {
    Timestamp {
        nanos: (now.nanos + EMERGENCY_WITHDRAW_DELAY_SECONDS * 1_000_000_000) as u64,
    }
}

/// What an emergency withdrawal does, and what it answers: the first call announces it and
/// pauses the pool, the second one, a day later, moves the funds.
pub open spec fn emergency_outcome(
    before: PoolStore,
    after: PoolStore,
    env: Env,
    info: MessageInfo,
    r: Result<Response, ContractError>,
) -> bool {
    let failed = |e: ContractError| r == Err::<Response, ContractError>(e) && after == before;
    if info.sender@ != before.pool_info.factory_addr@ {
        failed(ContractError::Unauthorized {  })
    } else {
        match before.pending_emergency_withdraw {
            None => {
                &&& after == (PoolStore {
                    paused: true,
                    pending_emergency_withdraw: Some(withdraw_after(env.time)),
                    ..before
                })
                &&& r matches Ok(resp)
                &&& resp.messages@.len() == 0
                &&& resp.attrs() == at_block(
                    Seq::<Pair>::empty().push(
                        ("action"@, "emergency_withdraw_initiated"@),
                    ).push(
                        ("effective_after"@, timestamp_text(withdraw_after(env.time))),
                    ).push(("pool_contract"@, env.contract@)).push(
                        ("initiated_by"@, info.sender@),
                    ),
                    env,
                )
            },
            Some(effective_after) => if env.time.nanos < effective_after.nanos {
                failed(ContractError::EmergencyTimelockPending { effective_after })
            } else if withdrawn_0(before) > u128::MAX || withdrawn_1(before) > u128::MAX {
                failed(overflow(OverflowOperation::Add))
            } else {
                &&& after == drained_store(before, env.time)
                &&& r matches Ok(resp)
                &&& resp.messages@ == withdrawal_msgs(before)
                &&& resp.attrs() == at_block(
                    Seq::<Pair>::empty().push(("action"@, "emergency_withdraw"@)).push(
                        ("recipient"@, before.fee_info.bluechip_wallet_address@),
                    ).push(("amount0"@, digits(withdrawn_0(before) as nat))).push(
                        ("amount1"@, digits(withdrawn_1(before) as nat)),
                    ).push(
                        ("total_liquidity"@, digits(before.pool_state.total_liquidity as nat)),
                    ).push(("pool_contract"@, env.contract@)),
                    env,
                )
            },
        }
    }
}

/// Whether the end of the delay can be represented.
pub open spec fn emergency_defined(store: PoolStore, env: Env, info: MessageInfo) -> bool {
    info.sender@ == store.pool_info.factory_addr@ && store.pending_emergency_withdraw is None
        ==> env.time.can_add(EMERGENCY_WITHDRAW_DELAY_SECONDS as int)
}

/// Announces an emergency withdrawal, or carries out the one that was announced.
pub fn execute_emergency_withdraw(store: &mut PoolStore, env: &Env, info: &MessageInfo) -> (r: Result<
    Response,
    ContractError,
>)
    requires
        old(store).wf(),
        emergency_defined(*old(store), *env, *info),
    ensures
        final(store).wf(),
        emergency_outcome(*old(store), *final(store), *env, *info, r),
{
    if info.sender != store.pool_info.factory_addr {
        return Err(ContractError::Unauthorized {  });
    }
    if let Some(effective_after) = store.pending_emergency_withdraw {
        if env.time.nanos < effective_after.nanos {
            return Err(ContractError::EmergencyTimelockPending { effective_after });
        }
        let (excess0, excess1): (u128, u128) = match &store.creator_excess {
            Some(excess) => (excess.bluechip_amount, excess.token_amount),
            None => (0, 0),
        };
        let total0: u128 = sum(
            sum(store.pool_state.reserve0, store.fee_state.fee_reserve_0)?,
            excess0,
        )?;
        let total1: u128 = sum(
            sum(store.pool_state.reserve1, store.fee_state.fee_reserve_1)?,
            excess1,
        )?;
        let total_liquidity: u128 = store.pool_state.total_liquidity;
        let mut messages: Vec<CosmosMsg> = Vec::new();
        if total0 != 0 {
            let payment = TokenInfo {
                info: store.pool_info.pool_info.asset_infos[0].clone(),
                amount: total0,
            };
            messages.push(payment.into_msg(store.fee_info.bluechip_wallet_address.clone()));
        }
        if total1 != 0 {
            let payment = TokenInfo {
                info: store.pool_info.pool_info.asset_infos[1].clone(),
                amount: total1,
            };
            messages.push(payment.into_msg(store.fee_info.bluechip_wallet_address.clone()));
        }
        store.pending_emergency_withdraw = None;
        store.creator_excess = None;
        store.emergency_withdrawal =
        Some(
            EmergencyWithdrawalInfo {
                withdrawn_at: env.time.seconds(),
                recipient: store.fee_info.bluechip_wallet_address.clone(),
                amount0: total0,
                amount1: total1,
                total_liquidity_at_withdrawal: total_liquidity,
            },
        );
        store.pool_state.reserve0 = 0;
        store.pool_state.reserve1 = 0;
        store.pool_state.total_liquidity = 0;
        store.fee_state.fee_reserve_0 = 0;
        store.fee_state.fee_reserve_1 = 0;
        store.drained = true;
        if let Some(dist) = &mut store.distribution {
            dist.is_distributing = false;
            dist.distributions_remaining = 0;
        }
        return Ok(
            Response::with_messages(messages).attr("action", "emergency_withdraw").attr(
                "recipient",
                store.fee_info.bluechip_wallet_address.as_str(),
            ).attr_number("amount0", total0).attr_number("amount1", total1).attr_number(
                "total_liquidity",
                total_liquidity,
            ).attr("pool_contract", env.contract.as_str()).at_block(env),
        );
    }
    let effective_after = env.time.plus_seconds(EMERGENCY_WITHDRAW_DELAY_SECONDS);
    store.paused = true;
    store.pending_emergency_withdraw = Some(effective_after);
    let when = timestamp_to_text(effective_after);
    Ok(
        Response::new().attr("action", "emergency_withdraw_initiated").attr(
            "effective_after",
            when.as_str(),
        ).attr("pool_contract", env.contract.as_str()).attr(
            "initiated_by",
            info.sender.as_str(),
        ).at_block(env),
    )
}

/// What calling off an emergency withdrawal does, and what it answers.
pub open spec fn cancel_outcome(
    before: PoolStore,
    after: PoolStore,
    env: Env,
    info: MessageInfo,
    r: Result<Response, ContractError>,
) -> bool {
    let failed = |e: ContractError| r == Err::<Response, ContractError>(e) && after == before;
    if info.sender@ != before.pool_info.factory_addr@ {
        failed(ContractError::Unauthorized {  })
    } else if before.pending_emergency_withdraw is None {
        failed(ContractError::NoPendingEmergencyWithdraw {  })
    } else {
        &&& after == (PoolStore { pending_emergency_withdraw: None, paused: false, ..before })
        &&& r matches Ok(resp)
        &&& resp.messages@.len() == 0
        &&& resp.attrs() == at_block(
            Seq::<Pair>::empty().push(("action"@, "emergency_withdraw_cancelled"@)).push(
                ("pool_contract"@, before.pool_info.pool_info.contract_addr@),
            ).push(("cancelled_by"@, info.sender@)),
            env,
        )
    }
}

/// Calls off an emergency withdrawal that was announced.
pub fn execute_cancel_emergency_withdraw(
    store: &mut PoolStore,
    env: &Env,
    info: &MessageInfo,
) -> (r: Result<Response, ContractError>)
    requires
        old(store).wf(),
    ensures
        final(store).wf(),
        cancel_outcome(*old(store), *final(store), *env, *info, r),
{
    if info.sender != store.pool_info.factory_addr {
        return Err(ContractError::Unauthorized {  });
    }
    if store.pending_emergency_withdraw.is_none() {
        return Err(ContractError::NoPendingEmergencyWithdraw {  });
    }
    store.pending_emergency_withdraw = None;
    store.paused = false;
    Ok(
        Response::new().attr("action", "emergency_withdraw_cancelled").attr(
            "pool_contract",
            store.pool_info.pool_info.contract_addr.as_str(),
        ).attr("cancelled_by", info.sender.as_str()).at_block(env),
    )
}

/// The largest and the smallest fee of liquidity providers, in atomics: 10% and 0.1%.
pub const MAX_LP_FEE: u128 = 100_000_000_000_000_000;

pub const MIN_LP_FEE: u128 = 1_000_000_000_000_000;

/// The longest interval between two commits of an account: a day.
pub const MAX_COMMIT_INTERVAL: u64 = 86_400;

/// The largest payment tolerance, in basis points: 10%.
pub const MAX_TOLERANCE_BPS: u16 = 1000;

/// Whether a fee of liquidity providers is allowed.
pub open spec fn lp_fee_check(fee: Decimal) -> Result<(), StdError> {
    if fee.atomics > MAX_LP_FEE {
        Err(StdError::Generic("lp_fee must not exceed 10% (0.1)"))
    } else if fee.atomics < MIN_LP_FEE {
        Err(StdError::Generic("lp_fee must be at least 0.1% (0.001)"))
    } else {
        Ok(())
    }
}

/// Checks a fee of liquidity providers.
pub(crate) fn check_lp_fee(fee: Decimal) -> (r: Result<(), StdError>)
    ensures
        r == lp_fee_check(fee),
{
    if fee.atomics > MAX_LP_FEE {
        return Err(StdError::Generic("lp_fee must not exceed 10% (0.1)"));
    }
    if fee.atomics < MIN_LP_FEE {
        return Err(StdError::Generic("lp_fee must be at least 0.1% (0.001)"));
    }
    Ok(())
}

/// The settings after an update.
pub open spec fn updated_specs(specs: PoolSpecs, update: PoolConfigUpdate) -> PoolSpecs {
    PoolSpecs {
        lp_fee: match update.lp_fee {
            Some(fee) => fee,
            None => specs.lp_fee,
        },
        min_commit_interval: match update.min_commit_interval {
            Some(interval) => interval,
            None => specs.min_commit_interval,
        },
        usd_payment_tolerance_bps: match update.usd_payment_tolerance_bps {
            Some(tolerance) => tolerance,
            None => specs.usd_payment_tolerance_bps,
        },
    }
}

/// Why an update is refused, where it is.
pub open spec fn update_error(
    store: PoolStore,
    info: MessageInfo,
    update: PoolConfigUpdate,
    oracle: Result<Addr, StdError>,
) -> Option<ContractError> {
    if info.sender@ != store.pool_info.factory_addr@ {
        Some(ContractError::Unauthorized {  })
    } else if update.lp_fee is Some && lp_fee_check(update.lp_fee->Some_0) is Err {
        Some(ContractError::Std(lp_fee_check(update.lp_fee->Some_0)->Err_0))
    } else if update.min_commit_interval is Some && update.min_commit_interval->Some_0
        > MAX_COMMIT_INTERVAL {
        Some(
            ContractError::Std(
                StdError::Generic("min_commit_interval must not exceed 86400 seconds (1 day)"),
            ),
        )
    } else if update.usd_payment_tolerance_bps is Some && update.usd_payment_tolerance_bps->Some_0
        > MAX_TOLERANCE_BPS {
        Some(
            ContractError::Std(
                StdError::Generic("usd_payment_tolerance_bps must not exceed 1000 (10%)"),
            ),
        )
    } else if update.oracle_address is Some && oracle is Err {
        Some(ContractError::Std(oracle->Err_0))
    } else {
        None
    }
}

/// The attributes with one more where a setting was updated.
pub open spec fn updated_attr(attrs: Seq<Pair>, key: Seq<char>, updated: bool) -> Seq<Pair> {
    if updated {
        attrs.push((key, "updated"@))
    } else {
        attrs
    }
}

fn note_update(r: Response, key: &str, updated: bool) -> (out: Response)
    ensures
        out.messages == r.messages,
        out.attrs() == updated_attr(r.attrs(), key@, updated),
{
    if updated {
        r.attr(key, "updated")
    } else {
        r
    }
}

/// What an update of the settings does, and what it answers.
pub open spec fn update_outcome(
    before: PoolStore,
    after: PoolStore,
    env: Env,
    info: MessageInfo,
    update: PoolConfigUpdate,
    oracle: Result<Addr, StdError>,
    r: Result<Response, ContractError>,
) -> bool {
    match update_error(before, info, update, oracle) {
        Some(e) => r == Err::<Response, ContractError>(e) && after == before,
        None => {
            &&& after == (PoolStore {
                pool_specs: updated_specs(before.pool_specs, update),
                oracle_info: if update.oracle_address is Some {
                    OracleInfo { oracle_addr: oracle->Ok_0 }
                } else {
                    before.oracle_info
                },
                ..before
            })
            &&& r matches Ok(resp)
            &&& resp.messages@.len() == 0
            &&& resp.attrs() == at_block(
                updated_attr(
                    updated_attr(
                        updated_attr(
                            updated_attr(
                                Seq::<Pair>::empty().push(("action"@, "update_config"@)),
                                "lp_fee"@,
                                update.lp_fee is Some,
                            ),
                            "min_commit_interval"@,
                            update.min_commit_interval is Some,
                        ),
                        "usd_payment_tolerance_bps"@,
                        update.usd_payment_tolerance_bps is Some,
                    ),
                    "oracle_address"@,
                    update.oracle_address is Some,
                ).push(("pool_contract"@, before.pool_info.pool_info.contract_addr@)).push(
                    ("updated_by"@, info.sender@),
                ),
                env,
            )
        },
    }
}

/// Changes the settings. `oracle` is what the host says of the new oracle address, where
/// there is one.
pub fn execute_update_config_from_factory(
    store: &mut PoolStore,
    env: &Env,
    info: &MessageInfo,
    update: &PoolConfigUpdate,
    oracle: Result<Addr, StdError>,
) -> (r: Result<Response, ContractError>)
    requires
        old(store).wf(),
    ensures
        final(store).wf(),
        update_outcome(*old(store), *final(store), *env, *info, *update, oracle, r),
{
    if info.sender != store.pool_info.factory_addr {
        return Err(ContractError::Unauthorized {  });
    }
    let mut specs = store.pool_specs;
    if let Some(fee) = update.lp_fee {
        in_pool(check_lp_fee(fee))?;
        specs.lp_fee = fee;
    }
    if let Some(interval) = update.min_commit_interval {
        if interval > MAX_COMMIT_INTERVAL {
            return Err(
                ContractError::Std(
                    StdError::Generic("min_commit_interval must not exceed 86400 seconds (1 day)"),
                ),
            );
        }
        specs.min_commit_interval = interval;
    }
    if let Some(tolerance) = update.usd_payment_tolerance_bps {
        if tolerance > MAX_TOLERANCE_BPS {
            return Err(
                ContractError::Std(
                    StdError::Generic("usd_payment_tolerance_bps must not exceed 1000 (10%)"),
                ),
            );
        }
        specs.usd_payment_tolerance_bps = tolerance;
    }
    if update.oracle_address.is_some() {
        let oracle_addr = in_pool(oracle)?;
        store.oracle_info = OracleInfo { oracle_addr };
    }
    store.pool_specs = specs;
    let response = Response::new().attr("action", "update_config");
    let response = note_update(response, "lp_fee", update.lp_fee.is_some());
    let response = note_update(
        response,
        "min_commit_interval",
        update.min_commit_interval.is_some(),
    );
    let response = note_update(
        response,
        "usd_payment_tolerance_bps",
        update.usd_payment_tolerance_bps.is_some(),
    );
    let response = note_update(response, "oracle_address", update.oracle_address.is_some());
    Ok(
        response.attr(
            "pool_contract",
            store.pool_info.pool_info.contract_addr.as_str(),
        ).attr("updated_by", info.sender.as_str()).at_block(env),
    )
}

/// How long something has to be stuck before it is recovered: an hour.
pub const RECOVERY_DELAY_SECONDS: u64 = 3600;

/// Whether a crossing of the threshold got stuck.
pub open spec fn threshold_stuck(store: PoolStore, env: Env) -> bool {
    let last = match store.last_threshold_attempt {
        Some(t) => t.seconds(),
        None => 0,
    };
    store.threshold_processing && env.time.seconds() >= last + RECOVERY_DELAY_SECONDS
}

/// Whether a distribution got stuck: it rested for an hour, or failed five times.
pub open spec fn distribution_stuck(store: PoolStore, env: Env) -> bool {
    store.distribution matches Some(d) && (minus_or_zero(
        env.time.seconds() as int,
        d.last_updated.seconds() as int,
    ) >= RECOVERY_DELAY_SECONDS || d.consecutive_failures >= 5)
}

/// A distribution that starts over with `remaining` committers; none where nobody is left.
pub open spec fn restarted(d: DistributionState, remaining: int, env: Env) -> Option<
    DistributionState,
> {
    if remaining == 0 {
        None
    } else {
        Some(
            DistributionState {
                is_distributing: true,
                last_processed_key: None,
                distributions_remaining: remaining as u32,
                estimated_gas_per_distribution: DEFAULT_ESTIMATED_GAS_PER_DISTRIBUTION,
                max_gas_per_tx: DEFAULT_MAX_GAS_PER_TX,
                last_successful_batch_size: None,
                consecutive_failures: 0,
                started_at: env.time,
                last_updated: env.time,
                ..d
            },
        )
    }
}

/// Whether a recovery looks at crossings, distributions and the lock.
pub open spec fn covers(kind: RecoveryType) -> (bool, bool, bool) {
    match kind {
        RecoveryType::StuckThreshold => (true, false, false),
        RecoveryType::StuckDistribution => (false, true, false),
        RecoveryType::StuckReentrancyGuard => (false, false, true),
        RecoveryType::Both => (true, true, true),
    }
}

/// Parts put together with commas.
pub open spec fn joined(parts: Seq<Seq<char>>) -> Seq<char>
    decreases parts.len(),
{
    if parts.len() == 0 {
        Seq::empty()
    } else if parts.len() == 1 {
        parts[0]
    } else {
        joined(parts.drop_last()) + ","@ + parts.last()
    }
}

/// What a recovery set right, in words.
pub open spec fn recovered_parts(store: PoolStore, env: Env, kind: RecoveryType) -> Seq<Seq<char>> {
    let (threshold, distribution, guard) = covers(kind);
    let none = Seq::<Seq<char>>::empty();
    let one = if threshold && threshold_stuck(store, env) {
        none.push("threshold"@)
    } else {
        none
    };
    let two = if distribution && distribution_stuck(store, env) {
        one.push(
            "distribution_restarted_"@ + digits(store.commit_ledger.entries@.len()) + "_remaining"@,
        )
    } else {
        one
    };
    if guard && store.reentrancy_lock {
        two.push("reentrancy_guard"@)
    } else {
        two
    }
}

/// The state after a recovery.
pub open spec fn recovered_store(before: PoolStore, env: Env, kind: RecoveryType) -> PoolStore {
    let (threshold, distribution, guard) = covers(kind);
    PoolStore {
        threshold_processing: before.threshold_processing && !(threshold && threshold_stuck(
            before,
            env,
        )),
        distribution: if distribution && distribution_stuck(before, env) {
            restarted(
                before.distribution->Some_0,
                before.commit_ledger.entries@.len() as int,
                env,
            )
        } else {
            before.distribution
        },
        reentrancy_lock: before.reentrancy_lock && !guard,
        ..before
    }
}

/// What a recovery does, and what it answers.
pub open spec fn recover_outcome(
    before: PoolStore,
    after: PoolStore,
    env: Env,
    info: MessageInfo,
    kind: RecoveryType,
    r: Result<Response, ContractError>,
) -> bool {
    let parts = recovered_parts(before, env, kind);
    let failed = |e: ContractError| r == Err::<Response, ContractError>(e) && after == before;
    if info.sender@ != before.expected_factory.expected_factory_address@ {
        failed(ContractError::Unauthorized {  })
    } else if parts.len() == 0 {
        failed(ContractError::NothingToRecover {  })
    } else {
        &&& after == recovered_store(before, env, kind)
        &&& r matches Ok(resp)
        &&& resp.messages@.len() == 0
        &&& resp.attrs() == at_block(
            Seq::<Pair>::empty().push(("action"@, "recover_stuck_states"@)).push(
                ("recovered"@, joined(parts)),
            ).push(("pool_contract"@, before.pool_info.pool_info.contract_addr@)).push(
                ("recovered_by"@, info.sender@),
            ),
            env,
        )
    }
}

fn recover_threshold(store: &mut PoolStore, env: &Env) -> (r: bool)
    ensures
        r == threshold_stuck(*old(store), *env),
        *final(store) == (PoolStore {
            threshold_processing: old(store).threshold_processing && !r,
            ..*old(store)
        }),
{
    let last: u64 = match store.last_threshold_attempt {
        Some(t) => t.seconds(),
        None => 0,
    };
    if env.time.seconds() >= last + RECOVERY_DELAY_SECONDS && store.threshold_processing {
        store.threshold_processing = false;
        true
    } else {
        false
    }
}

fn recover_distribution(store: &mut PoolStore, env: &Env) -> (r: Option<u32>)
    requires
        old(store).commit_ledger.entries@.len() <= u32::MAX,
    ensures
        r == (if distribution_stuck(*old(store), *env) {
            Some(old(store).commit_ledger.entries@.len() as u32)
        } else {
            None
        }),
        *final(store) == (PoolStore {
            distribution: if r is Some {
                restarted(
                    old(store).distribution->Some_0,
                    old(store).commit_ledger.entries@.len() as int,
                    *env,
                )
            } else {
                old(store).distribution
            },
            ..*old(store)
        }),
{
    let next = match &store.distribution {
        None => {
            return None;
        },
        Some(d) => {
            let since: u64 = env.time.seconds().saturating_sub(d.last_updated.seconds());
            if since < RECOVERY_DELAY_SECONDS && d.consecutive_failures < 5 {
                return None;
            }
            let remaining: usize = store.commit_ledger.entries.len();
            if remaining == 0 {
                None
            } else {
                Some(
                    DistributionState {
                        is_distributing: true,
                        total_to_distribute: d.total_to_distribute,
                        total_committed_usd: d.total_committed_usd,
                        last_processed_key: None,
                        distributions_remaining: remaining as u32,
                        estimated_gas_per_distribution: DEFAULT_ESTIMATED_GAS_PER_DISTRIBUTION,
                        max_gas_per_tx: DEFAULT_MAX_GAS_PER_TX,
                        last_successful_batch_size: None,
                        consecutive_failures: 0,
                        started_at: env.time,
                        last_updated: env.time,
                    },
                )
            }
        },
    };
    store.distribution = next;
    Some(store.commit_ledger.entries.len() as u32)
}

fn recover_reentrancy_guard(store: &mut PoolStore) -> (r: bool)
    ensures
        r == old(store).reentrancy_lock,
        *final(store) == (PoolStore { reentrancy_lock: false, ..*old(store) }),
{
    let stuck: bool = store.reentrancy_lock;
    store.reentrancy_lock = false;
    stuck
}

/// Sets right what got stuck.
pub fn execute_recover_stuck_states(
    store: &mut PoolStore,
    env: &Env,
    info: &MessageInfo,
    recovery_type: RecoveryType,
) -> (r: Result<Response, ContractError>)
    requires
        old(store).wf(),
        old(store).commit_ledger.entries@.len() <= u32::MAX,
    ensures
        final(store).wf(),
        recover_outcome(*old(store), *final(store), *env, *info, recovery_type, r),
{
    if info.sender != store.expected_factory.expected_factory_address {
        return Err(ContractError::Unauthorized {  });
    }
    let (threshold, distribution, guard): (bool, bool, bool) = match recovery_type {
        RecoveryType::StuckThreshold => (true, false, false),
        RecoveryType::StuckDistribution => (false, true, false),
        RecoveryType::StuckReentrancyGuard => (false, false, true),
        RecoveryType::Both => (true, true, true),
    };
    let mut parts: Vec<String> = Vec::new();
    if threshold && recover_threshold(store, env) {
        parts.push("threshold".to_string());
    }
    if distribution {
        if let Some(remaining) = recover_distribution(store, env) {
            parts.push(
                "distribution_restarted_".to_string().concat(
                    number(remaining as u128).as_str(),
                ).concat("_remaining"),
            );
        }
    }
    if guard && recover_reentrancy_guard(store) {
        parts.push("reentrancy_guard".to_string());
    }
    proof {
        assert(views(parts@) =~= recovered_parts(*old(store), *env, recovery_type));
    }
    if parts.len() == 0 {
        return Err(ContractError::NothingToRecover {  });
    }
    let recovered = join(&parts);
    Ok(
        Response::new().attr("action", "recover_stuck_states").attr(
            "recovered",
            recovered.as_str(),
        ).attr("pool_contract", store.pool_info.pool_info.contract_addr.as_str()).attr(
            "recovered_by",
            info.sender.as_str(),
        ).at_block(env),
    )
}

/// Strings, as text.
pub open spec fn views(parts: Seq<String>) -> Seq<Seq<char>> {
    parts.map_values(|p: String| p@)
}

fn join(parts: &Vec<String>) -> (r: String)
    requires
        parts@.len() > 0,
    ensures
        r@ == joined(views(parts@)),
{
    let mut text: String = parts[0].clone();
    let mut i: usize = 1;
    proof {
        assert(views(parts@.subrange(0, 1)).len() == 1);
    }
    while i < parts.len()
        invariant
            1 <= i <= parts@.len(),
            text@ == joined(views(parts@.subrange(0, i as int))),
        decreases parts@.len() - i,
    {
        proof {
            let longer = views(parts@.subrange(0, i + 1));
            assert(longer.drop_last() =~= views(parts@.subrange(0, i as int)));
            assert(longer.last() == parts@[i as int]@);
        }
        text = text.concat(",").concat(parts[i].as_str());
        i += 1;
    }
    assert(parts@.subrange(0, parts@.len() as int) =~= parts@);
    text
}

} // verus!
