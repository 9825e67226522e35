//! What the calls of the factory must satisfy, and what a pool starts from.

use vstd::prelude::*;

use crate::asset::TokenType;
use crate::chain::{CosmosMsg, Env, MessageInfo, Response};
use crate::error::StdError;
use crate::number::Decimal;
use crate::pool::admin::ensure_not_drained;
use crate::pool::contract::{
    dispatch_outcome, execute_outcome, instantiate, migrate_outcome, notify_outcome, Dispatch,
    HostAnswers,
};
use crate::pool::error::ContractError;
use crate::pool::generic_helpers::validate_pool_threshold_payments;
use crate::pool::liquidity_helpers::listed;
use crate::pool::msg::{CommitPoolInstantiateMsg, ExecuteMsg, MigrateMsg, PoolConfigUpdate};
use crate::pool::payments::{all_paid, are_payments, lemma_paid_by_few};
use crate::pool::state::{PoolStore, Position, RecoveryType, ThresholdPayoutAmounts};
use crate::pool::swap_laws::paid_in;
use crate::text::digits;

verus! {

/// The whole seconds of a point in time.
pub open spec fn whole_seconds(nanos: u64) -> int {
    nanos as int / 1_000_000_000
}

/// Pausing and unpausing are for the factory, and change nothing but whether the pool is paused.
pub proof fn law_pauses_are_set(
    before: PoolStore,
    after: PoolStore,
    env: Env,
    info: MessageInfo,
    msg: ExecuteMsg,
    host: HostAnswers,
    r: Result<Response, ContractError>,
)
    requires
        msg is Pause || msg is Unpause,
        execute_outcome(before, after, env, info, msg, host, r),
    ensures
        r is Ok <==> info.sender@ == before.pool_info.factory_addr@,
        r matches Err(e) ==> e == (ContractError::Unauthorized {  }) && after == before,
        r matches Ok(resp) ==> {
            &&& after.paused == (msg is Pause)
            &&& after == (PoolStore { paused: after.paused, ..before })
            &&& resp.messages@.len() == 0
            &&& msg is Pause ==> resp.attrs().contains(("action"@, "pause"@))
                && resp.attrs().contains(("paused_by"@, info.sender@))
            &&& msg is Unpause ==> resp.attrs().contains(("action"@, "unpause"@))
                && resp.attrs().contains(("unpaused_by"@, info.sender@))
            &&& resp.attrs().contains(
                ("pool_contract"@, before.pool_info.pool_info.contract_addr@),
            )
            &&& resp.attrs().contains(("block_height"@, digits(env.height as nat)))
            &&& resp.attrs().contains(
                ("block_time"@, digits(whole_seconds(env.time.nanos) as nat)),
            )
        },
{
    if let Ok(resp) = r {
        let a = resp.attrs();
        assert(a[0].0 == "action"@);
        assert(a[1] == ("pool_contract"@, before.pool_info.pool_info.contract_addr@));
        assert(a[2].1 == info.sender@);
        assert(a[3] == ("block_height"@, digits(env.height as nat)));
        assert(a[4] == ("block_time"@, digits(whole_seconds(env.time.nanos) as nat)));
    }
}

/// All that the pool holds of its two tokens.
pub open spec fn holdings(store: PoolStore) -> (int, int) {
    let (locked_0, locked_1) = match store.creator_excess {
        Some(x) => (x.bluechip_amount as int, x.token_amount as int),
        None => (0int, 0int),
    };
    (
        store.fee_state.fee_reserve_0 + locked_0 + store.pool_state.reserve0,
        store.fee_state.fee_reserve_1 + locked_1 + store.pool_state.reserve1,
    )
}

/// An emergency withdrawal is announced first, which pauses the pool, and a day later pays all
/// that the pool holds to the wallet of the platform. It leaves nothing, records what it took, and
/// ends the distribution.
#[verifier::rlimit(60)]
pub proof fn law_emergencies_pay_everything(
    before: PoolStore,
    after: PoolStore,
    env: Env,
    info: MessageInfo,
    host: HostAnswers,
    r: Result<Response, ContractError>,
)
    requires
        env.time.nanos + 86_400 * 1_000_000_000 <= u64::MAX,
        !before.pool_info.pool_info.asset_infos[0].same(before.pool_info.pool_info.asset_infos[1]),
        execute_outcome(
            before,
            after,
            env,
            info,
            ExecuteMsg::EmergencyWithdraw {  },
            host,
            r,
        ),
    ensures
        ({
            let (all_0, all_1) = holdings(before);
            let infos = before.pool_info.pool_info.asset_infos;
            let wallet = before.fee_info.bluechip_wallet_address;
            match r {
                Ok(resp) => {
                    &&& info.sender@ == before.pool_info.factory_addr@
                    &&& match before.pending_emergency_withdraw {
                        None => {
                            &&& after.paused && resp.messages@.len() == 0
                            &&& after.pending_emergency_withdraw matches Some(t) && t.nanos
                                == env.time.nanos + 86_400 * 1_000_000_000
                            &&& after == (PoolStore {
                                paused: after.paused,
                                pending_emergency_withdraw: after.pending_emergency_withdraw,
                                ..before
                            })
                            &&& resp.attrs().contains(
                                ("action"@, "emergency_withdraw_initiated"@),
                            )
                            &&& resp.attrs().contains(("initiated_by"@, info.sender@))
                        },
                        Some(t) => {
                            &&& t.nanos <= env.time.nanos
                            &&& paid_in(resp.messages@, infos[0], wallet@) == all_0
                            &&& paid_in(resp.messages@, infos[1], wallet@) == all_1
                            &&& all_paid(resp.messages@).0 + all_paid(resp.messages@).1 == all_0
                                + all_1
                            &&& all_paid(resp.messages@).2 == 0
                            &&& are_payments(resp.messages@)
                            &&& holdings(after) == (0int, 0int)
                            &&& after.pool_state.total_liquidity == 0
                            &&& after.drained && after.pending_emergency_withdraw is None
                            &&& after.paused == before.paused
                            &&& after.emergency_withdrawal matches Some(w) && {
                                &&& w.amount0 == all_0 && w.amount1 == all_1
                                &&& w.recipient == wallet
                                &&& w.withdrawn_at == whole_seconds(env.time.nanos)
                                &&& w.total_liquidity_at_withdrawal
                                    == before.pool_state.total_liquidity
                            }
                            &&& after.distribution is Some <==> before.distribution is Some
                            &&& after.distribution matches Some(d) ==> !d.is_distributing
                                && d.distributions_remaining == 0
                            &&& after.fee_state.fee_growth_global_0
                                == before.fee_state.fee_growth_global_0
                            &&& after.fee_state.fee_growth_global_1
                                == before.fee_state.fee_growth_global_1
                            &&& after.fee_state.total_fees_collected_0
                                == before.fee_state.total_fees_collected_0
                            &&& after.fee_state.total_fees_collected_1
                                == before.fee_state.total_fees_collected_1
                            &&& after.pool_state.block_time_last == before.pool_state.block_time_last
                            &&& after.pool_state.price0_cumulative_last
                                == before.pool_state.price0_cumulative_last
                            &&& after.pool_state.price1_cumulative_last
                                == before.pool_state.price1_cumulative_last
                            &&& after == (PoolStore {
                                pending_emergency_withdraw: after.pending_emergency_withdraw,
                                creator_excess: after.creator_excess,
                                emergency_withdrawal: after.emergency_withdrawal,
                                pool_state: after.pool_state,
                                fee_state: after.fee_state,
                                drained: after.drained,
                                distribution: after.distribution,
                                ..before
                            })
                            &&& resp.attrs().contains(("action"@, "emergency_withdraw"@))
                            &&& resp.attrs().contains(("recipient"@, wallet@))
                            &&& resp.attrs().contains(("amount0"@, digits(all_0 as nat)))
                            &&& resp.attrs().contains(("amount1"@, digits(all_1 as nat)))
                        },
                    }
                },
                Err(e) => {
                    &&& after == before
                    &&& match e {
                        ContractError::Unauthorized {  } => info.sender@
                            != before.pool_info.factory_addr@,
                        ContractError::EmergencyTimelockPending { effective_after } => {
                            &&& before.pending_emergency_withdraw == Some(effective_after)
                            &&& env.time.nanos < effective_after.nanos
                        },
                        ContractError::Std(_) => all_0 > u128::MAX || all_1 > u128::MAX,
                        _ => false,
                    }
                },
            }
        }),
{
    let infos = before.pool_info.pool_info.asset_infos;
    let wallet = before.fee_info.bluechip_wallet_address@;
    if let Ok(resp) = r {
        let msgs = resp.messages@;
        let a = resp.attrs();
        assert(a[0].0 == "action"@);
        if before.pending_emergency_withdraw is None {
            assert(a[3] == ("initiated_by"@, info.sender@));
        } else {
            assert(a[1] == ("recipient"@, wallet));
            assert(a[2].0 == "amount0"@);
            assert(a[3].0 == "amount1"@);
            reveal_with_fuel(all_paid, 4);
            match infos[0] {
                TokenType::Bluechip { denom } => {
                    lemma_paid_by_few(msgs, wallet, denom@);
                },
                TokenType::CreatorToken { contract_addr } => {
                    lemma_paid_by_few(msgs, contract_addr@, wallet);
                },
            }
            match infos[1] {
                TokenType::Bluechip { denom } => {
                    lemma_paid_by_few(msgs, wallet, denom@);
                },
                TokenType::CreatorToken { contract_addr } => {
                    lemma_paid_by_few(msgs, contract_addr@, wallet);
                },
            }
        }
    }
}

/// A withdrawal that was announced is called off by the factory alone, which opens the pool again.
pub proof fn law_emergencies_are_called_off(
    before: PoolStore,
    after: PoolStore,
    env: Env,
    info: MessageInfo,
    host: HostAnswers,
    r: Result<Response, ContractError>,
)
    requires
        execute_outcome(
            before,
            after,
            env,
            info,
            ExecuteMsg::CancelEmergencyWithdraw {  },
            host,
            r,
        ),
    ensures
        r is Ok <==> info.sender@ == before.pool_info.factory_addr@
            && before.pending_emergency_withdraw is Some,
        r matches Ok(resp) ==> {
            &&& after.pending_emergency_withdraw is None && !after.paused
            &&& after == (PoolStore {
                pending_emergency_withdraw: after.pending_emergency_withdraw,
                paused: after.paused,
                ..before
            })
            &&& resp.messages@.len() == 0
            &&& resp.attrs().contains(("action"@, "emergency_withdraw_cancelled"@))
            &&& resp.attrs().contains(("cancelled_by"@, info.sender@))
        },
        r matches Err(e) ==> after == before && match e {
            ContractError::Unauthorized {  } => info.sender@ != before.pool_info.factory_addr@,
            ContractError::NoPendingEmergencyWithdraw {  } =>
                before.pending_emergency_withdraw is None,
            _ => false,
        },
{
    if let Ok(resp) = r {
        let a = resp.attrs();
        assert(a[0] == ("action"@, "emergency_withdraw_cancelled"@));
        assert(a[2] == ("cancelled_by"@, info.sender@));
    }
}

/// Whether a fee of liquidity providers lies between a tenth of a percent and ten percent.
pub open spec fn fee_is_allowed(fee: Decimal) -> bool {
    1_000_000_000_000_000 <= fee.atomics <= 100_000_000_000_000_000
}

/// Settings are changed by the factory alone and within their limits. What the update does not
/// name stays as it was.
pub proof fn law_settings_stay_in_their_limits(
    before: PoolStore,
    after: PoolStore,
    env: Env,
    info: MessageInfo,
    update: PoolConfigUpdate,
    host: HostAnswers,
    r: Result<Response, ContractError>,
)
    requires
        execute_outcome(
            before,
            after,
            env,
            info,
            ExecuteMsg::UpdateConfigFromFactory { update },
            host,
            r,
        ),
    ensures
        ({
            let was = before.pool_specs;
            let is = after.pool_specs;
            &&& r is Ok <==> {
                &&& info.sender@ == before.pool_info.factory_addr@
                &&& update.lp_fee matches Some(fee) ==> fee_is_allowed(fee)
                &&& update.min_commit_interval matches Some(i) ==> i <= 86_400
                &&& update.usd_payment_tolerance_bps matches Some(t) ==> t <= 1000
                &&& update.oracle_address is Some ==> host.oracle_address is Ok
            }
            &&& r matches Ok(resp) ==> {
                &&& update.lp_fee matches Some(fee) ==> is.lp_fee == fee
                &&& update.lp_fee is None ==> is.lp_fee == was.lp_fee
                &&& update.min_commit_interval matches Some(i) ==> is.min_commit_interval == i
                &&& update.min_commit_interval is None ==> is.min_commit_interval
                    == was.min_commit_interval
                &&& update.usd_payment_tolerance_bps matches Some(t)
                    ==> is.usd_payment_tolerance_bps == t
                &&& update.usd_payment_tolerance_bps is None ==> is.usd_payment_tolerance_bps
                    == was.usd_payment_tolerance_bps
                &&& update.oracle_address is Some ==> host.oracle_address == Ok::<_, StdError>(
                    after.oracle_info.oracle_addr,
                )
                &&& update.oracle_address is None ==> after.oracle_info == before.oracle_info
                &&& after == (PoolStore {
                    pool_specs: after.pool_specs,
                    oracle_info: after.oracle_info,
                    ..before
                })
                &&& resp.messages@.len() == 0
                &&& resp.attrs().contains(("action"@, "update_config"@))
            }
            &&& r matches Err(e) ==> after == before && match e {
                ContractError::Unauthorized {  } => info.sender@ != before.pool_info.factory_addr@,
                ContractError::Std(_) => info.sender@ == before.pool_info.factory_addr@,
                _ => false,
            }
        }),
{
    if let Ok(resp) = r {
        assert(resp.attrs()[0] == ("action"@, "update_config"@));
    }
}

/// Whether a recovery finds a crossing of the threshold that rests for an hour.
pub open spec fn crossing_rests(store: PoolStore, env: Env) -> bool {
    &&& store.threshold_processing
    &&& match store.last_threshold_attempt {
        Some(t) => whole_seconds(env.time.nanos) - whole_seconds(t.nanos) >= 3600,
        None => whole_seconds(env.time.nanos) >= 3600,
    }
}

/// Whether a recovery finds a distribution that rests for an hour or failed five times.
pub open spec fn distribution_rests(store: PoolStore, env: Env) -> bool {
    store.distribution matches Some(d) && (d.consecutive_failures >= 5 || whole_seconds(
        env.time.nanos,
    ) - whole_seconds(d.last_updated.nanos) >= 3600)
}

/// A recovery is for the factory. It frees a crossing or a lock that is stuck, and starts a
/// distribution that is stuck again with all who are left, as far as it is asked to; where nothing
/// is stuck it is refused.
pub proof fn law_recoveries_free_what_is_stuck(
    before: PoolStore,
    after: PoolStore,
    env: Env,
    info: MessageInfo,
    recovery_type: RecoveryType,
    host: HostAnswers,
    r: Result<Response, ContractError>,
)
    requires
        before.commit_ledger.entries@.len() <= u32::MAX,
        execute_outcome(
            before,
            after,
            env,
            info,
            ExecuteMsg::RecoverStuckStates { recovery_type },
            host,
            r,
        ),
    ensures
        ({
            let all = recovery_type is Both;
            let crossing = (all || recovery_type is StuckThreshold) && crossing_rests(before, env);
            let handing_out = (all || recovery_type is StuckDistribution) && distribution_rests(
                before,
                env,
            );
            let lock = (all || recovery_type is StuckReentrancyGuard) && before.reentrancy_lock;
            let factory = before.expected_factory.expected_factory_address@;
            let left = before.commit_ledger.entries@.len();
            &&& r is Ok <==> info.sender@ == factory && (crossing || handing_out || lock)
            &&& r matches Ok(resp) ==> {
                &&& after.threshold_processing == (before.threshold_processing && !crossing)
                &&& after.reentrancy_lock == (before.reentrancy_lock && !lock)
                &&& !handing_out ==> after.distribution == before.distribution
                &&& handing_out && left == 0 ==> after.distribution is None
                &&& handing_out && left > 0 ==> (after.distribution matches Some(d) && {
                    let old_d = before.distribution->Some_0;
                    &&& d.is_distributing && d.last_processed_key is None
                    &&& d.distributions_remaining == left && d.consecutive_failures == 0
                    &&& d.last_successful_batch_size is None
                    &&& d.estimated_gas_per_distribution == 50_000
                    &&& d.max_gas_per_tx == 2_000_000
                    &&& d.started_at == env.time && d.last_updated == env.time
                    &&& d.total_to_distribute == old_d.total_to_distribute
                    &&& d.total_committed_usd == old_d.total_committed_usd
                })
                &&& after == (PoolStore {
                    threshold_processing: after.threshold_processing,
                    distribution: after.distribution,
                    reentrancy_lock: after.reentrancy_lock,
                    ..before
                })
                &&& resp.messages@.len() == 0
                &&& resp.attrs().contains(("action"@, "recover_stuck_states"@))
                &&& resp.attrs().contains(("recovered_by"@, info.sender@))
                &&& crossing && !handing_out && !lock ==> resp.attrs().contains(
                    ("recovered"@, "threshold"@),
                )
                &&& lock && !handing_out && !crossing ==> resp.attrs().contains(
                    ("recovered"@, "reentrancy_guard"@),
                )
                &&& handing_out && !lock && !crossing ==> resp.attrs().contains(
                    (
                        "recovered"@,
                        "distribution_restarted_"@ + digits(left) + "_remaining"@,
                    ),
                )
            }
            &&& r matches Err(e) ==> after == before && match e {
                ContractError::Unauthorized {  } => info.sender@ != factory,
                ContractError::NothingToRecover {  } => !(crossing || handing_out || lock),
                _ => false,
            }
        }),
{
    if let Ok(resp) = r {
        let a = resp.attrs();
        assert(a[0] == ("action"@, "recover_stuck_states"@));
        assert(a[1].0 == "recovered"@);
        assert(a[3] == ("recovered_by"@, info.sender@));
        reveal_with_fuel(crate::pool::admin::joined, 4);
    }
}

/// The factory is told again only where telling it failed, with the number of the pool.
pub proof fn law_the_factory_is_told_again(
    before: PoolStore,
    after: PoolStore,
    env: Env,
    info: MessageInfo,
    host: HostAnswers,
    r: Result<Response, ContractError>,
)
    requires
        execute_outcome(
            before,
            after,
            env,
            info,
            ExecuteMsg::RetryFactoryNotify {  },
            host,
            r,
        ),
    ensures
        after == before,
        r is Ok <==> before.pending_factory_notify,
        r matches Err(e) ==> e == (ContractError::NothingToRecover {  }),
        r matches Ok(resp) ==> {
            &&& resp.messages@.len() == 1
            &&& resp.messages@[0] matches CosmosMsg::NotifyThresholdCrossed {
                factory_addr,
                pool_id,
            } && factory_addr == before.pool_info.factory_addr && pool_id
                == before.pool_info.pool_id
            &&& resp.attrs().contains(("action"@, "retry_factory_notify"@))
        },
{
    if let Ok(resp) = r {
        assert(resp.attrs()[0] == ("action"@, "retry_factory_notify"@));
    }
}

/// The note that the factory has to be told again is made where the first try failed, and goes
/// where a later one succeeded. Nothing else changes, and no other reply is taken.
pub proof fn law_replies_keep_the_note(
    before: PoolStore,
    after: PoolStore,
    id: u64,
    succeeded: bool,
    r: Result<(), ContractError>,
)
    requires
        notify_outcome(before, after, id, succeeded, r),
    ensures
        r is Ok <==> id == 1 || id == 2,
        id == 1 && !succeeded ==> after.pending_factory_notify,
        id == 2 && succeeded ==> !after.pending_factory_notify,
        id == 1 && succeeded || id == 2 && !succeeded || r is Err ==> after == before,
        after == (PoolStore { pending_factory_notify: after.pending_factory_notify, ..before }),
        r matches Err(e) ==> e == ContractError::Std(StdError::UnknownReply { id }),
{
}

/// An upgrade changes the fee of liquidity providers where it names an allowed one, and nothing
/// else.
pub proof fn law_upgrades_change_the_fee_alone(
    before: PoolStore,
    after: PoolStore,
    msg: MigrateMsg,
    version: Seq<char>,
    r: Result<Response, StdError>,
)
    requires
        migrate_outcome(before, after, msg, version, r),
    ensures
        r is Ok <==> (msg matches MigrateMsg::UpdateFees { new_fees } ==> fee_is_allowed(
            new_fees,
        )),
        r is Err ==> after == before,
        r matches Ok(resp) ==> {
            &&& msg matches MigrateMsg::UpdateFees { new_fees } ==> after.pool_specs.lp_fee
                == new_fees
            &&& msg is UpdateVersion ==> after == before
            &&& after.pool_specs.min_commit_interval == before.pool_specs.min_commit_interval
            &&& after.pool_specs.usd_payment_tolerance_bps
                == before.pool_specs.usd_payment_tolerance_bps
            &&& after == (PoolStore { pool_specs: after.pool_specs, ..before })
            &&& resp.messages@.len() == 0
            &&& resp.attrs().contains(("action"@, "migrate"@))
            &&& resp.attrs().contains(("version"@, version))
        },
{
    if let Ok(resp) = r {
        assert(resp.attrs()[0] == ("action"@, "migrate"@));
        assert(resp.attrs()[1] == ("version"@, version));
    }
}

/// Deposits wait for the threshold and for a pool that is not drained, collecting fees for one
/// that is not paused either; withdrawals go through. All other calls are answered at once.
pub proof fn law_liquidity_waits_for_the_threshold(
    before: PoolStore,
    after: PoolStore,
    env: Env,
    info: MessageInfo,
    msg: ExecuteMsg,
    host: HostAnswers,
    r: Result<Dispatch, ContractError>,
)
    requires
        dispatch_outcome(before, after, env, info, msg, host, r),
    ensures
        ({
            let open = before.threshold_hit || before.usd_raised
                >= before.commit_limits.commit_amount_for_threshold_usd;
            let deposit = msg is DepositLiquidity || msg is AddToPosition;
            let withdrawal = msg is RemovePartialLiquidity || msg is RemovePartialLiquidityByPercent
                || msg is RemoveAllLiquidity;
            &&& r matches Ok(Dispatch::Liquidity) ==> {
                &&& after == before && (deposit || msg is CollectFees || withdrawal)
                &&& deposit ==> !before.drained && open
                &&& msg is CollectFees ==> !before.drained && !before.paused
            }
            &&& r matches Ok(Dispatch::Done(_)) ==> !deposit && !(msg is CollectFees)
                && !withdrawal
            &&& withdrawal ==> r == Ok::<_, ContractError>(Dispatch::Liquidity)
            &&& deposit || msg is CollectFees ==> (r matches Err(e) ==> after == before && match e {
                ContractError::EmergencyDrained {  } => before.drained,
                ContractError::ShortOfThreshold {  } => !open && deposit,
                ContractError::PoolPausedLowLiquidity {  } => before.paused && msg is CollectFees,
                _ => false,
            })
        }),
{
}

/// The payout that pools are set up with, and no other.
pub proof fn law_payouts_are_fixed(params: ThresholdPayoutAmounts, r: Result<(), ContractError>)
    requires
        call_ensures(validate_pool_threshold_payments, (&params,), r),
    ensures
        r is Ok <==> params.creator_reward_amount == 325_000_000_000 && params.bluechip_reward_amount
            == 25_000_000_000 && params.pool_seed_amount == 350_000_000_000
            && params.commit_return_amount == 500_000_000_000,
        r matches Err(e) ==> e is InvalidThresholdParams,
{
}

/// Whether a pool is as new: nothing raised, held, handed out or counted.
pub open spec fn is_as_new(store: PoolStore, env: Env) -> bool {
    let s = store.pool_state;
    let f = store.fee_state;
    let a = store.analytics;
    &&& store.usd_raised == 0 && store.native_raised == 0
    &&& !store.threshold_processing && store.last_threshold_attempt is None
    &&& !store.reentrancy_lock && !store.paused && !store.drained && !store.pending_factory_notify
    &&& store.pending_emergency_withdraw is None && store.emergency_withdrawal is None
    &&& s.reserve0 == 0 && s.reserve1 == 0 && s.total_liquidity == 0 && !s.nft_ownership_accepted
    &&& s.block_time_last == whole_seconds(env.time.nanos)
    &&& s.price0_cumulative_last == 0 && s.price1_cumulative_last == 0
    &&& s.pool_contract_address == env.contract
    &&& f.fee_growth_global_0.atomics == 0 && f.fee_growth_global_1.atomics == 0
    &&& f.total_fees_collected_0 == 0 && f.total_fees_collected_1 == 0
    &&& f.fee_reserve_0 == 0 && f.fee_reserve_1 == 0
    &&& a.total_swap_count == 0 && a.total_commit_count == 0 && a.total_volume_0 == 0
    &&& a.total_volume_1 == 0 && a.total_lp_deposit_count == 0 && a.total_lp_withdrawal_count == 0
    &&& a.last_trade_block == 0 && a.last_trade_timestamp == 0
    &&& store.creator_excess is None && store.distribution is None && store.next_position_id == 0
    &&& store.creator_fee_pot.amount_0 == 0 && store.creator_fee_pot.amount_1 == 0
    &&& store.commit_info@.dom() =~= Set::<Seq<char>>::empty()
    &&& store.commit_ledger@.dom() =~= Set::<Seq<char>>::empty()
    &&& store.user_last_commit@.dom() =~= Set::<Seq<char>>::empty()
    &&& store.positions@.dom() =~= set!["0"@]
    &&& is_own_position(store.positions@["0"@], env)
    &&& forall|o: Seq<char>, p: Seq<char>| #[trigger]
        listed(store.owner_positions@, o, p) <==> o == env.contract@ && p == "0"@
}

/// Whether a position is the one without shares that a pool holds from the start.
pub open spec fn is_own_position(p: Position, env: Env) -> bool {
    &&& p.liquidity == 0 && p.owner == env.contract
    &&& p.created_at == whole_seconds(env.time.nanos)
    &&& p.last_fee_collection == whole_seconds(env.time.nanos)
    &&& p.fee_growth_inside_0_last.atomics == 0 && p.fee_growth_inside_1_last.atomics == 0
    &&& p.fee_size_multiplier.atomics == 1_000_000_000_000_000_000
    &&& p.unclaimed_fees_0 == 0 && p.unclaimed_fees_1 == 0
}

/// A pool that is set up starts as new, with the tokens, the fees and the limits that the factory
/// named, a fee of 0.3%, 13 seconds between commits and a tolerance of one percent. A standard
/// pool is open from the start.
pub proof fn law_pools_start_as_ordered(
    env: Env,
    info: MessageInfo,
    msg: CommitPoolInstantiateMsg,
    token0: Result<(), StdError>,
    token1: Result<(), StdError>,
    r: Result<(PoolStore, Response), ContractError>,
)
    requires
        call_ensures(instantiate, (&env, &info, msg, token0, token1), r),
    ensures
        ({
            let factory = msg.used_factory_addr;
            let standard = msg.is_standard_pool == Some(true);
            let fees = msg.commit_fee_info.commit_fee_bluechip.atomics
                + msg.commit_fee_info.commit_fee_creator.atomics;
            &&& r matches Ok((store, resp)) ==> {
                &&& info.sender@ == factory@ && token0 is Ok && token1 is Ok
                &&& fees <= 1_000_000_000_000_000_000
                &&& is_as_new(store, env)
                &&& store.threshold_hit == standard
                &&& store.expected_factory.expected_factory_address == factory
                &&& store.oracle_info.oracle_addr == factory
                &&& store.pool_info.factory_addr == factory
                &&& store.pool_info.pool_id == msg.pool_id
                &&& store.pool_info.pool_info.asset_infos == msg.pool_token_info
                &&& store.pool_info.pool_info.contract_addr == env.contract
                &&& store.pool_info.token_address == msg.token_address
                &&& store.pool_info.position_nft_address == msg.position_nft_address
                &&& store.pool_specs.lp_fee.atomics == 3_000_000_000_000_000
                &&& store.pool_specs.min_commit_interval == 13
                &&& store.pool_specs.usd_payment_tolerance_bps == 100
                &&& store.fee_info == msg.commit_fee_info
                &&& store.commit_limits.commit_amount_for_threshold
                    == msg.commit_amount_for_threshold
                &&& store.commit_limits.commit_amount_for_threshold_usd
                    == msg.commit_threshold_limit_usd
                &&& store.commit_limits.max_bluechip_lock_per_pool == msg.max_bluechip_lock_per_pool
                &&& store.commit_limits.creator_excess_liquidity_lock_days
                    == msg.creator_excess_liquidity_lock_days
                &&& store.threshold_payout.creator_reward_amount == (if standard {
                    0int
                } else {
                    325_000_000_000
                })
                &&& store.threshold_payout.bluechip_reward_amount == (if standard {
                    0int
                } else {
                    25_000_000_000
                })
                &&& store.threshold_payout.pool_seed_amount == (if standard {
                    0int
                } else {
                    350_000_000_000
                })
                &&& store.threshold_payout.commit_return_amount == (if standard {
                    0int
                } else {
                    500_000_000_000
                })
                &&& !standard ==> msg.threshold_payout == Some(
                    Ok::<_, StdError>(store.threshold_payout),
                )
                &&& resp.messages@.len() == 0
                &&& resp.attrs().contains(("action"@, "instantiate"@))
                &&& resp.attrs().contains(("pool"@, env.contract@))
            }
            &&& r matches Err(e) ==> match e {
                ContractError::Unauthorized {  } => info.sender@ != factory@,
                ContractError::DoublingAssets {  } => match (
                    msg.pool_token_info[0],
                    msg.pool_token_info[1],
                ) {
                    (TokenType::Bluechip { denom: a }, TokenType::Bluechip { denom: b }) => a@
                        == b@,
                    (
                        TokenType::CreatorToken { contract_addr: a },
                        TokenType::CreatorToken { contract_addr: b },
                    ) => a@ == b@,
                    _ => false,
                },
                ContractError::InvalidFee {  } => fees > 1_000_000_000_000_000_000,
                ContractError::InvalidThresholdParams { .. } => !standard && (
                msg.threshold_payout matches Some(Ok(p)) ==> !(p.creator_reward_amount
                    == 325_000_000_000 && p.bluechip_reward_amount == 25_000_000_000
                    && p.pool_seed_amount == 350_000_000_000 && p.commit_return_amount
                    == 500_000_000_000)),
                ContractError::Std(x) => token0 == Err::<(), _>(x) || token1 == Err::<(), _>(x) || (
                !standard && (msg.threshold_payout matches Some(Err(y)) && y == x)),
                _ => false,
            }
        }),
{
    if let Ok((store, resp)) = r {
        assert(resp.attrs()[0] == ("action"@, "instantiate"@));
        assert(resp.attrs()[1] == ("pool"@, env.contract@));
    }
}

/// A pool is drained or not, and says so.
pub proof fn law_drained_pools_are_told_apart(store: PoolStore, r: Result<(), ContractError>)
    requires
        call_ensures(ensure_not_drained, (&store,), r),
    ensures
        r is Err <==> store.drained,
        r matches Err(e) ==> e == (ContractError::EmergencyDrained {  }),
{
}

} // verus!
