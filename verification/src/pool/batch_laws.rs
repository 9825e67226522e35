//! What a step of the distribution must satisfy: who is paid how much, who comes next, who is
//! owed the bounty, and when it fails.

use vstd::arithmetic::div_mod::*;
use vstd::prelude::*;

use crate::chain::{Addr, CosmosMsg, Env, MessageInfo, Response};
use crate::error::StdError;
use crate::pool::contract::{execute_outcome, HostAnswers};
use crate::pool::error::ContractError;
use crate::pool::generic_helpers::{
    batch_answer, batch_done, batch_end, batch_start, calculate_committer_reward,
    calculate_effective_batch_size, cursor, reward_msgs,
};
use crate::pool::laws::law_batch_pays_once;
use crate::pool::msg::ExecuteMsg;
use crate::pool::payments::{all_paid, tokens_minted};
use crate::pool::state::{DistributionState, PoolStore};
use crate::pool::swap_laws::{is_floor, lemma_is_floor};
use crate::table::{ascending, is_first_after, less};

verus! {

/// What a committer of `usd` dollars is due.
pub open spec fn due(d: DistributionState, usd: int) -> int {
    if d.total_committed_usd == 0 {
        0
    } else {
        usd * d.total_to_distribute / (d.total_committed_usd as int)
    }
}

/// How many committers a batch may take at most.
pub open spec fn most_of(d: DistributionState) -> int {
    let gas = if d.estimated_gas_per_distribution == 0 {
        1
    } else {
        d.max_gas_per_tx as int / d.estimated_gas_per_distribution as int
    };
    let by_gas: int = if gas < 1 {
        1
    } else if gas > 40 {
        40
    } else {
        gas
    };
    let by_history: int = match d.last_successful_batch_size {
        None => 10,
        Some(last) => if last * 9 / 10 < 1 {
            1
        } else {
            last * 9 / 10
        },
    };
    if by_gas < by_history {
        by_gas
    } else {
        by_history
    }
}

/// A committer's part of what is handed out is that of the dollars, rounded down.
pub proof fn law_rewards_are_proportional(
    usd: u128,
    total: u128,
    committed: u128,
    r: Result<u128, StdError>,
)
    requires
        call_ensures(calculate_committer_reward, (usd, total, committed), r),
    ensures
        match r {
            Ok(reward) => if committed == 0 {
                reward == 0
            } else {
                is_floor(reward as int, usd * total, committed as int)
            },
            Err(_) => committed > 0 && usd * total / (committed as int) > u128::MAX,
        },
{
    if committed > 0 {
        assert(usd * total >= 0) by (nonlinear_arith);
        lemma_is_floor(usd * total, committed as int);
    }
}

/// The size of a batch is set by the gas and by the batch before it.
pub proof fn law_batches_are_bounded(d: DistributionState, r: u32)
    requires
        call_ensures(calculate_effective_batch_size, (&d,), r),
    ensures
        r == most_of(d),
        1 <= r <= 40,
{
}

/// What the messages of a batch mint for an account that is taken, and for one that is not.
proof fn lemma_minted_for(
    entries: Seq<(String, u128)>,
    from: int,
    to: int,
    d: DistributionState,
    token: Addr,
    x: Seq<char>,
    at: int,
)
    requires
        ascending(entries),
        0 <= from <= to <= entries.len(),
        reward_msgs(entries, from, to, d, token) is Ok,
        from <= at < to ==> entries[at].0@ == x,
        !(from <= at < to) ==> forall|i: int| from <= i < to ==> (#[trigger] entries[i]).0@ != x,
    ensures
        tokens_minted(reward_msgs(entries, from, to, d, token)->Ok_0, token@, x) == (if from <= at
            < to {
            due(d, entries[at].1 as int)
        } else {
            0
        }),
        all_paid(reward_msgs(entries, from, to, d, token)->Ok_0).0 == 0,
        all_paid(reward_msgs(entries, from, to, d, token)->Ok_0).1 == 0,
        forall|i: int|
            0 <= i < reward_msgs(entries, from, to, d, token)->Ok_0.len() ==> ((
            #[trigger] reward_msgs(entries, from, to, d, token)->Ok_0[i])
                matches CosmosMsg::Cw20Mint { amount, .. } && amount > 0),
    decreases to - from,
{
    if from < to {
        let last = to - 1;
        if at == last {
            assert forall|i: int| from <= i < last implies (#[trigger] entries[i]).0@ != x by {
                crate::table::lemma_position(entries, i);
                crate::table::lemma_position(entries, last);
            }
        }
        if from <= at < last {
            assert(less(entries[at].0@, entries[last].0@));
            crate::table::lemma_position(entries, at);
            crate::table::lemma_position(entries, last);
        }
        lemma_minted_for(entries, from, last, d, token, x, if at == last { from - 1 } else { at });
        let msgs = reward_msgs(entries, from, last, d, token)->Ok_0;
        let reward = due(d, entries[last].1 as int);
        if d.total_committed_usd > 0 {
            assert(entries[last].1 * d.total_to_distribute >= 0) by (nonlinear_arith);
            lemma_div_pos_is_pos(
                entries[last].1 * d.total_to_distribute,
                d.total_committed_usd as int,
            );
        }
        let m = CosmosMsg::Cw20Mint {
            contract_addr: token,
            recipient: entries[last].0,
            amount: reward as u128,
        };
        assert(msgs.push(m).drop_last() =~= msgs);
    }
}

/// A step of the distribution that goes through mints every committer that it takes their part,
/// and nobody else anything; it takes the next ones in order, as many as it may; and it asks the
/// factory to pay its caller where it took somebody.
#[verifier::rlimit(60)]
pub proof fn law_steps_pay_their_committers(
    before: PoolStore,
    after: PoolStore,
    env: Env,
    info: MessageInfo,
    host: HostAnswers,
    resp: Response,
    d: DistributionState,
    x: Seq<char>,
    y: Seq<char>,
)
    requires
        before.wf(),
        execute_outcome(
            before,
            after,
            env,
            info,
            ExecuteMsg::ContinueDistribution {  },
            host,
            Ok(resp),
        ),
        before.distribution == Some(d),
    ensures
        ({
            let ledger = before.commit_ledger@;
            let left = after.commit_ledger@;
            let token = before.pool_info.token_address@;
            let minted = tokens_minted(resp.messages@, token, x);
            let taken = ledger.dom().contains(x) && !left.dom().contains(x);
            let count = before.commit_ledger.entries@.len() - after.commit_ledger.entries@.len();
            let bounty = CosmosMsg::PayDistributionBounty {
                factory_addr: before.pool_info.factory_addr,
                recipient: info.sender,
            };
            // Nobody is drained, stopped or late.
            &&& !before.drained && d.is_distributing && host.ledger_failure is None
            &&& env.time.nanos as int / 1_000_000_000 <= d.last_updated.nanos as int / 1_000_000_000
                + 7200
            // Who is paid, and how much.
            &&& minted == (if taken {
                due(d, ledger[x] as int)
            } else {
                0
            })
            &&& taken && d.total_committed_usd > 0 ==> is_floor(
                minted,
                ledger[x] * d.total_to_distribute,
                d.total_committed_usd as int,
            )
            &&& all_paid(resp.messages@).0 == 0 && all_paid(resp.messages@).1 == 0
            &&& left.dom().contains(x) ==> ledger.dom().contains(x) && left[x] == ledger[x]
            // Who comes next.
            &&& taken ==> (d.last_processed_key matches Some(k) ==> less(k@, x))
            &&& 0 <= count <= most_of(d)
            &&& left.dom().contains(y) && (d.last_processed_key matches Some(k) ==> less(k@, y))
                ==> count == most_of(d) && (taken ==> less(x, y))
            &&& d.last_processed_key is None ==> count == (if before.commit_ledger.entries@.len()
                < most_of(d) {
                before.commit_ledger.entries@.len() as int
            } else {
                most_of(d)
            })
            // The bounty.
            &&& count > 0 ==> resp.messages@.len() > 0 && resp.messages@.last() == bounty
            &&& count == 0 ==> resp.messages@.len() == 0
            &&& forall|i: int|
                0 <= i < resp.messages@.len() - 1 ==> ((
                #[trigger] resp.messages@[i]) matches CosmosMsg::Cw20Mint { amount, .. } && amount
                    > 0)
            // What is kept for the next step.
            &&& match after.distribution {
                None => count == 0 || d.distributions_remaining <= count,
                Some(n) => {
                    &&& count > 0 && n.is_distributing && n.distributions_remaining > 0
                    &&& n.distributions_remaining == d.distributions_remaining - count
                    &&& n.last_successful_batch_size == Some(count as u32)
                    &&& n.consecutive_failures == 0
                    &&& n.last_updated == env.time && n.started_at == d.started_at
                    &&& n.total_to_distribute == d.total_to_distribute
                    &&& n.total_committed_usd == d.total_committed_usd
                    &&& n.max_gas_per_tx == d.max_gas_per_tx
                    &&& n.estimated_gas_per_distribution == d.estimated_gas_per_distribution
                    &&& n.last_processed_key matches Some(k) && ledger.dom().contains(k@)
                        && !left.dom().contains(k@)
                    &&& taken ==> n.last_processed_key->Some_0@ == x || less(
                        x,
                        n.last_processed_key->Some_0@,
                    )
                },
            }
            &&& after == (PoolStore {
                commit_ledger: after.commit_ledger,
                distribution: after.distribution,
                ..before
            })
        }),
{
    let entries = before.commit_ledger.entries@;
    let rest = after.commit_ledger.entries@;
    let from = batch_start(entries, d);
    let to = batch_end(entries, d);
    let token = before.pool_info.token_address;
    law_batch_pays_once(before, after, env, d);
    crate::table::lemma_first_after_exists(entries, cursor(d));
    assert(is_first_after(entries, cursor(d), from));
    let msgs = reward_msgs(entries, from, to, d, token)->Ok_0;
    let ledger = before.commit_ledger@;
    let at = if ledger.dom().contains(x) {
        crate::table::position(entries, x)
    } else {
        -1
    };
    if ledger.dom().contains(x) {
        assert(crate::table::has_key(entries, x));
        assert(0 <= at < entries.len() && entries[at].0@ == x);
        assert(ledger[x] == entries[at].1);
        assert forall|i: int| from <= i < to && !(from <= at < to) implies (
        #[trigger] entries[i]).0@ != x by {
            crate::table::lemma_position(entries, i);
        }
    } else {
        assert forall|i: int| from <= i < to implies (#[trigger] entries[i]).0@ != x by {
            crate::table::lemma_position(entries, i);
        }
    }
    lemma_minted_for(entries, from, to, d, token, x, at);
    if from <= at < to && d.total_committed_usd > 0 {
        assert(entries[at].1 * d.total_to_distribute >= 0) by (nonlinear_arith);
        lemma_is_floor(entries[at].1 * d.total_to_distribute, d.total_committed_usd as int);
    }
    let bounty = CosmosMsg::PayDistributionBounty {
        factory_addr: before.pool_info.factory_addr,
        recipient: info.sender,
    };
    assert(msgs.push(bounty).drop_last() =~= msgs);
    if after.commit_ledger@.dom().contains(x) {
        let p = crate::table::position(rest, x);
        assert(crate::table::has_key(rest, x));
        assert(rest[p].0@ == x);
        let p0 = if p < from { p } else { p + (to - from) };
        assert(rest[p] == entries[p0]);
        crate::table::lemma_position(entries, p0);
    }
    if after.commit_ledger@.dom().contains(y) {
        let p = crate::table::position(rest, y);
        assert(crate::table::has_key(rest, y));
        assert(rest[p].0@ == y);
        let p0 = if p < from { p } else { p + (to - from) };
        assert(rest[p] == entries[p0]);
        if d.last_processed_key is None || less(d.last_processed_key->Some_0@, y) {
            assert(from <= p0);
            assert(to <= p0);
            if from <= at < to {
                assert(less(entries[at].0@, entries[p0].0@));
            }
        }
    }
    if from < to {
        crate::table::lemma_position(entries, to - 1);
        assert(after.commit_ledger@.dom().contains(entries[to - 1].0@) == false);
        if from <= at < to - 1 {
            assert(less(entries[at].0@, entries[to - 1].0@));
        }
    }
    if to == from {
        assert(msgs =~= Seq::<CosmosMsg>::empty());
    }
}

/// A step fails only where the pool is drained, nothing is handed out, it rested for more than two
/// hours, the ledger cannot be read or a part is out of range. What it notes of its failures is
/// all that it changes.
pub proof fn law_steps_fail_for_a_reason(
    before: PoolStore,
    after: PoolStore,
    env: Env,
    info: MessageInfo,
    host: HostAnswers,
    e: ContractError,
)
    requires
        execute_outcome(
            before,
            after,
            env,
            info,
            ExecuteMsg::ContinueDistribution {  },
            host,
            Err(e),
        ),
        before.wf(),
        before.distribution matches Some(d) ==> d.consecutive_failures < u32::MAX,
    ensures
        ({
            if before.drained {
                e == (ContractError::EmergencyDrained {  }) && after == before
            } else {
                match before.distribution {
                    None => after == before && (e matches ContractError::Std(StdError::NotFound(_))),
                    Some(d) => {
                        let rested = env.time.nanos as int / 1_000_000_000
                            - d.last_updated.nanos as int / 1_000_000_000;
                        if !d.is_distributing {
                            e == (ContractError::NothingToRecover {  }) && after == before
                        } else if rested > 7200 {
                            &&& e == ContractError::Std(
                                StdError::Generic("Distribution timeout - requires manual recovery"),
                            )
                            &&& after == (PoolStore {
                                distribution: Some(
                                    DistributionState { consecutive_failures: 99, ..d },
                                ),
                                ..before
                            })
                        } else if let Some(reason) = host.ledger_failure {
                            &&& e == ContractError::Std(
                                if d.consecutive_failures + 1 >= 5 {
                                    StdError::BatchAbandoned {
                                        failures: (d.consecutive_failures + 1) as u32,
                                        reason,
                                    }
                                } else {
                                    StdError::BatchFailed {
                                        attempt: (d.consecutive_failures + 1) as u32,
                                        reason,
                                    }
                                },
                            )
                            &&& after == (PoolStore {
                                distribution: Some(
                                    DistributionState {
                                        consecutive_failures: (d.consecutive_failures + 1) as u32,
                                        is_distributing: d.consecutive_failures + 1 < 5,
                                        ..d
                                    },
                                ),
                                ..before
                            })
                        } else {
                            &&& e is Std && after == before
                            &&& exists|i: int|
                                0 <= i < before.commit_ledger.entries@.len() && due(
                                    d,
                                    (#[trigger] before.commit_ledger.entries@[i]).1 as int,
                                ) > u128::MAX
                        }
                    },
                }
            }
        }),
{
    if let Some(d) = before.distribution {
        let entries = before.commit_ledger.entries@;
        let from = batch_start(entries, d);
        let to = batch_end(entries, d);
        crate::table::lemma_first_after_exists(entries, cursor(d));
        assert(is_first_after(entries, cursor(d), from));
        if reward_msgs(entries, from, to, d, before.pool_info.token_address) is Err {
            lemma_too_much(entries, from, to, d, before.pool_info.token_address);
        }
    }
}

proof fn lemma_too_much(
    entries: Seq<(String, u128)>,
    from: int,
    to: int,
    d: DistributionState,
    token: Addr,
)
    requires
        0 <= from <= to <= entries.len(),
        reward_msgs(entries, from, to, d, token) is Err,
    ensures
        exists|i: int|
            0 <= i < entries.len() && due(d, (#[trigger] entries[i]).1 as int) > u128::MAX,
    decreases to - from,
{
    if from < to {
        if reward_msgs(entries, from, to - 1, d, token) is Err {
            lemma_too_much(entries, from, to - 1, d, token);
        } else {
            let i = to - 1;
            assert(due(d, entries[i].1 as int) > u128::MAX);
        }
    }
}

/// Without a distribution there is nobody to pay, and nothing changes.
pub proof fn law_nobody_is_paid_without_a_distribution(
    before: PoolStore,
    after: PoolStore,
    env: Env,
    read_failure: Option<String>,
)
    requires
        before.distribution is None,
        batch_done(before, after, env, read_failure),
    ensures
        after == before,
        batch_answer(before, env, read_failure) matches Ok((msgs, processed)) && msgs.len() == 0
            && processed == 0,
{
}

} // verus!
