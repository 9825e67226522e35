//! What a pool tells about itself.

use vstd::prelude::*;
use vstd::string::*;

use crate::asset::{TokenInfo, TokenType};
use crate::chain::{Addr, Env};
use crate::error::{Missing, OverflowOperation, StdError};
use crate::number::ONE;
use crate::pool::error::ContractError;
use crate::pool::generic_helpers::lookup;
use crate::pool::liquidity_helpers::{calculate_unclaimed_fees, unclaimed_fees};
use crate::pool::msg::{
    CommitStatus, CommitterInfo, ConfigResponse, CumulativePricesResponse,
    FactoryNotifyStatusResponse, LastCommittedResponse, PoolCommitResponse, PoolFeeStateResponse,
    PoolInfoResponse, PoolResponse, PoolStateResponse, PositionResponse, PositionsResponse,
    QueryMsg, ReverseSimulationResponse, SimulationResponse,
};
use crate::pool::state::{
    CommitFeeInfo, Committing, PoolDetails, PoolFeeState, PoolState, PoolStore,
};
use crate::pool::swap_helper::{
    accumulated, compute_offer_amount, compute_swap, offer_outcome, swap_outcome,
    update_price_accumulator,
};
use crate::table::{is_first_after, Table};

verus! {

/// The pair of the pool.
pub fn query_pair_info(store: &PoolStore) -> (r: &PoolDetails)
    ensures
        *r == store.pool_info.pool_info,
{
    &store.pool_info.pool_info
}

/// What the pool holds of both tokens. `assets` is what the chain answered.
pub fn query_pool(assets: Result<[TokenInfo; 2], StdError>) -> (r: Result<PoolResponse, StdError>)
    ensures
        r == (match assets {
            Ok(assets) => Ok::<PoolResponse, StdError>(PoolResponse { assets }),
            Err(e) => Err(e),
        }),
{
    let assets = assets?;
    Ok(PoolResponse { assets })
}

/// How far the threshold is.
pub open spec fn commit_status(store: PoolStore) -> CommitStatus {
    if store.threshold_hit {
        CommitStatus::FullyCommitted
    } else {
        CommitStatus::InProgress {
            raised: store.usd_raised,
            target: store.commit_limits.commit_amount_for_threshold_usd,
        }
    }
}

/// How far the threshold is.
pub fn query_check_threshold_limit(store: &PoolStore) -> (r: CommitStatus)
    ensures
        r == commit_status(*store),
{
    if store.threshold_hit {
        CommitStatus::FullyCommitted
    } else {
        CommitStatus::InProgress {
            raised: store.usd_raised,
            target: store.commit_limits.commit_amount_for_threshold_usd,
        }
    }
}

/// Whether the threshold has been met.
pub open spec fn committed_enough(store: PoolStore) -> bool {
    store.threshold_hit || store.usd_raised >= store.commit_limits.commit_amount_for_threshold_usd
}

/// Whether the threshold has been met.
pub fn query_check_commit(store: &PoolStore) -> (r: bool)
    ensures
        r == committed_enough(*store),
{
    if store.threshold_hit {
        return true;
    }
    store.usd_raised >= store.commit_limits.commit_amount_for_threshold_usd
}

/// The position of a token in a pair.
pub open spec fn side_of(pools: [TokenInfo; 2], token: TokenType) -> Option<int> {
    if token.same(pools[0].info) {
        Some(0)
    } else if token.same(pools[1].info) {
        Some(1)
    } else {
        None
    }
}

/// What a swap would come to.
pub open spec fn simulated(
    store: PoolStore,
    offer: TokenInfo,
    pools: Result<[TokenInfo; 2], StdError>,
) -> Result<SimulationResponse, StdError> {
    match pools {
        Err(e) => Err(e),
        Ok(p) => match side_of(p, offer.info) {
            None => Err(StdError::Generic("Given offer asset does not belong in the pair")),
            Some(i) => match swap_outcome(
                p[i].amount as int,
                p[1 - i].amount as int,
                offer.amount as int,
                store.pool_specs.lp_fee.atomics as int,
            ) {
                Err(e) => Err(e),
                Ok((return_amount, spread_amount, commission_amount)) => Ok(
                    SimulationResponse { return_amount, spread_amount, commission_amount },
                ),
            },
        },
    }
}

/// Whether the side that a swap offers to holds something.
pub open spec fn simulation_defined(
    offer: TokenInfo,
    pools: Result<[TokenInfo; 2], StdError>,
) -> bool {
    pools matches Ok(p) ==> (side_of(p, offer.info) matches Some(i) ==> p[i].amount > 0)
}

/// What a swap would come to. `pools` is what the pool holds of both tokens, as the chain
/// answered.
pub fn query_simulation(
    store: &PoolStore,
    offer_asset: &TokenInfo,
    pools: Result<[TokenInfo; 2], StdError>,
) -> (r: Result<SimulationResponse, StdError>)
    requires
        simulation_defined(*offer_asset, pools),
    ensures
        r == simulated(*store, *offer_asset, pools),
{
    let pools = pools?;
    let (offer_pool, ask_pool): (u128, u128) = if offer_asset.info.equal(&pools[0].info) {
        (pools[0].amount, pools[1].amount)
    } else if offer_asset.info.equal(&pools[1].info) {
        (pools[1].amount, pools[0].amount)
    } else {
        return Err(StdError::Generic("Given offer asset does not belong in the pair"));
    };
    let (return_amount, spread_amount, commission_amount): (u128, u128, u128) = compute_swap(
        offer_pool,
        ask_pool,
        offer_asset.amount,
        store.pool_specs.lp_fee,
    )?;
    Ok(SimulationResponse { return_amount, spread_amount, commission_amount })
}

/// What would have to be offered.
pub open spec fn reverse_simulated(
    store: PoolStore,
    ask: TokenInfo,
    pools: Result<[TokenInfo; 2], StdError>,
) -> Result<ReverseSimulationResponse, StdError> {
    match pools {
        Err(e) => Err(e),
        Ok(p) => match side_of(p, ask.info) {
            None => Err(StdError::Generic("Given ask asset doesn't belong to pairs")),
            Some(i) => match offer_outcome(
                p[1 - i].amount as int,
                p[i].amount as int,
                ask.amount as int,
                store.pool_specs.lp_fee.atomics as int,
            ) {
                Err(e) => Err(e),
                Ok((offer_amount, spread_amount, commission_amount)) => Ok(
                    ReverseSimulationResponse { offer_amount, spread_amount, commission_amount },
                ),
            },
        },
    }
}

/// Whether the commission leaves something of a swap.
pub open spec fn reverse_simulation_defined(
    store: PoolStore,
    ask: TokenInfo,
    pools: Result<[TokenInfo; 2], StdError>,
) -> bool {
    pools matches Ok(p) ==> side_of(p, ask.info) is Some ==> store.pool_specs.lp_fee.atomics < ONE
}

/// What would have to be offered. `pools` is what the pool holds of both tokens, as the
/// chain answered.
pub fn query_reverse_simulation(
    store: &PoolStore,
    ask_asset: &TokenInfo,
    pools: Result<[TokenInfo; 2], StdError>,
) -> (r: Result<ReverseSimulationResponse, StdError>)
    requires
        reverse_simulation_defined(*store, *ask_asset, pools),
    ensures
        r == reverse_simulated(*store, *ask_asset, pools),
{
    let pools = pools?;
    let (ask_pool, offer_pool): (u128, u128) = if ask_asset.info.equal(&pools[0].info) {
        (pools[0].amount, pools[1].amount)
    } else if ask_asset.info.equal(&pools[1].info) {
        (pools[1].amount, pools[0].amount)
    } else {
        return Err(StdError::Generic("Given ask asset doesn't belong to pairs"));
    };
    let (offer_amount, spread_amount, commission_amount): (u128, u128, u128) = compute_offer_amount(
        offer_pool,
        ask_pool,
        ask_asset.amount,
        store.pool_specs.lp_fee,
    )?;
    Ok(ReverseSimulationResponse { offer_amount, spread_amount, commission_amount })
}

/// The time-weighted prices as of now, over what the pool holds.
pub open spec fn prices_now(store: PoolStore, env: Env, assets: [TokenInfo; 2]) -> Result<
    PoolState,
    ContractError,
> {
    accumulated(
        PoolState {
            reserve0: assets[0].amount,
            reserve1: assets[1].amount,
            ..store.pool_state
        },
        env.time.seconds(),
    )
}

/// The answer about the time-weighted prices.
pub open spec fn prices_answer(
    store: PoolStore,
    env: Env,
    assets: Result<[TokenInfo; 2], StdError>,
) -> Result<CumulativePricesResponse, StdError> {
    match assets {
        Err(e) => Err(e),
        Ok(assets) => match prices_now(store, env, assets) {
            Ok(s) => Ok(
                CumulativePricesResponse {
                    assets,
                    price0_cumulative_last: s.price0_cumulative_last,
                    price1_cumulative_last: s.price1_cumulative_last,
                },
            ),
            Err(ContractError::Std(StdError::Overflow(OverflowOperation::Mul))) => Err(
                StdError::Generic(
                    "Failed to update price accumulator: Overflow: Cannot Mul with given operands",
                ),
            ),
            Err(_) => Err(
                StdError::Generic(
                    "Failed to update price accumulator: Overflow: Cannot Add with given operands",
                ),
            ),
        },
    }
}

/// The time-weighted prices as of now. `assets` is what the pool holds of both tokens, as
/// the chain answered.
pub fn query_cumulative_prices(
    store: &PoolStore,
    env: &Env,
    assets: Result<[TokenInfo; 2], StdError>,
) -> (r: Result<CumulativePricesResponse, StdError>)
    ensures
        r == prices_answer(*store, *env, assets),
{
    let assets = assets?;
    let mut pool_state = store.pool_state.clone();
    pool_state.reserve0 = assets[0].amount;
    pool_state.reserve1 = assets[1].amount;
    match update_price_accumulator(&mut pool_state, env.time.seconds()) {
        Ok(_) => {},
        Err(ContractError::Std(StdError::Overflow(OverflowOperation::Mul))) => {
            return Err(
                StdError::Generic(
                    "Failed to update price accumulator: Overflow: Cannot Mul with given operands",
                ),
            );
        },
        Err(_) => {
            return Err(
                StdError::Generic(
                    "Failed to update price accumulator: Overflow: Cannot Add with given operands",
                ),
            );
        },
    }
    Ok(
        CumulativePricesResponse {
            assets,
            price0_cumulative_last: pool_state.price0_cumulative_last,
            price1_cumulative_last: pool_state.price1_cumulative_last,
        },
    )
}

/// When the prices were last updated.
pub fn query_config(store: &PoolStore) -> (r: ConfigResponse)
    ensures
        r == (ConfigResponse { block_time_last: store.pool_state.block_time_last, params: None }),
{
    ConfigResponse { block_time_last: store.pool_state.block_time_last, params: None }
}

/// The fees of a commit.
pub fn query_fee_info(store: &PoolStore) -> (r: &CommitFeeInfo)
    ensures
        *r == store.fee_info,
{
    &store.fee_info
}

pub open spec fn pool_state_response(s: PoolState) -> PoolStateResponse {
    PoolStateResponse {
        nft_ownership_accepted: s.nft_ownership_accepted,
        reserve0: s.reserve0,
        reserve1: s.reserve1,
        total_liquidity: s.total_liquidity,
        block_time_last: s.block_time_last,
    }
}

/// Reserves and shares.
pub fn query_pool_state(store: &PoolStore) -> (r: PoolStateResponse)
    ensures
        r == pool_state_response(store.pool_state),
{
    PoolStateResponse {
        nft_ownership_accepted: store.pool_state.nft_ownership_accepted,
        reserve0: store.pool_state.reserve0,
        reserve1: store.pool_state.reserve1,
        total_liquidity: store.pool_state.total_liquidity,
        block_time_last: store.pool_state.block_time_last,
    }
}

pub open spec fn fee_state_response(f: PoolFeeState) -> PoolFeeStateResponse {
    PoolFeeStateResponse {
        fee_growth_global_0: f.fee_growth_global_0,
        fee_growth_global_1: f.fee_growth_global_1,
        total_fees_collected_0: f.total_fees_collected_0,
        total_fees_collected_1: f.total_fees_collected_1,
    }
}

/// The fees that were collected.
pub fn query_fee_state(store: &PoolStore) -> (r: PoolFeeStateResponse)
    ensures
        r == fee_state_response(store.fee_state),
{
    PoolFeeStateResponse {
        fee_growth_global_0: store.fee_state.fee_growth_global_0,
        fee_growth_global_1: store.fee_state.fee_growth_global_1,
        total_fees_collected_0: store.fee_state.total_fees_collected_0,
        total_fees_collected_1: store.fee_state.total_fees_collected_1,
    }
}

/// Reserves, fees and the number of positions.
pub fn query_pool_info(store: &PoolStore) -> (r: PoolInfoResponse)
    ensures
        r == (PoolInfoResponse {
            pool_state: pool_state_response(store.pool_state),
            fee_state: fee_state_response(store.fee_state),
            total_positions: store.next_position_id,
        }),
{
    PoolInfoResponse {
        pool_state: query_pool_state(store),
        fee_state: query_fee_state(store),
        total_positions: store.next_position_id,
    }
}

/// Whether telling the factory about the threshold has to be tried again.
pub fn query_factory_notify_status(store: &PoolStore) -> (r: FactoryNotifyStatusResponse)
    ensures
        r.pending == store.pending_factory_notify,
{
    FactoryNotifyStatusResponse { pending: store.pending_factory_notify }
}

/// Whether the pool is paused.
pub fn query_is_paused(store: &PoolStore) -> (r: bool)
    ensures
        r == store.paused,
{
    store.paused
}

/// What an account has committed, where it has.
pub fn query_committing_info<'a>(store: &'a PoolStore, wallet: &Addr) -> (r: Option<&'a Committing>)
    requires
        store.wf(),
    ensures
        match lookup(store.commit_info@, wallet@) {
            Some(c) => r == Some(&c),
            None => r is None,
        },
{
    store.commit_info.get(wallet.as_str())
}

/// The last commit of an account, where there is one.
pub open spec fn last_commit(store: PoolStore, wallet: Seq<char>) -> LastCommittedResponse {
    match lookup(store.commit_info@, wallet) {
        Some(c) => LastCommittedResponse {
            has_committed: true,
            last_committed: Some(c.last_committed),
            last_payment_bluechip: Some(c.last_payment_bluechip),
            last_payment_usd: Some(c.last_payment_usd),
        },
        None => LastCommittedResponse {
            has_committed: false,
            last_committed: None,
            last_payment_bluechip: None,
            last_payment_usd: None,
        },
    }
}

/// The last commit of an account, where there is one.
pub fn query_last_committed(store: &PoolStore, wallet: &Addr) -> (r: LastCommittedResponse)
    requires
        store.wf(),
    ensures
        r == last_commit(*store, wallet@),
{
    match store.commit_info.get(wallet.as_str()) {
        Some(c) => LastCommittedResponse {
            has_committed: true,
            last_committed: Some(c.last_committed),
            last_payment_bluechip: Some(c.last_payment_bluechip),
            last_payment_usd: Some(c.last_payment_usd),
        },
        None => LastCommittedResponse {
            has_committed: false,
            last_committed: None,
            last_payment_bluechip: None,
            last_payment_usd: None,
        },
    }
}

/// A position with what it has earned since its snapshot.
pub open spec fn position_answer(store: PoolStore, position_id: String) -> Result<
    PositionResponse,
    StdError,
> {
    match lookup(store.positions@, position_id@) {
        None => Err(
            StdError::NotFound(
                Missing {
                    type_path: "bluechip::pool::state::Position",
                    namespace: "positions",
                    key: Some(position_id),
                },
            ),
        ),
        Some(p) => {
            let fees_0 = unclaimed_fees(
                p.liquidity,
                p.fee_growth_inside_0_last,
                store.fee_state.fee_growth_global_0,
            );
            let fees_1 = unclaimed_fees(
                p.liquidity,
                p.fee_growth_inside_1_last,
                store.fee_state.fee_growth_global_1,
            );
            match (fees_0, fees_1) {
                (Ok(unclaimed_fees_0), Ok(unclaimed_fees_1)) => Ok(
                    PositionResponse {
                        position_id,
                        liquidity: p.liquidity,
                        owner: p.owner,
                        fee_growth_inside_0_last: p.fee_growth_inside_0_last,
                        fee_growth_inside_1_last: p.fee_growth_inside_1_last,
                        created_at: p.created_at,
                        last_fee_collection: p.last_fee_collection,
                        unclaimed_fees_0,
                        unclaimed_fees_1,
                    },
                ),
                (Err(e), _) => Err(e),
                (_, Err(e)) => Err(e),
            }
        },
    }
}

/// A position with what it has earned since its snapshot.
pub fn query_position(store: &PoolStore, position_id: String) -> (r: Result<
    PositionResponse,
    StdError,
>)
    requires
        store.wf(),
    ensures
        r == position_answer(*store, position_id),
{
    match store.positions.get(position_id.as_str()) {
        None => Err(
            StdError::NotFound(
                Missing {
                    type_path: "bluechip::pool::state::Position",
                    namespace: "positions",
                    key: Some(position_id),
                },
            ),
        ),
        Some(p) => {
            let unclaimed_fees_0: u128 = calculate_unclaimed_fees(
                p.liquidity,
                p.fee_growth_inside_0_last,
                store.fee_state.fee_growth_global_0,
            )?;
            let unclaimed_fees_1: u128 = calculate_unclaimed_fees(
                p.liquidity,
                p.fee_growth_inside_1_last,
                store.fee_state.fee_growth_global_1,
            )?;
            Ok(
                PositionResponse {
                    position_id,
                    liquidity: p.liquidity,
                    owner: p.owner.clone(),
                    fee_growth_inside_0_last: p.fee_growth_inside_0_last,
                    fee_growth_inside_1_last: p.fee_growth_inside_1_last,
                    created_at: p.created_at,
                    last_fee_collection: p.last_fee_collection,
                    unclaimed_fees_0,
                    unclaimed_fees_1,
                },
            )
        },
    }
}

/// The positions whose ids are the keys from `from` up to `to`.
pub open spec fn positions_between<V>(
    store: PoolStore,
    ids: Seq<(String, V)>,
    from: int,
    to: int,
) -> Result<Seq<PositionResponse>, StdError>
    decreases to - from,
{
    if to <= from {
        Ok(Seq::empty())
    } else {
        match positions_between(store, ids, from, to - 1) {
            Err(e) => Err(e),
            Ok(page) => match position_answer(store, ids[to - 1].0) {
                Err(e) => Err(e),
                Ok(p) => Ok(page.push(p)),
            },
        }
    }
}

proof fn lemma_page_error<V>(store: PoolStore, ids: Seq<(String, V)>, from: int, mid: int, to: int)
    requires
        from <= mid <= to,
        positions_between(store, ids, from, mid) is Err,
    ensures
        positions_between(store, ids, from, to) == positions_between(store, ids, from, mid),
    decreases to - mid,
{
    if mid < to {
        lemma_page_error(store, ids, from, mid, to - 1);
    }
}

/// How many entries a page may hold: what was asked for, within limits.
pub open spec fn page_size(limit: Option<u32>, default: int, most: int) -> int {
    let wanted = match limit {
        Some(n) => n as int,
        None => default,
    };
    if wanted < most {
        wanted
    } else {
        most
    }
}

/// Where a page starts.
pub open spec fn page_start<V>(ids: Seq<(String, V)>, start: Option<Seq<char>>) -> int {
    choose|at: int| #[trigger] is_first_after(ids, start, at)
}

/// Where a page ends.
pub open spec fn page_end<V>(ids: Seq<(String, V)>, start: Option<Seq<char>>, size: int) -> int {
    if ids.len() - page_start(ids, start) < size {
        ids.len() as int
    } else {
        page_start(ids, start) + size
    }
}

/// A page of positions: those after `start` in order of their ids.
pub open spec fn positions_page<V>(
    store: PoolStore,
    ids: Seq<(String, V)>,
    start: Option<Seq<char>>,
    limit: Option<u32>,
) -> Result<Seq<PositionResponse>, StdError> {
    positions_between(
        store,
        ids,
        page_start(ids, start),
        page_end(ids, start, page_size(limit, 10, 30)),
    )
}

pub open spec fn owned_view(start: Option<String>) -> Option<Seq<char>> {
    match start {
        Some(s) => Some(s@),
        None => None,
    }
}

fn first_after<V>(table: &Table<V>, start: &Option<String>) -> (r: usize)
    requires
        table.wf(),
    ensures
        r == page_start(table.entries@, owned_view(*start)),
        r <= table.entries@.len(),
{
    let at: usize = match start {
        Some(key) => table.first_after(Some(key.as_str())),
        None => table.first_after(None),
    };
    proof {
        assert(is_first_after(table.entries@, owned_view(*start), at as int));
        crate::pool::generic_helpers::lemma_first_after_unique(
            table.entries@,
            owned_view(*start),
            at as int,
            page_start(table.entries@, owned_view(*start)),
        );
    }
    at
}

fn collect_positions<V>(
    store: &PoolStore,
    ids: &Table<V>,
    start: &Option<String>,
    limit: Option<u32>,
) -> (r: Result<PositionsResponse, StdError>)
    requires
        store.wf(),
        ids.wf(),
    ensures
        match r {
            Ok(page) => positions_page(*store, ids.entries@, owned_view(*start), limit) == Ok::<
                Seq<PositionResponse>,
                StdError,
            >(page.positions@),
            Err(e) => positions_page(*store, ids.entries@, owned_view(*start), limit) == Err::<
                Seq<PositionResponse>,
                StdError,
            >(e),
        },
{
    let size: u32 = match limit {
        Some(n) => if n < 30 {
            n
        } else {
            30
        },
        None => 10,
    };
    let from: usize = first_after(ids, start);
    let len: usize = ids.entries.len();
    let to: usize = if len - from < size as usize {
        len
    } else {
        from + size as usize
    };
    let mut positions: Vec<PositionResponse> = Vec::new();
    let mut i: usize = from;
    while i < to
        invariant
            store.wf(),
            from <= i <= to <= ids.entries@.len(),
            from == page_start(ids.entries@, owned_view(*start)),
            to == page_end(ids.entries@, owned_view(*start), page_size(limit, 10, 30)),
            positions_between(*store, ids.entries@, from as int, i as int) == Ok::<
                Seq<PositionResponse>,
                StdError,
            >(positions@),
        decreases to - i,
    {
        match query_position(store, ids.entries[i].0.clone()) {
            Ok(p) => {
                positions.push(p);
            },
            Err(e) => {
                proof {
                    assert(positions_between(*store, ids.entries@, from as int, i + 1) is Err);
                    lemma_page_error(
                        *store,
                        ids.entries@,
                        from as int,
                        i + 1,
                        to as int,
                    );
                }
                return Err(e);
            },
        }
        i += 1;
    }
    Ok(PositionsResponse { positions })
}

/// Whether an answer is the page of the positions `ids` after `start_after`.
pub open spec fn is_page<V>(
    store: PoolStore,
    ids: Seq<(String, V)>,
    start_after: Option<String>,
    limit: Option<u32>,
    r: Result<PositionsResponse, StdError>,
) -> bool {
    match r {
        Ok(page) => positions_page(store, ids, owned_view(start_after), limit) == Ok::<
            Seq<PositionResponse>,
            StdError,
        >(page.positions@),
        Err(e) => positions_page(store, ids, owned_view(start_after), limit) == Err::<
            Seq<PositionResponse>,
            StdError,
        >(e),
    }
}

/// Whether an answer is the page of the positions of one owner.
pub open spec fn is_page_of(
    store: PoolStore,
    owner: Seq<char>,
    start_after: Option<String>,
    limit: Option<u32>,
    r: Result<PositionsResponse, StdError>,
) -> bool {
    match lookup(store.owner_positions@, owner) {
        None => r matches Ok(page) && page.positions@.len() == 0,
        Some(list) => is_page(store, list.entries@, start_after, limit, r),
    }
}

/// A page of all positions: 10 where no number is asked for, 30 at most.
pub fn query_positions(store: &PoolStore, start_after: &Option<String>, limit: Option<u32>) -> (r:
    Result<PositionsResponse, StdError>)
    requires
        store.wf(),
    ensures
        is_page(*store, store.positions.entries@, *start_after, limit, r),
{
    collect_positions(store, &store.positions, start_after, limit)
}

/// A page of the positions of one owner: 10 where no number is asked for, 30 at most.
pub fn query_positions_by_owner(
    store: &PoolStore,
    owner: &Addr,
    start_after: &Option<String>,
    limit: Option<u32>,
) -> (r: Result<PositionsResponse, StdError>)
    requires
        store.wf(),
    ensures
        is_page_of(*store, owner@, *start_after, limit, r),
{
    match store.owner_positions.get(owner.as_str()) {
        Some(list) => collect_positions(store, list, start_after, limit),
        None => Ok(PositionsResponse { positions: Vec::new() }),
    }
}

/// Whether a committer passes the filters of a query.
pub open spec fn passes(
    c: Committing,
    pool: Seq<char>,
    min_usd: Option<u128>,
    after: Option<u64>,
) -> bool {
    &&& c.pool_contract_address@ == pool
    &&& min_usd matches Some(min) ==> c.last_payment_usd >= min
    &&& after matches Some(t) ==> c.last_committed.seconds() >= t
}

pub open spec fn committer_info(wallet: String, c: Committing) -> CommitterInfo {
    CommitterInfo {
        wallet,
        last_payment_bluechip: c.last_payment_bluechip,
        last_payment_usd: c.last_payment_usd,
        last_committed: c.last_committed,
        total_paid_usd: c.total_paid_usd,
        total_paid_bluechip: c.total_paid_bluechip,
    }
}

/// The first committers from position `from` on that pass the filters: as many as `size`,
/// and one where `size` is zero.
pub open spec fn first_passing(
    entries: Seq<(String, Committing)>,
    from: int,
    size: int,
    pool: Seq<char>,
    min_usd: Option<u128>,
    after: Option<u64>,
) -> Seq<CommitterInfo>
    decreases entries.len() - from,
{
    if from < 0 || from >= entries.len() {
        Seq::empty()
    } else if !passes(entries[from].1, pool, min_usd, after) {
        first_passing(entries, from + 1, size, pool, min_usd, after)
    } else {
        let one = seq![committer_info(entries[from].0, entries[from].1)];
        if size <= 1 {
            one
        } else {
            one + first_passing(entries, from + 1, size - 1, pool, min_usd, after)
        }
    }
}

/// Whether an answer holds the committers after `start_after` that pass the filters.
pub open spec fn tells_committers(
    store: PoolStore,
    pool: Seq<char>,
    min_usd: Option<u128>,
    after: Option<u64>,
    start_after: Result<Option<Addr>, StdError>,
    limit: Option<u32>,
    r: Result<PoolCommitResponse, StdError>,
) -> bool {
    let entries = store.commit_info.entries@;
    match start_after {
        Err(e) => r == Err::<PoolCommitResponse, StdError>(e),
        Ok(start) => {
            &&& r matches Ok(page)
            &&& page.committers@ == first_passing(
                entries,
                page_start(entries, owned_view(start)),
                page_size(limit, 30, 100),
                pool,
                min_usd,
                after,
            )
            &&& page.total_count == page.committers@.len()
        },
    }
}

/// The committers after `start_after`, in order, that pass the filters: 30 where no number
/// is asked for, 100 at most. `start_after` is what the host says of that address, where one
/// was named.
pub fn query_pool_commiters(
    store: &PoolStore,
    pool_contract_address: &Addr,
    min_payment_usd: Option<u128>,
    after_timestamp: Option<u64>,
    start_after: Result<Option<Addr>, StdError>,
    limit: Option<u32>,
) -> (r: Result<PoolCommitResponse, StdError>)
    requires
        store.wf(),
    ensures
        tells_committers(
            *store,
            pool_contract_address@,
            min_payment_usd,
            after_timestamp,
            start_after,
            limit,
            r,
        ),
{
    let start: Option<Addr> = start_after?;
    let size: u32 = match limit {
        Some(n) => if n < 100 {
            n
        } else {
            100
        },
        None => 30,
    };
    let ghost entries = store.commit_info.entries@;
    let ghost pool = pool_contract_address@;
    let mut committers: Vec<CommitterInfo> = Vec::new();
    let mut i: usize = first_after(&store.commit_info, &start);
    let ghost from = i as int;
    let mut done: bool = false;
    while !done && i < store.commit_info.entries.len()
        invariant
            entries == store.commit_info.entries@,
            pool == pool_contract_address@,
            size <= 100,
            i <= entries.len(),
            done ==> committers@.len() <= 100,
            !done ==> committers@.len() < 100 && (committers@.len() < size || committers@.len()
                == 0),
            done ==> first_passing(
                entries,
                from,
                size as int,
                pool,
                min_payment_usd,
                after_timestamp,
            ) == committers@,
            !done ==> first_passing(
                entries,
                from,
                size as int,
                pool,
                min_payment_usd,
                after_timestamp,
            ) == committers@ + first_passing(
                entries,
                i as int,
                size - committers@.len(),
                pool,
                min_payment_usd,
                after_timestamp,
            ),
        decreases entries.len() - i,
    {
        let entry = &store.commit_info.entries[i];
        let c = &entry.1;
        let large_enough = match min_payment_usd {
            Some(min) => c.last_payment_usd >= min,
            None => true,
        };
        let late_enough = match after_timestamp {
            Some(t) => c.last_committed.seconds() >= t,
            None => true,
        };
        let ghost before = committers@;
        if c.pool_contract_address == *pool_contract_address && large_enough && late_enough {
            committers.push(
                CommitterInfo {
                    wallet: entry.0.clone(),
                    last_payment_bluechip: c.last_payment_bluechip,
                    last_payment_usd: c.last_payment_usd,
                    last_committed: c.last_committed,
                    total_paid_usd: c.total_paid_usd,
                    total_paid_bluechip: c.total_paid_bluechip,
                },
            );
            done = committers.len() >= size as usize;
            proof {
                let one = seq![committer_info(entries[i as int].0, entries[i as int].1)];
                assert(committers@ =~= before + one);
                let rest = first_passing(
                    entries,
                    i + 1,
                    size - before.len() - 1,
                    pool,
                    min_payment_usd,
                    after_timestamp,
                );
                assert(before + (one + rest) =~= committers@ + rest);
            }
        }
        i += 1;
    }
    proof {
        if !done {
            assert(committers@ + Seq::<CommitterInfo>::empty() =~= committers@);
        }
    }
    Ok(PoolCommitResponse { total_count: committers.len() as u32, committers })
}

/// What the factory is told about a pool.
#[derive(Debug, PartialEq)]
pub struct PoolStateResponseForFactory {
    pub pool_contract_address: Addr,
    pub nft_ownership_accepted: bool,
    pub reserve0: u128,
    pub reserve1: u128,
    pub total_liquidity: u128,
    pub block_time_last: u64,
    pub price0_cumulative_last: u128,
    pub price1_cumulative_last: u128,
    /// The names of both tokens.
    pub assets: Vec<String>,
}

/// Whether an answer to the factory is the state of the pool.
pub open spec fn tells_state(store: PoolStore, r: PoolStateResponseForFactory) -> bool {
    let s = store.pool_state;
    let infos = store.pool_info.pool_info.asset_infos;
    &&& r == (PoolStateResponseForFactory {
        pool_contract_address: s.pool_contract_address,
        nft_ownership_accepted: s.nft_ownership_accepted,
        reserve0: s.reserve0,
        reserve1: s.reserve1,
        total_liquidity: s.total_liquidity,
        block_time_last: s.block_time_last,
        price0_cumulative_last: s.price0_cumulative_last,
        price1_cumulative_last: s.price1_cumulative_last,
        assets: r.assets,
    })
    &&& r.assets@.len() == 2
    &&& r.assets@[0]@ == infos[0].name()
    &&& r.assets@[1]@ == infos[1].name()
}

/// What the factory can ask.
#[derive(Debug)]
pub enum PoolQueryMsg {
    GetPoolState { pool_contract_address: String },
    GetAllPools {  },
}

/// What the factory is answered: the pool, or a list of the one pool that there is.
#[derive(Debug, PartialEq)]
pub enum PoolQueryAnswer {
    PoolState(PoolStateResponseForFactory),
    AllPools { pools: Vec<(Addr, PoolStateResponseForFactory)> },
}

/// Whether an answer is what the factory asked for.
pub open spec fn answers_factory(store: PoolStore, msg: PoolQueryMsg, r: PoolQueryAnswer) -> bool {
    match msg {
        PoolQueryMsg::GetPoolState { .. } => r matches PoolQueryAnswer::PoolState(s)
            && tells_state(store, s),
        PoolQueryMsg::GetAllPools {  } => r matches PoolQueryAnswer::AllPools { pools }
            && pools@.len() == 1 && pools@[0].0 == store.pool_state.pool_contract_address
            && tells_state(store, pools@[0].1),
    }
}

/// Answers the factory. A pool knows of itself alone, whichever address is asked for.
pub fn query_for_factory(store: &PoolStore, msg: &PoolQueryMsg) -> (r: PoolQueryAnswer)
    ensures
        answers_factory(*store, *msg, r),
{
    let s = &store.pool_state;
    let infos = &store.pool_info.pool_info.asset_infos;
    let mut assets: Vec<String> = Vec::new();
    assets.push(infos[0].text().to_string());
    assets.push(infos[1].text().to_string());
    let state = PoolStateResponseForFactory {
        pool_contract_address: s.pool_contract_address.clone(),
        nft_ownership_accepted: s.nft_ownership_accepted,
        reserve0: s.reserve0,
        reserve1: s.reserve1,
        total_liquidity: s.total_liquidity,
        block_time_last: s.block_time_last,
        price0_cumulative_last: s.price0_cumulative_last,
        price1_cumulative_last: s.price1_cumulative_last,
        assets,
    };
    match msg {
        PoolQueryMsg::GetPoolState { .. } => PoolQueryAnswer::PoolState(state),
        PoolQueryMsg::GetAllPools {  } => {
            let mut pools: Vec<(Addr, PoolStateResponseForFactory)> = Vec::new();
            pools.push((s.pool_contract_address.clone(), state));
            PoolQueryAnswer::AllPools { pools }
        },
    }
}

/// What a query answers with.
#[derive(Debug)]
pub enum QueryAnswer<'a> {
    Pair(&'a PoolDetails),
    Config(ConfigResponse),
    Simulation(SimulationResponse),
    ReverseSimulation(ReverseSimulationResponse),
    CumulativePrices(CumulativePricesResponse),
    FeeInfo(&'a CommitFeeInfo),
    CommitStatus(CommitStatus),
    Committing(Option<&'a Committing>),
    Committers(PoolCommitResponse),
    PoolState(PoolStateResponse),
    FeeState(PoolFeeStateResponse),
    Position(PositionResponse),
    Positions(PositionsResponse),
    LastCommitted(LastCommittedResponse),
    PoolInfo(PoolInfoResponse),
    Factory(PoolQueryAnswer),
    Paused(bool),
    NotifyStatus(FactoryNotifyStatusResponse),
}

/// What the host answered to what a query needs to know. Where a query does not ask, the
/// answer does not matter.
#[derive(Debug)]
pub struct QueryHost {
    /// What the pool holds of both tokens.
    pub pools: Result<[TokenInfo; 2], StdError>,
    /// The account that is asked about, or after which a page of committers starts.
    pub account: Result<Addr, StdError>,
}

/// The account after which a page of committers starts, where one is named, as the host
/// takes it.
pub open spec fn named_start(
    start_after: Option<String>,
    account: Result<Addr, StdError>,
) -> Result<Option<Addr>, StdError> {
    match (start_after, account) {
        (None, _) => Ok(None),
        (Some(_), Ok(account)) => Ok(Some(account)),
        (Some(_), Err(e)) => Err(e),
    }
}

/// Whether a query stays in range.
pub open spec fn query_defined(store: PoolStore, msg: QueryMsg, host: QueryHost) -> bool {
    match msg {
        QueryMsg::Simulation { offer_asset } => simulation_defined(offer_asset, host.pools),
        QueryMsg::ReverseSimulation { ask_asset } => reverse_simulation_defined(
            store,
            ask_asset,
            host.pools,
        ),
        _ => true,
    }
}

/// What a query answers.
pub open spec fn query_outcome(
    store: PoolStore,
    env: Env,
    msg: QueryMsg,
    host: QueryHost,
    r: Result<QueryAnswer, StdError>,
) -> bool {
    match msg {
        QueryMsg::Pair {  } => r matches Ok(QueryAnswer::Pair(pair)) && *pair
            == store.pool_info.pool_info,
        QueryMsg::Config {  } => r == Ok::<QueryAnswer, StdError>(
            QueryAnswer::Config(
                ConfigResponse { block_time_last: store.pool_state.block_time_last, params: None },
            ),
        ),
        QueryMsg::Simulation { offer_asset } => r == (match simulated(
            store,
            offer_asset,
            host.pools,
        ) {
            Ok(answer) => Ok::<QueryAnswer, StdError>(QueryAnswer::Simulation(answer)),
            Err(e) => Err(e),
        }),
        QueryMsg::ReverseSimulation { ask_asset } => r == (match reverse_simulated(
            store,
            ask_asset,
            host.pools,
        ) {
            Ok(answer) => Ok::<QueryAnswer, StdError>(QueryAnswer::ReverseSimulation(answer)),
            Err(e) => Err(e),
        }),
        QueryMsg::CumulativePrices {  } => r == (match prices_answer(store, env, host.pools) {
            Ok(answer) => Ok::<QueryAnswer, StdError>(QueryAnswer::CumulativePrices(answer)),
            Err(e) => Err(e),
        }),
        QueryMsg::FeeInfo {  } => r matches Ok(QueryAnswer::FeeInfo(fees)) && *fees
            == store.fee_info,
        QueryMsg::IsFullyCommited {  } => r == Ok::<QueryAnswer, StdError>(
            QueryAnswer::CommitStatus(commit_status(store)),
        ),
        QueryMsg::CommittingInfo { .. } => match host.account {
            Err(e) => r == Err::<QueryAnswer, StdError>(e),
            Ok(wallet) => r matches Ok(QueryAnswer::Committing(c)) && match lookup(
                store.commit_info@,
                wallet@,
            ) {
                Some(record) => c == Some(&record),
                None => c is None,
            },
        },
        QueryMsg::PoolCommits {
            pool_contract_address,
            min_payment_usd,
            after_timestamp,
            start_after,
            limit,
        } => {
            let start = named_start(start_after, host.account);
            match r {
                Ok(QueryAnswer::Committers(page)) => tells_committers(
                    store,
                    pool_contract_address@,
                    min_payment_usd,
                    after_timestamp,
                    start,
                    limit,
                    Ok(page),
                ),
                Ok(_) => false,
                Err(e) => start == Err::<Option<Addr>, StdError>(e),
            }
        },
        QueryMsg::PoolState {  } => r == Ok::<QueryAnswer, StdError>(
            QueryAnswer::PoolState(pool_state_response(store.pool_state)),
        ),
        QueryMsg::FeeState {  } => r == Ok::<QueryAnswer, StdError>(
            QueryAnswer::FeeState(fee_state_response(store.fee_state)),
        ),
        QueryMsg::Position { position_id } => r == (match position_answer(store, position_id) {
            Ok(answer) => Ok::<QueryAnswer, StdError>(QueryAnswer::Position(answer)),
            Err(e) => Err(e),
        }),
        QueryMsg::Positions { start_after, limit } => match r {
            Ok(QueryAnswer::Positions(page)) => is_page(
                store,
                store.positions.entries@,
                start_after,
                limit,
                Ok(page),
            ),
            Ok(_) => false,
            Err(e) => is_page(store, store.positions.entries@, start_after, limit, Err(e)),
        },
        QueryMsg::PositionsByOwner { start_after, limit, .. } => match (host.account, r) {
            (Err(e), _) => r == Err::<QueryAnswer, StdError>(e),
            (Ok(owner), Ok(QueryAnswer::Positions(page))) => is_page_of(
                store,
                owner@,
                start_after,
                limit,
                Ok(page),
            ),
            (Ok(_), Ok(_)) => false,
            (Ok(owner), Err(e)) => is_page_of(store, owner@, start_after, limit, Err(e)),
        },
        QueryMsg::LastCommited { .. } => r == (match host.account {
            Ok(wallet) => Ok::<QueryAnswer, StdError>(
                QueryAnswer::LastCommitted(last_commit(store, wallet@)),
            ),
            Err(e) => Err(e),
        }),
        QueryMsg::PoolInfo {  } => r == Ok::<QueryAnswer, StdError>(
            QueryAnswer::PoolInfo(
                PoolInfoResponse {
                    pool_state: pool_state_response(store.pool_state),
                    fee_state: fee_state_response(store.fee_state),
                    total_positions: store.next_position_id,
                },
            ),
        ),
        QueryMsg::GetPoolState { pool_contract_address } => r matches Ok(
            QueryAnswer::Factory(answer),
        ) && answers_factory(store, PoolQueryMsg::GetPoolState { pool_contract_address }, answer),
        QueryMsg::GetAllPools {  } => r matches Ok(QueryAnswer::Factory(answer))
            && answers_factory(store, PoolQueryMsg::GetAllPools {  }, answer),
        QueryMsg::IsPaused {  } => r == Ok::<QueryAnswer, StdError>(
            QueryAnswer::Paused(store.paused),
        ),
        QueryMsg::FactoryNotifyStatus {  } => r == Ok::<QueryAnswer, StdError>(
            QueryAnswer::NotifyStatus(
                FactoryNotifyStatusResponse { pending: store.pending_factory_notify },
            ),
        ),
    }
}

/// Answers a query.
pub fn query<'a>(store: &'a PoolStore, env: &Env, msg: QueryMsg, host: QueryHost) -> (r: Result<
    QueryAnswer<'a>,
    StdError,
>)
    requires
        store.wf(),
        query_defined(*store, msg, host),
    ensures
        query_outcome(*store, *env, msg, host, r),
{
    match msg {
        QueryMsg::Pair {  } => Ok(QueryAnswer::Pair(query_pair_info(store))),
        QueryMsg::Config {  } => Ok(QueryAnswer::Config(query_config(store))),
        QueryMsg::Simulation { offer_asset } => {
            let answer = query_simulation(store, &offer_asset, host.pools)?;
            Ok(QueryAnswer::Simulation(answer))
        },
        QueryMsg::ReverseSimulation { ask_asset } => {
            let answer = query_reverse_simulation(store, &ask_asset, host.pools)?;
            Ok(QueryAnswer::ReverseSimulation(answer))
        },
        QueryMsg::CumulativePrices {  } => {
            let answer = query_cumulative_prices(store, env, host.pools)?;
            Ok(QueryAnswer::CumulativePrices(answer))
        },
        QueryMsg::FeeInfo {  } => Ok(QueryAnswer::FeeInfo(query_fee_info(store))),
        QueryMsg::IsFullyCommited {  } => Ok(
            QueryAnswer::CommitStatus(query_check_threshold_limit(store)),
        ),
        QueryMsg::CommittingInfo { wallet: _ } => {
            let wallet = host.account?;
            Ok(QueryAnswer::Committing(query_committing_info(store, &wallet)))
        },
        QueryMsg::PoolCommits {
            pool_contract_address,
            min_payment_usd,
            after_timestamp,
            start_after,
            limit,
        } => {
            let start: Result<Option<Addr>, StdError> = match start_after {
                None => Ok(None),
                Some(_) => match host.account {
                    Ok(account) => Ok(Some(account)),
                    Err(e) => Err(e),
                },
            };
            let page = query_pool_commiters(
                store,
                &pool_contract_address,
                min_payment_usd,
                after_timestamp,
                start,
                limit,
            )?;
            Ok(QueryAnswer::Committers(page))
        },
        QueryMsg::PoolState {  } => Ok(QueryAnswer::PoolState(query_pool_state(store))),
        QueryMsg::FeeState {  } => Ok(QueryAnswer::FeeState(query_fee_state(store))),
        QueryMsg::Position { position_id } => {
            let answer = query_position(store, position_id)?;
            Ok(QueryAnswer::Position(answer))
        },
        QueryMsg::Positions { start_after, limit } => {
            let page = query_positions(store, &start_after, limit)?;
            Ok(QueryAnswer::Positions(page))
        },
        QueryMsg::PositionsByOwner { owner: _, start_after, limit } => {
            let owner = host.account?;
            let page = query_positions_by_owner(store, &owner, &start_after, limit)?;
            Ok(QueryAnswer::Positions(page))
        },
        QueryMsg::LastCommited { wallet: _ } => {
            let wallet = host.account?;
            Ok(QueryAnswer::LastCommitted(query_last_committed(store, &wallet)))
        },
        QueryMsg::PoolInfo {  } => Ok(QueryAnswer::PoolInfo(query_pool_info(store))),
        QueryMsg::GetPoolState { pool_contract_address } => Ok(
            QueryAnswer::Factory(
                query_for_factory(store, &PoolQueryMsg::GetPoolState { pool_contract_address }),
            ),
        ),
        QueryMsg::GetAllPools {  } => Ok(
            QueryAnswer::Factory(query_for_factory(store, &PoolQueryMsg::GetAllPools {  })),
        ),
        QueryMsg::IsPaused {  } => Ok(QueryAnswer::Paused(query_is_paused(store))),
        QueryMsg::FactoryNotifyStatus {  } => Ok(
            QueryAnswer::NotifyStatus(query_factory_notify_status(store)),
        ),
    }
}

} // verus!
