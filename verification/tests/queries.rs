//! What a pool answers.

use bluechip::asset::{PoolPairType, TokenInfo, TokenType};
use bluechip::chain::Env;
use bluechip::error::StdError;
use bluechip::number::{Decimal, Timestamp};
use bluechip::pool::msg::{CommitStatus, QueryMsg};
use bluechip::pool::query::{
    query, query_check_commit, query_check_threshold_limit, query_committing_info, query_config,
    query_cumulative_prices, query_fee_info, query_fee_state, query_for_factory, query_is_paused,
    query_last_committed, query_pair_info, query_pool, query_pool_commiters, query_pool_info,
    query_pool_state, query_position, query_positions, query_positions_by_owner,
    query_reverse_simulation, query_simulation, PoolQueryAnswer, PoolQueryMsg, QueryAnswer,
    QueryHost,
};
use bluechip::pool::range::query_in_range;
use bluechip::pool::state::{
    CommitFeeInfo, CommitLimitInfo, Committing, CreatorFeePot, ExpectedFactory, OracleInfo,
    PoolAnalytics, PoolDetails, PoolFeeState, PoolInfo, PoolSpecs, PoolState, PoolStore, Position,
    ThresholdPayoutAmounts,
};
use bluechip::table::Table;

const DENOM: &str = "ubluechip";

fn bluechip(denom: &str, amount: u128) -> TokenInfo {
    TokenInfo { info: TokenType::Bluechip { denom: denom.to_string() }, amount }
}

fn state(reserve0: u128, reserve1: u128, total_liquidity: u128, block_time_last: u64) -> PoolState {
    PoolState {
        pool_contract_address: "pool_contract".to_string(),
        nft_ownership_accepted: true,
        reserve0,
        reserve1,
        total_liquidity,
        block_time_last,
        price0_cumulative_last: 0,
        price1_cumulative_last: 0,
    }
}

/// A pool that collects commits.
fn funding_pool() -> PoolStore {
    PoolStore {
        usd_raised: 0,
        native_raised: 0,
        threshold_hit: false,
        threshold_processing: false,
        last_threshold_attempt: None,
        reentrancy_lock: false,
        paused: false,
        drained: false,
        pending_factory_notify: false,
        pending_emergency_withdraw: None,
        emergency_withdrawal: None,
        expected_factory: ExpectedFactory {
            expected_factory_address: "factory_address".to_string(),
        },
        pool_info: PoolInfo {
            pool_id: 1,
            pool_info: PoolDetails {
                asset_infos: [
                    TokenType::Bluechip { denom: DENOM.to_string() },
                    TokenType::CreatorToken { contract_addr: "token_contract".to_string() },
                ],
                contract_addr: "pool_contract".to_string(),
                pool_type: PoolPairType::Xyk {},
            },
            factory_addr: "factory_contract".to_string(),
            token_address: "token_contract".to_string(),
            position_nft_address: "nft_contract".to_string(),
        },
        pool_state: state(0, 0, 0, 0),
        pool_specs: PoolSpecs {
            lp_fee: Decimal::permille(3),
            min_commit_interval: 60,
            usd_payment_tolerance_bps: 100,
        },
        fee_state: PoolFeeState {
            fee_growth_global_0: Decimal::zero(),
            fee_growth_global_1: Decimal::zero(),
            total_fees_collected_0: 0,
            total_fees_collected_1: 0,
            fee_reserve_0: 0,
            fee_reserve_1: 0,
        },
        fee_info: CommitFeeInfo {
            bluechip_wallet_address: "bluechip_treasury".to_string(),
            creator_wallet_address: "creator_wallet".to_string(),
            commit_fee_bluechip: Decimal::percent(1),
            commit_fee_creator: Decimal::percent(5),
        },
        commit_limits: CommitLimitInfo {
            commit_amount_for_threshold: 100_000_000,
            commit_amount_for_threshold_usd: 25_000_000_000,
            max_bluechip_lock_per_pool: 10_000_000_000,
            creator_excess_liquidity_lock_days: 7,
        },
        threshold_payout: ThresholdPayoutAmounts {
            creator_reward_amount: 325_000_000_000,
            bluechip_reward_amount: 25_000_000_000,
            pool_seed_amount: 350_000_000_000,
            commit_return_amount: 500_000_000_000,
        },
        oracle_info: OracleInfo { oracle_addr: "oracle_contract".to_string() },
        analytics: PoolAnalytics::default(),
        creator_excess: None,
        creator_fee_pot: CreatorFeePot::default(),
        distribution: None,
        next_position_id: 1,
        commit_info: Table::new(),
        commit_ledger: Table::new(),
        user_last_commit: Table::new(),
        positions: Table::new(),
        owner_positions: Table::new(),
    }
}

/// A pool that is past its threshold and seeded.
fn trading_pool() -> PoolStore {
    let mut pool = funding_pool();
    pool.threshold_hit = true;
    pool.usd_raised = 25_000_000_000;
    pool.pool_state = state(23_500_000_000, 350_000_000_000, 91_104_335_791, 1_600_000_000);
    pool
}

fn token(amount: u128) -> TokenInfo {
    TokenInfo {
        info: TokenType::CreatorToken { contract_addr: "token_contract".to_string() },
        amount,
    }
}

/// The balances that the pool is made of.
fn balances() -> [TokenInfo; 2] {
    [bluechip(DENOM, 23_500_000_000), token(350_000_000_000)]
}

fn insert_position(pool: &mut PoolStore, id: u32, owner: &str, liquidity: u128) {
    let position = Position {
        liquidity,
        owner: owner.to_string(),
        fee_growth_inside_0_last: Decimal::zero(),
        fee_growth_inside_1_last: Decimal::zero(),
        created_at: 1_600_000_000,
        last_fee_collection: 1_600_000_000,
        fee_size_multiplier: Decimal::one(),
        unclaimed_fees_0: 0,
        unclaimed_fees_1: 0,
    };
    pool.positions.insert(format!("{}", id), position);
    let mut owned = match pool.owner_positions.take(owner) {
        Some(owned) => owned,
        None => Table::new(),
    };
    owned.insert(format!("{}", id), true);
    pool.owner_positions.insert(owner.to_string(), owned);
}

#[test]
fn test_query_simulation_bluechip_to_token() {
    let offer = bluechip(DENOM, 1_000_000_000);
    let sim = query_simulation(&trading_pool(), &offer, Ok(balances())).unwrap();
    assert!(sim.return_amount > 0);
    assert!(sim.spread_amount > 0);
    assert!(sim.commission_amount > 0);
    assert!(sim.return_amount + sim.spread_amount + sim.commission_amount > 0);
}

#[test]
fn test_query_simulation_token_to_bluechip() {
    let sim = query_simulation(&trading_pool(), &token(10_000_000_000), Ok(balances())).unwrap();
    assert!(sim.return_amount > 0);
    assert!(sim.commission_amount > 0);
}

#[test]
fn test_query_simulation_wrong_asset() {
    let offer = bluechip("uatom", 1_000_000_000);
    let err = query_simulation(&trading_pool(), &offer, Ok(balances())).unwrap_err();
    assert!(err.text().contains("does not belong"));
}

#[test]
fn test_query_reverse_simulation() {
    let ask = token(5_000_000_000);
    let sim = query_reverse_simulation(&trading_pool(), &ask, Ok(balances())).unwrap();
    assert!(sim.offer_amount > 0);
    assert!(sim.spread_amount > 0);
    assert!(sim.commission_amount > 0);
}

#[test]
fn test_query_positions_by_owner() {
    let mut pool = trading_pool();
    insert_position(&mut pool, 1, "alice", 1_000_000);
    insert_position(&mut pool, 2, "bob", 2_000_000);
    insert_position(&mut pool, 3, "alice", 3_000_000);
    insert_position(&mut pool, 4, "charlie", 500_000);
    let alice = query_positions_by_owner(&pool, &"alice".to_string(), &None, None).unwrap();
    assert_eq!(alice.positions.len(), 2);
    for position in &alice.positions {
        assert_eq!(position.owner, "alice");
    }
    let bob = query_positions_by_owner(&pool, &"bob".to_string(), &None, None).unwrap();
    assert_eq!(bob.positions.len(), 1);
    assert_eq!(bob.positions[0].owner, "bob");
}

#[test]
fn test_query_positions_by_owner_empty() {
    let page = query_positions_by_owner(&trading_pool(), &"nobody".to_string(), &None, None);
    assert_eq!(page.unwrap().positions.len(), 0);
}

#[test]
fn test_query_positions_by_owner_pagination() {
    let mut pool = trading_pool();
    for i in 1..=5 {
        insert_position(&mut pool, i, "alice", 1_000_000);
    }
    let alice = "alice".to_string();
    let page1 = query_positions_by_owner(&pool, &alice, &None, Some(2)).unwrap();
    assert_eq!(page1.positions.len(), 2);
    let last_id = Some(page1.positions[1].position_id.clone());
    let page2 = query_positions_by_owner(&pool, &alice, &last_id, Some(2)).unwrap();
    assert_eq!(page2.positions.len(), 2);
    for second in &page2.positions {
        assert!(page1.positions.iter().all(|first| first.position_id != second.position_id));
    }
}

#[test]
fn test_query_pool_info() {
    let mut pool = trading_pool();
    pool.next_position_id = 5;
    let info = query_pool_info(&pool);
    assert_eq!(info.pool_state.reserve0, 23_500_000_000);
    assert_eq!(info.pool_state.reserve1, 350_000_000_000);
    assert!(info.pool_state.nft_ownership_accepted);
    assert_eq!(info.total_positions, 5);
    assert_eq!(info.fee_state.fee_growth_global_0, Decimal::zero());
    assert_eq!(info.fee_state.total_fees_collected_0, 0);
}

#[test]
fn test_query_fee_state() {
    let mut pool = trading_pool();
    pool.fee_state.fee_growth_global_0 = Decimal::percent(1_250);
    pool.fee_state.fee_growth_global_1 = Decimal::percent(75);
    pool.fee_state.total_fees_collected_0 = 500_000;
    pool.fee_state.total_fees_collected_1 = 750_000;
    let fees = query_fee_state(&pool);
    assert_eq!(fees.fee_growth_global_0, Decimal::percent(1_250));
    assert_eq!(fees.fee_growth_global_1, Decimal::percent(75));
    assert_eq!(fees.total_fees_collected_0, 500_000);
    assert_eq!(fees.total_fees_collected_1, 750_000);
}

#[test]
fn test_query_fee_info() {
    let pool = trading_pool();
    let fee_info = query_fee_info(&pool);
    assert_eq!(fee_info.commit_fee_bluechip, Decimal::percent(1));
    assert_eq!(fee_info.commit_fee_creator, Decimal::percent(5));
    assert_eq!(fee_info.bluechip_wallet_address, "bluechip_treasury");
    assert_eq!(fee_info.creator_wallet_address, "creator_wallet");
}

fn pool_with_committer() -> PoolStore {
    let mut pool = funding_pool();
    let committing = Committing {
        pool_contract_address: "pool_contract".to_string(),
        committer: "committer1".to_string(),
        total_paid_usd: 5_000_000_000,
        total_paid_bluechip: 5_000_000_000,
        last_committed: Timestamp::from_seconds(1_600_000_000),
        last_payment_bluechip: 1_000_000_000,
        last_payment_usd: 1_000_000_000,
    };
    pool.commit_info.insert("committer1".to_string(), committing);
    pool
}

#[test]
fn test_query_commiting_info_exists() {
    let pool = pool_with_committer();
    let info = query_committing_info(&pool, &"committer1".to_string());
    assert!(info.is_some());
    let info = info.unwrap();
    assert_eq!(info.total_paid_usd, 5_000_000_000);
    assert_eq!(info.total_paid_bluechip, 5_000_000_000);
}

#[test]
fn test_query_commiting_info_not_found() {
    assert!(query_committing_info(&funding_pool(), &"nobody".to_string()).is_none());
}

#[test]
fn test_query_last_commited_exists() {
    let last = query_last_committed(&pool_with_committer(), &"committer1".to_string());
    assert!(last.has_committed);
    assert_eq!(last.last_committed, Some(Timestamp::from_seconds(1_600_000_000)));
    assert_eq!(last.last_payment_bluechip, Some(1_000_000_000));
    assert_eq!(last.last_payment_usd, Some(1_000_000_000));
}

#[test]
fn test_query_last_commited_not_found() {
    let last = query_last_committed(&funding_pool(), &"nobody".to_string());
    assert!(!last.has_committed);
    assert!(last.last_committed.is_none());
    assert!(last.last_payment_bluechip.is_none());
}

#[test]
fn test_query_is_fully_commited_in_progress() {
    let mut pool = funding_pool();
    pool.usd_raised = 10_000_000_000;
    match query_check_threshold_limit(&pool) {
        CommitStatus::InProgress { raised, target } => {
            assert_eq!(raised, 10_000_000_000);
            assert_eq!(target, 25_000_000_000);
        }
        CommitStatus::FullyCommitted => panic!("Should be InProgress"),
    }
}

#[test]
fn test_query_is_fully_commited_fully_committed() {
    let status = query_check_threshold_limit(&trading_pool());
    assert!(matches!(status, CommitStatus::FullyCommitted));
}

#[test]
fn test_query_pool_state() {
    let state = query_pool_state(&trading_pool());
    assert_eq!(state.reserve0, 23_500_000_000);
    assert_eq!(state.reserve1, 350_000_000_000);
    assert!(state.nft_ownership_accepted);
    assert!(state.total_liquidity > 0);
}

fn env_at(seconds: u64) -> Env {
    Env {
        height: 1,
        time: Timestamp::from_seconds(seconds),
        contract: "pool_contract".to_string(),
    }
}

/// A simulation says what a swap on the same reserves pays.
#[test]
fn simulations_are_exact() {
    let offer = bluechip(DENOM, 100_000_000);
    let sim = query_simulation(&trading_pool(), &offer, Ok(balances())).unwrap();
    assert_eq!(sim.return_amount, 1_478_601_695);
    assert_eq!(sim.spread_amount, 6_310_855);
    assert_eq!(sim.commission_amount, 4_449_152);
    let back = query_reverse_simulation(&trading_pool(), &token(1_478_601_695), Ok(balances()));
    assert_eq!(back.unwrap().offer_amount, 99_999_999);
    let wrong = query_reverse_simulation(&trading_pool(), &bluechip("uatom", 5), Ok(balances()));
    assert!(wrong.unwrap_err().text().contains("doesn't belong"));
    let unread = || StdError::Host { message: "no balance".to_string() };
    assert_eq!(query_simulation(&trading_pool(), &offer, Err(unread())), Err(unread()));
    assert_eq!(query_pool(Err(unread())), Err(unread()));
    assert_eq!(query_pool(Ok(balances())).unwrap().assets, balances());
}

#[test]
fn prices_are_brought_up_to_date() {
    let pool = trading_pool();
    let now = query_cumulative_prices(&pool, &env_at(1_600_000_100), Ok(balances())).unwrap();
    assert_eq!(now.price0_cumulative_last, 350_000_000_000 * 100 / 23_500_000_000);
    assert_eq!(now.price1_cumulative_last, 23_500_000_000 * 100 / 350_000_000_000);
    assert_eq!(now.assets, balances());
    assert_eq!(query_config(&pool).block_time_last, 1_600_000_000);
    assert_eq!(query_config(&pool).params, None);
}

#[test]
fn positions_are_shown_with_their_fees() {
    let mut pool = trading_pool();
    insert_position(&mut pool, 7, "alice", 1_000);
    pool.fee_state.fee_growth_global_0 = Decimal::percent(250);
    let position = query_position(&pool, "7".to_string()).unwrap();
    assert_eq!(position.position_id, "7");
    assert_eq!(position.owner, "alice");
    assert_eq!(position.unclaimed_fees_0, 2_500);
    assert_eq!(position.unclaimed_fees_1, 0);
    assert!(query_position(&pool, "8".to_string()).is_err());
}

/// Pages hold 10 entries where no number is asked for, and 30 at most.
#[test]
fn pages_are_bounded() {
    let mut pool = trading_pool();
    for id in 100..140 {
        insert_position(&mut pool, id, "alice", 1);
    }
    let page = |limit: Option<u32>| query_positions(&pool, &None, limit).unwrap().positions;
    assert_eq!(page(None).len(), 10);
    assert_eq!(page(Some(100)).len(), 30);
    assert_eq!(page(Some(3))[2].position_id, "102");
    let next = query_positions(&pool, &Some("138".to_string()), None).unwrap().positions;
    assert_eq!(next.len(), 1);
    assert_eq!(next[0].position_id, "139");
}

#[test]
fn committers_are_filtered() {
    let mut pool = pool_with_committer();
    let mut other = pool.commit_info.get("committer1").unwrap().clone();
    other.committer = "committer2".to_string();
    other.last_payment_usd = 5;
    other.last_committed = Timestamp::from_seconds(1_700_000_000);
    pool.commit_info.insert("committer2".to_string(), other);
    let here = "pool_contract".to_string();
    let page = |at: &String, min: Option<u128>, after: Option<u64>, start: Option<String>| {
        query_pool_commiters(&pool, at, min, after, Ok(start), None).unwrap()
    };
    let all = page(&here, None, None, None);
    assert_eq!(all.total_count, 2);
    assert_eq!(all.committers.len(), 2);
    assert_eq!(all.committers[0].wallet, "committer1");
    let large = page(&here, Some(6), None, None);
    assert_eq!(large.committers.len(), 1);
    assert_eq!(large.committers[0].wallet, "committer1");
    let late = page(&here, None, Some(1_650_000_000), None);
    assert_eq!(late.committers.len(), 1);
    assert_eq!(late.committers[0].wallet, "committer2");
    let none = page(&"another_pool".to_string(), None, None, None);
    assert_eq!(none.committers.len(), 0);
    let rest = page(&here, None, None, Some("committer1".to_string()));
    assert_eq!(rest.committers.len(), 1);
    assert_eq!(rest.committers[0].wallet, "committer2");
}

/// A page of committers does not start after an address that the host refuses.
#[test]
fn malformed_starts_are_refused() {
    let pool = pool_with_committer();
    let bad = || StdError::Host { message: "bad address".to_string() };
    let here = "pool_contract".to_string();
    assert_eq!(query_pool_commiters(&pool, &here, None, None, Err(bad()), None), Err(bad()));
    let ask = |start_after: Option<String>| {
        let msg = QueryMsg::PoolCommits {
            pool_contract_address: "pool_contract".to_string(),
            min_payment_usd: None,
            after_timestamp: None,
            start_after,
            limit: None,
        };
        let host = QueryHost { pools: Err(bad()), account: Err(bad()) };
        query(&pool, &env_at(0), msg, host)
    };
    match ask(Some("?".to_string())) {
        Err(e) => assert_eq!(e, bad()),
        Ok(_) => panic!("expected a refusal"),
    }
    match ask(None) {
        Ok(QueryAnswer::Committers(page)) => assert_eq!(page.total_count, 1),
        _ => panic!("expected a page"),
    }
}

#[test]
fn factories_are_answered() {
    let mut pool = trading_pool();
    pool.paused = true;
    let msg = PoolQueryMsg::GetPoolState { pool_contract_address: "any".to_string() };
    match query_for_factory(&pool, &msg) {
        PoolQueryAnswer::PoolState(answer) => {
            assert_eq!(answer.reserve0, 23_500_000_000);
            assert_eq!(answer.assets, vec![DENOM.to_string(), "token_contract".to_string()]);
        }
        _ => panic!("expected one state"),
    }
    match query_for_factory(&pool, &PoolQueryMsg::GetAllPools {}) {
        PoolQueryAnswer::AllPools { pools } => {
            assert_eq!(pools.len(), 1);
            assert_eq!(pools[0].0, "pool_contract");
        }
        _ => panic!("expected all states"),
    }
    assert!(query_is_paused(&pool));
    assert!(query_check_commit(&pool));
    assert_eq!(query_pair_info(&pool).contract_addr, "pool_contract");
}

/// Every question reaches the function that answers it.
#[test]
fn queries_are_dispatched() {
    let mut pool = pool_with_committer();
    insert_position(&mut pool, 1, "alice", 5);
    pool.pool_state = state(23_500_000_000, 350_000_000_000, 91_104_335_791, 1_600_000_000);
    let now = env_at(1_600_000_100);
    let ask = |msg: QueryMsg, account: &str| {
        let host = QueryHost { pools: Ok(balances()), account: Ok(account.to_string()) };
        assert!(query_in_range(&pool, &msg, &host));
        query(&pool, &now, msg, host)
    };
    let nobody = "nobody".to_string();
    match ask(QueryMsg::CommittingInfo { wallet: nobody.clone() }, "committer1") {
        Ok(QueryAnswer::Committing(Some(record))) => assert_eq!(record.committer, "committer1"),
        _ => panic!("expected a record"),
    }
    match ask(QueryMsg::LastCommited { wallet: nobody.clone() }, "nobody") {
        Ok(QueryAnswer::LastCommitted(last)) => assert!(!last.has_committed),
        _ => panic!("expected no commit"),
    }
    let by_owner = QueryMsg::PositionsByOwner { owner: nobody, start_after: None, limit: None };
    match ask(by_owner, "alice") {
        Ok(QueryAnswer::Positions(page)) => assert_eq!(page.positions.len(), 1),
        _ => panic!("expected a page"),
    }
    let offer_asset = bluechip(DENOM, 100_000_000);
    match ask(QueryMsg::Simulation { offer_asset }, "") {
        Ok(QueryAnswer::Simulation(sim)) => assert_eq!(sim.return_amount, 1_478_601_695),
        _ => panic!("expected a simulation"),
    }
    match ask(QueryMsg::IsFullyCommited {}, "") {
        Ok(QueryAnswer::CommitStatus(status)) => {
            assert!(matches!(status, CommitStatus::InProgress { raised: 0, .. }))
        }
        _ => panic!("expected a status"),
    }
    match ask(QueryMsg::Pair {}, "") {
        Ok(QueryAnswer::Pair(pair)) => assert_eq!(pair.contract_addr, "pool_contract"),
        _ => panic!("expected a pair"),
    }
    match ask(QueryMsg::Position { position_id: "2".to_string() }, "") {
        Err(e) => assert_eq!(
            e.text(),
            "type: bluechip::pool::state::Position; key: [00, 09, 70, 6F, 73, 69, 74, 69, 6F, 6E, 73, 32] not found"
        ),
        Ok(_) => panic!("expected no position"),
    }
    let host = QueryHost {
        pools: Ok([bluechip(DENOM, 0), token(5)]),
        account: Ok("".to_string()),
    };
    let empty = QueryMsg::Simulation { offer_asset: bluechip(DENOM, 5) };
    assert!(!query_in_range(&pool, &empty, &host));
}
