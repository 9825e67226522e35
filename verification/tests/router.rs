//! Routes over several pools, run in a small world of accounts and pools.

use std::collections::BTreeMap;

use bluechip::asset::TokenType;
use bluechip::chain::{Coin, Env, MessageInfo};
use bluechip::error::StdError;
use bluechip::number::{Decimal, Timestamp};
use bluechip::router::contract::{execute, instantiate, query_config, HostAnswers};
use bluechip::router::error::RouterError;
use bluechip::router::execution::{
    execute_assert_received, execute_multi_hop, execute_receive_cw20, execute_swap_operation,
    handle_reply, hop_reply_id, parse_hop_reply_id, validate_route,
};
use bluechip::router::msg::{
    Cw20HookMsg, Cw20ReceiveMsg, ExecuteMsg, HopReplyPayload, InstantiateMsg, Response, RouterMsg,
    SimulateMultiHopResponse, SwapOperation,
};
use bluechip::router::simulation::{
    simulate_multi_hop, HopAnswer, RouterPoolCommitStatus, RouterSwapSimulationResponse,
    Simulation,
};
use bluechip::router::state::{PendingConfigUpdate, RouterStore, ROUTER_TIMELOCK_SECONDS};

const BLUECHIP_DENOM: &str = "ubluechip";
const POOL_RESERVE: u128 = 1_000_000;
const USER_NATIVE: u128 = 10_000_000;
const USER_CW20: u128 = 1_000_000;
const ROUTER: &str = "router";
const USER: &str = "user";
const NOW: u64 = 1_571_797_419;

/// A pool of bluechips and one creator token.
struct MockPool {
    creator: String,
    fully_committed: bool,
}

/// Accounts, pools and the router.
struct World {
    balances: BTreeMap<(String, String), u128>,
    pools: BTreeMap<String, MockPool>,
    store: RouterStore,
}

fn bluechip() -> TokenType {
    TokenType::Bluechip { denom: BLUECHIP_DENOM.to_string() }
}

fn creator(name: &str) -> TokenType {
    TokenType::CreatorToken { contract_addr: name.to_string() }
}

fn op(pool: &str, offer: TokenType, ask: TokenType) -> SwapOperation {
    SwapOperation { pool_addr: pool.to_string(), offer_asset_info: offer, ask_asset_info: ask }
}

fn env() -> Env {
    Env { height: 1, time: Timestamp::from_seconds(NOW), contract: ROUTER.to_string() }
}

fn sent_by(sender: &str, funds: Vec<Coin>) -> MessageInfo {
    MessageInfo { sender: sender.to_string(), funds }
}

fn coins(amount: u128) -> Vec<Coin> {
    vec![Coin { denom: BLUECHIP_DENOM.to_string(), amount }]
}

fn unasked<T>() -> Result<T, StdError> {
    Err(StdError::Host { message: "not asked".to_string() })
}

fn silent_host() -> HostAnswers {
    HostAnswers {
        recipient: unasked(),
        balance: unasked(),
        hook: unasked(),
        user: unasked(),
        to: unasked(),
        admin: unasked(),
        factory: unasked(),
    }
}

fn router_store() -> RouterStore {
    let msg = InstantiateMsg {
        factory_addr: "factory".to_string(),
        bluechip_denom: BLUECHIP_DENOM.to_string(),
        admin: "admin".to_string(),
    };
    instantiate(msg, Ok("factory".to_string()), Ok("admin".to_string())).unwrap().0
}

impl World {
    fn new() -> World {
        let mut world = World {
            balances: BTreeMap::new(),
            pools: BTreeMap::new(),
            store: router_store(),
        };
        world.credit(USER, BLUECHIP_DENOM, USER_NATIVE);
        world.add_pool("pool_a", "creator_a", true, true);
        world.add_pool("pool_b", "creator_b", true, true);
        world.add_pool("pool_c", "creator_c", true, true);
        world.add_pool("pool_uncommitted", "creator_uncommitted", false, true);
        world.add_pool("pool_empty", "creator_empty", true, false);
        world
    }

    fn add_pool(&mut self, pool: &str, token: &str, fully_committed: bool, seeded: bool) {
        let creator = token.to_string();
        self.pools.insert(pool.to_string(), MockPool { creator, fully_committed });
        self.credit(USER, token, USER_CW20);
        if seeded {
            self.credit(pool, BLUECHIP_DENOM, POOL_RESERVE);
            self.credit(pool, token, POOL_RESERVE);
        }
    }

    fn balance(&self, account: &str, token: &str) -> u128 {
        match self.balances.get(&(account.to_string(), token.to_string())) {
            Some(amount) => *amount,
            None => 0,
        }
    }

    fn credit(&mut self, account: &str, token: &str, amount: u128) {
        let sum = self.balance(account, token) + amount;
        self.balances.insert((account.to_string(), token.to_string()), sum);
    }

    fn transfer(&mut self, from: &str, to: &str, token: &str, amount: u128) {
        let rest = self.balance(from, token) - amount;
        self.balances.insert((from.to_string(), token.to_string()), rest);
        self.credit(to, token, amount);
    }

    /// What a pool would return for an amount, and the spread of that.
    fn quote(
        &self,
        pool: &str,
        offer: &str,
        amount: u128,
        deposited: u128,
    ) -> Result<(String, u128, u128), String> {
        let creator = &self.pools[pool].creator;
        let ask = if offer == BLUECHIP_DENOM { creator.as_str() } else { BLUECHIP_DENOM };
        let offer_reserve = self.balance(pool, offer) - deposited;
        let ask_reserve = self.balance(pool, ask);
        if offer_reserve == 0 || ask_reserve == 0 {
            return Err("Generic error: pool has no liquidity".to_string());
        }
        let returned = ask_reserve * amount / (offer_reserve + amount);
        let ideal = ask_reserve * amount / offer_reserve;
        Ok((ask.to_string(), returned, ideal - returned))
    }

    /// A swap of an amount that has arrived at the pool.
    fn pool_swap(&mut self, pool: &str, offer: &str, amount: u128, to: &str) -> Result<(), String> {
        if !self.pools[pool].fully_committed {
            return Err("Generic error: pool is in commit phase".to_string());
        }
        let (ask, returned, _) = self.quote(pool, offer, amount, amount)?;
        if returned == 0 {
            return Err("Generic error: zero return amount".to_string());
        }
        self.transfer(pool, to, &ask, returned);
        Ok(())
    }

    fn call(
        &mut self,
        info: &MessageInfo,
        msg: ExecuteMsg,
        host: HostAnswers,
    ) -> Result<(), String> {
        match execute(&mut self.store, &env(), info, msg, host) {
            Ok(response) => self.send_on(response),
            Err(e) => Err(e.text()),
        }
    }

    fn send_on(&mut self, response: Response) -> Result<(), String> {
        for message in response.messages {
            self.dispatch(message)?;
        }
        Ok(())
    }

    fn dispatch(&mut self, message: RouterMsg) -> Result<(), String> {
        let own = sent_by(ROUTER, vec![]);
        match message {
            RouterMsg::Hop { contract_addr, operation, hop_index, to, reply_id, payload } => {
                assert_eq!(contract_addr, ROUTER);
                let held = self.balance(ROUTER, operation.offer_asset_info.text());
                let host = HostAnswers { to: Ok(to.clone()), balance: Ok(held), ..silent_host() };
                let msg = ExecuteMsg::ExecuteSwapOperation { operation, hop_index, to };
                match self.call(&own, msg, host) {
                    Ok(()) => Ok(()),
                    Err(why) => match handle_reply(reply_id, Some(payload), Err(why)) {
                        Ok(_) => panic!("a failed hop is an error"),
                        Err(e) => Err(e.text()),
                    },
                }
            }
            RouterMsg::AssertReceived {
                contract_addr,
                ask_info,
                recipient,
                prev_balance,
                minimum_receive,
            } => {
                assert_eq!(contract_addr, ROUTER);
                let held = self.balance(&recipient, ask_info.text());
                let to = Ok(recipient.clone());
                let host = HostAnswers { to, balance: Ok(held), ..silent_host() };
                let msg = ExecuteMsg::AssertReceived {
                    ask_info,
                    recipient,
                    prev_balance,
                    minimum_receive,
                };
                self.call(&own, msg, host)
            }
            RouterMsg::PoolSwap { pool_addr, offer_asset, to, funds } => {
                assert_eq!(offer_asset.amount, funds.amount);
                self.transfer(ROUTER, &pool_addr, &funds.denom, funds.amount);
                self.pool_swap(&pool_addr, &funds.denom, funds.amount, &to)
            }
            RouterMsg::Cw20Swap { contract_addr, pool_addr, amount, to } => {
                self.transfer(ROUTER, &pool_addr, &contract_addr, amount);
                self.pool_swap(&pool_addr, &contract_addr, amount, &to)
            }
        }
    }

    /// Runs `call` and takes everything back where it fails.
    fn all_or_nothing(
        &mut self,
        call: impl FnOnce(&mut World) -> Result<(), String>,
    ) -> Result<(), String> {
        let before = self.balances.clone();
        let result = call(self);
        if result.is_err() {
            self.balances = before;
        }
        result
    }

    /// What the user holds of the token that a route ends in.
    fn final_balance(&self, route: &[SwapOperation]) -> u128 {
        match route.last() {
            Some(last) => self.balance(USER, last.ask_asset_info.text()),
            None => 0,
        }
    }

    /// A route of native coins.
    fn swap_native(
        &mut self,
        route: Vec<SwapOperation>,
        amount: u128,
        minimum_receive: u128,
        deadline: Option<Timestamp>,
    ) -> Result<(), String> {
        self.all_or_nothing(|world| {
            let balance = Ok(world.final_balance(&route));
            world.transfer(USER, ROUTER, BLUECHIP_DENOM, amount);
            let host = HostAnswers { recipient: Ok(None), balance, ..silent_host() };
            let msg = ExecuteMsg::ExecuteMultiHop {
                operations: route,
                minimum_receive,
                deadline,
                recipient: None,
            };
            world.call(&sent_by(USER, coins(amount)), msg, host)
        })
    }

    /// A route of CW20 tokens.
    fn swap_tokens(
        &mut self,
        token: &str,
        route: Vec<SwapOperation>,
        amount: u128,
    ) -> Result<(), String> {
        self.all_or_nothing(|world| {
            let balance = Ok(world.final_balance(&route));
            world.transfer(USER, ROUTER, token, amount);
            let hook = Cw20HookMsg::ExecuteMultiHop {
                operations: route,
                minimum_receive: 1,
                deadline: None,
                recipient: None,
            };
            let host = HostAnswers {
                recipient: Ok(None),
                balance,
                hook: Ok(hook),
                user: Ok(USER.to_string()),
                ..silent_host()
            };
            let msg = ExecuteMsg::Receive(Cw20ReceiveMsg { sender: USER.to_string(), amount });
            world.call(&sent_by(token, vec![]), msg, host)
        })
    }

    /// What the pools say of a route.
    fn simulate(
        &self,
        route: &Vec<SwapOperation>,
        offer_amount: u128,
    ) -> Result<SimulateMultiHopResponse, RouterError> {
        let mut answers = vec![];
        let mut input = offer_amount;
        for hop in route {
            let pool = &self.pools[&hop.pool_addr];
            let status = if pool.fully_committed {
                RouterPoolCommitStatus::FullyCommitted
            } else {
                RouterPoolCommitStatus::InProgress { raised: 0, target: 1_000_000 }
            };
            let simulation =
                match self.quote(&hop.pool_addr, hop.offer_asset_info.text(), input, 0) {
                    Ok((_, return_amount, spread_amount)) => {
                        input = return_amount;
                        Ok(RouterSwapSimulationResponse {
                            return_amount,
                            spread_amount,
                            commission_amount: 0,
                        })
                    }
                    Err(message) => Err(StdError::Host { message }),
                };
            answers.push(HopAnswer { status: Ok(status), simulation });
        }
        simulate_multi_hop(route, offer_amount, answers)
    }
}

/// From one creator token to another, through bluechips.
fn two_hops() -> Vec<SwapOperation> {
    vec![
        op("pool_a", creator("creator_a"), bluechip()),
        op("pool_b", bluechip(), creator("creator_b")),
    ]
}

fn assert_router_is_empty(world: &World) {
    assert_eq!(world.balance(ROUTER, "creator_a"), 0);
    assert_eq!(world.balance(ROUTER, "creator_b"), 0);
    assert_eq!(world.balance(ROUTER, BLUECHIP_DENOM), 0);
}

#[test]
fn happy_path_two_hop_creator_to_creator() {
    let mut world = World::new();
    let before = world.balance(USER, "creator_b");
    world.swap_tokens("creator_a", two_hops(), 100_000).unwrap();
    assert!(world.balance(USER, "creator_b") > before);
    assert_router_is_empty(&world);
}

#[test]
fn single_hop_native_passthrough() {
    let mut world = World::new();
    let before = world.balance(USER, "creator_a");
    let route = vec![op("pool_a", bluechip(), creator("creator_a"))];
    world.swap_native(route, 50_000, 1, None).unwrap();
    assert!(world.balance(USER, "creator_a") > before);
    assert_router_is_empty(&world);
}

#[test]
fn slippage_exceeded_reverts_route() {
    let mut world = World::new();
    let before = world.balance(USER, BLUECHIP_DENOM);
    let route = vec![op("pool_a", bluechip(), creator("creator_a"))];
    let err = world.swap_native(route, 50_000, u128::MAX / 2, None).unwrap_err();
    assert!(err.contains("Slippage exceeded"), "got: {}", err);
    assert_eq!(world.balance(USER, BLUECHIP_DENOM), before);
    assert_eq!(world.balance(ROUTER, BLUECHIP_DENOM), 0);
}

#[test]
fn max_hops_exceeded_rejected() {
    let mut world = World::new();
    let route = vec![
        op("pool_a", bluechip(), creator("creator_a")),
        op("pool_a", creator("creator_a"), bluechip()),
        op("pool_b", bluechip(), creator("creator_b")),
        op("pool_c", creator("creator_b"), creator("creator_c")),
    ];
    let err = world.swap_native(route, 10_000, 1, None).unwrap_err();
    assert!(err.contains("maximum of 3 hops"), "got: {}", err);
}

#[test]
fn deadline_expired_rejected() {
    let mut world = World::new();
    let route = vec![op("pool_a", bluechip(), creator("creator_a"))];
    let deadline = Some(Timestamp::from_seconds(1));
    let err = world.swap_native(route, 10_000, 1, deadline).unwrap_err();
    assert!(err.contains("deadline exceeded"), "got: {}", err);
}

#[test]
fn same_input_output_rejected() {
    let mut world = World::new();
    let route = vec![
        op("pool_a", bluechip(), creator("creator_a")),
        op("pool_a", creator("creator_a"), bluechip()),
    ];
    let err = world.swap_native(route, 10_000, 1, None).unwrap_err();
    assert!(err.contains("input and final output must differ"), "got: {}", err);
}

#[test]
fn zero_liquidity_pool_in_path_errors_with_hop_context() {
    let mut world = World::new();
    let route = vec![op("pool_empty", bluechip(), creator("creator_empty"))];
    let err = world.swap_native(route, 10_000, 1, None).unwrap_err();
    assert!(err.contains("Hop 0") && err.contains("no liquidity"), "got: {}", err);
}

#[test]
fn router_holds_zero_after_successful_route() {
    let mut world = World::new();
    assert_router_is_empty(&world);
    world.swap_tokens("creator_a", two_hops(), 100_000).unwrap();
    assert_router_is_empty(&world);
}

#[test]
fn simulate_matches_execute() {
    let mut world = World::new();
    let sim = world.simulate(&two_hops(), 100_000).unwrap();
    assert_eq!(sim.intermediate_amounts.len(), 2);
    assert_eq!(sim.final_amount, sim.intermediate_amounts[1]);
    let before = world.balance(USER, "creator_b");
    world.swap_tokens("creator_a", two_hops(), 100_000).unwrap();
    assert_eq!(world.balance(USER, "creator_b") - before, sim.final_amount);
}

#[test]
fn commit_phase_pool_rejected_in_simulation() {
    let world = World::new();
    let route = vec![op("pool_uncommitted", bluechip(), creator("creator_uncommitted"))];
    let err = world.simulate(&route, 10_000).unwrap_err().text();
    assert!(err.contains("commit phase"), "got: {}", err);
}

#[test]
fn commit_phase_pool_rejected_in_execution() {
    let mut world = World::new();
    let route = vec![op("pool_uncommitted", bluechip(), creator("creator_uncommitted"))];
    let err = world.swap_native(route, 10_000, 1, None).unwrap_err();
    assert!(err.contains("Hop 0") && err.contains("commit phase"), "got: {}", err);
}

fn propose(store: &mut RouterStore, sender: &str) -> Result<Response, RouterError> {
    let msg =
        ExecuteMsg::ProposeConfigUpdate { admin: Some(USER.to_string()), factory_addr: None };
    let host = HostAnswers { admin: Ok(USER.to_string()), ..silent_host() };
    execute(store, &env(), &sent_by(sender, vec![]), msg, host)
}

fn apply(store: &mut RouterStore, sender: &str, after: u64) -> Result<Response, RouterError> {
    let later = Env { time: Timestamp::from_seconds(NOW + after), ..env() };
    let host = HostAnswers { admin: Ok(USER.to_string()), ..silent_host() };
    execute(store, &later, &sent_by(sender, vec![]), ExecuteMsg::UpdateConfig {}, host)
}

#[test]
fn update_config_admin_only() {
    let mut store = router_store();
    let err = propose(&mut store, USER).unwrap_err();
    assert!(err.text().contains("Unauthorized"));
    propose(&mut store, "admin").unwrap();
    let err = apply(&mut store, USER, ROUTER_TIMELOCK_SECONDS).unwrap_err();
    assert!(err.text().contains("Unauthorized"));
    apply(&mut store, "admin", ROUTER_TIMELOCK_SECONDS).unwrap();
    let config = query_config(&store);
    assert_eq!(config.admin, USER);
    assert_eq!(config.bluechip_denom, BLUECHIP_DENOM);
}

#[test]
fn settings_wait_two_days() {
    let mut store = router_store();
    assert_eq!(apply(&mut store, "admin", 0), Err(RouterError::NoPendingConfigUpdate));
    let announced = propose(&mut store, "admin").unwrap();
    let when = announced.attributes.iter().find(|a| a.key == "effective_after").unwrap();
    assert_eq!(when.value, "1571970219.000000000");
    assert_eq!(
        store.pending_config,
        Some(PendingConfigUpdate {
            admin: Some(USER.to_string()),
            factory_addr: None,
            effective_after: Timestamp::from_seconds(NOW + 172_800),
        })
    );
    assert_eq!(propose(&mut store, "admin"), Err(RouterError::ConfigUpdateAlreadyPending));
    let early = RouterError::TimelockNotExpired { effective_after: NOW + 172_800 };
    assert_eq!(apply(&mut store, "admin", 172_799), Err(early));
    assert_eq!(store.config.admin, "admin");
    apply(&mut store, "admin", 172_800).unwrap();
    assert_eq!(store.config.admin, USER);
    assert_eq!(store.config.factory_addr, "factory");
    assert_eq!(store.pending_config, None);
}

#[test]
fn dropping_undoes_announcing() {
    let mut store = router_store();
    let drop_it = |store: &mut RouterStore, sender: &str| {
        let info = sent_by(sender, vec![]);
        execute(store, &env(), &info, ExecuteMsg::CancelConfigUpdate {}, silent_host())
    };
    assert_eq!(drop_it(&mut store, "admin"), Err(RouterError::NoPendingConfigUpdate));
    propose(&mut store, "admin").unwrap();
    assert_eq!(drop_it(&mut store, USER), Err(RouterError::Unauthorized));
    drop_it(&mut store, "admin").unwrap();
    assert_eq!(store, router_store());
}

#[test]
fn malformed_addresses_are_reported() {
    let bad = || StdError::Host { message: "bad address".to_string() };
    let msg = InstantiateMsg {
        factory_addr: "?".to_string(),
        bluechip_denom: BLUECHIP_DENOM.to_string(),
        admin: "admin".to_string(),
    };
    let made = instantiate(msg, Err(bad()), Ok("admin".to_string()));
    assert_eq!(made.unwrap_err(), RouterError::Std(bad()));
    let mut store = router_store();
    let msg = ExecuteMsg::ProposeConfigUpdate { admin: Some("?".to_string()), factory_addr: None };
    let host = HostAnswers { admin: Err(bad()), ..silent_host() };
    let refused = execute(&mut store, &env(), &sent_by("admin", vec![]), msg, host);
    assert_eq!(refused, Err(RouterError::Std(bad())));
    assert_eq!(store, router_store());
}

#[test]
fn hop_replies_are_recognised() {
    assert_eq!(hop_reply_id(2), 1002);
    assert_eq!(parse_hop_reply_id(1002), Some(2));
    assert_eq!(parse_hop_reply_id(1003), None);
    assert_eq!(parse_hop_reply_id(999), None);
}

#[test]
fn replies_carry_the_pool() {
    let payload = || HopReplyPayload { hop_index: 1, pool_addr: "pool_b".to_string() };
    let err = handle_reply(1001, Some(payload()), Err("dry".to_string())).unwrap_err();
    assert_eq!(err.text(), "Hop 1 on pool pool_b failed: dry");
    let err = handle_reply(1001, None, Err("dry".to_string())).unwrap_err();
    assert_eq!(err.text(), "Hop 1 on pool  failed: dry");
    assert_eq!(handle_reply(1001, Some(payload()), Ok(())), Ok(Response::new()));
    let unknown = RouterError::Std(StdError::UnknownReply { id: 7 });
    assert_eq!(handle_reply(7, None, Ok(())), Err(unknown));
}

#[test]
fn routes_are_checked() {
    assert_eq!(validate_route(&two_hops()), Ok(()));
    assert_eq!(validate_route(&vec![]), Err(RouterError::EmptyRoute));
    let idle = vec![op("pool_a", bluechip(), bluechip())];
    let err = validate_route(&idle).unwrap_err();
    assert_eq!(
        err.text(),
        "Generic error: hop 0 declares offer and ask as the same token: ubluechip"
    );
    let broken = vec![
        op("pool_a", creator("creator_a"), bluechip()),
        op("pool_b", creator("creator_c"), creator("creator_b")),
    ];
    let err = validate_route(&broken).unwrap_err();
    assert_eq!(err.text(), "Route discontinuity at hop 0 -> 1: ubluechip -> creator_c");
    let long = vec![two_hops(), two_hops()].concat();
    assert_eq!(validate_route(&long), Err(RouterError::MaxHopsExceeded { max: 3, got: 4 }));
}

fn start(route: Vec<SwapOperation>, funds: Vec<Coin>) -> Result<Response, RouterError> {
    execute_multi_hop(&env(), &sent_by(USER, funds), &route, 5, None, Ok(None), Ok(77))
}

#[test]
fn routes_become_hops_and_a_check() {
    let route = vec![
        op("pool_a", bluechip(), creator("creator_a")),
        op("pool_x", creator("creator_a"), creator("creator_b")),
    ];
    let response = start(route.clone(), coins(10)).unwrap();
    let hop = |i: u32, to: &str| RouterMsg::Hop {
        contract_addr: ROUTER.to_string(),
        operation: route[i as usize].clone(),
        hop_index: i,
        to: to.to_string(),
        reply_id: 1000 + i as u64,
        payload: HopReplyPayload {
            hop_index: i,
            pool_addr: route[i as usize].pool_addr.clone(),
        },
    };
    let check = RouterMsg::AssertReceived {
        contract_addr: ROUTER.to_string(),
        ask_info: creator("creator_b"),
        recipient: USER.to_string(),
        prev_balance: 77,
        minimum_receive: 5,
    };
    assert_eq!(response.messages, vec![hop(0, ROUTER), hop(1, USER), check]);
}

#[test]
fn offers_must_match_the_first_hop() {
    let route = || vec![op("pool_a", bluechip(), creator("creator_a"))];
    assert_eq!(start(route(), coins(0)), Err(RouterError::ZeroAmount));
    assert_eq!(start(vec![], coins(1)), Err(RouterError::EmptyRoute));
    let text = |r: Result<Response, RouterError>| r.unwrap_err().text();
    assert_eq!(
        text(start(route(), vec![])),
        "Generic error: ExecuteMultiHop requires exactly one funds coin matching the first hop offer denom"
    );
    let other = vec![Coin { denom: "uatom".to_string(), amount: 1 }];
    assert_eq!(
        text(start(route(), other)),
        "Generic error: funds denom uatom does not match first hop offer denom ubluechip"
    );
    assert_eq!(
        text(start(two_hops(), coins(1))),
        "Generic error: ExecuteMultiHop is for native offers; use cw20::Send for CW20-offered routes"
    );
    let hook = Cw20HookMsg::ExecuteMultiHop {
        operations: two_hops(),
        minimum_receive: 1,
        deadline: None,
        recipient: None,
    };
    let received = Cw20ReceiveMsg { sender: USER.to_string(), amount: 5 };
    let other = sent_by("creator_c", vec![]);
    let user = Ok(USER.to_string());
    assert_eq!(
        text(execute_receive_cw20(&env(), &other, &received, Ok(hook), user, Ok(None), Ok(0))),
        "Generic error: first hop offer cw20 (creator_a) does not match sender (creator_c)"
    );
}

#[test]
fn inner_calls_are_private() {
    let hop = op("pool_a", bluechip(), creator("creator_a"));
    let stranger = sent_by(USER, vec![]);
    let to = || Ok(USER.to_string());
    assert_eq!(
        execute_swap_operation(&env(), &stranger, &hop, 0, to(), Ok(5)),
        Err(RouterError::Unauthorized)
    );
    assert_eq!(
        execute_assert_received(&env(), &stranger, to(), 0, 1, Ok(5)),
        Err(RouterError::Unauthorized)
    );
    let own = sent_by(ROUTER, vec![]);
    let err = execute_swap_operation(&env(), &own, &hop, 0, to(), Ok(0)).unwrap_err();
    assert_eq!(
        err.text(),
        "Hop 0 on pool pool_a failed: router holds zero balance of the offer token at hop start"
    );
}

#[test]
fn the_minimum_is_held() {
    let own = sent_by(ROUTER, vec![]);
    let check = |minimum: u128, now: u128| {
        execute_assert_received(&env(), &own, Ok(USER.to_string()), 10, minimum, Ok(now))
    };
    assert!(check(5, 15).is_ok());
    assert_eq!(check(6, 15), Err(RouterError::SlippageExceeded { minimum: 6, actual: 5 }));
    assert_eq!(
        check(6, 9).unwrap_err().text(),
        "Generic error: recipient balance decreased during route; impossible state"
    );
}

/// The impact of a route is what all hops together lose to slippage.
#[test]
fn impacts_multiply() {
    let answer = |return_amount: u128, spread_amount: u128| HopAnswer {
        status: Ok(RouterPoolCommitStatus::FullyCommitted),
        simulation: Ok(RouterSwapSimulationResponse {
            return_amount,
            spread_amount,
            commission_amount: 0,
        }),
    };
    let answers = vec![answer(90, 10), answer(40, 40)];
    let out = simulate_multi_hop(&two_hops(), 100, answers).unwrap();
    assert_eq!(out.intermediate_amounts, vec![90, 40]);
    assert_eq!(out.final_amount, 40);
    assert_eq!(out.price_impact, Decimal::percent(55));
    let none = simulate_multi_hop(&two_hops(), 0, vec![answer(0, 0), answer(0, 0)]);
    assert_eq!(none.unwrap_err(), RouterError::ZeroAmount);
}

#[test]
fn simulations_advance_hop_by_hop() {
    let route = two_hops();
    let mut sim = Simulation::begin(&route, 100).unwrap();
    assert_eq!(sim.current_input, 100);
    let answer = HopAnswer {
        status: Ok(RouterPoolCommitStatus::FullyCommitted),
        simulation: Ok(RouterSwapSimulationResponse {
            return_amount: 0,
            spread_amount: 0,
            commission_amount: 0,
        }),
    };
    sim.hop(&route[0], 0, answer).unwrap();
    assert_eq!(sim.current_input, 0);
    assert_eq!(sim.survival, Decimal::one());
    let failing = HopAnswer {
        status: Ok(RouterPoolCommitStatus::FullyCommitted),
        simulation: Err(StdError::Host { message: "dry".to_string() }),
    };
    assert_eq!(
        sim.hop(&route[1], 1, failing),
        Err(RouterError::Std(StdError::Host { message: "dry".to_string() }))
    );
}
