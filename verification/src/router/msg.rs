//! What can be asked of the router, and what it sends on.

use vstd::prelude::*;

use crate::asset::{TokenInfo, TokenType};
use crate::chain::{Addr, Answer, Coin};
use crate::number::{Decimal, Timestamp};

verus! {

/// One hop of a route.
#[derive(Debug, PartialEq)]
pub struct SwapOperation {
    pub pool_addr: String,
    pub offer_asset_info: TokenType,
    pub ask_asset_info: TokenType,
}

impl Clone for SwapOperation {
    fn clone(&self) -> (r: SwapOperation)
        ensures
            r == *self,
    {
        SwapOperation {
            pool_addr: self.pool_addr.clone(),
            offer_asset_info: self.offer_asset_info.clone(),
            ask_asset_info: self.ask_asset_info.clone(),
        }
    }
}

/// What the router is set up with.
#[derive(Debug)]
pub struct InstantiateMsg {
    pub factory_addr: String,
    pub bluechip_denom: String,
    pub admin: String,
}

/// The calls that change something. The final output is held to `minimum_receive`; single
/// hops are not held to a price, since prices of different pairs do not compare.
#[allow(inconsistent_fields)]
#[derive(Debug)]
pub enum ExecuteMsg {
    /// Runs a route whose first hop offers native coins that come with the call.
    ExecuteMultiHop {
        operations: Vec<SwapOperation>,
        minimum_receive: u128,
        deadline: Option<Timestamp>,
        recipient: Option<String>,
    },
    /// Announces a change of the settings.
    ProposeConfigUpdate { admin: Option<String>, factory_addr: Option<String> },
    /// Makes the change that was announced.
    UpdateConfig {  },
    /// Drops the change that was announced.
    CancelConfigUpdate {  },
    /// Runs a route whose first hop offers CW20 tokens that were sent to the router.
    Receive(Cw20ReceiveMsg),
    /// One hop; only the router itself may call.
    ExecuteSwapOperation { operation: SwapOperation, hop_index: u32, to: String },
    /// The check of the final output; only the router itself may call.
    AssertReceived {
        ask_info: TokenType,
        recipient: String,
        prev_balance: u128,
        minimum_receive: u128,
    },
}

/// A call of the CW20 contract that tokens were sent through.
#[derive(Debug)]
pub struct Cw20ReceiveMsg {
    /// Who sent the tokens.
    pub sender: String,
    pub amount: u128,
}

/// What the sender of CW20 tokens wants done with them.
#[derive(Debug)]
pub enum Cw20HookMsg {
    ExecuteMultiHop {
        operations: Vec<SwapOperation>,
        minimum_receive: u128,
        deadline: Option<Timestamp>,
        recipient: Option<String>,
    },
}

/// What a failing hop is reported with.
#[derive(Debug, PartialEq)]
pub struct HopReplyPayload {
    pub hop_index: u32,
    pub pool_addr: String,
}

/// A message that the router sends on.
#[derive(Debug, PartialEq)]
pub enum RouterMsg {
    /// The router calls itself for one hop, and wants to hear of a failure under `reply_id`.
    Hop {
        contract_addr: Addr,
        operation: SwapOperation,
        hop_index: u32,
        to: Addr,
        reply_id: u64,
        payload: HopReplyPayload,
    },
    /// The router calls itself to check the final output.
    AssertReceived {
        contract_addr: Addr,
        ask_info: TokenType,
        recipient: Addr,
        prev_balance: u128,
        minimum_receive: u128,
    },
    /// Swaps native coins in a pool, without a price of its own.
    PoolSwap { pool_addr: String, offer_asset: TokenInfo, to: Addr, funds: Coin },
    /// Sends CW20 tokens to a pool to be swapped, without a price of its own.
    Cw20Swap { contract_addr: Addr, pool_addr: String, amount: u128, to: Addr },
}

/// What a successful call of the router answers with.
pub type Response = Answer<RouterMsg>;

/// The settings of the router.
#[derive(Debug, PartialEq)]
pub struct ConfigResponse {
    pub factory_addr: Addr,
    pub bluechip_denom: String,
    pub admin: Addr,
}

/// What a route would come to: the output of every hop in order, the last of which is the
/// final amount.
#[derive(Debug, PartialEq)]
pub struct SimulateMultiHopResponse {
    pub final_amount: u128,
    pub intermediate_amounts: Vec<u128>,
    pub price_impact: Decimal,
}

} // verus!
