//! What a contract call brings along and what it answers with.

use vstd::prelude::*;
use vstd::string::*;

use crate::number::Timestamp;
use crate::text::{digits, number};

verus! {

/// An account or contract address.
pub type Addr = String;

/// An amount of a native denomination.
#[derive(Debug, PartialEq)]
pub struct Coin {
    pub denom: String,
    pub amount: u128,
}

/// The block that a call runs in, and the contract it runs on.
#[derive(Debug)]
pub struct Env {
    pub height: u64,
    pub time: Timestamp,
    pub contract: Addr,
}

/// Who calls, and the native coins that came with the call.
#[derive(Debug)]
pub struct MessageInfo {
    pub sender: Addr,
    pub funds: Vec<Coin>,
}

/// A message that a pool sends on.
#[derive(Debug, PartialEq)]
pub enum CosmosMsg {
    /// Sends native coins.
    BankSend { to_address: Addr, denom: String, amount: u128 },
    /// Transfers tokens of a CW20 contract.
    Cw20Transfer { contract_addr: Addr, recipient: Addr, amount: u128 },
    /// Mints tokens of a CW20 contract.
    Cw20Mint { contract_addr: Addr, recipient: Addr, amount: u128 },
    /// Tells the factory that the pool crossed its threshold.
    NotifyThresholdCrossed { factory_addr: Addr, pool_id: u64 },
    /// Asks the factory to pay the keeper of a distribution batch.
    PayDistributionBounty { factory_addr: Addr, recipient: Addr },
}

/// One entry of the event that a call leaves behind.
#[derive(Debug, PartialEq)]
pub struct Attribute {
    pub key: String,
    pub value: String,
}

/// What a successful call answers with: messages to send on, and an event.
#[derive(Debug, PartialEq)]
pub struct Answer<M> {
    pub messages: Vec<M>,
    pub attributes: Vec<Attribute>,
}

/// What a successful call of a pool answers with.
pub type Response = Answer<CosmosMsg>;

/// A key and a value, as text.
pub type Pair = (Seq<char>, Seq<char>);

/// The attributes that say in which block a call ran.
pub open spec fn at_block(attrs: Seq<Pair>, env: Env) -> Seq<Pair> {
    attrs.push(("block_height"@, digits(env.height as nat))).push(
        ("block_time"@, digits(env.time.seconds() as nat)),
    )
}

impl<M> Answer<M> {
    /// The attributes, as text.
    pub open spec fn attrs(&self) -> Seq<Pair> {
        self.attributes@.map_values(|a: Attribute| (a.key@, a.value@))
    }

    pub fn new() -> (r: Answer<M>)
        ensures
            r.messages@.len() == 0,
            r.attrs() == Seq::<Pair>::empty(),
    {
        let r = Answer { messages: Vec::new(), attributes: Vec::new() };
        assert(r.attrs() =~= Seq::<Pair>::empty());
        r
    }

    pub fn with_messages(messages: Vec<M>) -> (r: Answer<M>)
        ensures
            r.messages == messages,
            r.attrs() == Seq::<Pair>::empty(),
    {
        let r = Answer { messages, attributes: Vec::new() };
        assert(r.attrs() =~= Seq::<Pair>::empty());
        r
    }

    /// Adds an attribute that is text.
    pub fn attr(self, key: &str, value: &str) -> (r: Answer<M>)
        ensures
            r.messages == self.messages,
            r.attrs() == self.attrs().push((key@, value@)),
    {
        let mut attributes = self.attributes;
        attributes.push(Attribute { key: key.to_string(), value: value.to_string() });
        let r = Answer { messages: self.messages, attributes };
        assert(r.attrs() =~= self.attrs().push((key@, value@)));
        r
    }

    /// Adds an attribute that is a number.
    pub fn attr_number(self, key: &str, value: u128) -> (r: Answer<M>)
        ensures
            r.messages == self.messages,
            r.attrs() == self.attrs().push((key@, digits(value as nat))),
    {
        let value: String = number(value);
        self.attr(key, value.as_str())
    }

    /// Adds the attributes that say in which block the call ran.
    pub fn at_block(self, env: &Env) -> (r: Answer<M>)
        ensures
            r.messages == self.messages,
            r.attrs() == at_block(self.attrs(), *env),
    {
        self.attr_number("block_height", env.height as u128).attr_number(
            "block_time",
            env.time.seconds() as u128,
        )
    }
}

} // verus!
