//! Tokens, and the checks on the native coins that come with a call.

use vstd::prelude::*;
use vstd::string::*;

use crate::chain::{Addr, Coin, CosmosMsg, MessageInfo};
use crate::error::StdError;

verus! {

pub const UBLUECHIP_DENOM: &'static str = "ubluechip";

/// A token: the native bluechip denomination, or the CW20 token of a creator.
#[derive(Debug, PartialEq)]
pub enum TokenType {
    Bluechip { denom: String },
    CreatorToken { contract_addr: Addr },
}

/// An amount of a token.
#[derive(Debug, PartialEq)]
pub struct TokenInfo {
    pub info: TokenType,
    pub amount: u128,
}

/// How a pool prices its pair.
#[derive(Clone, Copy, Debug, PartialEq, Eq, Structural)]
pub enum PoolPairType {
    /// Constant product.
    Xyk {  },
}

impl Clone for TokenType {
    fn clone(&self) -> (r: TokenType)
        ensures
            r == *self,
    {
        match self {
            TokenType::Bluechip { denom } => TokenType::Bluechip { denom: denom.clone() },
            TokenType::CreatorToken { contract_addr } => TokenType::CreatorToken {
                contract_addr: contract_addr.clone(),
            },
        }
    }
}

impl Clone for TokenInfo {
    fn clone(&self) -> (r: TokenInfo)
        ensures
            r == *self,
    {
        TokenInfo { info: self.info.clone(), amount: self.amount }
    }
}

impl TokenType {
    /// Whether two token types name the same token.
    pub open spec fn same(self, other: TokenType) -> bool {
        match (self, other) {
            (TokenType::Bluechip { denom: a }, TokenType::Bluechip { denom: b }) => a@ == b@,
            (
                TokenType::CreatorToken { contract_addr: a },
                TokenType::CreatorToken { contract_addr: b },
            ) => a@ == b@,
            _ => false,
        }
    }

    /// The denomination or the contract address.
    pub open spec fn name(self) -> Seq<char> {
        match self {
            TokenType::Bluechip { denom } => denom@,
            TokenType::CreatorToken { contract_addr } => contract_addr@,
        }
    }

    /// The denomination or the contract address, as it is held.
    pub open spec fn label_of(self) -> String {
        match self {
            TokenType::Bluechip { denom } => denom,
            TokenType::CreatorToken { contract_addr } => contract_addr,
        }
    }

    /// A copy of the denomination or the contract address.
    pub fn label(&self) -> (r: String)
        ensures
            r == self.label_of(),
    {
        match self {
            TokenType::Bluechip { denom } => denom.clone(),
            TokenType::CreatorToken { contract_addr } => contract_addr.clone(),
        }
    }

    /// Whether two token types name the same token.
    pub fn equal(&self, other: &TokenType) -> (r: bool)
        ensures
            r == self.same(*other),
    {
        match (self, other) {
            (TokenType::Bluechip { denom: a }, TokenType::Bluechip { denom: b }) => *a == *b,
            (
                TokenType::CreatorToken { contract_addr: a },
                TokenType::CreatorToken { contract_addr: b },
            ) => *a == *b,
            _ => false,
        }
    }

    /// The denomination or the contract address.
    pub fn text(&self) -> (r: &str)
        ensures
            r@ == self.name(),
    {
        match self {
            TokenType::Bluechip { denom } => denom.as_str(),
            TokenType::CreatorToken { contract_addr } => contract_addr.as_str(),
        }
    }
}

/// The denomination of the first bluechip token of a pair.
pub open spec fn bluechip_denom(asset_infos: [TokenType; 2]) -> Result<String, StdError> {
    match asset_infos[0] {
        TokenType::Bluechip { denom } => Ok(denom),
        _ => match asset_infos[1] {
            TokenType::Bluechip { denom } => Ok(denom),
            _ => Err(StdError::Generic("No bluechip token in the pair")),
        },
    }
}

/// The denomination of the first bluechip token of a pair.
pub fn get_bluechip_denom(asset_infos: &[TokenType; 2]) -> (r: Result<String, StdError>)
    ensures
        r == bluechip_denom(*asset_infos),
{
    match &asset_infos[0] {
        TokenType::Bluechip { denom } => Ok(denom.clone()),
        _ => match &asset_infos[1] {
            TokenType::Bluechip { denom } => Ok(denom.clone()),
            _ => Err(StdError::Generic("No bluechip token in the pair")),
        },
    }
}

/// Why the coins of a call are not the payment that was asked for.
#[derive(Debug)]
pub enum PaymentError {
    MissingDenom(String),
    ExtraDenom(String),
    MultipleDenoms,
    NoFunds,
    NonPayable,
}

/// `cw_utils::must_pay`: the amount of the single coin of a call, which must be of the
/// denomination asked for and not zero.
#[verifier::external_body]
fn must_pay(funds: &Vec<Coin>, denom: &str) -> (r: Result<u128, PaymentError>)
    ensures
        match r {
            Ok(amount) => funds@.len() == 1 && funds@[0].amount != 0 && funds@[0].denom@ == denom@
                && amount == funds@[0].amount,
            Err(PaymentError::NoFunds) => funds@.len() == 0 || (funds@.len() == 1
                && funds@[0].amount == 0),
            Err(PaymentError::MultipleDenoms) => funds@.len() > 1,
            Err(PaymentError::MissingDenom(d)) => d@ == denom@ && funds@.len() == 1
                && funds@[0].amount != 0 && funds@[0].denom@ != denom@,
            Err(_) => false,
        },
{
    let sender = cosmwasm_std::Addr::unchecked("");
    let funds = funds.iter().map(|c| cosmwasm_std::coin(c.amount, c.denom.as_str())).collect();
    let paid = cw_utils::must_pay(&cosmwasm_std::MessageInfo { sender, funds }, denom);
    paid.map(|amount| amount.u128()).map_err(|e| match e {
        cw_utils::PaymentError::MissingDenom(d) => PaymentError::MissingDenom(d),
        cw_utils::PaymentError::ExtraDenom(d) => PaymentError::ExtraDenom(d),
        cw_utils::PaymentError::MultipleDenoms {  } => PaymentError::MultipleDenoms,
        cw_utils::PaymentError::NoFunds {  } => PaymentError::NoFunds,
        cw_utils::PaymentError::NonPayable {  } => PaymentError::NonPayable,
    })
}

/// The answer to a swap offer of `amount` of `info` that comes with `funds`.
pub open spec fn offer_sent(info: TokenType, amount: u128, funds: Seq<Coin>) -> Result<
    (),
    StdError,
> {
    match info {
        TokenType::CreatorToken { .. } => Err(
            StdError::Generic(
                "SimpleSwap can only be used with bluechip tokens. Use CW20 Send for token swaps.",
            ),
        ),
        TokenType::Bluechip { denom } => if funds.len() > 1 {
            Err(StdError::Generic("Sent more than one denomination"))
        } else if funds.len() == 0 || funds[0].amount == 0 {
            Err(StdError::Generic("No funds sent"))
        } else if funds[0].denom@ != denom@ {
            Err(StdError::MissingDenom { denom })
        } else if funds[0].amount != amount {
            Err(StdError::AmountMismatch { denom, expected: amount, received: funds[0].amount })
        } else {
            Ok(())
        },
    }
}

/// The message that sends `token` to `recipient`.
pub open spec fn transfer_msg(token: TokenType, amount: u128, recipient: Addr) -> CosmosMsg {
    match token {
        TokenType::CreatorToken { contract_addr } => CosmosMsg::Cw20Transfer {
            contract_addr,
            recipient,
            amount,
        },
        TokenType::Bluechip { denom } => CosmosMsg::BankSend {
            to_address: recipient,
            denom,
            amount,
        },
    }
}

/// What a pool does with an amount of a token.
pub trait TokenInfoPoolExt: Sized {
    spec fn token(&self) -> TokenInfo;

    /// The coin to send for a bluechip amount. There is no transfer tax.
    fn deduct_tax(&self) -> (r: Result<Coin, StdError>)
        ensures
            r == (match self.token().info {
                TokenType::Bluechip { denom } => Ok::<Coin, StdError>(
                    Coin { denom, amount: self.token().amount },
                ),
                TokenType::CreatorToken { .. } => Err(
                    StdError::Generic("cannot deduct tax from token asset"),
                ),
            }),
    ;

    /// The message that sends the amount to `recipient`.
    fn into_msg(self, recipient: Addr) -> (r: CosmosMsg)
        ensures
            r == transfer_msg(self.token().info, self.token().amount, recipient),
    ;

    /// Checks that exactly this amount, of a bluechip token, came with the call.
    fn confirm_sent_bluechip_token_balance(&self, message_info: &MessageInfo) -> (r: Result<
        (),
        StdError,
    >)
        ensures
            r == offer_sent(self.token().info, self.token().amount, message_info.funds@),
    ;
}

impl TokenInfoPoolExt for TokenInfo {
    open spec fn token(&self) -> TokenInfo {
        *self
    }

    fn deduct_tax(&self) -> (r: Result<Coin, StdError>) {
        match &self.info {
            TokenType::Bluechip { denom } => Ok(
                Coin { denom: denom.clone(), amount: self.amount },
            ),
            TokenType::CreatorToken { .. } => Err(
                StdError::Generic("cannot deduct tax from token asset"),
            ),
        }
    }

    fn into_msg(self, recipient: Addr) -> (r: CosmosMsg) {
        let amount: u128 = self.amount;
        match self.info {
            TokenType::CreatorToken { contract_addr } => CosmosMsg::Cw20Transfer {
                contract_addr,
                recipient,
                amount,
            },
            TokenType::Bluechip { denom } => CosmosMsg::BankSend {
                to_address: recipient,
                denom,
                amount,
            },
        }
    }

    fn confirm_sent_bluechip_token_balance(&self, message_info: &MessageInfo) -> (r: Result<
        (),
        StdError,
    >) {
        match &self.info {
            TokenType::Bluechip { denom } => match must_pay(&message_info.funds, denom.as_str()) {
                Ok(received) => if self.amount == received {
                    Ok(())
                } else {
                    Err(
                        StdError::AmountMismatch {
                            denom: denom.clone(),
                            expected: self.amount,
                            received,
                        },
                    )
                },
                Err(PaymentError::MultipleDenoms) => Err(
                    StdError::Generic("Sent more than one denomination"),
                ),
                Err(PaymentError::MissingDenom(_)) => Err(
                    StdError::MissingDenom { denom: denom.clone() },
                ),
                Err(_) => Err(StdError::Generic("No funds sent")),
            },
            TokenType::CreatorToken { .. } => Err(
                StdError::Generic(
                    "SimpleSwap can only be used with bluechip tokens. Use CW20 Send for token swaps.",
                ),
            ),
        }
    }
}

/// Whether `denom` is the denomination of a bluechip token among `infos`.
pub open spec fn is_pool_coin(infos: Seq<TokenType>, denom: Seq<char>) -> bool {
    exists|i: int|
        0 <= i < infos.len() && ((#[trigger] infos[i]) matches TokenType::Bluechip { denom: d }
            && d@ == denom)
}

/// The first bluechip denomination of `assets`, from position `from` on, that is not a
/// coin of the pool.
pub open spec fn foreign_coin(
    assets: Seq<TokenInfo>,
    infos: Seq<TokenType>,
    from: int,
) -> Option<String>
    decreases assets.len() - from,
{
    if from >= assets.len() || from < 0 {
        None
    } else {
        match assets[from].info {
            TokenType::Bluechip { denom } if !is_pool_coin(infos, denom@) => Some(denom),
            _ => foreign_coin(assets, infos, from + 1),
        }
    }
}

/// The amount that the first `n` of `assets` declare for a denomination: the last one
/// counts.
pub open spec fn declared(assets: Seq<TokenInfo>, denom: Seq<char>, n: int) -> Option<u128>
    decreases n,
{
    if n <= 0 {
        None
    } else {
        match assets[n - 1].info {
            TokenType::Bluechip { denom: d } if d@ == denom => Some(assets[n - 1].amount),
            _ => declared(assets, denom, n - 1),
        }
    }
}

/// What is wrong with the first coin, from position `from` on, that is not declared or
/// not declared with its amount.
pub open spec fn coin_error(coins: Seq<Coin>, assets: Seq<TokenInfo>, from: int) -> Option<
    StdError,
>
    decreases coins.len() - from,
{
    if from >= coins.len() || from < 0 {
        None
    } else {
        let coin = coins[from];
        match declared(assets, coin.denom@, assets.len() as int) {
            None => Some(StdError::UnexpectedCoin { denom: coin.denom }),
            Some(expected) => if expected == coin.amount {
                coin_error(coins, assets, from + 1)
            } else {
                Some(
                    StdError::AmountMismatch {
                        denom: coin.denom,
                        expected,
                        received: coin.amount,
                    },
                )
            },
        }
    }
}

fn find_pool_coin(infos: &[TokenType], denom: &String) -> (r: bool)
    ensures
        r == is_pool_coin(infos@, denom@),
{
    let mut i: usize = 0;
    while i < infos.len()
        invariant
            i <= infos@.len(),
            forall|j: int|
                0 <= j < i ==> !((#[trigger] infos@[j]) matches TokenType::Bluechip { denom: d }
                    && d@ == denom@),
        decreases infos@.len() - i,
    {
        if let TokenType::Bluechip { denom: d } = &infos[i] {
            if *d == *denom {
                assert(infos@[i as int] matches TokenType::Bluechip { denom: d } && d@ == denom@);
                return true;
            }
        }
        i += 1;
    }
    false
}

fn find_declared(assets: &[TokenInfo], denom: &String) -> (r: Option<u128>)
    ensures
        r == declared(assets@, denom@, assets@.len() as int),
{
    let mut n: usize = assets.len();
    while n > 0
        invariant
            n <= assets@.len(),
            declared(assets@, denom@, assets@.len() as int) == declared(
                assets@,
                denom@,
                n as int,
            ),
        decreases n,
    {
        let asset = &assets[n - 1];
        if let TokenType::Bluechip { denom: d } = &asset.info {
            if *d == *denom {
                return Some(asset.amount);
            }
        }
        n -= 1;
    }
    None
}

/// The coins of a call, held against what the caller declares to deposit.
pub trait TokenSending: Sized {
    spec fn coins(&self) -> Seq<Coin>;

    /// Checks that every declared bluechip asset belongs to the pool, and that every coin
    /// was declared with its amount.
    fn assert_coins_properly_sent(
        &self,
        input_assets: &[TokenInfo],
        pool_asset_infos: &[TokenType],
    ) -> (r: Result<(), StdError>)
        ensures
            r == (match foreign_coin(input_assets@, pool_asset_infos@, 0) {
                Some(denom) => Err::<(), StdError>(StdError::AssetNotInPool { denom }),
                None => match coin_error(self.coins(), input_assets@, 0) {
                    Some(e) => Err(e),
                    None => Ok(()),
                },
            }),
    ;
}

impl TokenSending for Vec<Coin> {
    open spec fn coins(&self) -> Seq<Coin> {
        self@
    }

    fn assert_coins_properly_sent(
        &self,
        input_assets: &[TokenInfo],
        pool_asset_infos: &[TokenType],
    ) -> (r: Result<(), StdError>) {
        let mut i: usize = 0;
        while i < input_assets.len()
            invariant
                i <= input_assets@.len(),
                foreign_coin(input_assets@, pool_asset_infos@, 0) == foreign_coin(
                    input_assets@,
                    pool_asset_infos@,
                    i as int,
                ),
            decreases input_assets@.len() - i,
        {
            if let TokenType::Bluechip { denom } = &input_assets[i].info {
                if !find_pool_coin(pool_asset_infos, denom) {
                    return Err(StdError::AssetNotInPool { denom: denom.clone() });
                }
            }
            i += 1;
        }
        let mut j: usize = 0;
        while j < self.len()
            invariant
                j <= self@.len(),
                foreign_coin(input_assets@, pool_asset_infos@, 0) is None,
                coin_error(self@, input_assets@, 0) == coin_error(
                    self@,
                    input_assets@,
                    j as int,
                ),
            decreases self@.len() - j,
        {
            let coin = &self[j];
            match find_declared(input_assets, &coin.denom) {
                None => {
                    return Err(StdError::UnexpectedCoin { denom: coin.denom.clone() });
                },
                Some(expected) => {
                    if expected != coin.amount {
                        return Err(
                            StdError::AmountMismatch {
                                denom: coin.denom.clone(),
                                expected,
                                received: coin.amount,
                            },
                        );
                    }
                },
            }
            j += 1;
        }
        Ok(())
    }
}

} // verus!
