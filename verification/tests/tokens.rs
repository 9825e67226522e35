//! Tokens, the coins of a call, and the ordered tables that a pool keeps.

use bluechip::asset::{
    get_bluechip_denom, TokenInfo, TokenInfoPoolExt, TokenSending, TokenType, UBLUECHIP_DENOM,
};
use bluechip::chain::{Coin, CosmosMsg};
use bluechip::error::StdError;
use bluechip::table::Table;

fn bluechip(denom: &str) -> TokenType {
    TokenType::Bluechip { denom: denom.to_string() }
}

fn token(contract: &str) -> TokenType {
    TokenType::CreatorToken { contract_addr: contract.to_string() }
}

fn coin(denom: &str, amount: u128) -> Coin {
    Coin { denom: denom.to_string(), amount }
}

#[test]
fn tokens_are_compared_by_kind_and_name() {
    assert!(bluechip("a").equal(&bluechip("a")));
    assert!(!bluechip("a").equal(&bluechip("b")));
    assert!(!bluechip("a").equal(&token("a")));
    assert!(token("a").equal(&token("a")));
    assert_eq!(token("a").text(), "a");
    assert_eq!(bluechip("b").label(), "b");
    assert_eq!(UBLUECHIP_DENOM, "ubluechip");
}

#[test]
fn pairs_have_a_bluechip_side() {
    assert_eq!(get_bluechip_denom(&[bluechip("a"), token("t")]), Ok("a".to_string()));
    assert_eq!(get_bluechip_denom(&[token("t"), bluechip("b")]), Ok("b".to_string()));
    assert_eq!(get_bluechip_denom(&[bluechip("a"), bluechip("b")]), Ok("a".to_string()));
    assert!(get_bluechip_denom(&[token("t"), token("u")]).is_err());
}

#[test]
fn amounts_become_messages() {
    let coins = TokenInfo { info: bluechip("a"), amount: 5 };
    assert_eq!(coins.deduct_tax(), Ok(coin("a", 5)));
    assert_eq!(
        coins.into_msg("bob".to_string()),
        CosmosMsg::BankSend { to_address: "bob".to_string(), denom: "a".to_string(), amount: 5 }
    );
    let tokens = TokenInfo { info: token("t"), amount: 6 };
    let untaxed = StdError::Generic("cannot deduct tax from token asset");
    assert_eq!(tokens.deduct_tax(), Err(untaxed));
    assert_eq!(
        tokens.into_msg("bob".to_string()),
        CosmosMsg::Cw20Transfer {
            contract_addr: "t".to_string(),
            recipient: "bob".to_string(),
            amount: 6,
        }
    );
}

#[test]
fn deposits_are_held_against_their_coins() {
    let pair = [bluechip("a"), token("t")];
    let assets = [
        TokenInfo { info: bluechip("a"), amount: 5 },
        TokenInfo { info: token("t"), amount: 9 },
    ];
    let check = |coins: Vec<Coin>| coins.assert_coins_properly_sent(&assets, &pair);
    assert_eq!(check(vec![coin("a", 5)]), Ok(()));
    assert_eq!(check(vec![]), Ok(()));
    let unexpected = StdError::UnexpectedCoin { denom: "b".to_string() };
    assert_eq!(check(vec![coin("a", 5), coin("b", 1)]), Err(unexpected));
    let mismatch = StdError::AmountMismatch { denom: "a".to_string(), expected: 5, received: 4 };
    assert_eq!(check(vec![coin("a", 4)]), Err(mismatch));
    let foreign = [TokenInfo { info: bluechip("b"), amount: 5 }];
    let outside = StdError::AssetNotInPool { denom: "b".to_string() };
    assert_eq!(vec![coin("b", 5)].assert_coins_properly_sent(&foreign, &pair), Err(outside));
}

#[test]
fn tables_are_ordered_by_key() {
    let mut table: Table<u32> = Table::new();
    for (i, key) in ["m", "a", "z", "aa", "b", "a"].iter().enumerate() {
        table.insert(key.to_string(), i as u32);
    }
    let keys: Vec<&str> = table.entries.iter().map(|entry| entry.0.as_str()).collect();
    assert_eq!(keys, vec!["a", "aa", "b", "m", "z"]);
    assert_eq!(table.get("a"), Some(&5));
    assert_eq!(table.get("c"), None);
    assert_eq!(table.first_after(None), 0);
    assert_eq!(table.first_after(Some("a")), 1);
    assert_eq!(table.first_after(Some("c")), 3);
    assert_eq!(table.first_after(Some("z")), 5);
    assert_eq!(table.take("b"), Some(4));
    assert_eq!(table.take("b"), None);
    table.remove("z");
    table.remove("nowhere");
    assert_eq!(table.entries.len(), 3);
}
