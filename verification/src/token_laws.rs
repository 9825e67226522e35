//! What holds of tokens, numbers and texts by themselves.

use vstd::prelude::*;

use crate::asset::{
    coin_error, declared, foreign_coin, get_bluechip_denom, is_pool_coin, TokenInfo,
    TokenInfoPoolExt, TokenSending, TokenType,
};
use crate::chain::{Addr, Coin, CosmosMsg, MessageInfo};
use crate::error::StdError;
use crate::number::{min_u128, Decimal, Timestamp};
use crate::table::{less, less_from, text_less};
use crate::text::{digits, hex_bytes, hex_text, number};

verus! {

/// Whether two tokens are of one kind and bear one name.
pub open spec fn one_token(a: TokenType, b: TokenType) -> bool {
    ||| a matches TokenType::Bluechip { denom: x } && (b matches TokenType::Bluechip { denom: y }
        && x@ == y@)
    ||| a matches TokenType::CreatorToken { contract_addr: x } && (
    b matches TokenType::CreatorToken { contract_addr: y } && x@ == y@)
}

/// What a token is called.
pub open spec fn called(t: TokenType, name: Seq<char>) -> bool {
    &&& t matches TokenType::Bluechip { denom } ==> denom@ == name
    &&& t matches TokenType::CreatorToken { contract_addr } ==> contract_addr@ == name
}

/// Tokens are the same where they are of one kind and bear one name.
pub proof fn law_tokens_are_told_apart(a: TokenType, b: TokenType, r: bool)
    requires
        call_ensures(TokenType::equal, (&a, &b), r),
    ensures
        r == one_token(a, b),
        a.same(b) == one_token(a, b),
{
}

/// A token is labelled with its denomination or its contract.
pub proof fn law_tokens_bear_their_name(t: TokenType, r: String)
    requires
        call_ensures(TokenType::label, (&t,), r),
    ensures
        called(t, r@),
        called(t, t.name()),
{
}

/// The coins of a pair are those of its first native token.
pub proof fn law_pairs_have_one_denomination(infos: [TokenType; 2], r: Result<String, StdError>)
    requires
        call_ensures(get_bluechip_denom, (&infos,), r),
    ensures
        r is Err <==> infos[0] is CreatorToken && infos[1] is CreatorToken,
        r matches Ok(d) ==> (infos[0] is Bluechip ==> infos[0] == TokenType::Bluechip { denom: d }),
        r matches Ok(d) ==> (infos[0] is CreatorToken ==> infos[1] == TokenType::Bluechip {
            denom: d,
        }),
{
}

/// A hundred percent and a thousand thousandths are one.
pub proof fn law_parts_make_a_whole(x: u64, hundredths: Decimal, thousandths: Decimal, one: Decimal)
    requires
        call_ensures(Decimal::percent, (x,), hundredths),
        call_ensures(Decimal::permille, (x,), thousandths),
        call_ensures(Decimal::one, (), one),
    ensures
        hundredths.atomics * 100 == x * one.atomics,
        thousandths.atomics * 1000 == x * one.atomics,
        one.atomics == 1_000_000_000_000_000_000,
{
    assert(x * one.atomics == x * 1_000_000_000_000_000_000);
}

/// Taking away undoes adding, where the sum is in range.
pub proof fn law_decimals_add_up(
    a: Decimal,
    b: Decimal,
    sum: Option<Decimal>,
    back: Option<Decimal>,
    under: Option<Decimal>,
)
    requires
        call_ensures(Decimal::checked_add, (a, b), sum),
        sum matches Some(s) ==> call_ensures(Decimal::checked_sub, (s, b), back),
        call_ensures(Decimal::checked_sub, (a, b), under),
    ensures
        sum is None <==> a.atomics + b.atomics > u128::MAX,
        sum matches Some(s) ==> s.atomics == a.atomics + b.atomics && back == Some(a),
        under is None <==> a.atomics < b.atomics,
        under matches Some(d) ==> d.atomics + b.atomics == a.atomics,
{
}

/// Seconds are counted whole, and are added as they are.
pub proof fn law_seconds_are_whole(t: Timestamp, seconds: u64, whole: u64, later: Timestamp)
    requires
        call_ensures(Timestamp::seconds, (t,), whole),
        t.nanos + seconds * 1_000_000_000 <= u64::MAX,
        call_ensures(Timestamp::plus_seconds, (t, seconds), later),
    ensures
        whole * 1_000_000_000 <= t.nanos < whole * 1_000_000_000 + 1_000_000_000,
        later.nanos - t.nanos == seconds * 1_000_000_000,
{
}

/// The smaller of two numbers is one of them, and none is smaller.
pub proof fn law_the_smaller_is_taken(a: u128, b: u128, r: u128)
    requires
        call_ensures(min_u128, (a, b), r),
    ensures
        r == a || r == b,
        r <= a && r <= b,
{
}

/// The value of a decimal digit.
pub open spec fn digit_value(c: char) -> int {
    if c == '0' {
        0
    } else if c == '1' {
        1
    } else if c == '2' {
        2
    } else if c == '3' {
        3
    } else if c == '4' {
        4
    } else if c == '5' {
        5
    } else if c == '6' {
        6
    } else if c == '7' {
        7
    } else if c == '8' {
        8
    } else if c == '9' {
        9
    } else if c == 'A' {
        10
    } else if c == 'B' {
        11
    } else if c == 'C' {
        12
    } else if c == 'D' {
        13
    } else if c == 'E' {
        14
    } else if c == 'F' {
        15
    } else {
        -1
    }
}

/// The number that decimal digits stand for.
pub open spec fn read_number(s: Seq<char>) -> int
    decreases s.len(),
{
    if s.len() == 0 {
        0
    } else {
        read_number(s.drop_last()) * 10 + digit_value(s.last())
    }
}

proof fn lemma_digits_read_back(n: nat)
    ensures
        read_number(digits(n)) == n,
        digits(n).len() > 0,
        digits(n)[0] == '0' ==> n == 0 && digits(n).len() == 1,
        forall|i: int|
            0 <= i < digits(n).len() ==> 0 <= digit_value(#[trigger] digits(n)[i]) <= 9,
    decreases n,
{
    if n < 10 {
        assert(digits(n).drop_last() =~= Seq::<char>::empty());
        reveal_with_fuel(read_number, 2);
    } else {
        lemma_digits_read_back(n / 10);
        assert(digits(n).drop_last() =~= digits(n / 10));
    }
}

/// A number is written with the digits that it is read back from, and without zeros in front.
pub proof fn law_numbers_read_back(n: u128, r: String)
    requires
        call_ensures(number, (n,), r),
    ensures
        read_number(r@) == n,
        r@.len() > 0,
        r@[0] == '0' ==> r@.len() == 1,
        forall|i: int| 0 <= i < r@.len() ==> 0 <= digit_value(#[trigger] r@[i]) <= 9,
{
    lemma_digits_read_back(n as nat);
}

/// Keys are ordered by the first character in which they differ; a key comes before its
/// extensions.
pub open spec fn comes_first(a: Seq<char>, b: Seq<char>) -> bool {
    exists|i: int|
        #![trigger a.take(i)]
        {
            &&& 0 <= i <= a.len() && i < b.len() && a.take(i) == b.take(i)
            &&& i < a.len() ==> (a[i] as u32) < (b[i] as u32)
        }
}

proof fn lemma_less_finds(a: Seq<char>, b: Seq<char>, from: int)
    requires
        less_from(a, b, from),
        0 <= from <= a.len(),
        from <= b.len(),
        a.take(from) == b.take(from),
    ensures
        comes_first(a, b),
    decreases a.len() - from,
{
    if from < a.len() && from < b.len() && a[from] == b[from] {
        assert(a.take(from + 1) =~= a.take(from).push(a[from]));
        assert(b.take(from + 1) =~= b.take(from).push(b[from]));
        lemma_less_finds(a, b, from + 1);
    } else {
        assert(a.take(from) == b.take(from));
    }
}

proof fn lemma_found_is_less(a: Seq<char>, b: Seq<char>, from: int, i: int)
    requires
        0 <= from <= i <= a.len(),
        i < b.len(),
        a.take(i) == b.take(i),
        i < a.len() ==> (a[i] as u32) < (b[i] as u32),
    ensures
        less_from(a, b, from),
    decreases i - from,
{
    if from < i {
        assert(a[from] == a.take(i)[from]);
        assert(b[from] == b.take(i)[from]);
        lemma_found_is_less(a, b, from + 1, i);
    }
}

/// Texts are ordered as a dictionary orders them.
pub proof fn law_texts_are_ordered(a: &str, b: &str, r: bool)
    requires
        call_ensures(text_less, (a, b), r),
    ensures
        r == comes_first(a@, b@),
        r == less(a@, b@),
{
    if less(a@, b@) {
        assert(a@.take(0) =~= b@.take(0));
        lemma_less_finds(a@, b@, 0);
    }
    if comes_first(a@, b@) {
        let i = choose|i: int|
            #![trigger a@.take(i)]
            {
                &&& 0 <= i <= a@.len() && i < b@.len() && a@.take(i) == b@.take(i)
                &&& i < a@.len() ==> (a@[i] as u32) < (b@[i] as u32)
            };
        lemma_found_is_less(a@, b@, 0, i);
    }
}

proof fn lemma_hex_reads_back(bytes: Seq<u8>, i: int)
    requires
        0 <= i < bytes.len(),
    ensures
        hex_bytes(bytes).len() == 4 * bytes.len() - 2,
        digit_value(hex_bytes(bytes)[4 * i]) * 16 + digit_value(hex_bytes(bytes)[4 * i + 1])
            == bytes[i],
        0 <= digit_value(hex_bytes(bytes)[4 * i + 1]) < 16,
        i < bytes.len() - 1 ==> hex_bytes(bytes)[4 * i + 2] == ',' && hex_bytes(bytes)[4 * i + 3]
            == ' ',
    decreases bytes.len(),
{
    reveal_strlit(", ");
    if bytes.len() > 1 {
        if i < bytes.len() - 1 {
            lemma_hex_reads_back(bytes.drop_last(), i);
        } else {
            lemma_hex_reads_back(bytes.drop_last(), 0);
        }
    }
}

/// Bytes are written with two hexadecimal digits each, and commas between them.
pub proof fn law_bytes_read_back(bytes: Vec<u8>, r: String, i: int)
    requires
        call_ensures(hex_text, (&bytes,), r),
        0 <= i < bytes@.len(),
    ensures
        r@.len() == 4 * bytes@.len() - 2,
        digit_value(r@[4 * i]) * 16 + digit_value(r@[4 * i + 1]) == bytes@[i],
        0 <= digit_value(r@[4 * i + 1]) < 16,
        i < bytes@.len() - 1 ==> r@[4 * i + 2] == ',' && r@[4 * i + 3] == ' ',
{
    lemma_hex_reads_back(bytes@, i);
}

/// A payment sends its amount of its token to its recipient: coins by the bank, tokens by their
/// contract.
pub proof fn law_payments_send_their_token(payment: TokenInfo, to: Addr, r: CosmosMsg)
    requires
        call_ensures(<TokenInfo as TokenInfoPoolExt>::into_msg, (payment, to), r),
    ensures
        match r {
            CosmosMsg::BankSend { to_address, denom, amount } => to_address == to && amount
                == payment.amount && payment.info == (TokenType::Bluechip { denom }),
            CosmosMsg::Cw20Transfer { contract_addr, recipient, amount } => recipient == to
                && amount == payment.amount && payment.info == (TokenType::CreatorToken {
                contract_addr,
            }),
            _ => false,
        },
{
}

/// Coins are sent in full; tokens of a contract are no coins.
pub proof fn law_coins_are_not_taxed(payment: TokenInfo, r: Result<Coin, StdError>)
    requires
        call_ensures(<TokenInfo as TokenInfoPoolExt>::deduct_tax, (&payment,), r),
    ensures
        r is Ok <==> payment.info is Bluechip,
        r matches Ok(c) ==> c.amount == payment.amount && payment.info == (TokenType::Bluechip {
            denom: c.denom,
        }),
{
}

/// An offer is confirmed where exactly its coins came along, and no others.
pub proof fn law_offers_come_with_their_coins(
    payment: TokenInfo,
    info: MessageInfo,
    r: Result<(), StdError>,
)
    requires
        call_ensures(
            <TokenInfo as TokenInfoPoolExt>::confirm_sent_bluechip_token_balance,
            (&payment, &info),
            r,
        ),
    ensures
        r is Ok <==> {
            &&& payment.amount > 0 && info.funds@.len() == 1
            &&& info.funds@[0].amount == payment.amount
            &&& payment.info matches TokenType::Bluechip { denom } && denom@
                == info.funds@[0].denom@
        },
        r matches Err(e) ==> match e {
            StdError::MissingDenom { denom } => {
                &&& payment.info == (TokenType::Bluechip { denom })
                &&& info.funds@.len() == 1 && info.funds@[0].denom@ != denom@
            },
            StdError::AmountMismatch { denom, expected, received } => {
                &&& payment.info == (TokenType::Bluechip { denom })
                &&& expected == payment.amount && received == info.funds@[0].amount
                &&& info.funds@.len() == 1 && info.funds@[0].denom@ == denom@
                &&& expected != received && received > 0
            },
            StdError::Generic(_) => payment.info is CreatorToken || info.funds@.len() != 1
                || info.funds@[0].amount == 0,
            _ => false,
        },
{
}

/// Whether a token is native and has a denomination.
pub open spec fn is_coin(t: TokenType, denom: Seq<char>) -> bool {
    t matches TokenType::Bluechip { denom: d } && d@ == denom
}

/// Whether coins were declared: what is declared is of the pool, and every coin is declared with
/// its amount, the last declaration of a denomination counting.
pub open spec fn are_declared(
    coins: Seq<Coin>,
    assets: Seq<TokenInfo>,
    infos: Seq<TokenType>,
) -> bool {
    &&& forall|i: int|
        0 <= i < assets.len() ==> ((#[trigger] assets[i]).info matches TokenType::Bluechip { denom }
            ==> exists|j: int| 0 <= j < infos.len() && is_coin(#[trigger] infos[j], denom@))
    &&& forall|k: int| 0 <= k < coins.len() ==> is_declared(#[trigger] coins[k], assets)
}

/// Whether a coin is declared with its amount.
pub open spec fn is_declared(coin: Coin, assets: Seq<TokenInfo>) -> bool {
    exists|i: int|
        #![trigger assets[i]]
        {
            &&& 0 <= i < assets.len() && is_coin(assets[i].info, coin.denom@)
            &&& assets[i].amount == coin.amount
            &&& forall|j: int|
                i < j < assets.len() ==> !is_coin((#[trigger] assets[j]).info, coin.denom@)
        }
}

proof fn lemma_foreign(assets: Seq<TokenInfo>, infos: Seq<TokenType>, from: int)
    requires
        0 <= from,
    ensures
        foreign_coin(assets, infos, from) is None <==> forall|i: int|
            from <= i < assets.len() ==> ((
            #[trigger] assets[i]).info matches TokenType::Bluechip { denom } ==> is_pool_coin(
                infos,
                denom@,
            )),
    decreases assets.len() - from,
{
    if from < assets.len() {
        lemma_foreign(assets, infos, from + 1);
    }
}

proof fn lemma_declared(assets: Seq<TokenInfo>, denom: Seq<char>, n: int)
    requires
        0 <= n <= assets.len(),
    ensures
        match declared(assets, denom, n) {
            None => forall|i: int| 0 <= i < n ==> !is_coin((#[trigger] assets[i]).info, denom),
            Some(x) => exists|i: int|
                #![trigger assets[i]]
                {
                    &&& 0 <= i < n && is_coin(assets[i].info, denom) && assets[i].amount == x
                    &&& forall|j: int| i < j < n ==> !is_coin((#[trigger] assets[j]).info, denom)
                },
        },
    decreases n,
{
    if n > 0 {
        lemma_declared(assets, denom, n - 1);
        if is_coin(assets[n - 1].info, denom) {
            assert(declared(assets, denom, n) == Some(assets[n - 1].amount));
        } else {
            assert(declared(assets, denom, n) == declared(assets, denom, n - 1));
        }
    }
}

proof fn lemma_coin_error(coins: Seq<Coin>, assets: Seq<TokenInfo>, from: int)
    requires
        0 <= from,
    ensures
        coin_error(coins, assets, from) is None <==> forall|k: int|
            from <= k < coins.len() ==> is_declared(#[trigger] coins[k], assets),
    decreases coins.len() - from,
{
    if from < coins.len() {
        lemma_coin_error(coins, assets, from + 1);
        lemma_declared(assets, coins[from].denom@, assets.len() as int);
        if let Some(x) = declared(assets, coins[from].denom@, assets.len() as int) {
            let i = choose|i: int|
                #![trigger assets[i]]
                {
                    &&& 0 <= i < assets.len() && is_coin(assets[i].info, coins[from].denom@)
                    &&& assets[i].amount == x
                    &&& forall|j: int|
                        i < j < assets.len() ==> !is_coin(
                            (#[trigger] assets[j]).info,
                            coins[from].denom@,
                        )
                };
            assert(is_coin(assets[i].info, coins[from].denom@));
            assert(is_declared(coins[from], assets) <==> x == coins[from].amount);
        } else {
            assert(!is_declared(coins[from], assets));
        }
    }
}

/// Coins pass where they are declared with their amounts, and what is declared is of the pool.
pub proof fn law_coins_are_declared(
    coins: Vec<Coin>,
    assets: &[TokenInfo],
    infos: &[TokenType],
    r: Result<(), StdError>,
)
    requires
        call_ensures(
            <Vec<Coin> as TokenSending>::assert_coins_properly_sent,
            (&coins, assets, infos),
            r,
        ),
    ensures
        r is Ok <==> are_declared(coins@, assets@, infos@),
{
    lemma_foreign(assets@, infos@, 0);
    lemma_coin_error(coins@, assets@, 0);
    assert forall|denom: Seq<char>| #[trigger] is_pool_coin(infos@, denom) <==> exists|j: int|
        0 <= j < infos@.len() && is_coin(#[trigger] infos@[j], denom) by {
        if is_pool_coin(infos@, denom) {
            let j = choose|j: int|
                0 <= j < infos@.len() && ((
                #[trigger] infos@[j]) matches TokenType::Bluechip { denom: d } && d@ == denom);
            assert(is_coin(infos@[j], denom));
        }
    }
}

} // verus!
