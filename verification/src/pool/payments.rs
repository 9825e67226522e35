//! What messages pay out, and that payments reach whom they are meant for.

use vstd::prelude::*;

use crate::asset::TokenType;
use crate::chain::{Addr, CosmosMsg, Env, MessageInfo, Response};
use crate::number::Timestamp;
use crate::pool::contract::{execute_outcome, HostAnswers};
use crate::pool::error::ContractError;
use crate::pool::liquidity_helpers::{build_fee_transfer_msgs, payment_msgs};
use crate::pool::msg::ExecuteMsg;
use crate::pool::state::{PoolInfo, PoolStore};

verus! {

/// The coins of a denomination that one message sends to an account.
pub open spec fn coins_of(msg: CosmosMsg, to: Seq<char>, denom: Seq<char>) -> int {
    match msg {
        CosmosMsg::BankSend { to_address, denom: d, amount } => if to_address@ == to && d@ == denom {
            amount as int
        } else {
            0
        },
        _ => 0,
    }
}

/// The tokens of a contract that one message transfers to an account.
pub open spec fn tokens_of(msg: CosmosMsg, contract: Seq<char>, to: Seq<char>) -> int {
    match msg {
        CosmosMsg::Cw20Transfer { contract_addr, recipient, amount } => if contract_addr@ == contract
            && recipient@ == to {
            amount as int
        } else {
            0
        },
        _ => 0,
    }
}

/// The tokens of a contract that one message mints for an account.
pub open spec fn mint_of(msg: CosmosMsg, contract: Seq<char>, to: Seq<char>) -> int {
    match msg {
        CosmosMsg::Cw20Mint { contract_addr, recipient, amount } => if contract_addr@ == contract
            && recipient@ == to {
            amount as int
        } else {
            0
        },
        _ => 0,
    }
}

/// The coins of a denomination that messages send to an account.
pub open spec fn coins_sent(msgs: Seq<CosmosMsg>, to: Seq<char>, denom: Seq<char>) -> int
    decreases msgs.len(),
{
    if msgs.len() == 0 {
        0
    } else {
        coins_sent(msgs.drop_last(), to, denom) + coins_of(msgs.last(), to, denom)
    }
}

/// The tokens of a contract that messages transfer to an account.
pub open spec fn tokens_sent(msgs: Seq<CosmosMsg>, contract: Seq<char>, to: Seq<char>) -> int
    decreases msgs.len(),
{
    if msgs.len() == 0 {
        0
    } else {
        tokens_sent(msgs.drop_last(), contract, to) + tokens_of(msgs.last(), contract, to)
    }
}

/// The tokens of a contract that messages mint for an account.
pub open spec fn tokens_minted(msgs: Seq<CosmosMsg>, contract: Seq<char>, to: Seq<char>) -> int
    decreases msgs.len(),
{
    if msgs.len() == 0 {
        0
    } else {
        tokens_minted(msgs.drop_last(), contract, to) + mint_of(msgs.last(), contract, to)
    }
}

/// All that messages pay out: coins, transferred tokens and minted tokens.
pub open spec fn all_paid(msgs: Seq<CosmosMsg>) -> (int, int, int)
    decreases msgs.len(),
{
    if msgs.len() == 0 {
        (0, 0, 0)
    } else {
        let (coins, tokens, mints) = all_paid(msgs.drop_last());
        match msgs.last() {
            CosmosMsg::BankSend { amount, .. } => (coins + amount, tokens, mints),
            CosmosMsg::Cw20Transfer { amount, .. } => (coins, tokens + amount, mints),
            CosmosMsg::Cw20Mint { amount, .. } => (coins, tokens, mints + amount),
            _ => (coins, tokens, mints),
        }
    }
}

/// Whether a message pays an amount, and one that is not zero.
pub open spec fn is_payment(msg: CosmosMsg) -> bool {
    match msg {
        CosmosMsg::BankSend { amount, .. } => amount > 0,
        CosmosMsg::Cw20Transfer { amount, .. } => amount > 0,
        _ => false,
    }
}

/// Whether all messages are payments.
pub open spec fn are_payments(msgs: Seq<CosmosMsg>) -> bool {
    forall|i: int| 0 <= i < msgs.len() ==> is_payment(#[trigger] msgs[i])
}

/// What messages pay together is what they pay apart.
pub proof fn lemma_paid_adds_up(a: Seq<CosmosMsg>, b: Seq<CosmosMsg>, x: Seq<char>, y: Seq<char>)
    ensures
        coins_sent(a + b, x, y) == coins_sent(a, x, y) + coins_sent(b, x, y),
        tokens_sent(a + b, x, y) == tokens_sent(a, x, y) + tokens_sent(b, x, y),
        tokens_minted(a + b, x, y) == tokens_minted(a, x, y) + tokens_minted(b, x, y),
        all_paid(a + b).0 == all_paid(a).0 + all_paid(b).0,
        all_paid(a + b).1 == all_paid(a).1 + all_paid(b).1,
        all_paid(a + b).2 == all_paid(a).2 + all_paid(b).2,
    decreases b.len(),
{
    if b.len() == 0 {
        assert(a + b =~= a);
    } else {
        lemma_paid_adds_up(a, b.drop_last(), x, y);
        assert((a + b).drop_last() =~= a + b.drop_last());
        assert((a + b).last() == b.last());
    }
}

/// What a short list of messages pays.
pub proof fn lemma_paid_by_few(msgs: Seq<CosmosMsg>, x: Seq<char>, y: Seq<char>)
    requires
        msgs.len() <= 4,
    ensures
        msgs.len() == 0 ==> coins_sent(msgs, x, y) == 0 && tokens_sent(msgs, x, y) == 0
            && tokens_minted(msgs, x, y) == 0 && all_paid(msgs) == (0int, 0int, 0int),
        msgs.len() == 1 ==> coins_sent(msgs, x, y) == coins_of(msgs[0], x, y) && tokens_sent(
            msgs,
            x,
            y,
        ) == tokens_of(msgs[0], x, y) && tokens_minted(msgs, x, y) == mint_of(msgs[0], x, y),
        msgs.len() == 2 ==> coins_sent(msgs, x, y) == coins_of(msgs[0], x, y) + coins_of(
            msgs[1],
            x,
            y,
        ) && tokens_sent(msgs, x, y) == tokens_of(msgs[0], x, y) + tokens_of(msgs[1], x, y)
            && tokens_minted(msgs, x, y) == mint_of(msgs[0], x, y) + mint_of(msgs[1], x, y),
        msgs.len() == 4 ==> coins_sent(msgs, x, y) == coins_of(msgs[0], x, y) + coins_of(
            msgs[1],
            x,
            y,
        ) + coins_of(msgs[2], x, y) + coins_of(msgs[3], x, y) && tokens_sent(msgs, x, y)
            == tokens_of(msgs[0], x, y) + tokens_of(msgs[1], x, y) + tokens_of(msgs[2], x, y)
            + tokens_of(msgs[3], x, y) && tokens_minted(msgs, x, y) == mint_of(msgs[0], x, y)
            + mint_of(msgs[1], x, y) + mint_of(msgs[2], x, y) + mint_of(msgs[3], x, y),
{
    if msgs.len() > 0 {
        let one = msgs.drop_last();
        if one.len() > 0 {
            let two = one.drop_last();
            if two.len() > 0 {
                let three = two.drop_last();
                if three.len() > 0 {
                    assert(three.drop_last() =~= Seq::<CosmosMsg>::empty());
                    reveal_with_fuel(coins_sent, 5);
                    reveal_with_fuel(tokens_sent, 5);
                    reveal_with_fuel(tokens_minted, 5);
                }
                reveal_with_fuel(coins_sent, 5);
                reveal_with_fuel(tokens_sent, 5);
                reveal_with_fuel(tokens_minted, 5);
            }
        }
    }
    reveal_with_fuel(coins_sent, 5);
    reveal_with_fuel(tokens_sent, 5);
    reveal_with_fuel(tokens_minted, 5);
}

/// The denomination of a pair's bluechip token: that of the first token, or else of the second.
pub open spec fn pays_in(infos: [TokenType; 2], denom: Seq<char>) -> bool {
    match infos[0] {
        TokenType::Bluechip { denom: d } => d@ == denom,
        TokenType::CreatorToken { .. } => infos[1] matches TokenType::Bluechip { denom: d } && d@
            == denom,
    }
}

/// Both sides are paid to an account: all of the one in coins, all of the other in tokens, and
/// nothing to anybody else.
pub open spec fn both_are_paid(
    pool_info: PoolInfo,
    recipient: Seq<char>,
    amount_0: int,
    amount_1: int,
    msgs: Seq<CosmosMsg>,
    denom: Seq<char>,
) -> bool {
    &&& pays_in(pool_info.pool_info.asset_infos, denom) ==> coins_sent(msgs, recipient, denom)
        == amount_0
    &&& tokens_sent(msgs, pool_info.token_address@, recipient) == amount_1
    &&& all_paid(msgs) == (amount_0, amount_1, 0int)
    &&& are_payments(msgs)
}

proof fn lemma_both_are_paid(
    pool_info: PoolInfo,
    recipient: Addr,
    amount_0: u128,
    amount_1: u128,
    msgs: Seq<CosmosMsg>,
    denom: Seq<char>,
)
    requires
        payment_msgs(pool_info, recipient, amount_0, amount_1) == Ok::<
            Seq<CosmosMsg>,
            ContractError,
        >(msgs),
    ensures
        both_are_paid(
            pool_info,
            recipient@,
            amount_0 as int,
            amount_1 as int,
            msgs,
            denom,
        ),
{
    lemma_paid_by_few(msgs, recipient@, denom);
    lemma_paid_by_few(msgs, pool_info.token_address@, recipient@);
    reveal_with_fuel(all_paid, 4);
}

/// Payments of fees pay what they are asked to, to whom they are asked to, on either side and
/// whatever the other side comes to. They fail only where coins are due and the pair has none.
pub proof fn law_fee_payments_are_complete(
    pool_info: PoolInfo,
    recipient: Addr,
    amount_0: u128,
    amount_1: u128,
    r: Result<Vec<CosmosMsg>, ContractError>,
    denom: Seq<char>,
)
    requires
        call_ensures(
            build_fee_transfer_msgs,
            (&pool_info, &recipient, amount_0, amount_1),
            r,
        ),
    ensures
        match r {
            Ok(msgs) => both_are_paid(
                pool_info,
                recipient@,
                amount_0 as int,
                amount_1 as int,
                msgs@,
                denom,
            ),
            Err(_) => amount_0 > 0 && !pays_in(pool_info.pool_info.asset_infos, denom),
        },
{
    if let Ok(msgs) = r {
        lemma_both_are_paid(pool_info, recipient, amount_0, amount_1, msgs@, denom);
    }
}

/// A claim of the creator's fees pays the whole pot to the creator's wallet, and leaves it empty.
/// It is refused only for a deadline, another sender, an empty pot, or coins that the pair does
/// not have.
pub proof fn law_claimed_fees_are_paid(
    before: PoolStore,
    after: PoolStore,
    env: Env,
    info: MessageInfo,
    transaction_deadline: Option<Timestamp>,
    host: HostAnswers,
    r: Result<Response, ContractError>,
    denom: Seq<char>,
)
    requires
        execute_outcome(
            before,
            after,
            env,
            info,
            ExecuteMsg::ClaimCreatorFees { transaction_deadline },
            host,
            r,
        ),
    ensures
        ({
            let pot = before.creator_fee_pot;
            let late = transaction_deadline matches Some(d) && env.time.nanos > d.nanos;
            let creator = before.fee_info.creator_wallet_address@;
            match r {
                Ok(resp) => {
                    &&& !late && info.sender@ == creator
                    &&& pot.amount_0 > 0 || pot.amount_1 > 0
                    &&& both_are_paid(
                        before.pool_info,
                        creator,
                        pot.amount_0 as int,
                        pot.amount_1 as int,
                        resp.messages@,
                        denom,
                    )
                    &&& after.creator_fee_pot.amount_0 == 0 && after.creator_fee_pot.amount_1 == 0
                    &&& after == (PoolStore { creator_fee_pot: after.creator_fee_pot, ..before })
                },
                Err(ContractError::TransactionExpired {  }) => late,
                Err(ContractError::Unauthorized {  }) => info.sender@ != creator,
                Err(ContractError::ZeroAmount {  }) => pot.amount_0 == 0 && pot.amount_1 == 0,
                Err(_) => pot.amount_0 > 0 && !pays_in(
                    before.pool_info.pool_info.asset_infos,
                    denom,
                ),
            }
        }),
{
    if let Ok(resp) = r {
        lemma_both_are_paid(
            before.pool_info,
            before.fee_info.creator_wallet_address,
            before.creator_fee_pot.amount_0,
            before.creator_fee_pot.amount_1,
            resp.messages@,
            denom,
        );
    }
}

/// A claim of the locked excess pays all of it to the creator that it is locked for, from its
/// unlock time on, and leaves nothing locked. It is refused only for a deadline, another sender,
/// a lock, nothing being locked, or coins that the pair does not have.
pub proof fn law_claimed_excess_is_paid(
    before: PoolStore,
    after: PoolStore,
    env: Env,
    info: MessageInfo,
    transaction_deadline: Option<Timestamp>,
    host: HostAnswers,
    r: Result<Response, ContractError>,
    denom: Seq<char>,
)
    requires
        execute_outcome(
            before,
            after,
            env,
            info,
            ExecuteMsg::ClaimCreatorExcessLiquidity { transaction_deadline },
            host,
            r,
        ),
    ensures
        ({
            let late = transaction_deadline matches Some(d) && env.time.nanos > d.nanos;
            match r {
                Ok(resp) => {
                    &&& !late
                    &&& before.creator_excess matches Some(excess) && {
                        &&& info.sender@ == excess.creator@
                        &&& env.time.nanos >= excess.unlock_time.nanos
                        &&& both_are_paid(
                            before.pool_info,
                            excess.creator@,
                            excess.bluechip_amount as int,
                            excess.token_amount as int,
                            resp.messages@,
                            denom,
                        )
                    }
                    &&& after == (PoolStore { creator_excess: None, ..before })
                },
                Err(ContractError::TransactionExpired {  }) => late,
                Err(ContractError::Unauthorized {  }) => before.creator_excess matches Some(excess)
                    && info.sender@ != excess.creator@,
                Err(ContractError::PositionLocked { unlock_time }) => {
                    before.creator_excess matches Some(excess) && unlock_time == excess.unlock_time
                        && env.time.nanos < unlock_time.nanos
                },
                Err(_) => before.creator_excess matches Some(excess) ==> excess.bluechip_amount > 0
                    && !pays_in(before.pool_info.pool_info.asset_infos, denom),
            }
        }),
{
    if let Ok(resp) = r {
        let excess = before.creator_excess->Some_0;
        lemma_both_are_paid(
            before.pool_info,
            excess.creator,
            excess.bluechip_amount,
            excess.token_amount,
            resp.messages@,
            denom,
        );
    }
}

} // verus!
