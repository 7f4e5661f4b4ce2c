//! What the views of values keep of them: all that the contracts speak of is read off the values as
//! they are.

use vstd::prelude::*;

use crate::deps::Deps;
use crate::msg::{
    HandleMsg, HandleMsgView, InitMsg, QueryAnswer, QueryAnswerView, QueryMsg, QueryMsgView,
};
use crate::state::{Constants, History, StoredTx, Swap, Tx};
use crate::types::{
    BankMsg, CanonicalAddr, Coin, CosmosMsg, Env, HandleResponse, HumanAddr, InitResponse,
    LogAttribute, StdError, StdErrorView,
};
use crate::viewing_key::{KeyRequest, ViewingKey};

verus! {

/// Addresses, keys and coins are seen as they are written.
pub proof fn law_plain_values_are_seen(
    human: HumanAddr,
    canonical: CanonicalAddr,
    key: ViewingKey,
    coin: Coin,
    request: KeyRequest,
)
    ensures
        human@ == human.0@,
        canonical@ == canonical.0@,
        key@ == key.0@,
        coin@.denom == coin.denom@,
        coin@.amount == coin.amount,
        request@.sender == request.sender.0@,
        request@.seed == request.seed@,
        request@.entropy == request.entropy@,
{
}

/// The sender, the contract and every coin that was sent are seen as they are.
pub proof fn law_circumstances_are_seen(env: Env)
    ensures
        env@.sender == env.message.sender.0@,
        env@.contract == env.contract.address.0@,
        env@.sent_funds.len() == env.message.sent_funds@.len(),
        forall|i: int|
            0 <= i < env.message.sent_funds@.len() ==> (#[trigger] env@.sent_funds[i]).denom
                == env.message.sent_funds@[i].denom@ && env@.sent_funds[i].amount
                == env.message.sent_funds@[i].amount,
{
}

/// A message is seen with all that it brings.
pub proof fn law_messages_are_seen(msg: HandleMsg)
    ensures
        match msg {
            HandleMsg::Deposit => msg@ is Deposit,
            HandleMsg::Withdraw { amount } => msg@ == (HandleMsgView::Withdraw { amount }),
            HandleMsg::Balance => msg@ is Balance,
            HandleMsg::Transfer { recipient, amount } => msg@ == (HandleMsgView::Transfer {
                recipient: recipient.0@,
                amount,
            }),
            HandleMsg::Burn { amount } => msg@ == (HandleMsgView::Burn { amount }),
            HandleMsg::Mint { amount, address } => msg@ == (HandleMsgView::Mint {
                amount,
                address: address.0@,
            }),
            HandleMsg::ChangeAdmin { address } => msg@ == (HandleMsgView::ChangeAdmin {
                address: address.0@,
            }),
            HandleMsg::CreateViewingKey { entropy } => msg@ == (HandleMsgView::CreateViewingKey {
                entropy: entropy@,
            }),
            HandleMsg::SetViewingKey { key } => msg@ == (HandleMsgView::SetViewingKey {
                key: key@,
            }),
            HandleMsg::TransferFrom { owner, recipient, amount } => msg@ == (
            HandleMsgView::TransferFrom { owner: owner.0@, recipient: recipient.0@, amount }),
            HandleMsg::Allowance { spender } => msg@ == (HandleMsgView::Allowance {
                spender: spender.0@,
            }),
            HandleMsg::Approve { spender, amount } => msg@ == (HandleMsgView::Approve {
                spender: spender.0@,
                amount,
            }),
            HandleMsg::Swap { amount, network, destination } => msg@ == (HandleMsgView::Swap {
                amount,
                network: network@,
                destination: destination@,
            }),
        },
{
}

/// The message of instantiation is seen with all that it brings.
pub proof fn law_instantiation_is_seen(msg: InitMsg)
    ensures
        msg@.name == msg.name@,
        msg@.admin == msg.admin.0@,
        msg@.symbol == msg.symbol@,
        msg@.decimals == msg.decimals,
        msg@.initial_balances.len() == msg.initial_balances@.len(),
        forall|i: int|
            0 <= i < msg.initial_balances@.len() ==> (#[trigger] msg@.initial_balances[i]).address
                == msg.initial_balances@[i].address.0@ && msg@.initial_balances[i].amount
                == msg.initial_balances@[i].amount,
{
}

/// A question is seen with all that it brings, and is about the account that it names, with the key
/// that it presents.
pub proof fn law_questions_are_seen(msg: QueryMsg)
    ensures
        match msg {
            QueryMsg::Balance { address, key } => {
                &&& msg@ == (QueryMsgView::Balance { address: address.0@, key: key@ })
                &&& msg@.needs_key()
                &&& msg@.account() == address.0@
                &&& msg@.presented_key() == key@
            },
            QueryMsg::Transfers { address, key, n } => {
                &&& msg@ == (QueryMsgView::Transfers { address: address.0@, key: key@, n })
                &&& msg@.needs_key()
                &&& msg@.account() == address.0@
                &&& msg@.presented_key() == key@
            },
            QueryMsg::Swap { nonce } => msg@ == (QueryMsgView::Swap { nonce })
                && !msg@.needs_key(),
        },
{
}

/// What is kept and shown is seen as it is.
pub proof fn law_records_are_seen(
    constants: Constants,
    tx: Tx,
    stored: StoredTx,
    history: History,
    swap: Swap,
    answer: QueryAnswer,
)
    ensures
        history@.len() == history.0@.len(),
        forall|i: int| 0 <= i < history.0@.len() ==> #[trigger] history@[i] == history.0@[i]@,
        constants@.name == constants.name@,
        constants@.symbol == constants.symbol@,
        constants@.decimals == constants.decimals,
        constants@.admin == constants.admin.0@,
        tx@.sender == tx.sender.0@,
        tx@.receiver == tx.receiver.0@,
        tx@.coins.denom == tx.coins.denom@,
        tx@.coins.amount == tx.coins.amount,
        stored@.sender == stored.sender.0@,
        stored@.receiver == stored.receiver.0@,
        stored@.coins.denom == stored.coins.denom@,
        stored@.coins.amount == stored.coins.amount,
        swap@.destination == swap.destination@,
        swap@.amount == swap.amount,
        swap@.nonce == swap.nonce,
        match answer {
            QueryAnswer::Text(bytes) => answer@ == QueryAnswerView::Text(bytes@),
            QueryAnswer::Swap { result } => answer@ == (QueryAnswerView::Swap {
                result: result@,
            }),
        },
{
}

/// A response is seen with all that it sends, logs and answers.
pub proof fn law_responses_are_seen(r: HandleResponse, init: InitResponse, i: int)
    ensures
        r@.messages.len() == r.messages@.len(),
        r@.log.len() == r.log@.len(),
        r@.data == r.data,
        0 <= i < r.messages@.len() ==> r@.messages[i] == r.messages@[i]@,
        0 <= i < r.log@.len() ==> r@.log[i] == r.log@[i]@,
        init@.messages.len() == init.messages@.len(),
        init@.log.len() == init.log@.len(),
        init@.data is None,
        0 <= i < init.messages@.len() ==> init@.messages[i] == init.messages@[i]@,
        0 <= i < init.log@.len() ==> init@.log[i] == init.log@[i]@,
{
}

/// Log lines and sent coins are seen as they are.
pub proof fn law_lines_and_payments_are_seen(l: LogAttribute, m: CosmosMsg, i: int)
    ensures
        l@.key == l.key@,
        l@.value == l.value@,
        match m {
            CosmosMsg::Bank(BankMsg::Send { from_address, to_address, amount }) => {
                &&& m@.from_address == from_address.0@
                &&& m@.to_address == to_address.0@
                &&& m@.amount.len() == amount@.len()
                &&& 0 <= i < amount@.len() ==> m@.amount[i].denom == amount@[i].denom@
                    && m@.amount[i].amount == amount@[i].amount
            },
        },
{
}

/// An error is seen with its kind and its texts.
pub proof fn law_errors_are_seen(e: StdError)
    ensures
        match e {
            StdError::GenericErr { msg } => e@ == (StdErrorView::GenericErr { msg: msg@ }),
            StdError::InvalidBase64 { msg } => e@ == (StdErrorView::InvalidBase64 { msg: msg@ }),
            StdError::InvalidUtf8 { msg } => e@ == (StdErrorView::InvalidUtf8 { msg: msg@ }),
            StdError::NotFound { kind } => e@ == (StdErrorView::NotFound { kind: kind@ }),
            StdError::ParseErr { target, msg } => e@ == (StdErrorView::ParseErr {
                target: target@,
                msg: msg@,
            }),
            StdError::SerializeErr { source, msg } => e@ == (StdErrorView::SerializeErr {
                source: source@,
                msg: msg@,
            }),
            StdError::Unauthorized => e@ is Unauthorized,
            StdError::Underflow { minuend, subtrahend } => e@ == (StdErrorView::Underflow {
                minuend: minuend@,
                subtrahend: subtrahend@,
            }),
        },
{
}

/// What a message works on is seen part by part.
pub proof fn law_surroundings_are_seen(deps: Deps)
    ensures
        deps@.storage == deps.storage@,
        deps@.api == deps.api@,
        deps@.keys == deps.keys@,
{
}

} // verus!
