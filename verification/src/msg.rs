//! The messages that the contract takes, and the answers that it gives.

use vstd::prelude::*;

use crate::state::{Swap, SwapView};
use crate::types::HumanAddr;
use crate::viewing_key::ViewingKey;

verus! {

/// What one account holds from the start.
#[derive(Debug)]
pub struct InitialBalance {
    pub address: HumanAddr,
    pub amount: u128,
}

/// The view of [`InitialBalance`].
pub struct InitialBalanceView {
    pub address: Seq<char>,
    pub amount: u128,
}

impl View for InitialBalance {
    type V = InitialBalanceView;

    open spec fn view(&self) -> InitialBalanceView {
        InitialBalanceView { address: self.address@, amount: self.amount }
    }
}

/// The message that instantiates the contract.
#[derive(Debug)]
pub struct InitMsg {
    pub name: String,
    pub admin: HumanAddr,
    pub symbol: String,
    pub decimals: u8,
    pub initial_balances: Vec<InitialBalance>,
}

/// The view of [`InitMsg`].
pub struct InitMsgView {
    pub name: Seq<char>,
    pub admin: Seq<char>,
    pub symbol: Seq<char>,
    pub decimals: u8,
    pub initial_balances: Seq<InitialBalanceView>,
}

impl View for InitMsg {
    type V = InitMsgView;

    open spec fn view(&self) -> InitMsgView {
        InitMsgView {
            name: self.name@,
            admin: self.admin@,
            symbol: self.symbol@,
            decimals: self.decimals,
            initial_balances: self.initial_balances@.map_values(|b: InitialBalance| b@),
        }
    }
}

/// A message to a running contract.
#[derive(Debug)]
pub enum HandleMsg {
    Deposit,
    Withdraw { amount: u128 },
    Balance,
    Transfer { recipient: HumanAddr, amount: u128 },
    Burn { amount: u128 },
    Mint { amount: u128, address: HumanAddr },
    ChangeAdmin { address: HumanAddr },
    CreateViewingKey { entropy: String },
    SetViewingKey { key: String },
    TransferFrom { owner: HumanAddr, recipient: HumanAddr, amount: u128 },
    Allowance { spender: HumanAddr },
    Approve { spender: HumanAddr, amount: u128 },
    Swap { amount: u128, network: String, destination: String },
}

/// The view of [`HandleMsg`].
pub enum HandleMsgView {
    Deposit,
    Withdraw { amount: u128 },
    Balance,
    Transfer { recipient: Seq<char>, amount: u128 },
    Burn { amount: u128 },
    Mint { amount: u128, address: Seq<char> },
    ChangeAdmin { address: Seq<char> },
    CreateViewingKey { entropy: Seq<char> },
    SetViewingKey { key: Seq<char> },
    TransferFrom { owner: Seq<char>, recipient: Seq<char>, amount: u128 },
    Allowance { spender: Seq<char> },
    Approve { spender: Seq<char>, amount: u128 },
    Swap { amount: u128, network: Seq<char>, destination: Seq<char> },
}

impl View for HandleMsg {
    type V = HandleMsgView;

    open spec fn view(&self) -> HandleMsgView {
        match self {
            HandleMsg::Deposit => HandleMsgView::Deposit,
            HandleMsg::Withdraw { amount } => HandleMsgView::Withdraw { amount: *amount },
            HandleMsg::Balance => HandleMsgView::Balance,
            HandleMsg::Transfer { recipient, amount } => HandleMsgView::Transfer {
                recipient: recipient@,
                amount: *amount,
            },
            HandleMsg::Burn { amount } => HandleMsgView::Burn { amount: *amount },
            HandleMsg::Mint { amount, address } => HandleMsgView::Mint {
                amount: *amount,
                address: address@,
            },
            HandleMsg::ChangeAdmin { address } => HandleMsgView::ChangeAdmin { address: address@ },
            HandleMsg::CreateViewingKey { entropy } => HandleMsgView::CreateViewingKey {
                entropy: entropy@,
            },
            HandleMsg::SetViewingKey { key } => HandleMsgView::SetViewingKey { key: key@ },
            HandleMsg::TransferFrom { owner, recipient, amount } => HandleMsgView::TransferFrom {
                owner: owner@,
                recipient: recipient@,
                amount: *amount,
            },
            HandleMsg::Allowance { spender } => HandleMsgView::Allowance { spender: spender@ },
            HandleMsg::Approve { spender, amount } => HandleMsgView::Approve {
                spender: spender@,
                amount: *amount,
            },
            HandleMsg::Swap { amount, network, destination } => HandleMsgView::Swap {
                amount: *amount,
                network: network@,
                destination: destination@,
            },
        }
    }
}

/// Whether a message did what it was sent for.
#[derive(Debug, Clone, Copy, PartialEq, Eq)]
pub enum ResponseStatus {
    Success,
    Failure,
}

/// The data of a response.
#[derive(Debug, Clone, Copy, PartialEq, Eq)]
pub enum HandleAnswer {
    Mint { status: ResponseStatus },
    Transfer { status: ResponseStatus },
    Swap { status: ResponseStatus },
}

/// A question to the contract.
#[derive(Debug)]
pub enum QueryMsg {
    Balance { address: HumanAddr, key: String },
    Transfers { address: HumanAddr, key: String, n: u32 },
    Swap { nonce: u32 },
}

/// The view of [`QueryMsg`].
pub enum QueryMsgView {
    Balance { address: Seq<char>, key: Seq<char> },
    Transfers { address: Seq<char>, key: Seq<char>, n: u32 },
    Swap { nonce: u32 },
}

impl View for QueryMsg {
    type V = QueryMsgView;

    open spec fn view(&self) -> QueryMsgView {
        match self {
            QueryMsg::Balance { address, key } => QueryMsgView::Balance {
                address: address@,
                key: key@,
            },
            QueryMsg::Transfers { address, key, n } => QueryMsgView::Transfers {
                address: address@,
                key: key@,
                n: *n,
            },
            QueryMsg::Swap { nonce } => QueryMsgView::Swap { nonce: *nonce },
        }
    }
}

impl QueryMsgView {
    /// Whether the question is about an account, and so needs its viewing key.
    pub open spec fn needs_key(self) -> bool {
        !(self is Swap)
    }

    /// The account that the question is about.
    pub open spec fn account(self) -> Seq<char> {
        match self {
            QueryMsgView::Balance { address, .. } => address,
            QueryMsgView::Transfers { address, .. } => address,
            QueryMsgView::Swap { .. } => Seq::empty(),
        }
    }

    /// The viewing key that comes with the question.
    pub open spec fn presented_key(self) -> Seq<char> {
        match self {
            QueryMsgView::Balance { key, .. } => key,
            QueryMsgView::Transfers { key, .. } => key,
            QueryMsgView::Swap { .. } => Seq::empty(),
        }
    }
}

impl QueryMsg {
    /// The account that the question is about, and the viewing key that comes with it.
    pub fn get_validation_params(&self) -> (r: (&HumanAddr, ViewingKey))
        requires
            self@.needs_key(),
        ensures
            r.0@ == self@.account(),
            r.1@ == self@.presented_key(),
    {
        match self {
            QueryMsg::Balance { address, key } => (address, ViewingKey(key.clone())),
            QueryMsg::Transfers { address, key, .. } => (address, ViewingKey(key.clone())),
            QueryMsg::Swap { .. } => vstd::pervasive::unreached(),
        }
    }
}

/// What a question is answered.
#[derive(Debug, PartialEq, Eq)]
pub enum QueryAnswer {
    /// A text, as its bytes.
    Text(Vec<u8>),
    /// A recorded swap.
    Swap { result: Swap },
}

/// The view of [`QueryAnswer`].
#[verifier::ext_equal]
pub enum QueryAnswerView {
    Text(Seq<u8>),
    Swap { result: SwapView },
}

impl View for QueryAnswer {
    type V = QueryAnswerView;

    open spec fn view(&self) -> QueryAnswerView {
        match self {
            QueryAnswer::Text(bytes) => QueryAnswerView::Text(bytes@),
            QueryAnswer::Swap { result } => QueryAnswerView::Swap { result: result@ },
        }
    }
}

} // verus!
