//! The values that a message brings in and that a response carries out.

use vstd::prelude::*;
use vstd::slice::slice_to_vec;
use vstd::string::*;

use crate::msg::HandleAnswer;
use crate::table::TableKey;

verus! {

/// An address as people write it.
#[derive(Debug, PartialEq, Eq)]
pub struct HumanAddr(pub String);

impl View for HumanAddr {
    type V = Seq<char>;

    open spec fn view(&self) -> Seq<char> {
        self.0@
    }
}

impl Clone for HumanAddr {
    fn clone(&self) -> (r: Self)
        ensures
            r@ == self@,
    {
        HumanAddr(self.0.clone())
    }
}

impl TableKey for HumanAddr {
    fn same(&self, other: &Self) -> (r: bool) {
        self.0 == other.0
    }
}

impl HumanAddr {
    /// The text of the address.
    pub fn as_str(&self) -> (r: &str)
        ensures
            r@ == self@,
    {
        self.0.as_str()
    }
}

/// Whether the two byte strings hold the same bytes.
pub fn same_bytes(a: &Vec<u8>, b: &Vec<u8>) -> (r: bool)
    ensures
        r == (a@ == b@),
{
    if a.len() != b.len() {
        return false;
    }
    let mut i: usize = 0;
    while i < a.len()
        invariant
            i <= a@.len(),
            a@.len() == b@.len(),
            forall|j: int| 0 <= j < i ==> a@[j] == b@[j],
        decreases a@.len() - i,
    {
        if a[i] != b[i] {
            return false;
        }
        i = i + 1;
    }
    assert(a@ =~= b@);
    true
}

/// A copy of the byte string.
pub fn copy_bytes(a: &Vec<u8>) -> (r: Vec<u8>)
    ensures
        r@ == a@,
{
    slice_to_vec(a.as_slice())
}

/// An address in the binary form under which accounts are kept.
#[derive(Debug, PartialEq, Eq)]
pub struct CanonicalAddr(pub Vec<u8>);

impl View for CanonicalAddr {
    type V = Seq<u8>;

    open spec fn view(&self) -> Seq<u8> {
        self.0@
    }
}

impl Clone for CanonicalAddr {
    fn clone(&self) -> (r: Self)
        ensures
            r@ == self@,
    {
        CanonicalAddr(copy_bytes(&self.0))
    }
}

impl TableKey for CanonicalAddr {
    fn same(&self, other: &Self) -> (r: bool) {
        same_bytes(&self.0, &other.0)
    }
}

/// An amount of one denomination.
#[derive(Debug, PartialEq, Eq)]
pub struct Coin {
    pub denom: String,
    pub amount: u128,
}

/// The view of [`Coin`].
pub struct CoinView {
    pub denom: Seq<char>,
    pub amount: u128,
}

impl View for Coin {
    type V = CoinView;

    open spec fn view(&self) -> CoinView {
        CoinView { denom: self.denom@, amount: self.amount }
    }
}

impl Clone for Coin {
    fn clone(&self) -> (r: Self)
        ensures
            r@ == self@,
    {
        Coin { denom: self.denom.clone(), amount: self.amount }
    }
}

/// The views of a list of coins.
pub open spec fn coins_view(coins: Seq<Coin>) -> Seq<CoinView> {
    coins.map_values(|c: Coin| c@)
}

/// Who sent the message, and the native coins that came with it.
#[derive(Debug)]
pub struct MessageInfo {
    pub sender: HumanAddr,
    pub sent_funds: Vec<Coin>,
}

/// The contract that runs the message.
#[derive(Debug)]
pub struct ContractInfo {
    pub address: HumanAddr,
}

/// The circumstances of a message.
#[derive(Debug)]
pub struct Env {
    pub message: MessageInfo,
    pub contract: ContractInfo,
}

/// The view of [`Env`].
pub struct EnvView {
    pub sender: Seq<char>,
    pub sent_funds: Seq<CoinView>,
    pub contract: Seq<char>,
}

impl View for Env {
    type V = EnvView;

    open spec fn view(&self) -> EnvView {
        EnvView {
            sender: self.message.sender@,
            sent_funds: coins_view(self.message.sent_funds@),
            contract: self.contract.address@,
        }
    }
}

/// Why a message or a query was refused.
#[derive(Debug, PartialEq, Eq)]
pub enum StdError {
    GenericErr { msg: String },
    InvalidBase64 { msg: String },
    InvalidUtf8 { msg: String },
    NotFound { kind: String },
    ParseErr { target: String, msg: String },
    SerializeErr { source: String, msg: String },
    Unauthorized,
    Underflow { minuend: String, subtrahend: String },
}

/// The view of [`StdError`].
pub enum StdErrorView {
    GenericErr { msg: Seq<char> },
    InvalidBase64 { msg: Seq<char> },
    InvalidUtf8 { msg: Seq<char> },
    NotFound { kind: Seq<char> },
    ParseErr { target: Seq<char>, msg: Seq<char> },
    SerializeErr { source: Seq<char>, msg: Seq<char> },
    Unauthorized,
    Underflow { minuend: Seq<char>, subtrahend: Seq<char> },
}

impl View for StdError {
    type V = StdErrorView;

    open spec fn view(&self) -> StdErrorView {
        match self {
            StdError::GenericErr { msg } => StdErrorView::GenericErr { msg: msg@ },
            StdError::InvalidBase64 { msg } => StdErrorView::InvalidBase64 { msg: msg@ },
            StdError::InvalidUtf8 { msg } => StdErrorView::InvalidUtf8 { msg: msg@ },
            StdError::NotFound { kind } => StdErrorView::NotFound { kind: kind@ },
            StdError::ParseErr { target, msg } => StdErrorView::ParseErr {
                target: target@,
                msg: msg@,
            },
            StdError::SerializeErr { source, msg } => StdErrorView::SerializeErr {
                source: source@,
                msg: msg@,
            },
            StdError::Unauthorized => StdErrorView::Unauthorized,
            StdError::Underflow { minuend, subtrahend } => StdErrorView::Underflow {
                minuend: minuend@,
                subtrahend: subtrahend@,
            },
        }
    }
}

impl Clone for StdError {
    fn clone(&self) -> (r: Self)
        ensures
            r@ == self@,
    {
        match self {
            StdError::GenericErr { msg } => StdError::GenericErr { msg: msg.clone() },
            StdError::InvalidBase64 { msg } => StdError::InvalidBase64 { msg: msg.clone() },
            StdError::InvalidUtf8 { msg } => StdError::InvalidUtf8 { msg: msg.clone() },
            StdError::NotFound { kind } => StdError::NotFound { kind: kind.clone() },
            StdError::ParseErr { target, msg } => StdError::ParseErr {
                target: target.clone(),
                msg: msg.clone(),
            },
            StdError::SerializeErr { source, msg } => StdError::SerializeErr {
                source: source.clone(),
                msg: msg.clone(),
            },
            StdError::Unauthorized => StdError::Unauthorized,
            StdError::Underflow { minuend, subtrahend } => StdError::Underflow {
                minuend: minuend.clone(),
                subtrahend: subtrahend.clone(),
            },
        }
    }
}

/// The error that carries nothing but a text.
pub open spec fn generic(msg: Seq<char>) -> StdErrorView {
    StdErrorView::GenericErr { msg }
}

impl StdError {
    /// The error that carries nothing but a text.
    pub fn generic_err(msg: String) -> (r: Self)
        ensures
            r@ == generic(msg@),
    {
        StdError::GenericErr { msg }
    }

    /// The error for something that was looked up in vain.
    pub fn not_found(kind: &str) -> (r: Self)
        ensures
            r@ == (StdErrorView::NotFound { kind: kind@ }),
    {
        StdError::NotFound { kind: kind.to_owned() }
    }
}

/// One line of a response's log.
#[derive(Debug, PartialEq, Eq)]
pub struct LogAttribute {
    pub key: String,
    pub value: String,
}

/// The view of [`LogAttribute`].
pub struct LogView {
    pub key: Seq<char>,
    pub value: Seq<char>,
}

impl View for LogAttribute {
    type V = LogView;

    open spec fn view(&self) -> LogView {
        LogView { key: self.key@, value: self.value@ }
    }
}

/// The log line with this key and value.
pub open spec fn line(key: Seq<char>, value: Seq<char>) -> LogView {
    LogView { key, value }
}

/// Makes a log line.
pub fn log(key: &str, value: &str) -> (r: LogAttribute)
    ensures
        r@ == line(key@, value@),
{
    LogAttribute { key: key.to_owned(), value: value.to_owned() }
}

/// Native coins to be sent on behalf of the contract.
#[derive(Debug, PartialEq, Eq)]
pub enum BankMsg {
    Send { from_address: HumanAddr, to_address: HumanAddr, amount: Vec<Coin> },
}

/// A message for the chain, to be run after the contract's own.
#[derive(Debug, PartialEq, Eq)]
pub enum CosmosMsg {
    Bank(BankMsg),
}

/// The view of [`CosmosMsg`].
pub struct SendView {
    pub from_address: Seq<char>,
    pub to_address: Seq<char>,
    pub amount: Seq<CoinView>,
}

impl View for CosmosMsg {
    type V = SendView;

    open spec fn view(&self) -> SendView {
        match self {
            CosmosMsg::Bank(BankMsg::Send { from_address, to_address, amount }) => SendView {
                from_address: from_address@,
                to_address: to_address@,
                amount: coins_view(amount@),
            },
        }
    }
}

/// What a message of the contract answers.
#[derive(Debug, PartialEq, Eq)]
pub struct HandleResponse {
    pub messages: Vec<CosmosMsg>,
    pub log: Vec<LogAttribute>,
    pub data: Option<HandleAnswer>,
}

/// The view of [`HandleResponse`].
#[verifier::ext_equal]
pub struct ResponseView {
    pub messages: Seq<SendView>,
    pub log: Seq<LogView>,
    pub data: Option<HandleAnswer>,
}

impl View for HandleResponse {
    type V = ResponseView;

    open spec fn view(&self) -> ResponseView {
        ResponseView {
            messages: self.messages@.map_values(|m: CosmosMsg| m@),
            log: self.log@.map_values(|l: LogAttribute| l@),
            data: self.data,
        }
    }
}

/// What the instantiation of the contract answers.
#[derive(Debug, PartialEq, Eq)]
pub struct InitResponse {
    pub messages: Vec<CosmosMsg>,
    pub log: Vec<LogAttribute>,
}

impl View for InitResponse {
    type V = ResponseView;

    open spec fn view(&self) -> ResponseView {
        ResponseView {
            messages: self.messages@.map_values(|m: CosmosMsg| m@),
            log: self.log@.map_values(|l: LogAttribute| l@),
            data: None,
        }
    }
}

/// The views on both sides of a result.
pub open spec fn result_view<T: View>(r: Result<T, StdError>) -> Result<T::V, StdErrorView> {
    match r {
        Ok(t) => Ok(t@),
        Err(e) => Err(e@),
    }
}

} // verus!
