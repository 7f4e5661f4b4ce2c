//! What each message does, and what each question is answered, as functions of the storage and of
//! the answers that the chain and the key derivation gave.

use vstd::prelude::*;
use vstd::utf8::encode_utf8;

use crate::deps::DepsView;
use crate::display::{display_token, displayable};
use crate::listing::shown_transfers;
use crate::msg::{
    HandleAnswer, HandleMsgView, InitMsgView, InitialBalanceView, QueryAnswerView, QueryMsgView,
    ResponseStatus,
};
use crate::names::{valid_name, valid_symbol};
use crate::state::{all_humanized, key_kept, ConstantsView, StorageView};
use crate::text::{decimal_digits, shortfall};
use crate::types::{
    generic, line, CoinView, EnvView, LogView, ResponseView, SendView, StdErrorView,
};
use crate::utils::{filled, CONST_LEN};
use crate::viewing_key::{KeyRequestView, API_KEY_LENGTH};

verus! {

/// What a message leaves in the storage, and what it answers.
#[verifier::ext_equal]
pub struct Step {
    pub storage: StorageView,
    pub outcome: Result<ResponseView, StdErrorView>,
}

/// The message ends with an error, the storage being what it is by now.
pub open spec fn refused(s: StorageView, e: StdErrorView) -> Step {
    Step { storage: s, outcome: Err(e) }
}

/// The message ends with this log and data, and sends nothing.
pub open spec fn answered(s: StorageView, log: Seq<LogView>, data: Option<HandleAnswer>) -> Step {
    Step { storage: s, outcome: Ok(ResponseView { messages: Seq::empty(), log, data }) }
}

/// The sum of the two amounts.
pub open spec fn sum(a: u128, b: u128) -> u128 {
    (a + b) as u128
}

/// What is left of `a` without `b`.
pub open spec fn rest(a: u128, b: u128) -> u128 {
    (a - b) as u128
}

/// The answer to those who are not the admin.
pub open spec fn admin_only() -> StdErrorView {
    generic("Admin commands can only be ran from admin address"@)
}

/// The admin hands the role to another address.
pub open spec fn change_admin_step(d: DepsView, env: EnvView, address: Seq<char>) -> Step {
    match d.storage.config() {
        Err(e) => refused(d.storage, e),
        Ok(c) => if c.admin != env.sender {
            refused(d.storage, admin_only())
        } else {
            answered(
                d.storage.with_constants(ConstantsView { admin: address, ..c }),
                Seq::empty(),
                None,
            )
        },
    }
}

/// Whether the sender of the message is the admin.
pub open spec fn sent_by_admin(d: DepsView, env: EnvView) -> bool {
    d.storage.config() matches Ok(c) && c.admin == env.sender
}

/// The admin makes new tokens for an account. The supply has grown by the time that the account's
/// address is found to be no address.
pub open spec fn mint_step(d: DepsView, env: EnvView, address: Seq<char>, amount: u128) -> Step {
    match d.storage.config() {
        Err(e) => refused(d.storage, e),
        Ok(c) => if c.admin != env.sender {
            refused(d.storage, admin_only())
        } else {
            let grown = d.storage.with_supply(sum(d.storage.total_supply, amount));
            match d.api.canonical_address(address) {
                Err(e) => refused(grown, e),
                Ok(a) => answered(
                    grown.with_balance(a, sum(grown.balance(a), amount)),
                    Seq::empty(),
                    Some(HandleAnswer::Mint { status: ResponseStatus::Success }),
                ),
            }
        },
    }
}

/// Whether minting stays within the range of amounts.
pub open spec fn mint_fits(d: DepsView, env: EnvView, address: Seq<char>, amount: u128) -> bool {
    sent_by_admin(d, env) ==> {
        &&& d.storage.total_supply + amount <= u128::MAX
        &&& d.api.canonical_address(address) matches Ok(a) ==> d.storage.balance(a) + amount
            <= u128::MAX
    }
}

/// The native coin that tokens are backed by.
pub open spec fn native_denom() -> Seq<char> {
    "uscrt"@
}

/// How much of the native coin came with the message: the last coin of that denomination counts.
pub open spec fn deposited(funds: Seq<CoinView>) -> u128
    decreases funds.len(),
{
    if funds.len() == 0 {
        0
    } else if funds.last().denom == native_denom() {
        funds.last().amount
    } else {
        deposited(funds.drop_last())
    }
}

/// The sender turns native coins into as many tokens.
pub open spec fn deposit_step(d: DepsView, env: EnvView) -> Step {
    let s = d.storage;
    let amount = deposited(env.sent_funds);
    if amount == 0 {
        refused(s, generic("Lol send some funds dude"@))
    } else {
        match d.api.canonical_address(env.sender) {
            Err(e) => refused(s, e),
            Ok(a) => answered(
                s.with_balance(a, sum(s.balance(a), amount)).with_supply(
                    sum(s.total_supply, amount),
                ),
                seq![
                    line("action"@, "deposit"@),
                    line("account"@, env.sender),
                    line("amount"@, decimal_digits(amount as nat)),
                ],
                None,
            ),
        }
    }
}

/// Whether the deposit stays within the range of amounts.
pub open spec fn deposit_fits(d: DepsView, env: EnvView) -> bool {
    let amount = deposited(env.sent_funds);
    amount != 0 ==> (d.api.canonical_address(env.sender) matches Ok(a) ==> {
        &&& d.storage.balance(a) + amount <= u128::MAX
        &&& d.storage.total_supply + amount <= u128::MAX
    })
}

/// The storage without `amount` of the account's tokens.
pub open spec fn destroyed(s: StorageView, account: Seq<u8>, amount: u128) -> StorageView {
    s.with_balance(account, rest(s.balance(account), amount)).with_supply(
        rest(s.total_supply, amount),
    )
}

/// The answer to those who want to destroy more than they have.
pub open spec fn too_little_to_burn(balance: u128, amount: u128) -> StdErrorView {
    generic(shortfall("insufficient funds to burn: balance="@, balance, amount))
}

/// The sender turns tokens back into as many native coins.
pub open spec fn withdraw_step(d: DepsView, env: EnvView, amount: u128) -> Step {
    let s = d.storage;
    match d.api.canonical_address(env.sender) {
        Err(e) => refused(s, e),
        Ok(a) => if s.balance(a) < amount {
            refused(s, too_little_to_burn(s.balance(a), amount))
        } else {
            Step {
                storage: destroyed(s, a, amount),
                outcome: Ok(
                    ResponseView {
                        messages: seq![
                            SendView {
                                from_address: env.contract,
                                to_address: env.sender,
                                amount: seq![CoinView { denom: native_denom(), amount }],
                            },
                        ],
                        log: seq![
                            line("action"@, "withdraw"@),
                            line("account"@, env.sender),
                            line("amount"@, decimal_digits(amount as nat)),
                        ],
                        data: None,
                    },
                ),
            }
        },
    }
}

/// The sender destroys tokens.
pub open spec fn burn_step(d: DepsView, env: EnvView, amount: u128) -> Step {
    let s = d.storage;
    match d.api.canonical_address(env.sender) {
        Err(e) => refused(s, e),
        Ok(a) => if s.balance(a) < amount {
            refused(s, too_little_to_burn(s.balance(a), amount))
        } else {
            answered(
                destroyed(s, a, amount),
                seq![
                    line("action"@, "burn"@),
                    line("account"@, env.sender),
                    line("amount"@, decimal_digits(amount as nat)),
                ],
                None,
            )
        },
    }
}

/// Whether the supply covers what the sender destroys.
pub open spec fn burn_fits(d: DepsView, env: EnvView, amount: u128) -> bool {
    d.api.canonical_address(env.sender) matches Ok(a) ==> (d.storage.balance(a) >= amount
        ==> d.storage.total_supply >= amount)
}

/// The sender destroys tokens, to be paid out elsewhere under the nonce of the swap.
pub open spec fn swap_step(
    d: DepsView,
    env: EnvView,
    amount: u128,
    destination: Seq<char>,
) -> Step {
    let burned = burn_step(d, env, amount);
    if burned.outcome is Err {
        burned
    } else if burned.storage.swaps.len() > u32::MAX {
        refused(burned.storage, generic("No nonce is left"@))
    } else {
        answered(
            burned.storage.with_swap(destination, amount),
            Seq::empty(),
            Some(HandleAnswer::Swap { status: ResponseStatus::Success }),
        )
    }
}

/// What moving tokens from one account to another leaves in the storage, and whether it was done.
/// The first account has been debited by the time that the other is found to hold too much.
pub open spec fn moved(s: StorageView, from: Seq<u8>, to: Seq<u8>, amount: u128) -> (
    StorageView,
    Result<(), StdErrorView>,
) {
    if s.balance(from) < amount {
        (s, Err(generic(shortfall("Insufficient funds: balance="@, s.balance(from), amount))))
    } else {
        let debited = s.with_balance(from, rest(s.balance(from), amount));
        if debited.balance(to) + amount > u128::MAX {
            (
                debited,
                Err(
                    generic(
                        "This tx will literally make them too rich. Try transferring less"@,
                    ),
                ),
            )
        } else {
            (debited.with_balance(to, sum(debited.balance(to), amount)), Ok(()))
        }
    }
}

/// Tokens are moved, and the transfer is recorded with both accounts.
pub open spec fn moved_and_recorded(
    s: StorageView,
    from: Seq<u8>,
    to: Seq<u8>,
    amount: u128,
    log: Seq<LogView>,
    data: Option<HandleAnswer>,
) -> Step {
    let (after, result) = moved(s, from, to, amount);
    match result {
        Err(e) => refused(after, e),
        Ok(_) => match after.config() {
            Err(e) => refused(after, e),
            Ok(c) => answered(after.with_transfer(from, to, amount, c.symbol), log, data),
        },
    }
}

/// The sender moves tokens to the recipient.
pub open spec fn transfer_step(
    d: DepsView,
    env: EnvView,
    recipient: Seq<char>,
    amount: u128,
) -> Step {
    match d.api.canonical_address(env.sender) {
        Err(e) => refused(d.storage, e),
        Ok(from) => match d.api.canonical_address(recipient) {
            Err(e) => refused(d.storage, e),
            Ok(to) => moved_and_recorded(
                d.storage,
                from,
                to,
                amount,
                seq![
                    line("action"@, "transfer"@),
                    line("sender"@, env.sender),
                    line("recipient"@, recipient),
                ],
                Some(HandleAnswer::Transfer { status: ResponseStatus::Success }),
            ),
        },
    }
}

/// The answer to those who want to spend more than they may.
pub open spec fn too_little_allowed(allowance: u128, amount: u128) -> StdErrorView {
    generic(shortfall("Insufficient allowance: allowance="@, allowance, amount))
}

/// The sender moves the owner's tokens to the recipient, as far as the owner allowed it.
pub open spec fn transfer_from_step(
    d: DepsView,
    env: EnvView,
    owner: Seq<char>,
    recipient: Seq<char>,
    amount: u128,
) -> Step {
    let s = d.storage;
    match d.api.canonical_address(env.sender) {
        Err(e) => refused(s, e),
        Ok(spender) => match d.api.canonical_address(owner) {
            Err(e) => refused(s, e),
            Ok(from) => match d.api.canonical_address(recipient) {
                Err(e) => refused(s, e),
                Ok(to) => match s.allowance(from, spender) {
                    Err(e) => refused(s, e),
                    Ok(allowance) => if allowance < amount {
                        refused(s, too_little_allowed(allowance, amount))
                    } else {
                        moved_and_recorded(
                            s.with_allowance(from, spender, rest(allowance, amount)),
                            from,
                            to,
                            amount,
                            seq![
                                line("action"@, "transfer_from"@),
                                line("spender"@, env.sender),
                                line("sender"@, owner),
                                line("recipient"@, recipient),
                            ],
                            None,
                        )
                    },
                },
            },
        },
    }
}

/// The sender allows the spender to take this much, in place of what was allowed before.
pub open spec fn approve_step(
    d: DepsView,
    env: EnvView,
    spender: Seq<char>,
    amount: u128,
) -> Step {
    match d.api.canonical_address(env.sender) {
        Err(e) => refused(d.storage, e),
        Ok(o) => match d.api.canonical_address(spender) {
            Err(e) => refused(d.storage, e),
            Ok(sp) => answered(
                d.storage.with_allowance(o, sp, amount),
                seq![
                    line("action"@, "approve"@),
                    line("owner"@, env.sender),
                    line("spender"@, spender),
                ],
                None,
            ),
        },
    }
}

/// What the log shows of an allowance: nothing allowed, if it cannot be read.
pub open spec fn shown_allowance(allowance: Result<u128, StdErrorView>) -> Seq<char> {
    match allowance {
        Ok(a) => decimal_digits(a as nat),
        Err(_) => "0"@,
    }
}

/// The sender asks what the spender may still take.
pub open spec fn check_allowance_step(d: DepsView, env: EnvView, spender: Seq<char>) -> Step {
    match d.api.canonical_address(env.sender) {
        Err(e) => refused(d.storage, e),
        Ok(o) => match d.api.canonical_address(spender) {
            Err(e) => refused(d.storage, e),
            Ok(sp) => answered(
                d.storage,
                seq![
                    line("action"@, "check_allowance"@),
                    line("account"@, env.sender),
                    line("spender"@, spender),
                    line(
                        "amount"@,
                        filled(shown_allowance(d.storage.allowance(o, sp)), CONST_LEN as nat),
                    ),
                ],
                None,
            ),
        },
    }
}

/// What an account holds, as it is shown.
pub open spec fn shown_balance(s: StorageView, account: Seq<u8>) -> Result<
    Seq<char>,
    StdErrorView,
> {
    match s.config() {
        Err(e) => Err(e),
        Ok(c) => Ok(display_token(s.balance(account), c.symbol, c.decimals)),
    }
}

/// Whether what the account holds can be shown.
pub open spec fn balance_fits(s: StorageView, account: Seq<u8>) -> bool {
    s.config() matches Ok(c) ==> displayable(s.balance(account), c.decimals)
}

/// What the log shows of a balance: nothing held, if it cannot be shown.
pub open spec fn text_or_zero(shown: Result<Seq<char>, StdErrorView>) -> Seq<char> {
    match shown {
        Ok(text) => text,
        Err(_) => "0"@,
    }
}

/// The sender asks what it holds.
pub open spec fn balance_step(d: DepsView, env: EnvView) -> Step {
    match d.api.canonical_address(env.sender) {
        Err(e) => refused(d.storage, e),
        Ok(a) => answered(
            d.storage,
            seq![
                line("action"@, "balance"@),
                line("account"@, env.sender),
                line(
                    "amount"@,
                    filled(text_or_zero(shown_balance(d.storage, a)), CONST_LEN as nat),
                ),
            ],
            None,
        ),
    }
}

/// What a viewing key of another length is answered.
pub open spec fn wrong_length_text() -> Seq<char> {
    "viewing key must be a string exactly "@ + decimal_digits(API_KEY_LENGTH as nat)
        + " characters!"@
}

/// The sender chooses its viewing key.
pub open spec fn set_key_step(d: DepsView, env: EnvView, key: Seq<char>) -> Step {
    if key.len() != API_KEY_LENGTH {
        answered(
            d.storage,
            seq![line("result"@, "failed!"@), line("viewing key"@, wrong_length_text())],
            None,
        )
    } else {
        match d.api.canonical_address(env.sender) {
            Err(e) => refused(d.storage, e),
            Ok(a) => answered(
                key_kept(d.storage, d.keys, a, key),
                seq![line("result"@, "success"@), line("viewing key"@, key)],
                None,
            ),
        }
    }
}

/// Whether the key derivation has answered what it takes to keep the key.
pub open spec fn set_key_fits(d: DepsView, env: EnvView, key: Seq<char>) -> bool {
    key.len() == API_KEY_LENGTH && d.api.canonical_address(env.sender) is Ok ==> d.keys.digest(
        key,
    ) is Some
}

/// The seed of new viewing keys: the two letters `yo`.
pub open spec fn seed_bytes() -> Seq<u8> {
    seq![121u8, 111u8]
}

/// What a new viewing key is derived from: the sender, the seed and the entropy.
pub open spec fn key_request(env: EnvView, entropy: Seq<char>) -> KeyRequestView {
    KeyRequestView { sender: env.sender, seed: seed_bytes(), entropy: encode_utf8(entropy) }
}

/// The sender has a viewing key made.
pub open spec fn create_key_step(d: DepsView, env: EnvView, entropy: Seq<char>) -> Step {
    let key = d.keys.new_key(key_request(env, entropy));
    match d.api.canonical_address(env.sender) {
        Err(e) => refused(d.storage, e),
        Ok(a) => answered(
            key_kept(d.storage, d.keys, a, key),
            seq![line("viewing key"@, key)],
            None,
        ),
    }
}

/// Whether the key derivation has answered what it takes to make the key and to keep it.
pub open spec fn create_key_fits(d: DepsView, env: EnvView, entropy: Seq<char>) -> bool {
    let request = key_request(env, entropy);
    &&& d.keys.has_made(request)
    &&& d.api.canonical_address(env.sender) is Ok ==> d.keys.digest(
        d.keys.new_key(request),
    ) is Some
}

/// What a message does.
pub open spec fn handle_step(d: DepsView, env: EnvView, msg: HandleMsgView) -> Step {
    match msg {
        HandleMsgView::Deposit => deposit_step(d, env),
        HandleMsgView::Withdraw { amount } => withdraw_step(d, env, amount),
        HandleMsgView::Balance => balance_step(d, env),
        HandleMsgView::Transfer { recipient, amount } => transfer_step(d, env, recipient, amount),
        HandleMsgView::Burn { amount } => burn_step(d, env, amount),
        HandleMsgView::Mint { amount, address } => mint_step(d, env, address, amount),
        HandleMsgView::ChangeAdmin { address } => change_admin_step(d, env, address),
        HandleMsgView::CreateViewingKey { entropy } => create_key_step(d, env, entropy),
        HandleMsgView::SetViewingKey { key } => set_key_step(d, env, key),
        HandleMsgView::TransferFrom { owner, recipient, amount } => transfer_from_step(
            d,
            env,
            owner,
            recipient,
            amount,
        ),
        HandleMsgView::Allowance { spender } => check_allowance_step(d, env, spender),
        HandleMsgView::Approve { spender, amount } => approve_step(d, env, spender, amount),
        HandleMsgView::Swap { amount, destination, .. } => swap_step(d, env, amount, destination),
    }
}

/// Whether all that the message computes stays within the range of amounts, and the key derivation
/// has answered what the message asks of it.
pub open spec fn handle_fits(d: DepsView, env: EnvView, msg: HandleMsgView) -> bool {
    match msg {
        HandleMsgView::Deposit => deposit_fits(d, env),
        HandleMsgView::Withdraw { amount } => burn_fits(d, env, amount),
        HandleMsgView::Balance => d.api.canonical_address(env.sender) matches Ok(a)
            ==> balance_fits(d.storage, a),
        HandleMsgView::Burn { amount } => burn_fits(d, env, amount),
        HandleMsgView::Mint { amount, address } => mint_fits(d, env, address, amount),
        HandleMsgView::Swap { amount, .. } => burn_fits(d, env, amount),
        HandleMsgView::CreateViewingKey { entropy } => create_key_fits(d, env, entropy),
        HandleMsgView::SetViewingKey { key } => set_key_fits(d, env, key),
        _ => true,
    }
}

/// What giving out the initial balances comes to, entry by entry up to the first whose address is
/// no address: the storage, how much was given out, and whether all was.
///
/// An account that is named twice holds what it is given last; both amounts count as given out.
pub open spec fn given_out(d: DepsView, list: Seq<InitialBalanceView>) -> (
    StorageView,
    nat,
    Result<(), StdErrorView>,
)
    decreases list.len(),
{
    if list.len() == 0 {
        (d.storage, 0, Ok(()))
    } else {
        let (s, total, result) = given_out(d, list.drop_last());
        match result {
            Err(e) => (s, total, Err(e)),
            Ok(_) => match d.api.canonical_address(list.last().address) {
                Err(e) => (s, total, Err(e)),
                Ok(a) => (
                    s.with_balance(a, list.last().amount),
                    total + list.last().amount as nat,
                    Ok(()),
                ),
            },
        }
    }
}

/// What is given out grows with every entry.
pub proof fn lemma_given_out_grows(d: DepsView, list: Seq<InitialBalanceView>, i: int)
    requires
        0 <= i <= list.len(),
    ensures
        given_out(d, list.take(i)).1 <= given_out(d, list).1,
    decreases list.len() - i,
{
    if i < list.len() {
        assert(list.take(i + 1).drop_last() =~= list.take(i));
        lemma_given_out_grows(d, list, i + 1);
    } else {
        assert(list.take(i) =~= list);
    }
}

/// Nothing is given out after the first entry that fails.
pub proof fn lemma_given_out_stops(d: DepsView, list: Seq<InitialBalanceView>, i: int)
    requires
        0 <= i <= list.len(),
        given_out(d, list.take(i)).2 is Err,
    ensures
        given_out(d, list) == given_out(d, list.take(i)),
    decreases list.len() - i,
{
    if i < list.len() {
        assert(list.take(i + 1).drop_last() =~= list.take(i));
        lemma_given_out_stops(d, list, i + 1);
    } else {
        assert(list.take(i) =~= list);
    }
}

/// The contract is instantiated. The initial balances are given out before the rest of the message
/// is looked at.
pub open spec fn init_step(d: DepsView, msg: InitMsgView) -> Step {
    let (s, total, result) = given_out(d, msg.initial_balances);
    match result {
        Err(e) => refused(s, e),
        Ok(_) => if !valid_name(msg.name) {
            refused(s, generic("Name is not in the expected format (3-30 UTF-8 bytes)"@))
        } else if !valid_symbol(msg.symbol) {
            refused(s, generic("Ticker symbol is not in expected format [A-Z]{3,6}"@))
        } else if msg.decimals > 18 {
            refused(s, generic("Decimals must not exceed 18"@))
        } else {
            answered(
                s.with_constants(
                    ConstantsView {
                        name: msg.name,
                        symbol: msg.symbol,
                        decimals: msg.decimals,
                        admin: msg.admin,
                    },
                ).with_supply(total as u128),
                Seq::empty(),
                None,
            )
        },
    }
}

/// Whether what is given out initially stays within the range of amounts.
pub open spec fn init_fits(d: DepsView, msg: InitMsgView) -> bool {
    given_out(d, msg.initial_balances).1 <= u128::MAX
}

/// What a question without the right viewing key is answered.
pub open spec fn wrong_key() -> QueryAnswerView {
    QueryAnswerView::Text(
        encode_utf8("Wrong viewing key for this address or viewing key not set"@),
    )
}

/// Whether the key opens the account: a key is set for it, and this is the one.
pub open spec fn opens(d: DepsView, account: Seq<u8>, key: Seq<char>) -> bool {
    d.storage.viewing_key(account) matches Some(digest) && d.keys.matches(key, digest)
}

/// What the question for an account's balance is answered.
pub open spec fn balance_answer(d: DepsView, address: Seq<char>) -> Result<
    QueryAnswerView,
    StdErrorView,
> {
    match d.api.canonical_address(address) {
        Err(e) => Err(e),
        Ok(a) => match shown_balance(d.storage, a) {
            Err(e) => Err(e),
            Ok(text) => Ok(QueryAnswerView::Text(encode_utf8(text))),
        },
    }
}

/// What the question for the transfers of an account is answered.
pub open spec fn transfers_answer(d: DepsView, account: Seq<u8>, n: u32) -> Result<
    QueryAnswerView,
    StdErrorView,
> {
    match all_humanized(d.storage.newest(account, n), d.api) {
        Err(e) => Err(e),
        Ok(txs) => Ok(QueryAnswerView::Text(encode_utf8(shown_transfers(txs)))),
    }
}

/// What the question for a swap is answered.
pub open spec fn swap_answer(d: DepsView, nonce: u32) -> Result<QueryAnswerView, StdErrorView> {
    match d.storage.swap(nonce) {
        Err(e) => Err(e),
        Ok(result) => Ok(QueryAnswerView::Swap { result }),
    }
}

/// What a question about an account is answered.
pub open spec fn authenticated_answer(d: DepsView, msg: QueryMsgView) -> Result<
    QueryAnswerView,
    StdErrorView,
> {
    match d.api.canonical_address(msg.account()) {
        Err(e) => Err(e),
        Ok(a) => if !opens(d, a, msg.presented_key()) {
            Ok(wrong_key())
        } else {
            match msg {
                QueryMsgView::Balance { address, .. } => balance_answer(d, address),
                QueryMsgView::Transfers { n, .. } => transfers_answer(d, a, n),
                QueryMsgView::Swap { nonce } => swap_answer(d, nonce),
            }
        },
    }
}

/// The digest that a key is held against where no key is set.
pub open spec fn no_digest() -> Seq<u8> {
    Seq::new(24, |i: int| 0u8)
}

/// Whether the key can be held against the one of the account: its digest is known, and where no
/// key is set, it is not the one that stands for none.
pub open spec fn key_fits(d: DepsView, account: Seq<u8>, key: Seq<char>) -> bool {
    &&& d.keys.digest(key) is Some
    &&& d.storage.viewing_key(account) is None ==> !d.keys.matches(key, no_digest())
}

/// Whether the question can be answered: its key can be held against the one of the account, and a
/// balance that is asked for with the right key can be shown.
pub open spec fn question_fits(d: DepsView, msg: QueryMsgView) -> bool {
    d.api.canonical_address(msg.account()) matches Ok(a) ==> {
        &&& key_fits(d, a, msg.presented_key())
        &&& opens(d, a, msg.presented_key()) && msg is Balance ==> balance_fits(d.storage, a)
    }
}

/// What a question is answered.
pub open spec fn query_answer(d: DepsView, msg: QueryMsgView) -> Result<
    QueryAnswerView,
    StdErrorView,
> {
    match msg {
        QueryMsgView::Swap { nonce } => swap_answer(d, nonce),
        _ => authenticated_answer(d, msg),
    }
}

} // verus!
