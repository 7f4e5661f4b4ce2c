//! The contract: its instantiation, its messages and its queries.

use vstd::prelude::*;
use vstd::slice::slice_to_vec;
use vstd::string::*;

use crate::deps::{Deps, DepsView};
use crate::display::to_display_token;
use crate::listing::write_transfers;
use crate::model::{
    approve_step, authenticated_answer, balance_answer, balance_fits, balance_step, burn_fits,
    burn_step, change_admin_step, check_allowance_step, create_key_fits, create_key_step,
    deposit_fits, deposit_step, deposited, given_out, handle_fits, handle_step, init_fits,
    init_step, key_fits, lemma_given_out_grows, lemma_given_out_stops, mint_fits, mint_step,
    moved, native_denom, no_digest, opens, query_answer, question_fits, seed_bytes, set_key_fits,
    set_key_step, shown_balance, swap_answer, swap_step, transfer_from_step, transfer_step,
    transfers_answer, withdraw_step, Step,
};
use crate::msg::{HandleAnswer, HandleMsg, InitMsg, QueryAnswer, QueryMsg, ResponseStatus};
use crate::names::{is_valid_name, is_valid_symbol};
use crate::state::{
    get_swap, get_transfers, read_allowance, read_viewing_key, store_swap, store_transfer,
    write_allowance, write_viewing_key, Constants, Storage,
};
use crate::table::TableKey;
use crate::text::{shortfall_text, u128_to_string};
use crate::types::{
    log, result_view, BankMsg, CanonicalAddr, Coin, CoinView, CosmosMsg, Env, HandleResponse,
    HumanAddr, InitResponse, LogAttribute, LogView, ResponseView, StdError,
};
use crate::utils::ConstLenStr;
use crate::viewing_key::{ViewingKey, API_KEY_LENGTH};

verus! {

/// What a message has left of the step that it was to take.
pub open spec fn took(
    before: DepsView,
    after: DepsView,
    r: Result<HandleResponse, StdError>,
    step: Step,
) -> bool {
    &&& after == DepsView { storage: step.storage, ..before }
    &&& result_view(r) == step.outcome
}

/// Instantiates the contract.
pub fn init(deps: &mut Deps, _env: Env, msg: InitMsg) -> (r: Result<InitResponse, StdError>)
    requires
        init_fits(old(deps)@, msg@),
    ensures
        final(deps)@ == (DepsView { storage: init_step(old(deps)@, msg@).storage, ..old(deps)@ }),
        result_view(r) == init_step(old(deps)@, msg@).outcome,
{
    let ghost d = deps@;
    let ghost list = msg@.initial_balances;
    let mut total_supply: u128 = 0;
    let mut i: usize = 0;
    assert(list.take(0) =~= Seq::empty());
    while i < msg.initial_balances.len()
        invariant
            i <= msg.initial_balances@.len(),
            list == msg@.initial_balances,
            d == old(deps)@,
            init_fits(d, msg@),
            deps@ == (DepsView { storage: given_out(d, list.take(i as int)).0, ..d }),
            total_supply == given_out(d, list.take(i as int)).1,
            given_out(d, list.take(i as int)).2 is Ok,
        decreases msg.initial_balances@.len() - i,
    {
        let balance = &msg.initial_balances[i];
        proof {
            assert(list.take(i + 1).drop_last() =~= list.take(i as int));
            assert(list.take(i + 1).last() == balance@);
        }
        match deps.api.canonical_address(&balance.address) {
            Ok(balance_address) => {
                proof {
                    lemma_given_out_grows(d, list, i + 1);
                }
                deps.storage.set_account_balance(&balance_address, balance.amount);
                total_supply = total_supply + balance.amount;
            },
            Err(e) => {
                proof {
                    lemma_given_out_stops(d, list, i + 1);
                }
                return Err(e);
            },
        }
        i = i + 1;
    }
    assert(list.take(i as int) =~= list);

    if !is_valid_name(msg.name.as_str()) {
        return Err(
            StdError::generic_err(
                "Name is not in the expected format (3-30 UTF-8 bytes)".to_owned(),
            ),
        );
    }
    if !is_valid_symbol(msg.symbol.as_str()) {
        return Err(
            StdError::generic_err("Ticker symbol is not in expected format [A-Z]{3,6}".to_owned()),
        );
    }
    if msg.decimals > 18 {
        return Err(StdError::generic_err("Decimals must not exceed 18".to_owned()));
    }
    let constants = Constants {
        name: msg.name,
        symbol: msg.symbol,
        decimals: msg.decimals,
        admin: msg.admin,
    };
    deps.storage.set_constants(constants);
    deps.storage.set_total_supply(total_supply);
    let response = InitResponse { messages: Vec::new(), log: Vec::new() };
    assert(response@ =~= ResponseView {
        messages: Seq::empty(),
        log: Seq::empty(),
        data: None,
    });
    Ok(response)
}

/// A response that sends nothing.
fn respond(log: Vec<LogAttribute>, data: Option<HandleAnswer>) -> (r: HandleResponse)
    ensures
        r@ == (ResponseView {
            messages: Seq::empty(),
            log: lines_view(log@),
            data,
        }),
{
    let r = HandleResponse { messages: Vec::new(), log, data };
    assert(r@.messages =~= Seq::empty());
    r
}

/// The views of log lines.
pub open spec fn lines_view(lines: Seq<LogAttribute>) -> Seq<LogView> {
    lines.map_values(|l: LogAttribute| l@)
}

fn no_lines() -> (r: Vec<LogAttribute>)
    ensures
        lines_view(r@) == Seq::<LogView>::empty(),
{
    let v: Vec<LogAttribute> = Vec::new();
    assert(lines_view(v@) =~= Seq::<LogView>::empty());
    v
}

fn one_line(a: LogAttribute) -> (r: Vec<LogAttribute>)
    ensures
        lines_view(r@) == seq![a@],
{
    let mut v: Vec<LogAttribute> = Vec::new();
    v.push(a);
    assert(lines_view(v@) =~= seq![a@]);
    v
}

fn two_lines(a: LogAttribute, b: LogAttribute) -> (r: Vec<LogAttribute>)
    ensures
        lines_view(r@) == seq![a@, b@],
{
    let mut v: Vec<LogAttribute> = Vec::new();
    v.push(a);
    v.push(b);
    assert(lines_view(v@) =~= seq![a@, b@]);
    v
}

fn three_lines(a: LogAttribute, b: LogAttribute, c: LogAttribute) -> (r: Vec<LogAttribute>)
    ensures
        lines_view(r@) == seq![a@, b@, c@],
{
    let mut v: Vec<LogAttribute> = Vec::new();
    v.push(a);
    v.push(b);
    v.push(c);
    assert(lines_view(v@) =~= seq![a@, b@, c@]);
    v
}

fn four_lines(a: LogAttribute, b: LogAttribute, c: LogAttribute, d: LogAttribute) -> (r: Vec<
    LogAttribute,
>)
    ensures
        lines_view(r@) == seq![a@, b@, c@, d@],
{
    let mut v: Vec<LogAttribute> = Vec::new();
    v.push(a);
    v.push(b);
    v.push(c);
    v.push(d);
    assert(lines_view(v@) =~= seq![a@, b@, c@, d@]);
    v
}

/// Makes `address` the admin.
pub fn change_admin(deps: &mut Deps, env: Env, address: HumanAddr) -> (r: Result<
    HandleResponse,
    StdError,
>)
    ensures
        took(old(deps)@, final(deps)@, r, change_admin_step(old(deps)@, env@, address@)),
{
    let mut consts = match deps.storage.constants() {
        Ok(c) => c.clone(),
        Err(e) => return Err(e),
    };
    if !consts.admin.same(&env.message.sender) {
        return Err(
            StdError::generic_err("Admin commands can only be ran from admin address".to_owned()),
        );
    }
    consts.admin = address;
    deps.storage.set_constants(consts);
    Ok(respond(no_lines(), None))
}

/// Makes new tokens for `address`.
pub fn try_mint(deps: &mut Deps, env: Env, address: HumanAddr, amount: u128) -> (r: Result<
    HandleResponse,
    StdError,
>)
    requires
        mint_fits(old(deps)@, env@, address@, amount),
    ensures
        took(old(deps)@, final(deps)@, r, mint_step(old(deps)@, env@, address@, amount)),
{
    match deps.storage.constants() {
        Ok(c) => if !c.admin.same(&env.message.sender) {
            return Err(
                StdError::generic_err(
                    "Admin commands can only be ran from admin address".to_owned(),
                ),
            );
        },
        Err(e) => return Err(e),
    }
    let total = deps.storage.total_supply() + amount;
    deps.storage.set_total_supply(total);
    let recipient_account = match deps.api.canonical_address(&address) {
        Ok(a) => a,
        Err(e) => return Err(e),
    };
    let account_balance = deps.storage.balance(&recipient_account) + amount;
    deps.storage.set_account_balance(&recipient_account, account_balance);
    Ok(respond(no_lines(), Some(HandleAnswer::Mint { status: ResponseStatus::Success })))
}

/// Keeps `key` as the viewing key of the sender.
pub fn try_set_key(deps: &mut Deps, env: Env, key: String) -> (r: Result<HandleResponse, StdError>)
    requires
        set_key_fits(old(deps)@, env@, key@),
    ensures
        took(old(deps)@, final(deps)@, r, set_key_step(old(deps)@, env@, key@)),
{
    let vk = ViewingKey(key);
    if !vk.is_valid() {
        let mut text = "viewing key must be a string exactly ".to_owned();
        text.append(u128_to_string(API_KEY_LENGTH as u128).as_str());
        text.append(" characters!");
        let lines = two_lines(log("result", "failed!"), log("viewing key", text.as_str()));
        return Ok(respond(lines, None));
    }
    let message_sender = match deps.api.canonical_address(&env.message.sender) {
        Ok(a) => a,
        Err(e) => return Err(e),
    };
    write_viewing_key(&mut deps.storage, &deps.keys, &message_sender, &vk);
    let lines = two_lines(log("result", "success"), log("viewing key", vk.0.as_str()));
    Ok(respond(lines, None))
}

/// The seed of new viewing keys.
pub fn key_seed() -> (r: Vec<u8>)
    ensures
        r@ == seed_bytes(),
{
    let seed: Vec<u8> = vec![121, 111];
    assert(seed@ =~= seed_bytes());
    seed
}

/// Has a viewing key made for the sender, and keeps it.
pub fn try_create_key(deps: &mut Deps, env: Env, entropy: String) -> (r: Result<
    HandleResponse,
    StdError,
>)
    requires
        create_key_fits(old(deps)@, env@, entropy@),
    ensures
        took(old(deps)@, final(deps)@, r, create_key_step(old(deps)@, env@, entropy@)),
{
    let entropy_bytes = slice_to_vec(entropy.as_str().as_bytes());
    let vk = ViewingKey::new(&deps.keys, &env, key_seed(), entropy_bytes);
    let message_sender = match deps.api.canonical_address(&env.message.sender) {
        Ok(a) => a,
        Err(e) => return Err(e),
    };
    write_viewing_key(&mut deps.storage, &deps.keys, &message_sender, &vk);
    let lines = one_line(log("viewing key", vk.0.as_str()));
    Ok(respond(lines, None))
}

/// Tells the sender what the spender may still take.
pub fn try_check_allowance(deps: &mut Deps, env: Env, spender: HumanAddr) -> (r: Result<
    HandleResponse,
    StdError,
>)
    ensures
        took(old(deps)@, final(deps)@, r, check_allowance_step(old(deps)@, env@, spender@)),
{
    let sender_address = match deps.api.canonical_address(&env.message.sender) {
        Ok(a) => a,
        Err(e) => return Err(e),
    };
    let spender_address = match deps.api.canonical_address(&spender) {
        Ok(a) => a,
        Err(e) => return Err(e),
    };
    let amount = match read_allowance(&deps.storage, &sender_address, &spender_address) {
        Ok(a) => u128_to_string(a),
        Err(_) => "0".to_owned(),
    };
    let lines = four_lines(
        log("action", "check_allowance"),
        log("account", env.message.sender.as_str()),
        log("spender", spender.as_str()),
        log("amount", ConstLenStr(amount).render().as_str()),
    );
    Ok(respond(lines, None))
}

/// Tells the sender what it holds.
pub fn try_balance(deps: &mut Deps, env: Env) -> (r: Result<HandleResponse, StdError>)
    requires
        old(deps)@.api.canonical_address(env@.sender) matches Ok(a) ==> balance_fits(
            old(deps)@.storage,
            a,
        ),
    ensures
        took(old(deps)@, final(deps)@, r, balance_step(old(deps)@, env@)),
{
    let sender_address = match deps.api.canonical_address(&env.message.sender) {
        Ok(a) => a,
        Err(e) => return Err(e),
    };
    let amount = match get_balance(deps, &sender_address) {
        Ok(text) => text,
        Err(_) => "0".to_owned(),
    };
    let lines = three_lines(
        log("action", "balance"),
        log("account", env.message.sender.as_str()),
        log("amount", ConstLenStr(amount).render().as_str()),
    );
    Ok(respond(lines, None))
}

/// What the account holds, as it is shown.
pub fn get_balance(deps: &Deps, account: &CanonicalAddr) -> (r: Result<String, StdError>)
    requires
        balance_fits(deps@.storage, account@),
    ensures
        result_view(r) == shown_balance(deps@.storage, account@),
{
    let account_balance = deps.storage.balance(account);
    match deps.storage.constants() {
        Ok(c) => Ok(to_display_token(account_balance, c.symbol.as_str(), c.decimals)),
        Err(e) => Err(e),
    }
}

/// How much of the native coin came with the message.
pub fn deposit_amount(env: &Env) -> (r: u128)
    ensures
        r == deposited(env@.sent_funds),
{
    let mut amount: u128 = 0;
    let mut i: usize = 0;
    let native = "uscrt".to_owned();
    let ghost funds = env@.sent_funds;
    while i < env.message.sent_funds.len()
        invariant
            i <= env.message.sent_funds@.len(),
            funds == env@.sent_funds,
            native@ == native_denom(),
            amount == deposited(funds.take(i as int)),
        decreases env.message.sent_funds@.len() - i,
    {
        proof {
            assert(funds.take(i + 1).drop_last() =~= funds.take(i as int));
            assert(funds.take(i + 1).last() == env.message.sent_funds@[i as int]@);
        }
        if env.message.sent_funds[i].denom == native {
            amount = env.message.sent_funds[i].amount;
        }
        i = i + 1;
    }
    assert(funds.take(i as int) =~= funds);
    amount
}

/// Turns the native coins that came with the message into as many tokens of the sender.
pub fn try_deposit(deps: &mut Deps, env: Env) -> (r: Result<HandleResponse, StdError>)
    requires
        deposit_fits(old(deps)@, env@),
    ensures
        took(old(deps)@, final(deps)@, r, deposit_step(old(deps)@, env@)),
{
    let amount = deposit_amount(&env);
    if amount == 0 {
        return Err(StdError::generic_err("Lol send some funds dude".to_owned()));
    }
    let sender_address = match deps.api.canonical_address(&env.message.sender) {
        Ok(a) => a,
        Err(e) => return Err(e),
    };
    let account_balance = deps.storage.balance(&sender_address) + amount;
    deps.storage.set_account_balance(&sender_address, account_balance);
    let total_supply = deps.storage.total_supply() + amount;
    deps.storage.set_total_supply(total_supply);
    let lines = three_lines(
        log("action", "deposit"),
        log("account", env.message.sender.as_str()),
        log("amount", u128_to_string(amount).as_str()),
    );
    Ok(respond(lines, None))
}

/// Takes `amount` of the sender's tokens out of the balance and out of the supply.
fn destroy(deps: &mut Deps, env: &Env, amount: u128) -> (r: Result<(), StdError>)
    requires
        burn_fits(old(deps)@, env@, amount),
    ensures
        final(deps)@ == (DepsView {
            storage: burn_step(old(deps)@, env@, amount).storage,
            ..old(deps)@
        }),
        match burn_step(old(deps)@, env@, amount).outcome {
            Ok(_) => r is Ok,
            Err(e) => r is Err && r->Err_0@ == e,
        },
{
    let sender_address = match deps.api.canonical_address(&env.message.sender) {
        Ok(a) => a,
        Err(e) => return Err(e),
    };
    let account_balance = deps.storage.balance(&sender_address);
    if account_balance < amount {
        return Err(
            StdError::generic_err(
                shortfall_text("insufficient funds to burn: balance=", account_balance, amount),
            ),
        );
    }
    deps.storage.set_account_balance(&sender_address, account_balance - amount);
    let total_supply = deps.storage.total_supply() - amount;
    deps.storage.set_total_supply(total_supply);
    Ok(())
}

/// Turns tokens of the sender back into as many native coins, which are sent to it.
pub fn try_withdraw(deps: &mut Deps, env: Env, amount: u128) -> (r: Result<
    HandleResponse,
    StdError,
>)
    requires
        burn_fits(old(deps)@, env@, amount),
    ensures
        took(old(deps)@, final(deps)@, r, withdraw_step(old(deps)@, env@, amount)),
{
    match destroy(deps, &env, amount) {
        Ok(_) => {},
        Err(e) => return Err(e),
    }
    let mut withdrawal_coins: Vec<Coin> = Vec::new();
    withdrawal_coins.push(Coin { denom: "uscrt".to_owned(), amount });
    let send = CosmosMsg::Bank(
        BankMsg::Send {
            from_address: env.contract.address.clone(),
            to_address: env.message.sender.clone(),
            amount: withdrawal_coins,
        },
    );
    let lines = three_lines(
        log("action", "withdraw"),
        log("account", env.message.sender.as_str()),
        log("amount", u128_to_string(amount).as_str()),
    );
    let mut messages: Vec<CosmosMsg> = Vec::new();
    messages.push(send);
    proof {
        assert(send@.amount =~= seq![CoinView { denom: native_denom(), amount }]);
        assert(messages@.map_values(|m: CosmosMsg| m@) =~= seq![send@]);
    }
    Ok(HandleResponse { messages, log: lines, data: None })
}

/// Destroys tokens of the sender.
pub fn try_burn(deps: &mut Deps, env: Env, amount: u128) -> (r: Result<HandleResponse, StdError>)
    requires
        burn_fits(old(deps)@, env@, amount),
    ensures
        took(old(deps)@, final(deps)@, r, burn_step(old(deps)@, env@, amount)),
{
    match destroy(deps, &env, amount) {
        Ok(_) => {},
        Err(e) => return Err(e),
    }
    let lines = three_lines(
        log("action", "burn"),
        log("account", env.message.sender.as_str()),
        log("amount", u128_to_string(amount).as_str()),
    );
    Ok(respond(lines, None))
}

/// Destroys tokens of the sender, to be paid out to `destination` elsewhere.
pub fn try_swap(
    deps: &mut Deps,
    env: Env,
    amount: u128,
    _network: String,
    destination: String,
) -> (r: Result<HandleResponse, StdError>)
    requires
        burn_fits(old(deps)@, env@, amount),
    ensures
        took(old(deps)@, final(deps)@, r, swap_step(old(deps)@, env@, amount, destination@)),
{
    match try_burn(deps, env, amount) {
        Ok(_) => {},
        Err(e) => return Err(e),
    }
    match store_swap(&mut deps.storage, destination, amount) {
        Ok(_) => {},
        Err(e) => return Err(e),
    }
    Ok(respond(no_lines(), Some(HandleAnswer::Swap { status: ResponseStatus::Success })))
}

/// Moves tokens from one account to another.
pub fn perform_transfer(
    store: &mut Storage,
    from: &CanonicalAddr,
    to: &CanonicalAddr,
    amount: u128,
) -> (r: Result<(), StdError>)
    ensures
        final(store)@ == moved(old(store)@, from@, to@, amount).0,
        match moved(old(store)@, from@, to@, amount).1 {
            Ok(_) => r is Ok,
            Err(e) => r is Err && r->Err_0@ == e,
        },
{
    let from_balance = store.balance(from);
    if from_balance < amount {
        return Err(
            StdError::generic_err(
                shortfall_text("Insufficient funds: balance=", from_balance, amount),
            ),
        );
    }
    store.set_account_balance(from, from_balance - amount);
    let to_balance = match store.balance(to).checked_add(amount) {
        Some(b) => b,
        None => return Err(
            StdError::generic_err(
                "This tx will literally make them too rich. Try transferring less".to_owned(),
            ),
        ),
    };
    store.set_account_balance(to, to_balance);
    Ok(())
}

/// Moves tokens of the sender to `recipient`.
pub fn try_transfer(deps: &mut Deps, env: Env, recipient: &HumanAddr, amount: u128) -> (r: Result<
    HandleResponse,
    StdError,
>)
    ensures
        took(old(deps)@, final(deps)@, r, transfer_step(old(deps)@, env@, recipient@, amount)),
{
    let sender_address = match deps.api.canonical_address(&env.message.sender) {
        Ok(a) => a,
        Err(e) => return Err(e),
    };
    let recipient_address = match deps.api.canonical_address(recipient) {
        Ok(a) => a,
        Err(e) => return Err(e),
    };
    match perform_transfer(&mut deps.storage, &sender_address, &recipient_address, amount) {
        Ok(_) => {},
        Err(e) => return Err(e),
    }
    let symbol = match deps.storage.constants() {
        Ok(c) => c.symbol.clone(),
        Err(e) => return Err(e),
    };
    store_transfer(&mut deps.storage, &sender_address, &recipient_address, amount, symbol);
    let lines = three_lines(
        log("action", "transfer"),
        log("sender", env.message.sender.as_str()),
        log("recipient", recipient.as_str()),
    );
    Ok(respond(lines, Some(HandleAnswer::Transfer { status: ResponseStatus::Success })))
}

/// Moves tokens of `owner` to `recipient`, as far as the owner allowed it to the sender.
pub fn try_transfer_from(
    deps: &mut Deps,
    env: Env,
    owner: &HumanAddr,
    recipient: &HumanAddr,
    amount: u128,
) -> (r: Result<HandleResponse, StdError>)
    ensures
        took(
            old(deps)@,
            final(deps)@,
            r,
            transfer_from_step(old(deps)@, env@, owner@, recipient@, amount),
        ),
{
    let spender_address = match deps.api.canonical_address(&env.message.sender) {
        Ok(a) => a,
        Err(e) => return Err(e),
    };
    let owner_address = match deps.api.canonical_address(owner) {
        Ok(a) => a,
        Err(e) => return Err(e),
    };
    let recipient_address = match deps.api.canonical_address(recipient) {
        Ok(a) => a,
        Err(e) => return Err(e),
    };
    let allowance = match read_allowance(&deps.storage, &owner_address, &spender_address) {
        Ok(a) => a,
        Err(e) => return Err(e),
    };
    if allowance < amount {
        return Err(
            StdError::generic_err(
                shortfall_text("Insufficient allowance: allowance=", allowance, amount),
            ),
        );
    }
    write_allowance(&mut deps.storage, &owner_address, &spender_address, allowance - amount);
    match perform_transfer(&mut deps.storage, &owner_address, &recipient_address, amount) {
        Ok(_) => {},
        Err(e) => return Err(e),
    }
    let symbol = match deps.storage.constants() {
        Ok(c) => c.symbol.clone(),
        Err(e) => return Err(e),
    };
    store_transfer(&mut deps.storage, &owner_address, &recipient_address, amount, symbol);
    let lines = four_lines(
        log("action", "transfer_from"),
        log("spender", env.message.sender.as_str()),
        log("sender", owner.as_str()),
        log("recipient", recipient.as_str()),
    );
    Ok(respond(lines, None))
}

/// Allows `spender` to take this much of the sender's tokens.
pub fn try_approve(deps: &mut Deps, env: Env, spender: &HumanAddr, amount: u128) -> (r: Result<
    HandleResponse,
    StdError,
>)
    ensures
        took(old(deps)@, final(deps)@, r, approve_step(old(deps)@, env@, spender@, amount)),
{
    let owner_address = match deps.api.canonical_address(&env.message.sender) {
        Ok(a) => a,
        Err(e) => return Err(e),
    };
    let spender_address = match deps.api.canonical_address(spender) {
        Ok(a) => a,
        Err(e) => return Err(e),
    };
    write_allowance(&mut deps.storage, &owner_address, &spender_address, amount);
    let lines = three_lines(
        log("action", "approve"),
        log("owner", env.message.sender.as_str()),
        log("spender", spender.as_str()),
    );
    Ok(respond(lines, None))
}

/// Runs a message.
pub fn handle(deps: &mut Deps, env: Env, msg: HandleMsg) -> (r: Result<HandleResponse, StdError>)
    requires
        handle_fits(old(deps)@, env@, msg@),
    ensures
        took(old(deps)@, final(deps)@, r, handle_step(old(deps)@, env@, msg@)),
{
    match msg {
        HandleMsg::Deposit => try_deposit(deps, env),
        HandleMsg::Withdraw { amount } => try_withdraw(deps, env, amount),
        HandleMsg::Balance => try_balance(deps, env),
        HandleMsg::Transfer { recipient, amount } => try_transfer(deps, env, &recipient, amount),
        HandleMsg::Burn { amount } => try_burn(deps, env, amount),
        HandleMsg::Mint { amount, address } => try_mint(deps, env, address, amount),
        HandleMsg::ChangeAdmin { address } => change_admin(deps, env, address),
        HandleMsg::CreateViewingKey { entropy } => try_create_key(deps, env, entropy),
        HandleMsg::SetViewingKey { key } => try_set_key(deps, env, key),
        HandleMsg::TransferFrom { owner, recipient, amount } => try_transfer_from(
            deps,
            env,
            &owner,
            &recipient,
            amount,
        ),
        HandleMsg::Allowance { spender } => try_check_allowance(deps, env, spender),
        HandleMsg::Approve { spender, amount } => try_approve(deps, env, &spender, amount),
        HandleMsg::Swap { amount, network, destination } => try_swap(
            deps,
            env,
            amount,
            network,
            destination,
        ),
    }
}

/// Whether the key opens the account.
///
/// A key is held against a digest whether or not one is kept, so that the time that this takes does
/// not tell which.
pub fn key_opens(deps: &Deps, account: &CanonicalAddr, key: &ViewingKey) -> (r: bool)
    requires
        key_fits(deps@, account@, key@),
    ensures
        r == opens(deps@, account@, key@),
{
    match read_viewing_key(&deps.storage, account) {
        Some(digest) => key.check_viewing_key(&deps.keys, &digest),
        None => {
            let zeros: Vec<u8> = vec![0; 24];
            assert(zeros@ =~= no_digest());
            key.check_viewing_key(&deps.keys, &zeros)
        },
    }
}

/// Answers a question about an account to those who have its viewing key.
pub fn authenticated_queries(deps: &Deps, msg: QueryMsg) -> (r: Result<QueryAnswer, StdError>)
    requires
        msg@.needs_key(),
        question_fits(deps@, msg@),
    ensures
        result_view(r) == authenticated_answer(deps@, msg@),
{
    let (address, key) = msg.get_validation_params();
    let canonical_addr = match deps.api.canonical_address(address) {
        Ok(a) => a,
        Err(e) => return Err(e),
    };
    if !key_opens(deps, &canonical_addr, &key) {
        return Ok(
            QueryAnswer::Text(
                slice_to_vec(
                    "Wrong viewing key for this address or viewing key not set".as_bytes(),
                ),
            ),
        );
    }
    match &msg {
        QueryMsg::Balance { address, .. } => query_balance(deps, address),
        QueryMsg::Transfers { address, n, .. } => query_transactions(deps, address, *n),
        QueryMsg::Swap { .. } => vstd::pervasive::unreached(),
    }
}

/// Answers a question.
pub fn query(deps: &Deps, msg: QueryMsg) -> (r: Result<QueryAnswer, StdError>)
    requires
        msg@.needs_key() ==> question_fits(deps@, msg@),
    ensures
        result_view(r) == query_answer(deps@, msg@),
{
    match msg {
        QueryMsg::Swap { nonce } => query_swap(deps, nonce),
        _ => authenticated_queries(deps, msg),
    }
}

/// Answers the question for a swap.
pub fn query_swap(deps: &Deps, nonce: u32) -> (r: Result<QueryAnswer, StdError>)
    ensures
        result_view(r) == swap_answer(deps@, nonce),
{
    match get_swap(&deps.storage, nonce) {
        Ok(result) => Ok(QueryAnswer::Swap { result }),
        Err(e) => Err(e),
    }
}

/// Answers the question for the newest transfers of an account.
pub fn query_transactions(deps: &Deps, account: &HumanAddr, count: u32) -> (r: Result<
    QueryAnswer,
    StdError,
>)
    requires
        deps@.api.canonical_address(account@) is Ok,
    ensures
        result_view(r) == transfers_answer(
            deps@,
            deps@.api.canonical_address(account@)->Ok_0,
            count,
        ),
{
    match deps.api.canonical_address(account) {
        Ok(address) => match get_transfers(&deps.api, &deps.storage, &address, count) {
            Ok(txs) => Ok(
                QueryAnswer::Text(slice_to_vec(write_transfers(&txs).as_str().as_bytes())),
            ),
            Err(e) => Err(e),
        },
        Err(_) => vstd::pervasive::unreached(),
    }
}

/// Answers the question for the balance of an account.
pub fn query_balance(deps: &Deps, account: &HumanAddr) -> (r: Result<QueryAnswer, StdError>)
    requires
        deps@.api.canonical_address(account@) matches Ok(a) ==> balance_fits(deps@.storage, a),
    ensures
        result_view(r) == balance_answer(deps@, account@),
{
    let address = match deps.api.canonical_address(account) {
        Ok(a) => a,
        Err(e) => return Err(e),
    };
    match get_balance(deps, &address) {
        Ok(text) => Ok(QueryAnswer::Text(slice_to_vec(text.as_str().as_bytes()))),
        Err(e) => Err(e),
    }
}

} // verus!
