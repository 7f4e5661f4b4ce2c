//! Whether a call stays within the range of amounts and finds the keys answered that it asks for,
//! to be asked before the call is made.

use vstd::prelude::*;
use vstd::slice::slice_to_vec;
use vstd::string::*;

use crate::contract::{deposit_amount, key_opens, key_seed};
use crate::deps::Deps;
use crate::display::can_display;
use crate::model::{
    balance_fits, burn_fits, create_key_fits, given_out, handle_fits, init_fits, key_fits,
    lemma_given_out_grows, lemma_given_out_stops, no_digest, question_fits, set_key_fits,
};
use crate::msg::{HandleMsg, InitMsg, QueryMsg};
use crate::state::read_viewing_key;
use crate::table::TableKey;
use crate::types::{CanonicalAddr, Env};
use crate::viewing_key::{KeyRequest, ViewingKey};

verus! {

fn balance_in_range(deps: &Deps, account: &CanonicalAddr) -> (r: bool)
    ensures
        r == balance_fits(deps@.storage, account@),
{
    match deps.storage.constants() {
        Ok(c) => can_display(deps.storage.balance(account), c.decimals),
        Err(_) => true,
    }
}

fn burn_in_range(deps: &Deps, env: &Env, amount: u128) -> (r: bool)
    ensures
        r == burn_fits(deps@, env@, amount),
{
    match deps.api.canonical_address(&env.message.sender) {
        Ok(a) => deps.storage.balance(&a) < amount || deps.storage.total_supply() >= amount,
        Err(_) => true,
    }
}

fn set_key_in_range(deps: &Deps, env: &Env, key: &String) -> (r: bool)
    ensures
        r == set_key_fits(deps@, env@, key@),
{
    let vk = ViewingKey(key.clone());
    !vk.is_valid() || deps.api.canonical_address(&env.message.sender).is_err() || deps.keys.digest(
        &vk,
    ).is_some()
}

fn create_key_in_range(deps: &Deps, env: &Env, entropy: &String) -> (r: bool)
    ensures
        r == create_key_fits(deps@, env@, entropy@),
{
    let request = KeyRequest {
        sender: env.message.sender.clone(),
        seed: key_seed(),
        entropy: slice_to_vec(entropy.as_str().as_bytes()),
    };
    if !deps.keys.has_made(&request) {
        return false;
    }
    let vk = ViewingKey::new(&deps.keys, env, request.seed, request.entropy);
    deps.api.canonical_address(&env.message.sender).is_err() || deps.keys.digest(&vk).is_some()
}

fn key_in_range(deps: &Deps, account: &CanonicalAddr, key: &ViewingKey) -> (r: bool)
    ensures
        r == key_fits(deps@, account@, key@),
{
    if deps.keys.digest(key).is_none() {
        return false;
    }
    // The key is compared whether or not one is set, so that the time tells nothing here either.
    let (is_set, digest) = match read_viewing_key(&deps.storage, account) {
        Some(digest) => (true, digest),
        None => {
            let zeros: Vec<u8> = vec![0; 24];
            assert(zeros@ =~= no_digest());
            (false, zeros)
        },
    };
    let same = key.check_viewing_key(&deps.keys, &digest);
    is_set || !same
}

/// Whether a message may be run.
pub fn handle_in_range(deps: &Deps, env: &Env, msg: &HandleMsg) -> (r: bool)
    ensures
        r == handle_fits(deps@, env@, msg@),
{
    match msg {
        HandleMsg::Deposit => {
            let amount = deposit_amount(env);
            match deps.api.canonical_address(&env.message.sender) {
                Ok(a) => amount == 0 || (deps.storage.balance(&a) <= u128::MAX - amount
                    && deps.storage.total_supply() <= u128::MAX - amount),
                Err(_) => true,
            }
        },
        HandleMsg::Withdraw { amount } => burn_in_range(deps, env, *amount),
        HandleMsg::Burn { amount } => burn_in_range(deps, env, *amount),
        HandleMsg::Swap { amount, .. } => burn_in_range(deps, env, *amount),
        HandleMsg::Balance => match deps.api.canonical_address(&env.message.sender) {
            Ok(a) => balance_in_range(deps, &a),
            Err(_) => true,
        },
        HandleMsg::Mint { amount, address } => match deps.storage.constants() {
            Ok(c) => !c.admin.same(&env.message.sender) || (deps.storage.total_supply() <= u128::MAX
                - *amount && match deps.api.canonical_address(address) {
                Ok(a) => deps.storage.balance(&a) <= u128::MAX - *amount,
                Err(_) => true,
            }),
            Err(_) => true,
        },
        HandleMsg::CreateViewingKey { entropy } => create_key_in_range(deps, env, entropy),
        HandleMsg::SetViewingKey { key } => set_key_in_range(deps, env, key),
        _ => true,
    }
}

/// Whether the contract may be instantiated.
pub fn init_in_range(deps: &Deps, msg: &InitMsg) -> (r: bool)
    ensures
        r == init_fits(deps@, msg@),
{
    let ghost d = deps@;
    let ghost list = msg@.initial_balances;
    let mut total: u128 = 0;
    let mut i: usize = 0;
    assert(list.take(0) =~= Seq::empty());
    while i < msg.initial_balances.len()
        invariant
            i <= msg.initial_balances@.len(),
            d == deps@,
            list == msg@.initial_balances,
            total == given_out(d, list.take(i as int)).1,
            given_out(d, list.take(i as int)).2 is Ok,
        decreases msg.initial_balances@.len() - i,
    {
        let entry = &msg.initial_balances[i];
        proof {
            assert(list.take(i + 1).drop_last() =~= list.take(i as int));
            assert(list.take(i + 1).last() == entry@);
        }
        match deps.api.canonical_address(&entry.address) {
            Ok(_) => {
                if total > u128::MAX - entry.amount {
                    proof {
                        lemma_given_out_grows(d, list, i + 1);
                    }
                    return false;
                }
                total = total + entry.amount;
            },
            Err(_) => {
                proof {
                    lemma_given_out_stops(d, list, i + 1);
                }
                return true;
            },
        }
        i = i + 1;
    }
    assert(list.take(i as int) =~= list);
    true
}

/// Whether a question may be asked.
pub fn question_in_range(deps: &Deps, msg: &QueryMsg) -> (r: bool)
    requires
        msg@.needs_key(),
    ensures
        r == question_fits(deps@, msg@),
{
    let (address, key) = msg.get_validation_params();
    match deps.api.canonical_address(address) {
        Err(_) => true,
        Ok(a) => key_in_range(deps, &a, &key) && match msg {
            QueryMsg::Balance { .. } => !key_opens(deps, &a, &key) || balance_in_range(deps, &a),
            _ => true,
        },
    }
}

} // verus!
