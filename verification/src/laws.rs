//! What holds of the contract as a whole.

use vstd::prelude::*;
use vstd::utf8::encode_utf8;

use crate::api::ApiView;
use crate::codec::law_amount_read_back;
use crate::deps::DepsView;
use crate::display::{display_token, law_display_is_short, lemma_amount_digit_count};
use crate::ledger::{held, lemma_held_set, lemma_two_held, solvent};
use crate::listing::shown_transfers;
use crate::model::{
    admin_only, approve_step, balance_answer, balance_step, burn_fits, burn_step,
    change_admin_step, check_allowance_step, create_key_fits, create_key_step, deposit_step,
    deposited, destroyed, given_out, handle_fits, handle_step, init_fits, init_step, key_request,
    mint_fits, mint_step, moved, opens, query_answer, refused, rest, sent_by_admin, set_key_fits,
    set_key_step, shown_allowance, shown_balance, sum, swap_answer, swap_step, text_or_zero,
    transfer_from_step, transfer_step, transfers_answer, withdraw_step, wrong_key, Step,
};
use crate::msg::{HandleMsgView, InitMsgView, InitialBalanceView, QueryAnswerView, QueryMsgView};
use crate::names::{valid_name, valid_symbol};
use crate::state::{
    all_humanized, ConstantsView, StorageView, StoredTxView, SwapView, TxView,
};
use crate::text::decimal_digits;
use crate::types::{CoinView, EnvView, StdErrorView};
use crate::utils::{filled, law_constant_length, CONST_LEN};
use crate::viewing_key::{KeyServiceView, API_KEY_LENGTH};

verus! {

/// The storage after the message.
pub open spec fn after(d: DepsView, step: Step) -> DepsView {
    DepsView { storage: step.storage, ..d }
}

proof fn lemma_destroyed(s: StorageView, a: Seq<u8>, amount: u128)
    requires
        s.valid(),
        s.balance(a) >= amount,
        s.total_supply >= amount,
    ensures
        destroyed(s, a, amount).valid(),
        held(destroyed(s, a, amount).balances) + amount == held(s.balances),
        destroyed(s, a, amount).total_supply + amount == s.total_supply,
{
    lemma_held_set(s, a, rest(s.balance(a), amount));
}

/// What moving tokens does to the ledger: if it is done, the sum of all balances and the supply
/// stay; if it is refused, nothing is added to any account.
pub proof fn law_move_conserves(s: StorageView, from: Seq<u8>, to: Seq<u8>, amount: u128)
    requires
        s.valid(),
    ensures
        moved(s, from, to, amount).0.valid(),
        moved(s, from, to, amount).0.total_supply == s.total_supply,
        moved(s, from, to, amount).1 is Ok ==> held(moved(s, from, to, amount).0.balances) == held(
            s.balances,
        ),
        moved(s, from, to, amount).1 is Err ==> held(moved(s, from, to, amount).0.balances)
            <= held(s.balances),
{
    if s.balance(from) >= amount {
        let debited = s.with_balance(from, rest(s.balance(from), amount));
        lemma_held_set(s, from, rest(s.balance(from), amount));
        lemma_held_set(debited, to, sum(debited.balance(to), amount));
    }
}

/// What moving tokens does to each account: the one is debited and the other credited with the
/// amount, a move to the account itself changes nothing, and no other account is touched.
pub proof fn law_move_is_exact(s: StorageView, from: Seq<u8>, to: Seq<u8>, amount: u128)
    requires
        moved(s, from, to, amount).1 is Ok,
    ensures
        from != to ==> moved(s, from, to, amount).0.balance(from) == s.balance(from) - amount,
        from != to ==> moved(s, from, to, amount).0.balance(to) == s.balance(to) + amount,
        from == to ==> moved(s, from, to, amount).0.balance(from) == s.balance(from),
        forall|x: Seq<u8>|
            x != from && x != to ==> #[trigger] moved(s, from, to, amount).0.balance(x)
                == s.balance(x),
{
}

/// On a solvent ledger a move is refused for one reason alone: the account holds too little.
pub proof fn law_solvent_never_too_rich(s: StorageView, from: Seq<u8>, to: Seq<u8>, amount: u128)
    requires
        s.valid(),
        solvent(s),
    ensures
        moved(s, from, to, amount).1 is Ok <==> s.balance(from) >= amount,
{
    if s.balance(from) >= amount {
        if from == to {
            lemma_held_set(s, from, 0);
        } else {
            lemma_two_held(s, from, to);
        }
    }
}

/// Every message keeps the ledger solvent, whether it is answered or refused.
pub proof fn law_handle_keeps_solvency(d: DepsView, env: EnvView, msg: HandleMsgView)
    requires
        d.storage.valid(),
        solvent(d.storage),
        handle_fits(d, env, msg),
    ensures
        handle_step(d, env, msg).storage.valid(),
        solvent(handle_step(d, env, msg).storage),
{
    law_handle_keeps_backing(d, env, msg);
}

/// A message that is answered changes the supply by what it changes the sum of all balances. One
/// that is refused leaves no less of the supply uncovered than there was.
pub proof fn law_handle_keeps_backing(d: DepsView, env: EnvView, msg: HandleMsgView)
    requires
        d.storage.valid(),
        handle_fits(d, env, msg),
    ensures
        handle_step(d, env, msg).storage.valid(),
        handle_step(d, env, msg).outcome is Ok ==> handle_step(d, env, msg).storage.total_supply
            - held(handle_step(d, env, msg).storage.balances) == d.storage.total_supply - held(
            d.storage.balances,
        ),
        handle_step(d, env, msg).outcome is Err ==> handle_step(d, env, msg).storage.total_supply
            - held(handle_step(d, env, msg).storage.balances) >= d.storage.total_supply - held(
            d.storage.balances,
        ),
{
    let s = d.storage;
    match msg {
        HandleMsgView::Deposit => {
            if let Ok(a) = d.api.canonical_address(env.sender) {
                lemma_held_set(s, a, sum(s.balance(a), deposited(env.sent_funds)));
            }
        },
        HandleMsgView::Withdraw { amount } => {
            if let Ok(a) = d.api.canonical_address(env.sender) {
                if s.balance(a) >= amount {
                    lemma_destroyed(s, a, amount);
                }
            }
        },
        HandleMsgView::Burn { amount } => {
            if let Ok(a) = d.api.canonical_address(env.sender) {
                if s.balance(a) >= amount {
                    lemma_destroyed(s, a, amount);
                }
            }
        },
        HandleMsgView::Swap { amount, .. } => {
            if let Ok(a) = d.api.canonical_address(env.sender) {
                if s.balance(a) >= amount {
                    lemma_destroyed(s, a, amount);
                }
            }
        },
        HandleMsgView::Mint { amount, address } => {
            if let Ok(a) = d.api.canonical_address(address) {
                let grown = s.with_supply(sum(s.total_supply, amount));
                lemma_held_set(grown, a, sum(grown.balance(a), amount));
            }
        },
        HandleMsgView::Transfer { recipient, amount } => {
            if let Ok(from) = d.api.canonical_address(env.sender) {
                if let Ok(to) = d.api.canonical_address(recipient) {
                    law_move_conserves(s, from, to, amount);
                }
            }
        },
        HandleMsgView::TransferFrom { owner, recipient, amount } => {
            if let Ok(spender) = d.api.canonical_address(env.sender) {
                if let Ok(from) = d.api.canonical_address(owner) {
                    if let Ok(to) = d.api.canonical_address(recipient) {
                        if let Ok(allowance) = s.allowance(from, spender) {
                            law_move_conserves(
                                s.with_allowance(from, spender, rest(allowance, amount)),
                                from,
                                to,
                                amount,
                            );
                        }
                    }
                }
            }
        },
        _ => {},
    }
}

/// On a solvent ledger the supply always covers what an account destroys.
pub proof fn law_solvent_covers_burns(d: DepsView, env: EnvView, amount: u128)
    requires
        d.storage.valid(),
        solvent(d.storage),
    ensures
        burn_fits(d, env, amount),
{
    if let Ok(a) = d.api.canonical_address(env.sender) {
        lemma_held_set(d.storage, a, 0);
    }
}

/// On a solvent ledger, minting stays in range wherever the new supply does.
pub proof fn law_solvent_mint_range(d: DepsView, env: EnvView, address: Seq<char>, amount: u128)
    requires
        d.storage.valid(),
        solvent(d.storage),
        d.storage.total_supply + amount <= u128::MAX,
    ensures
        mint_fits(d, env, address, amount),
{
    if let Ok(a) = d.api.canonical_address(address) {
        lemma_held_set(d.storage, a, 0);
    }
}

proof fn lemma_given_out(d: DepsView, list: Seq<InitialBalanceView>)
    requires
        d.storage.valid(),
    ensures
        given_out(d, list).0.valid(),
        held(given_out(d, list).0.balances) <= held(d.storage.balances) + given_out(d, list).1,
    decreases list.len(),
{
    if list.len() > 0 {
        lemma_given_out(d, list.drop_last());
        if given_out(d, list.drop_last()).2 is Ok {
            if let Ok(a) = d.api.canonical_address(list.last().address) {
                lemma_held_set(given_out(d, list.drop_last()).0, a, list.last().amount);
            }
        }
    }
}

/// A contract that was instantiated on a blank storage is solvent.
pub proof fn law_init_is_solvent(d: DepsView, msg: InitMsgView)
    requires
        d.storage == StorageView::blank(),
        init_fits(d, msg),
        init_step(d, msg).outcome is Ok,
    ensures
        init_step(d, msg).storage.valid(),
        solvent(init_step(d, msg).storage),
{
    assert(d.storage.balances.dom() =~= Set::empty());
    lemma_given_out(d, msg.initial_balances);
}

proof fn lemma_given_out_succeeds(d: DepsView, list: Seq<InitialBalanceView>)
    ensures
        given_out(d, list).2 is Ok <==> forall|i: int|
            0 <= i < list.len() ==> d.api.canonical_address((#[trigger] list[i]).address) is Ok,
    decreases list.len(),
{
    if list.len() > 0 {
        let front = list.drop_last();
        lemma_given_out_succeeds(d, front);
        if given_out(d, list).2 is Ok {
            assert forall|i: int| 0 <= i < list.len() implies d.api.canonical_address(
                (#[trigger] list[i]).address,
            ) is Ok by {
                if i < front.len() {
                    assert(front[i] == list[i]);
                }
            }
        }
        if forall|i: int|
            0 <= i < list.len() ==> d.api.canonical_address((#[trigger] list[i]).address) is Ok {
            assert(list[list.len() - 1] == list.last());
            assert forall|i: int| 0 <= i < front.len() implies d.api.canonical_address(
                (#[trigger] front[i]).address,
            ) is Ok by {
                assert(front[i] == list[i]);
            }
        }
    }
}

/// The contract is instantiated exactly if every initial balance is given to an address, the name
/// and the symbol are acceptable, and there are at most eighteen decimals. It then keeps the
/// constants that it was given.
pub proof fn law_init_accepts(d: DepsView, msg: InitMsgView)
    ensures
        init_step(d, msg).outcome is Ok <==> {
            &&& forall|i: int|
                0 <= i < msg.initial_balances.len() ==> d.api.canonical_address(
                    (#[trigger] msg.initial_balances[i]).address,
                ) is Ok
            &&& valid_name(msg.name)
            &&& valid_symbol(msg.symbol)
            &&& msg.decimals <= 18
        },
        init_step(d, msg).outcome is Ok ==> init_step(d, msg).storage.config() == Ok::<
            ConstantsView,
            StdErrorView,
        >(
            ConstantsView {
                name: msg.name,
                symbol: msg.symbol,
                decimals: msg.decimals,
                admin: msg.admin,
            },
        ),
{
    lemma_given_out_succeeds(d, msg.initial_balances);
}

/// Whether no two entries name the same account.
pub open spec fn distinct_accounts(d: DepsView, list: Seq<InitialBalanceView>) -> bool {
    forall|i: int, j: int|
        0 <= i < j < list.len() ==> d.api.canonical_address((#[trigger] list[i]).address)
            != d.api.canonical_address((#[trigger] list[j]).address)
}

proof fn lemma_given_out_distinct(d: DepsView, list: Seq<InitialBalanceView>)
    requires
        d.storage == StorageView::blank(),
        distinct_accounts(d, list),
        given_out(d, list).2 is Ok,
    ensures
        given_out(d, list).0.valid(),
        held(given_out(d, list).0.balances) == given_out(d, list).1,
        forall|i: int|
            #![trigger list[i]]
            0 <= i < list.len() ==> (d.api.canonical_address(list[i].address) matches Ok(a)
                && given_out(d, list).0.balance(a) == list[i].amount),
        forall|x: Seq<u8>|
            (forall|i: int|
                0 <= i < list.len() ==> d.api.canonical_address((#[trigger] list[i]).address)
                    != Ok::<Seq<u8>, StdErrorView>(x)) ==> #[trigger] given_out(d, list).0.balance(
                x,
            ) == 0,
    decreases list.len(),
{
    if list.len() == 0 {
        assert(d.storage.balances.dom() =~= Set::empty());
    } else {
        let front = list.drop_last();
        assert forall|i: int, j: int| 0 <= i < j < front.len() implies d.api.canonical_address(
            (#[trigger] front[i]).address,
        ) != d.api.canonical_address((#[trigger] front[j]).address) by {
            assert(front[i] == list[i] && front[j] == list[j]);
        }
        lemma_given_out_distinct(d, front);
        let a = d.api.canonical_address(list.last().address)->Ok_0;
        let n = list.len() - 1;
        let s = given_out(d, front).0;
        assert forall|i: int| 0 <= i < front.len() implies d.api.canonical_address(
            (#[trigger] front[i]).address,
        ) != Ok::<Seq<u8>, StdErrorView>(a) by {
            assert(front[i] == list[i]);
            assert(list[n] == list.last());
        }
        assert(s.balance(a) == 0);
        lemma_held_set(s, a, list.last().amount);
        let t = given_out(d, list).0;
        assert forall|i: int| #![trigger list[i]] 0 <= i < list.len() implies (
        d.api.canonical_address(list[i].address) matches Ok(b) && t.balance(b)
            == list[i].amount) by {
            if i < n {
                assert(front[i] == list[i]);
                assert(list[n] == list.last());
            }
        }
        assert forall|x: Seq<u8>|
            (forall|i: int|
                0 <= i < list.len() ==> d.api.canonical_address((#[trigger] list[i]).address)
                    != Ok::<Seq<u8>, StdErrorView>(x)) implies #[trigger] t.balance(x) == 0 by {
            assert(list[n] == list.last());
            assert forall|i: int| 0 <= i < front.len() implies d.api.canonical_address(
                (#[trigger] front[i]).address,
            ) != Ok::<Seq<u8>, StdErrorView>(x) by {
                assert(front[i] == list[i]);
            }
            assert(s.balance(x) == 0);
        }
    }
}

/// Where the initial balances name every account once, each account holds what it was given,
/// nobody else holds anything, and the supply is exactly what is held.
pub proof fn law_init_gives_out_exactly(d: DepsView, msg: InitMsgView)
    requires
        d.storage == StorageView::blank(),
        init_fits(d, msg),
        init_step(d, msg).outcome is Ok,
        distinct_accounts(d, msg.initial_balances),
    ensures
        held(init_step(d, msg).storage.balances) == init_step(d, msg).storage.total_supply,
        forall|i: int|
            #![trigger msg.initial_balances[i]]
            0 <= i < msg.initial_balances.len() ==> (d.api.canonical_address(
                msg.initial_balances[i].address,
            ) matches Ok(a) && init_step(d, msg).storage.balance(a)
                == msg.initial_balances[i].amount),
        forall|x: Seq<u8>|
            (forall|i: int|
                0 <= i < msg.initial_balances.len() ==> d.api.canonical_address(
                    (#[trigger] msg.initial_balances[i]).address,
                ) != Ok::<Seq<u8>, StdErrorView>(x)) ==> #[trigger] init_step(
                d,
                msg,
            ).storage.balance(x) == 0,
{
    let list = msg.initial_balances;
    lemma_given_out_distinct(d, list);
    let s = given_out(d, list).0;
    let t = init_step(d, msg).storage;
    assert(t.balances == s.balances);
    assert forall|i: int| #![trigger list[i]] 0 <= i < list.len() implies (d.api.canonical_address(
        list[i].address,
    ) matches Ok(a) && t.balance(a) == list[i].amount) by {
        let a = d.api.canonical_address(list[i].address)->Ok_0;
        assert(t.balance(a) == s.balance(a));
    }
    assert forall|x: Seq<u8>|
        (forall|i: int|
            0 <= i < list.len() ==> d.api.canonical_address((#[trigger] list[i]).address) != Ok::<
                Seq<u8>,
                StdErrorView,
            >(x)) implies #[trigger] t.balance(x) == 0 by {
        assert(t.balance(x) == s.balance(x));
    }
}

/// Depositing and withdrawing as much again, whatever comes with the withdrawal, leaves every
/// balance and the supply as they were.
pub proof fn law_withdraw_undoes_deposit(d: DepsView, env: EnvView, later: EnvView)
    requires
        handle_fits(d, env, HandleMsgView::Deposit),
        deposit_step(d, env).outcome is Ok,
        d.api.canonical_address(later.sender) == d.api.canonical_address(env.sender),
    ensures
        ({
            let amount = deposited(env.sent_funds);
            let there = after(d, deposit_step(d, env));
            let back = withdraw_step(there, later, amount);
            &&& burn_fits(there, later, amount)
            &&& back.outcome is Ok
            &&& back.storage.total_supply == d.storage.total_supply
            &&& forall|x: Seq<u8>| #[trigger] back.storage.balance(x) == d.storage.balance(x)
        }),
{
}

/// Burning what was minted for an account leaves every balance and the supply as they were.
pub proof fn law_burn_undoes_mint(
    d: DepsView,
    by_admin: EnvView,
    by_recipient: EnvView,
    amount: u128,
)
    requires
        mint_fits(d, by_admin, by_recipient.sender, amount),
        mint_step(d, by_admin, by_recipient.sender, amount).outcome is Ok,
    ensures
        ({
            let there = after(d, mint_step(d, by_admin, by_recipient.sender, amount));
            let back = burn_step(there, by_recipient, amount);
            &&& burn_fits(there, by_recipient, amount)
            &&& back.outcome is Ok
            &&& back.storage.total_supply == d.storage.total_supply
            &&& forall|x: Seq<u8>| #[trigger] back.storage.balance(x) == d.storage.balance(x)
        }),
{
}

/// What is withdrawn is sent to the sender, from the contract, in the native coin, and the very
/// amount leaves the sender's balance.
pub proof fn law_withdraw_pays_out(d: DepsView, env: EnvView, amount: u128)
    requires
        burn_fits(d, env, amount),
        withdraw_step(d, env, amount).outcome is Ok,
    ensures
        ({
            let step = withdraw_step(d, env, amount);
            let a = d.api.canonical_address(env.sender)->Ok_0;
            let sent = step.outcome->Ok_0.messages;
            &&& sent.len() == 1
            &&& sent[0].from_address == env.contract
            &&& sent[0].to_address == env.sender
            &&& sent[0].amount == seq![CoinView { denom: "uscrt"@, amount }]
            &&& step.storage.balance(a) + amount == d.storage.balance(a)
            &&& step.storage.total_supply + amount == d.storage.total_supply
        }),
{
}

/// Only a withdrawal sends anything.
pub proof fn law_only_withdrawals_send(d: DepsView, env: EnvView, msg: HandleMsgView)
    requires
        handle_step(d, env, msg).outcome is Ok,
        !(msg is Withdraw),
    ensures
        handle_step(d, env, msg).outcome->Ok_0.messages.len() == 0,
{
}

/// The supply changes only by deposits, withdrawals, mints, burns and swaps.
pub proof fn law_supply_otherwise_fixed(d: DepsView, env: EnvView, msg: HandleMsgView)
    requires
        !(msg is Deposit),
        !(msg is Withdraw),
        !(msg is Mint),
        !(msg is Burn),
        !(msg is Swap),
    ensures
        handle_step(d, env, msg).storage.total_supply == d.storage.total_supply,
{
}

/// The messages that only ask leave the storage as it is.
pub proof fn law_asking_changes_nothing(d: DepsView, env: EnvView, msg: HandleMsgView)
    requires
        msg is Balance || msg is Allowance,
    ensures
        handle_step(d, env, msg).storage == d.storage,
{
}

/// Whoever is not the admin can neither mint nor name an admin, and changes nothing by trying.
pub proof fn law_admin_commands_are_guarded(d: DepsView, env: EnvView, msg: HandleMsgView)
    requires
        msg is Mint || msg is ChangeAdmin,
        d.storage.config() is Ok,
        !sent_by_admin(d, env),
    ensures
        handle_step(d, env, msg) == refused(d.storage, admin_only()),
{
}

/// A new admin has the role, and the former admin has it no more.
pub proof fn law_admin_is_handed_over(d: DepsView, env: EnvView, address: Seq<char>, e: EnvView)
    requires
        sent_by_admin(d, env),
    ensures
        change_admin_step(d, env, address).outcome is Ok,
        sent_by_admin(after(d, change_admin_step(d, env, address)), e) <==> e.sender == address,
{
}

/// The admin's own message names the admin that it says and keeps the other constants of the token.
/// Every other message keeps all of them.
pub proof fn law_constants_are_kept(d: DepsView, env: EnvView, msg: HandleMsgView)
    ensures
        handle_step(d, env, msg).storage.constants == if msg is ChangeAdmin && sent_by_admin(
            d,
            env,
        ) {
            Some(ConstantsView { admin: msg->ChangeAdmin_address, ..d.storage.constants->Some_0 })
        } else {
            d.storage.constants
        },
{
}

/// An allowance reads back as it was approved, whatever was approved before, and no other
/// allowance is touched.
pub proof fn law_approval_reads_back(d: DepsView, env: EnvView, spender: Seq<char>, amount: u128)
    requires
        approve_step(d, env, spender, amount).outcome is Ok,
    ensures
        ({
            let o = d.api.canonical_address(env.sender)->Ok_0;
            let sp = d.api.canonical_address(spender)->Ok_0;
            let s = approve_step(d, env, spender, amount).storage;
            &&& s.allowance(o, sp) == Ok::<u128, StdErrorView>(amount)
            &&& forall|x: Seq<u8>, y: Seq<u8>|
                (x, y) != (o, sp) ==> #[trigger] s.allowance(x, y) == d.storage.allowance(x, y)
        }),
{
    law_amount_read_back(amount);
}

/// A spender who takes tokens was allowed to take them, and may take that much less afterwards. No
/// other allowance is touched.
pub proof fn law_spending_uses_up_allowance(
    d: DepsView,
    env: EnvView,
    owner: Seq<char>,
    recipient: Seq<char>,
    amount: u128,
)
    requires
        transfer_from_step(d, env, owner, recipient, amount).outcome is Ok,
    ensures
        ({
            let sp = d.api.canonical_address(env.sender)->Ok_0;
            let o = d.api.canonical_address(owner)->Ok_0;
            let s = transfer_from_step(d, env, owner, recipient, amount).storage;
            &&& d.storage.allowance(o, sp) is Ok
            &&& d.storage.allowance(o, sp)->Ok_0 >= amount
            &&& s.allowance(o, sp) == Ok::<u128, StdErrorView>(
                (d.storage.allowance(o, sp)->Ok_0 - amount) as u128,
            )
            &&& forall|x: Seq<u8>, y: Seq<u8>|
                (x, y) != (o, sp) ==> #[trigger] s.allowance(x, y) == d.storage.allowance(x, y)
        }),
{
    let sp = d.api.canonical_address(env.sender)->Ok_0;
    let o = d.api.canonical_address(owner)->Ok_0;
    law_amount_read_back(rest(d.storage.allowance(o, sp)->Ok_0, amount));
}

/// Whether the message is the owner's approval of an allowance for the spender.
pub open spec fn approves(
    api: ApiView,
    env: EnvView,
    msg: HandleMsgView,
    owner: Seq<u8>,
    spender: Seq<u8>,
) -> bool {
    &&& msg is Approve
    &&& api.canonical_address(env.sender) == Ok::<Seq<u8>, StdErrorView>(owner)
    &&& api.canonical_address(msg->Approve_spender) == Ok::<Seq<u8>, StdErrorView>(spender)
}

/// Nothing but the owner's approval for that spender raises what a spender may take from the owner.
pub proof fn law_only_owner_raises_allowance(
    d: DepsView,
    env: EnvView,
    msg: HandleMsgView,
    owner: Seq<u8>,
    spender: Seq<u8>,
)
    requires
        !approves(d.api, env, msg, owner, spender),
        d.storage.allowance(owner, spender) is Ok,
    ensures
        handle_step(d, env, msg).storage.allowance(owner, spender) is Ok,
        handle_step(d, env, msg).storage.allowance(owner, spender)->Ok_0 <= d.storage.allowance(
            owner,
            spender,
        )->Ok_0,
{
    if let HandleMsgView::TransferFrom { owner: o, recipient, amount } = msg {
        if let Ok(sp) = d.api.canonical_address(env.sender) {
            if let Ok(from) = d.api.canonical_address(o) {
                if let Ok(allowance) = d.storage.allowance(from, sp) {
                    law_amount_read_back(rest(allowance, amount));
                }
            }
        }
    }
}

/// How much the message takes out of an account, if it takes anything.
pub open spec fn taken(msg: HandleMsgView) -> u128 {
    match msg {
        HandleMsgView::Withdraw { amount } => amount,
        HandleMsgView::Transfer { amount, .. } => amount,
        HandleMsgView::Burn { amount } => amount,
        HandleMsgView::TransferFrom { amount, .. } => amount,
        HandleMsgView::Swap { amount, .. } => amount,
        _ => 0,
    }
}

/// An account is debited only by its own withdrawal, transfer, burn or swap, or by a spender to
/// whom it allowed at least the amount. It is debited by the very amount of the message, and no
/// other account is debited with it.
pub proof fn law_only_authorized_debits(
    d: DepsView,
    env: EnvView,
    msg: HandleMsgView,
    account: Seq<u8>,
)
    requires
        handle_fits(d, env, msg),
        handle_step(d, env, msg).storage.balance(account) < d.storage.balance(account),
    ensures
        ({
            ||| {
                &&& d.api.canonical_address(env.sender) == Ok::<Seq<u8>, StdErrorView>(account)
                &&& msg is Withdraw || msg is Transfer || msg is Burn || msg is Swap
            }
            ||| {
                &&& msg is TransferFrom
                &&& d.api.canonical_address(msg->TransferFrom_owner) == Ok::<
                    Seq<u8>,
                    StdErrorView,
                >(account)
                &&& d.api.canonical_address(env.sender) is Ok
                &&& d.storage.allowance(account, d.api.canonical_address(env.sender)->Ok_0) is Ok
                &&& d.storage.allowance(
                    account,
                    d.api.canonical_address(env.sender)->Ok_0,
                )->Ok_0 >= msg->TransferFrom_amount
            }
        }),
        handle_step(d, env, msg).storage.balance(account) + taken(msg) == d.storage.balance(
            account,
        ),
        forall|y: Seq<u8>| #[trigger]
            handle_step(d, env, msg).storage.balance(y) < d.storage.balance(y) ==> y == account,
{
}

/// On a solvent ledger of a contract that was instantiated, a message that is refused moves no
/// tokens, as long as there is a nonce left for swaps.
pub proof fn law_refusal_moves_nothing(
    d: DepsView,
    env: EnvView,
    msg: HandleMsgView,
    account: Seq<u8>,
)
    requires
        d.storage.valid(),
        solvent(d.storage),
        d.storage.config() is Ok,
        d.storage.swaps.len() <= u32::MAX,
        handle_step(d, env, msg).outcome is Err,
    ensures
        handle_step(d, env, msg).storage.balance(account) == d.storage.balance(account),
{
    let s = d.storage;
    match msg {
        HandleMsgView::Transfer { recipient, amount } => {
            if let Ok(from) = d.api.canonical_address(env.sender) {
                if let Ok(to) = d.api.canonical_address(recipient) {
                    law_solvent_never_too_rich(s, from, to, amount);
                }
            }
        },
        HandleMsgView::TransferFrom { owner, recipient, amount } => {
            if let Ok(spender) = d.api.canonical_address(env.sender) {
                if let Ok(from) = d.api.canonical_address(owner) {
                    if let Ok(to) = d.api.canonical_address(recipient) {
                        if let Ok(allowance) = s.allowance(from, spender) {
                            law_solvent_never_too_rich(
                                s.with_allowance(from, spender, rest(allowance, amount)),
                                from,
                                to,
                                amount,
                            );
                        }
                    }
                }
            }
        },
        _ => {},
    }
}

/// On a solvent ledger of a contract that was instantiated, a transfer between two addresses is
/// done exactly if the sender holds the amount.
pub proof fn law_transfer_succeeds_if_covered(
    d: DepsView,
    env: EnvView,
    recipient: Seq<char>,
    amount: u128,
)
    requires
        d.storage.valid(),
        solvent(d.storage),
        d.storage.config() is Ok,
        d.api.canonical_address(env.sender) is Ok,
        d.api.canonical_address(recipient) is Ok,
    ensures
        transfer_step(d, env, recipient, amount).outcome is Ok <==> d.storage.balance(
            d.api.canonical_address(env.sender)->Ok_0,
        ) >= amount,
{
    law_solvent_never_too_rich(
        d.storage,
        d.api.canonical_address(env.sender)->Ok_0,
        d.api.canonical_address(recipient)->Ok_0,
        amount,
    );
}

/// A transfer is the newest in the history of its sender and in that of its recipient, and in no
/// other.
pub proof fn law_transfer_is_recorded(
    d: DepsView,
    env: EnvView,
    recipient: Seq<char>,
    amount: u128,
)
    requires
        transfer_step(d, env, recipient, amount).outcome is Ok,
    ensures
        ({
            let from = d.api.canonical_address(env.sender)->Ok_0;
            let to = d.api.canonical_address(recipient)->Ok_0;
            let s = transfer_step(d, env, recipient, amount).storage;
            let tx = StoredTxView {
                sender: from,
                receiver: to,
                coins: CoinView { denom: d.storage.constants->Some_0.symbol, amount },
            };
            &&& s.history(from) == d.storage.history(from).push(tx)
            &&& s.history(to) == d.storage.history(to).push(tx)
            &&& s.newest(from, 1) == seq![tx]
            &&& s.newest(to, 1) == seq![tx]
            &&& forall|x: Seq<u8>|
                x != from && x != to ==> #[trigger] s.history(x) == d.storage.history(x)
        }),
{
    let from = d.api.canonical_address(env.sender)->Ok_0;
    let to = d.api.canonical_address(recipient)->Ok_0;
    let s = transfer_step(d, env, recipient, amount).storage;
    let tx = StoredTxView {
        sender: from,
        receiver: to,
        coins: CoinView { denom: d.storage.constants->Some_0.symbol, amount },
    };
    let m = moved(d.storage, from, to, amount).0;
    assert(m.transfers == d.storage.transfers);
    assert(s == m.with_transfer(from, to, amount, d.storage.constants->Some_0.symbol));
    assert(s.history(from) =~= d.storage.history(from).push(tx));
    assert(s.history(to) =~= d.storage.history(to).push(tx));
    assert(s.newest(from, 1) =~= seq![tx]);
    assert(s.newest(to, 1) =~= seq![tx]);
}

/// A transfer that a spender made is the newest in the history of the owner and in that of the
/// recipient, and in no other.
pub proof fn law_spending_is_recorded(
    d: DepsView,
    env: EnvView,
    owner: Seq<char>,
    recipient: Seq<char>,
    amount: u128,
)
    requires
        transfer_from_step(d, env, owner, recipient, amount).outcome is Ok,
    ensures
        ({
            let from = d.api.canonical_address(owner)->Ok_0;
            let to = d.api.canonical_address(recipient)->Ok_0;
            let s = transfer_from_step(d, env, owner, recipient, amount).storage;
            let tx = StoredTxView {
                sender: from,
                receiver: to,
                coins: CoinView { denom: d.storage.constants->Some_0.symbol, amount },
            };
            &&& s.history(from) == d.storage.history(from).push(tx)
            &&& s.history(to) == d.storage.history(to).push(tx)
            &&& s.newest(from, 1) == seq![tx]
            &&& s.newest(to, 1) == seq![tx]
            &&& forall|x: Seq<u8>|
                x != from && x != to ==> #[trigger] s.history(x) == d.storage.history(x)
        }),
{
    let from = d.api.canonical_address(owner)->Ok_0;
    let to = d.api.canonical_address(recipient)->Ok_0;
    let s = transfer_from_step(d, env, owner, recipient, amount).storage;
    let tx = StoredTxView {
        sender: from,
        receiver: to,
        coins: CoinView { denom: d.storage.constants->Some_0.symbol, amount },
    };
    assert(s.history(from) =~= d.storage.history(from).push(tx));
    assert(s.history(to) =~= d.storage.history(to).push(tx));
    assert(s.newest(from, 1) =~= seq![tx]);
    assert(s.newest(to, 1) =~= seq![tx]);
}

/// No message takes anything out of a history: what was recorded stays, in its place.
pub proof fn law_histories_are_kept(
    d: DepsView,
    env: EnvView,
    msg: HandleMsgView,
    account: Seq<u8>,
    i: int,
)
    requires
        0 <= i < d.storage.history(account).len(),
    ensures
        i < handle_step(d, env, msg).storage.history(account).len(),
        handle_step(d, env, msg).storage.history(account)[i] == d.storage.history(account)[i],
{
    let s = handle_step(d, env, msg).storage;
    match msg {
        HandleMsgView::Transfer { recipient, amount } => {
            if handle_step(d, env, msg).outcome is Ok {
                law_transfer_is_recorded(d, env, recipient, amount);
            } else {
                assert(s.transfers == d.storage.transfers);
            }
        },
        HandleMsgView::TransferFrom { owner, recipient, amount } => {
            if handle_step(d, env, msg).outcome is Ok {
                law_spending_is_recorded(d, env, owner, recipient, amount);
            } else {
                assert(s.transfers == d.storage.transfers);
            }
        },
        _ => {
            assert(s.transfers == d.storage.transfers);
        },
    }
}

/// Whoever took part in a transfer and asks for the newest one with the right key is shown it, the
/// addresses written as people write them.
pub proof fn law_transfer_is_shown(
    d: DepsView,
    env: EnvView,
    recipient: Seq<char>,
    amount: u128,
    asker: Seq<char>,
    key: Seq<char>,
)
    requires
        transfer_step(d, env, recipient, amount).outcome is Ok,
        asker == env.sender || asker == recipient,
        opens(d, d.api.canonical_address(asker)->Ok_0, key),
        d.api.human_address(d.api.canonical_address(env.sender)->Ok_0) is Ok,
        d.api.human_address(d.api.canonical_address(recipient)->Ok_0) is Ok,
    ensures
        query_answer(
            after(d, transfer_step(d, env, recipient, amount)),
            QueryMsgView::Transfers { address: asker, key, n: 1 },
        ) == Ok::<QueryAnswerView, StdErrorView>(
            QueryAnswerView::Text(
                encode_utf8(
                    shown_transfers(
                        seq![
                            TxView {
                                sender: d.api.human_address(
                                    d.api.canonical_address(env.sender)->Ok_0,
                                )->Ok_0,
                                receiver: d.api.human_address(
                                    d.api.canonical_address(recipient)->Ok_0,
                                )->Ok_0,
                                coins: CoinView {
                                    denom: d.storage.constants->Some_0.symbol,
                                    amount,
                                },
                            },
                        ],
                    ),
                ),
            ),
        ),
{
    law_transfer_is_recorded(d, env, recipient, amount);
    let there = after(d, transfer_step(d, env, recipient, amount));
    let newest = there.storage.newest(there.api.canonical_address(asker)->Ok_0, 1);
    reveal_with_fuel(all_humanized, 2);
    assert(newest.len() == 1);
    assert(newest.drop_last().len() == 0);
    let shown = all_humanized(newest, d.api)->Ok_0;
    assert(shown =~= seq![newest[0].humanized(d.api)->Ok_0]);
}

/// The owner and the recipient of what a spender moved, asking for the newest transfer with the
/// right key, are shown it, the addresses written as people write them.
pub proof fn law_spending_is_shown(
    d: DepsView,
    env: EnvView,
    owner: Seq<char>,
    recipient: Seq<char>,
    amount: u128,
    asker: Seq<char>,
    key: Seq<char>,
)
    requires
        transfer_from_step(d, env, owner, recipient, amount).outcome is Ok,
        asker == owner || asker == recipient,
        opens(d, d.api.canonical_address(asker)->Ok_0, key),
        d.api.human_address(d.api.canonical_address(owner)->Ok_0) is Ok,
        d.api.human_address(d.api.canonical_address(recipient)->Ok_0) is Ok,
    ensures
        query_answer(
            after(d, transfer_from_step(d, env, owner, recipient, amount)),
            QueryMsgView::Transfers { address: asker, key, n: 1 },
        ) == Ok::<QueryAnswerView, StdErrorView>(
            QueryAnswerView::Text(
                encode_utf8(
                    shown_transfers(
                        seq![
                            TxView {
                                sender: d.api.human_address(
                                    d.api.canonical_address(owner)->Ok_0,
                                )->Ok_0,
                                receiver: d.api.human_address(
                                    d.api.canonical_address(recipient)->Ok_0,
                                )->Ok_0,
                                coins: CoinView {
                                    denom: d.storage.constants->Some_0.symbol,
                                    amount,
                                },
                            },
                        ],
                    ),
                ),
            ),
        ),
{
    law_spending_is_recorded(d, env, owner, recipient, amount);
    let there = after(d, transfer_from_step(d, env, owner, recipient, amount));
    let newest = there.storage.newest(there.api.canonical_address(asker)->Ok_0, 1);
    reveal_with_fuel(all_humanized, 2);
    assert(newest.len() == 1);
    assert(newest.drop_last().len() == 0);
    let shown = all_humanized(newest, d.api)->Ok_0;
    assert(shown =~= seq![newest[0].humanized(d.api)->Ok_0]);
}

/// Whoever deposits and asks for the balance with the right key is shown what was held before,
/// plus what was deposited.
pub proof fn law_deposit_is_shown(d: DepsView, env: EnvView, key: Seq<char>)
    requires
        handle_fits(d, env, HandleMsgView::Deposit),
        deposit_step(d, env).outcome is Ok,
        opens(d, d.api.canonical_address(env.sender)->Ok_0, key),
        d.storage.config() is Ok,
    ensures
        ({
            let a = d.api.canonical_address(env.sender)->Ok_0;
            let c = d.storage.config()->Ok_0;
            query_answer(
                after(d, deposit_step(d, env)),
                QueryMsgView::Balance { address: env.sender, key },
            ) == Ok::<QueryAnswerView, StdErrorView>(
                QueryAnswerView::Text(
                    encode_utf8(
                        display_token(
                            (d.storage.balance(a) + deposited(env.sent_funds)) as u128,
                            c.symbol,
                            c.decimals,
                        ),
                    ),
                ),
            )
        }),
{
}

/// An owner who approves an allowance and later asks for it is shown the very amount.
pub proof fn law_approval_is_shown(
    d: DepsView,
    env: EnvView,
    spender: Seq<char>,
    amount: u128,
    later: EnvView,
)
    requires
        approve_step(d, env, spender, amount).outcome is Ok,
        d.api.canonical_address(later.sender) == d.api.canonical_address(env.sender),
    ensures
        ({
            let asked = check_allowance_step(
                after(d, approve_step(d, env, spender, amount)),
                later,
                spender,
            );
            &&& asked.outcome is Ok
            &&& asked.outcome->Ok_0.log[3].value == filled(
                decimal_digits(amount as nat),
                CONST_LEN as nat,
            )
        }),
{
    law_approval_reads_back(d, env, spender, amount);
}

/// Whoever asks for any other allowance, the one in the other direction among them, is shown what
/// was shown before the approval.
pub proof fn law_approval_shows_nowhere_else(
    d: DepsView,
    env: EnvView,
    spender: Seq<char>,
    amount: u128,
    asking: EnvView,
    about: Seq<char>,
)
    requires
        d.api.canonical_address(asking.sender) != d.api.canonical_address(env.sender)
            || d.api.canonical_address(about) != d.api.canonical_address(spender),
    ensures
        check_allowance_step(
            after(d, approve_step(d, env, spender, amount)),
            asking,
            about,
        ).outcome == check_allowance_step(d, asking, about).outcome,
{
    if approve_step(d, env, spender, amount).outcome is Ok {
        law_approval_reads_back(d, env, spender, amount);
    }
}

/// A balance changes only for the sender of the message and for the accounts that it names: the one
/// that is minted for, the owner and the recipient.
pub proof fn law_only_named_accounts_change(
    d: DepsView,
    env: EnvView,
    msg: HandleMsgView,
    account: Seq<u8>,
)
    requires
        handle_step(d, env, msg).storage.balance(account) != d.storage.balance(account),
    ensures
        ({
            let this = Ok::<Seq<u8>, StdErrorView>(account);
            ||| d.api.canonical_address(env.sender) == this
            ||| msg is Mint && d.api.canonical_address(msg->Mint_address) == this
            ||| msg is Transfer && d.api.canonical_address(msg->Transfer_recipient) == this
            ||| msg is TransferFrom && d.api.canonical_address(msg->TransferFrom_owner) == this
            ||| msg is TransferFrom && d.api.canonical_address(msg->TransferFrom_recipient) == this
        }),
{
}

/// A swap reads back under the nonce that it was given, which is the number of swaps before it.
pub proof fn law_swap_reads_back(
    d: DepsView,
    env: EnvView,
    amount: u128,
    destination: Seq<char>,
)
    requires
        swap_step(d, env, amount, destination).outcome is Ok,
    ensures
        swap_answer(
            after(d, swap_step(d, env, amount, destination)),
            d.storage.swaps.len() as u32,
        ) == Ok::<QueryAnswerView, StdErrorView>(
            QueryAnswerView::Swap {
                result: SwapView { destination, amount, nonce: d.storage.swaps.len() as u32 },
            },
        ),
{
}

/// A swap that was recorded reads the same after any message.
pub proof fn law_swaps_are_kept(d: DepsView, env: EnvView, msg: HandleMsgView, nonce: u32)
    requires
        d.storage.swap(nonce) is Ok,
    ensures
        handle_step(d, env, msg).storage.swap(nonce) == d.storage.swap(nonce),
{
}

/// A viewing key that was set opens the account of its sender, to it and to the keys with the same
/// digest, and to no other key. No other account's key is touched.
pub proof fn law_set_key_opens(d: DepsView, env: EnvView, key: Seq<char>, other: Seq<char>)
    requires
        key.len() == API_KEY_LENGTH,
        set_key_fits(d, env, key),
        set_key_step(d, env, key).outcome is Ok,
    ensures
        ({
            let a = d.api.canonical_address(env.sender)->Ok_0;
            let there = after(d, set_key_step(d, env, key));
            &&& opens(there, a, key)
            &&& opens(there, a, other) <==> d.keys.digest(other) == d.keys.digest(key)
            &&& forall|x: Seq<u8>|
                x != a ==> #[trigger] there.storage.viewing_key(x) == d.storage.viewing_key(x)
        }),
{
}

/// A viewing key that was made opens the account of its sender, to it and to the keys with the same
/// digest, and to no other key. The log shows the key.
pub proof fn law_created_key_opens(
    d: DepsView,
    env: EnvView,
    entropy: Seq<char>,
    other: Seq<char>,
)
    requires
        create_key_fits(d, env, entropy),
        create_key_step(d, env, entropy).outcome is Ok,
    ensures
        ({
            let a = d.api.canonical_address(env.sender)->Ok_0;
            let there = after(d, create_key_step(d, env, entropy));
            let shown = create_key_step(d, env, entropy).outcome->Ok_0.log;
            let key = d.keys.new_key(key_request(env, entropy));
            &&& shown.len() == 1 && shown[0].value == key
            &&& opens(there, a, key)
            &&& opens(there, a, other) <==> d.keys.digest(other) == d.keys.digest(key)
        }),
{
}

/// Only the account's own messages change its viewing key.
pub proof fn law_only_owner_changes_key(
    d: DepsView,
    env: EnvView,
    msg: HandleMsgView,
    account: Seq<u8>,
)
    requires
        d.api.canonical_address(env.sender) != Ok::<Seq<u8>, StdErrorView>(account),
    ensures
        handle_step(d, env, msg).storage.viewing_key(account) == d.storage.viewing_key(account),
{
}

/// A viewing key of another length is answered with a failure, and changes nothing.
pub proof fn law_odd_keys_change_nothing(d: DepsView, env: EnvView, key: Seq<char>)
    requires
        key.len() != API_KEY_LENGTH,
    ensures
        set_key_step(d, env, key).storage == d.storage,
        set_key_step(d, env, key).outcome is Ok,
        set_key_step(d, env, key).outcome->Ok_0.log[0].value == "failed!"@,
{
}

/// To a key that does not open the account, the answer is the same whatever the storage holds:
/// neither a balance, nor a transfer, nor whether a key is set can be told from it.
pub proof fn law_refusal_tells_nothing(d: DepsView, other: DepsView, msg: QueryMsgView)
    requires
        msg.needs_key(),
        d.api == other.api,
        d.api.canonical_address(msg.account()) matches Ok(a) ==> !opens(
            d,
            a,
            msg.presented_key(),
        ) && !opens(other, a, msg.presented_key()),
    ensures
        query_answer(d, msg) == query_answer(other, msg),
        d.api.canonical_address(msg.account()) is Ok ==> query_answer(d, msg) == Ok::<
            QueryAnswerView,
            StdErrorView,
        >(wrong_key()),
{
}

/// Where no key is set, no key opens the account.
pub proof fn law_unset_key_opens_nothing(d: DepsView, account: Seq<u8>, key: Seq<char>)
    requires
        d.storage.viewing_key(account) is None,
    ensures
        !opens(d, account, key),
{
}

/// Whoever set a key and asks with it is shown the balance and the transfers.
pub proof fn law_own_key_is_answered(d: DepsView, env: EnvView, key: Seq<char>, n: u32)
    requires
        key.len() == API_KEY_LENGTH,
        set_key_fits(d, env, key),
        set_key_step(d, env, key).outcome is Ok,
    ensures
        ({
            let there = after(d, set_key_step(d, env, key));
            let a = d.api.canonical_address(env.sender)->Ok_0;
            &&& query_answer(there, QueryMsgView::Balance { address: env.sender, key })
                == balance_answer(d, env.sender)
            &&& query_answer(there, QueryMsgView::Transfers { address: env.sender, key, n })
                == transfers_answer(d, a, n)
        }),
{
    let there = after(d, set_key_step(d, env, key));
    let a = d.api.canonical_address(env.sender)->Ok_0;
    assert(there.storage.newest(a, n) == d.storage.newest(a, n));
    assert(shown_balance(there.storage, a) == shown_balance(d.storage, a));
}

/// The length of the answer to a question for an allowance does not depend on the allowance.
pub proof fn law_allowance_answer_length(d: DepsView, env: EnvView, spender: Seq<char>)
    requires
        check_allowance_step(d, env, spender).outcome is Ok,
    ensures
        check_allowance_step(d, env, spender).outcome->Ok_0.log[3].value.len() == CONST_LEN,
{
    let o = d.api.canonical_address(env.sender)->Ok_0;
    let sp = d.api.canonical_address(spender)->Ok_0;
    let shown = shown_allowance(d.storage.allowance(o, sp));
    if let Ok(a) = d.storage.allowance(o, sp) {
        lemma_amount_digit_count(a);
    } else {
        reveal_strlit("0");
    }
    law_constant_length(shown);
}

/// The length of the answer to a question for a balance does not depend on the balance, if the
/// token's symbol has a length that is accepted.
pub proof fn law_balance_answer_length(d: DepsView, env: EnvView)
    requires
        handle_fits(d, env, HandleMsgView::Balance),
        balance_step(d, env).outcome is Ok,
        d.storage.config() matches Ok(c) ==> valid_symbol(c.symbol),
    ensures
        balance_step(d, env).outcome->Ok_0.log[2].value.len() == CONST_LEN,
{
    let a = d.api.canonical_address(env.sender)->Ok_0;
    let shown = text_or_zero(shown_balance(d.storage, a));
    if let Ok(c) = d.storage.config() {
        law_display_is_short(d.storage.balance(a), c.symbol, c.decimals);
    } else {
        reveal_strlit("0");
    }
    law_constant_length(shown);
}

/// One message, with the answers that were given for it.
pub struct Call {
    pub api: ApiView,
    pub keys: KeyServiceView,
    pub env: EnvView,
    pub msg: HandleMsgView,
}

impl Call {
    /// Everything that the message works on, given the storage.
    pub open spec fn deps(self, storage: StorageView) -> DepsView {
        DepsView { storage, api: self.api, keys: self.keys }
    }
}

/// The storage after the messages, one by one. What a refused message has written is discarded.
pub open spec fn run(s: StorageView, calls: Seq<Call>) -> StorageView
    decreases calls.len(),
{
    if calls.len() == 0 {
        s
    } else {
        let t = run(s, calls.drop_last());
        let c = calls.last();
        let step = handle_step(c.deps(t), c.env, c.msg);
        if step.outcome is Ok {
            step.storage
        } else {
            t
        }
    }
}

/// Whether each of the messages stays within the range of amounts when its turn comes.
pub open spec fn run_fits(s: StorageView, calls: Seq<Call>) -> bool
    decreases calls.len(),
{
    calls.len() > 0 ==> {
        let c = calls.last();
        &&& run_fits(s, calls.drop_last())
        &&& handle_fits(c.deps(run(s, calls.drop_last())), c.env, c.msg)
    }
}

/// Over any run of messages, the supply and the sum of all balances change alike. So a contract
/// whose supply was covered stays covered.
pub proof fn law_run_keeps_backing(s: StorageView, calls: Seq<Call>)
    requires
        s.valid(),
        run_fits(s, calls),
    ensures
        run(s, calls).valid(),
        run(s, calls).total_supply - held(run(s, calls).balances) == s.total_supply - held(
            s.balances,
        ),
        solvent(s) ==> solvent(run(s, calls)),
    decreases calls.len(),
{
    if calls.len() > 0 {
        let c = calls.last();
        law_run_keeps_backing(s, calls.drop_last());
        law_handle_keeps_backing(c.deps(run(s, calls.drop_last())), c.env, c.msg);
    }
}

/// Over any run of messages, the token keeps its name, its symbol and its decimals.
pub proof fn law_run_keeps_constants(s: StorageView, calls: Seq<Call>)
    requires
        s.constants is Some,
    ensures
        run(s, calls).constants is Some,
        run(s, calls).constants->Some_0.name == s.constants->Some_0.name,
        run(s, calls).constants->Some_0.symbol == s.constants->Some_0.symbol,
        run(s, calls).constants->Some_0.decimals == s.constants->Some_0.decimals,
    decreases calls.len(),
{
    if calls.len() > 0 {
        let c = calls.last();
        law_run_keeps_constants(s, calls.drop_last());
        law_constants_are_kept(c.deps(run(s, calls.drop_last())), c.env, c.msg);
    }
}

/// Whether none of the messages is the owner's approval of an allowance for the spender.
pub open spec fn none_approves(calls: Seq<Call>, owner: Seq<u8>, spender: Seq<u8>) -> bool {
    forall|i: int|
        0 <= i < calls.len() ==> !approves(
            (#[trigger] calls[i]).api,
            calls[i].env,
            calls[i].msg,
            owner,
            spender,
        )
}

/// How much of the account's tokens the messages made the spender take, refused messages apart.
pub open spec fn spent_by(s: StorageView, calls: Seq<Call>, account: Seq<u8>, spender: Seq<
    u8,
>) -> nat
    decreases calls.len(),
{
    if calls.len() == 0 {
        0
    } else {
        let before = spent_by(s, calls.drop_last(), account, spender);
        let c = calls.last();
        let step = handle_step(c.deps(run(s, calls.drop_last())), c.env, c.msg);
        if step.outcome is Ok && c.msg is TransferFrom && c.api.canonical_address(
            c.msg->TransferFrom_owner,
        ) == Ok::<Seq<u8>, StdErrorView>(account) && c.api.canonical_address(c.env.sender) == Ok::<
            Seq<u8>,
            StdErrorView,
        >(spender) {
            before + c.msg->TransferFrom_amount as nat
        } else {
            before
        }
    }
}

/// Until an owner approves an allowance for a spender anew, what the spender has taken and what it
/// may still take make up what it was allowed: over any run of messages, those of the owner among
/// them, it never takes more than that.
pub proof fn law_spender_stays_within_allowance(
    s: StorageView,
    calls: Seq<Call>,
    owner: Seq<u8>,
    spender: Seq<u8>,
)
    requires
        none_approves(calls, owner, spender),
        s.allowance(owner, spender) is Ok,
    ensures
        run(s, calls).allowance(owner, spender) is Ok,
        spent_by(s, calls, owner, spender) + run(s, calls).allowance(owner, spender)->Ok_0
            == s.allowance(owner, spender)->Ok_0,
    decreases calls.len(),
{
    if calls.len() > 0 {
        let front = calls.drop_last();
        let c = calls.last();
        assert(none_approves(front, owner, spender)) by {
            assert forall|i: int| 0 <= i < front.len() implies !approves(
                (#[trigger] front[i]).api,
                front[i].env,
                front[i].msg,
                owner,
                spender,
            ) by {
                assert(front[i] == calls[i]);
            }
        }
        law_spender_stays_within_allowance(s, front, owner, spender);
        let t = run(s, front);
        let d = c.deps(t);
        assert(calls[calls.len() - 1] == c);
        let step = handle_step(d, c.env, c.msg);
        if step.outcome is Ok {
            match c.msg {
                HandleMsgView::TransferFrom { owner: o, recipient, amount } => {
                    law_spending_uses_up_allowance(d, c.env, o, recipient, amount);
                },
                HandleMsgView::Approve { spender: sp, amount } => {
                    law_approval_reads_back(d, c.env, sp, amount);
                },
                _ => {},
            }
        }
    }
}

} // verus!
