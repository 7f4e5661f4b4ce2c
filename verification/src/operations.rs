//! What each message comes to, told by what the storage holds before and after it.

use vstd::prelude::*;
use vstd::utf8::encode_utf8;

use crate::codec::law_amount_read_back;
use crate::deps::DepsView;
use crate::display::display_token;
use crate::laws::after;
use crate::model::{
    approve_step, balance_step, burn_fits, burn_step, change_admin_step, check_allowance_step,
    create_key_fits, create_key_step, deposit_fits, deposit_step, deposited, handle_fits,
    handle_step, mint_fits, mint_step, moved, set_key_fits, set_key_step, swap_step,
    transfer_from_step, transfer_step, withdraw_step, wrong_length_text, Step,
};
use crate::msg::{HandleAnswer, HandleMsgView, ResponseStatus};
use crate::state::StorageView;
use crate::text::decimal_digits;
use crate::types::{CoinView, EnvView, LogView, ResponseView, SendView, StdErrorView};
use crate::utils::filled;
use crate::viewing_key::KeyRequestView;

verus! {

/// The error that says nothing but `msg`.
pub open spec fn saying(msg: Seq<char>) -> StdErrorView {
    StdErrorView::GenericErr { msg }
}

/// A message that ends with the error and has changed nothing.
pub open spec fn turned_down(s: StorageView, e: StdErrorView) -> Step {
    Step { storage: s, outcome: Err(e) }
}

/// A response that sends nothing and has these log lines, each a key with its value.
pub open spec fn telling(lines: Seq<(Seq<char>, Seq<char>)>, data: Option<HandleAnswer>) -> Result<
    ResponseView,
    StdErrorView,
> {
    Ok(
        ResponseView {
            messages: Seq::empty(),
            log: Seq::new(lines.len(), |i: int| LogView { key: lines[i].0, value: lines[i].1 }),
            data,
        },
    )
}

/// Whether nothing but balances and the supply differs.
pub open spec fn ledger_alone_differs(s: StorageView, t: StorageView) -> bool {
    &&& s.constants == t.constants
    &&& s.allowances == t.allowances
    &&& s.viewing_keys == t.viewing_keys
    &&& s.transfers == t.transfers
    &&& s.swaps == t.swaps
}

/// Whether `amount` has gone from the one account to the other, and nothing else has changed on the
/// ledger.
pub open spec fn went(
    s: StorageView,
    t: StorageView,
    from: Seq<u8>,
    to: Seq<u8>,
    amount: u128,
) -> bool {
    &&& s.balance(from) >= amount
    &&& from != to ==> t.balance(from) == s.balance(from) - amount
    &&& from != to ==> t.balance(to) == s.balance(to) + amount
    &&& from == to ==> t.balance(from) == s.balance(from)
    &&& forall|x: Seq<u8>| x != from && x != to ==> #[trigger] t.balance(x) == s.balance(x)
    &&& t.total_supply == s.total_supply
}

/// Whether `amount` has left the account and the supply, and nothing else has changed on the
/// ledger.
pub open spec fn vanished(s: StorageView, t: StorageView, account: Seq<u8>, amount: u128) -> bool {
    &&& s.balance(account) >= amount
    &&& t.balance(account) + amount == s.balance(account)
    &&& t.total_supply + amount == s.total_supply
    &&& forall|x: Seq<u8>| x != account ==> #[trigger] t.balance(x) == s.balance(x)
}

/// Whether `amount` has been added to the account and to the supply, and nothing else has changed
/// on the ledger.
pub open spec fn appeared(s: StorageView, t: StorageView, account: Seq<u8>, amount: u128) -> bool {
    &&& t.balance(account) == s.balance(account) + amount
    &&& t.total_supply == s.total_supply + amount
    &&& forall|x: Seq<u8>| x != account ==> #[trigger] t.balance(x) == s.balance(x)
}

/// A transfer that is answered has moved the very amount from the sender to the recipient: the one
/// holds that much less and the other that much more, a transfer to oneself changes no balance, and
/// nobody else's balance changes.
pub proof fn law_transfer_moves_tokens(
    d: DepsView,
    env: EnvView,
    recipient: Seq<char>,
    amount: u128,
)
    requires
        transfer_step(d, env, recipient, amount).outcome is Ok,
    ensures
        ({
            let s = d.storage;
            let t = transfer_step(d, env, recipient, amount).storage;
            let from = d.api.canonical_address(env.sender)->Ok_0;
            let to = d.api.canonical_address(recipient)->Ok_0;
            &&& d.api.canonical_address(env.sender) is Ok
            &&& d.api.canonical_address(recipient) is Ok
            &&& s.balance(from) >= amount
            &&& from != to ==> t.balance(from) == s.balance(from) - amount
            &&& from != to ==> t.balance(to) == s.balance(to) + amount
            &&& from == to ==> t.balance(from) == s.balance(from)
            &&& forall|x: Seq<u8>|
                x != from && x != to ==> #[trigger] t.balance(x) == s.balance(x)
            &&& t.total_supply == s.total_supply
            &&& t.constants == s.constants
            &&& t.allowances == s.allowances
            &&& t.viewing_keys == s.viewing_keys
            &&& t.swaps == s.swaps
        }),
{
}

/// Which transfers are done, what the others are refused with, and what they have left behind.
pub proof fn law_transfer_outcome(d: DepsView, env: EnvView, recipient: Seq<char>, amount: u128)
    ensures
        ({
            let s = d.storage;
            let step = transfer_step(d, env, recipient, amount);
            let from = d.api.canonical_address(env.sender);
            let to = d.api.canonical_address(recipient);
            let covered = s.balance(from->Ok_0) >= amount;
            let bearable = from == to || s.balance(to->Ok_0) + amount <= u128::MAX;
            &&& from is Err ==> step.storage == s && step.outcome == Err::<
                ResponseView,
                StdErrorView,
            >(from->Err_0)
            &&& from is Ok && to is Err ==> step.storage == s && step.outcome == Err::<
                ResponseView,
                StdErrorView,
            >(to->Err_0)
            &&& from is Ok && to is Ok && !covered ==> step.storage == s && step.outcome == Err::<
                ResponseView,
                StdErrorView,
            >(
                saying(
                    "Insufficient funds: balance="@ + decimal_digits(
                        s.balance(from->Ok_0) as nat,
                    ) + ", required="@ + decimal_digits(amount as nat),
                ),
            )
            &&& from is Ok && to is Ok && covered && !bearable ==> {
                &&& step.outcome == Err::<ResponseView, StdErrorView>(
                    saying(
                        "This tx will literally make them too rich. Try transferring less"@,
                    ),
                )
                &&& ledger_alone_differs(s, step.storage)
                &&& step.storage.total_supply == s.total_supply
                &&& step.storage.balance(from->Ok_0) == s.balance(from->Ok_0) - amount
                &&& forall|x: Seq<u8>|
                    x != from->Ok_0 ==> #[trigger] step.storage.balance(x) == s.balance(x)
            }
            &&& from is Ok && to is Ok && covered && bearable && s.constants is None ==> {
                &&& step.outcome == Err::<ResponseView, StdErrorView>(
                    saying("no constants stored in configuration"@),
                )
                &&& ledger_alone_differs(s, step.storage)
                &&& went(s, step.storage, from->Ok_0, to->Ok_0, amount)
            }
            &&& from is Ok && to is Ok && covered && bearable && s.constants is Some
                ==> step.outcome == telling(
                seq![
                    ("action"@, "transfer"@),
                    ("sender"@, env.sender),
                    ("recipient"@, recipient),
                ],
                Some(HandleAnswer::Transfer { status: ResponseStatus::Success }),
            )
        }),
{
    let step = transfer_step(d, env, recipient, amount);
    if let Ok(r) = step.outcome {
        assert(r.log =~= telling(
            seq![("action"@, "transfer"@), ("sender"@, env.sender), ("recipient"@, recipient)],
            r.data,
        )->Ok_0.log);
    }
}

/// Spending that is answered has moved the very amount from the owner to the recipient: the one
/// holds that much less and the other that much more, a move to the owner changes no balance, and
/// nobody else's balance changes, the spender's among them.
pub proof fn law_spending_moves_tokens(
    d: DepsView,
    env: EnvView,
    owner: Seq<char>,
    recipient: Seq<char>,
    amount: u128,
)
    requires
        transfer_from_step(d, env, owner, recipient, amount).outcome is Ok,
    ensures
        ({
            let s = d.storage;
            let t = transfer_from_step(d, env, owner, recipient, amount).storage;
            let from = d.api.canonical_address(owner)->Ok_0;
            let to = d.api.canonical_address(recipient)->Ok_0;
            &&& d.api.canonical_address(env.sender) is Ok
            &&& d.api.canonical_address(owner) is Ok
            &&& d.api.canonical_address(recipient) is Ok
            &&& s.balance(from) >= amount
            &&& from != to ==> t.balance(from) == s.balance(from) - amount
            &&& from != to ==> t.balance(to) == s.balance(to) + amount
            &&& from == to ==> t.balance(from) == s.balance(from)
            &&& forall|x: Seq<u8>|
                x != from && x != to ==> #[trigger] t.balance(x) == s.balance(x)
            &&& t.total_supply == s.total_supply
            &&& t.constants == s.constants
            &&& t.viewing_keys == s.viewing_keys
            &&& t.swaps == s.swaps
        }),
{
}

/// Which spendings are done, what the others are refused with, and what they have left behind.
pub proof fn law_spending_outcome(
    d: DepsView,
    env: EnvView,
    owner: Seq<char>,
    recipient: Seq<char>,
    amount: u128,
)
    ensures
        ({
            let s = d.storage;
            let step = transfer_from_step(d, env, owner, recipient, amount);
            let spender = d.api.canonical_address(env.sender);
            let from = d.api.canonical_address(owner);
            let to = d.api.canonical_address(recipient);
            let allowed = s.allowance(from->Ok_0, spender->Ok_0);
            let named = spender is Ok && from is Ok && to is Ok;
            let permitted = named && allowed is Ok && allowed->Ok_0 >= amount;
            let covered = s.balance(from->Ok_0) >= amount;
            let bearable = from == to || s.balance(to->Ok_0) + amount <= u128::MAX;
            &&& spender is Err ==> step == turned_down(s, spender->Err_0)
            &&& spender is Ok && from is Err ==> step == turned_down(s, from->Err_0)
            &&& spender is Ok && from is Ok && to is Err ==> step == turned_down(s, to->Err_0)
            &&& named && allowed is Err ==> step == turned_down(s, allowed->Err_0)
            &&& named && allowed is Ok && allowed->Ok_0 < amount ==> step == turned_down(
                s,
                saying(
                    "Insufficient allowance: allowance="@ + decimal_digits(allowed->Ok_0 as nat)
                        + ", required="@ + decimal_digits(amount as nat),
                ),
            )
            &&& permitted && !covered ==> step.outcome == Err::<ResponseView, StdErrorView>(
                saying(
                    "Insufficient funds: balance="@ + decimal_digits(
                        s.balance(from->Ok_0) as nat,
                    ) + ", required="@ + decimal_digits(amount as nat),
                ),
            ) && step.storage.balances == s.balances
            &&& permitted && covered && !bearable ==> {
                &&& step.outcome == Err::<ResponseView, StdErrorView>(
                    saying(
                        "This tx will literally make them too rich. Try transferring less"@,
                    ),
                )
                &&& step.storage.balance(from->Ok_0) == s.balance(from->Ok_0) - amount
                &&& forall|x: Seq<u8>|
                    x != from->Ok_0 ==> #[trigger] step.storage.balance(x) == s.balance(x)
            }
            &&& permitted && covered && bearable && s.constants is None ==> step.outcome == Err::<
                ResponseView,
                StdErrorView,
            >(saying("no constants stored in configuration"@)) && went(
                s,
                step.storage,
                from->Ok_0,
                to->Ok_0,
                amount,
            )
            &&& permitted && covered && bearable && s.constants is Some ==> step.outcome == telling(
                seq![
                    ("action"@, "transfer_from"@),
                    ("spender"@, env.sender),
                    ("sender"@, owner),
                    ("recipient"@, recipient),
                ],
                None,
            )
            &&& step.outcome is Err ==> {
                &&& step.storage.total_supply == s.total_supply
                &&& step.storage.constants == s.constants
                &&& step.storage.viewing_keys == s.viewing_keys
                &&& step.storage.transfers == s.transfers
                &&& step.storage.swaps == s.swaps
            }
        }),
{
    let step = transfer_from_step(d, env, owner, recipient, amount);
    if let Ok(r) = step.outcome {
        assert(r.log =~= telling(
            seq![
                ("action"@, "transfer_from"@),
                ("spender"@, env.sender),
                ("sender"@, owner),
                ("recipient"@, recipient),
            ],
            r.data,
        )->Ok_0.log);
    }
}

/// A spender who is allowed the amount and asks for it may take that much less afterwards, whether
/// or not the tokens can be moved. No other allowance is touched.
pub proof fn law_permitted_spending_uses_up_allowance(
    d: DepsView,
    env: EnvView,
    owner: Seq<char>,
    recipient: Seq<char>,
    amount: u128,
)
    requires
        d.api.canonical_address(env.sender) is Ok,
        d.api.canonical_address(owner) is Ok,
        d.api.canonical_address(recipient) is Ok,
        d.storage.allowance(
            d.api.canonical_address(owner)->Ok_0,
            d.api.canonical_address(env.sender)->Ok_0,
        ) is Ok,
        d.storage.allowance(
            d.api.canonical_address(owner)->Ok_0,
            d.api.canonical_address(env.sender)->Ok_0,
        )->Ok_0 >= amount,
    ensures
        ({
            let spender = d.api.canonical_address(env.sender)->Ok_0;
            let from = d.api.canonical_address(owner)->Ok_0;
            let s = d.storage;
            let t = transfer_from_step(d, env, owner, recipient, amount).storage;
            &&& t.allowance(from, spender) is Ok
            &&& t.allowance(from, spender)->Ok_0 + amount == s.allowance(from, spender)->Ok_0
            &&& forall|x: Seq<u8>, y: Seq<u8>|
                (x, y) != (from, spender) ==> #[trigger] t.allowance(x, y) == s.allowance(x, y)
        }),
{
    let spender = d.api.canonical_address(env.sender)->Ok_0;
    let from = d.api.canonical_address(owner)->Ok_0;
    let left = (d.storage.allowance(from, spender)->Ok_0 - amount) as u128;
    law_amount_read_back(left);
}

/// Which moves are done, what the others are refused with, and what they have left behind.
pub proof fn law_move_outcome(s: StorageView, from: Seq<u8>, to: Seq<u8>, amount: u128)
    ensures
        ({
            let (t, result) = moved(s, from, to, amount);
            let covered = s.balance(from) >= amount;
            let bearable = from == to || s.balance(to) + amount <= u128::MAX;
            &&& ledger_alone_differs(s, t)
            &&& !covered ==> t == s && result == Err::<(), StdErrorView>(
                saying(
                    "Insufficient funds: balance="@ + decimal_digits(s.balance(from) as nat)
                        + ", required="@ + decimal_digits(amount as nat),
                ),
            )
            &&& covered && !bearable ==> result == Err::<(), StdErrorView>(
                saying("This tx will literally make them too rich. Try transferring less"@),
            ) && t.balance(from) == s.balance(from) - amount
            &&& covered && bearable ==> result is Ok && went(s, t, from, to, amount)
        }),
{
}

/// Of the coins that come with a message, the last one of the denomination `uscrt` counts, with its
/// whole amount.
pub proof fn law_last_native_coin_counts(funds: Seq<CoinView>, i: int)
    requires
        0 <= i < funds.len(),
        funds[i].denom == "uscrt"@,
        forall|j: int| i < j < funds.len() ==> (#[trigger] funds[j]).denom != "uscrt"@,
    ensures
        deposited(funds) == funds[i].amount,
    decreases funds.len(),
{
    if i < funds.len() - 1 {
        let front = funds.drop_last();
        assert(funds[funds.len() - 1].denom != "uscrt"@);
        assert forall|j: int| i < j < front.len() implies (#[trigger] front[j]).denom
            != "uscrt"@ by {
            assert(front[j] == funds[j]);
        }
        law_last_native_coin_counts(front, i);
    }
}

/// Without a coin of the denomination `uscrt`, nothing is deposited.
pub proof fn law_other_coins_do_not_count(funds: Seq<CoinView>)
    requires
        forall|j: int| 0 <= j < funds.len() ==> (#[trigger] funds[j]).denom != "uscrt"@,
    ensures
        deposited(funds) == 0,
    decreases funds.len(),
{
    if funds.len() > 0 {
        let front = funds.drop_last();
        assert(funds[funds.len() - 1].denom != "uscrt"@);
        assert forall|j: int| 0 <= j < front.len() implies (#[trigger] front[j]).denom
            != "uscrt"@ by {
            assert(front[j] == funds[j]);
        }
        law_other_coins_do_not_count(front);
    }
}

/// A deposit whose last native coin has an amount other than zero credits the sender with exactly
/// that amount, and the supply grows by as much. Nothing else changes.
pub proof fn law_deposit_credits_what_was_paid(d: DepsView, env: EnvView, i: int)
    requires
        0 <= i < env.sent_funds.len(),
        env.sent_funds[i].denom == "uscrt"@,
        forall|j: int|
            i < j < env.sent_funds.len() ==> (#[trigger] env.sent_funds[j]).denom != "uscrt"@,
        env.sent_funds[i].amount > 0,
        d.api.canonical_address(env.sender) is Ok,
        d.storage.total_supply + env.sent_funds[i].amount <= u128::MAX,
        d.storage.balance(d.api.canonical_address(env.sender)->Ok_0) + env.sent_funds[i].amount
            <= u128::MAX,
    ensures
        deposit_fits(d, env),
        ({
            let amount = env.sent_funds[i].amount;
            let step = deposit_step(d, env);
            let a = d.api.canonical_address(env.sender)->Ok_0;
            &&& ledger_alone_differs(d.storage, step.storage)
            &&& step.storage.balance(a) == d.storage.balance(a) + amount
            &&& step.storage.total_supply == d.storage.total_supply + amount
            &&& forall|x: Seq<u8>|
                x != a ==> #[trigger] step.storage.balance(x) == d.storage.balance(x)
            &&& step.outcome == telling(
                seq![
                    ("action"@, "deposit"@),
                    ("account"@, env.sender),
                    ("amount"@, decimal_digits(amount as nat)),
                ],
                None,
            )
        }),
{
    law_last_native_coin_counts(env.sent_funds, i);
    let r = deposit_step(d, env).outcome->Ok_0;
    assert(r.log =~= telling(
        seq![
            ("action"@, "deposit"@),
            ("account"@, env.sender),
            ("amount"@, decimal_digits(env.sent_funds[i].amount as nat)),
        ],
        None,
    )->Ok_0.log);
}

/// A deposit without a native coin, or whose last native coin has the amount zero, is refused, and
/// so is one of a sender that has no account. A refused deposit changes nothing, and all other
/// deposits are answered.
pub proof fn law_deposit_refusals(d: DepsView, env: EnvView)
    ensures
        ({
            let paid = exists|i: int|
                #![trigger env.sent_funds[i]]
                {
                    &&& 0 <= i < env.sent_funds.len()
                    &&& env.sent_funds[i].denom == "uscrt"@
                    &&& env.sent_funds[i].amount > 0
                    &&& forall|j: int|
                        i < j < env.sent_funds.len() ==> (#[trigger] env.sent_funds[j]).denom
                            != "uscrt"@
                };
            let account = d.api.canonical_address(env.sender);
            &&& !paid ==> deposit_step(d, env) == turned_down(
                d.storage,
                saying("Lol send some funds dude"@),
            )
            &&& paid && account is Err ==> deposit_step(d, env) == turned_down(
                d.storage,
                account->Err_0,
            )
            &&& paid && account is Ok ==> deposit_step(d, env).outcome is Ok
        }),
{
    let funds = env.sent_funds;
    let native = |i: int| 0 <= i < funds.len() && funds[i].denom == "uscrt"@;
    if exists|i: int| #[trigger] native(i) {
        let i = last_native(funds);
        assert(0 <= i < funds.len() && funds[i].denom == "uscrt"@) by {
            let k = choose|k: int| #[trigger] native(k);
            lemma_last_native(funds, k);
        }
        assert forall|j: int| i < j < funds.len() implies (#[trigger] funds[j]).denom
            != "uscrt"@ by {
            if funds[j].denom == "uscrt"@ {
                lemma_last_native(funds, j);
            }
        }
        law_last_native_coin_counts(funds, i);
        assert forall|k: int| #![trigger funds[k]]
            0 <= k < funds.len() && funds[k].denom == "uscrt"@ && (forall|j: int|
                k < j < funds.len() ==> (#[trigger] funds[j]).denom != "uscrt"@) implies k
            == i by {
            if k < i {
                assert(funds[i].denom != "uscrt"@);
            }
        }
    } else {
        assert forall|j: int| 0 <= j < funds.len() implies (#[trigger] funds[j]).denom
            != "uscrt"@ by {
            assert(!native(j));
        }
        law_other_coins_do_not_count(funds);
    }
}

/// The index of the last native coin.
spec fn last_native(funds: Seq<CoinView>) -> int
    decreases funds.len(),
{
    if funds.len() == 0 {
        -1
    } else if funds.last().denom == "uscrt"@ {
        funds.len() - 1
    } else {
        last_native(funds.drop_last())
    }
}

proof fn lemma_last_native(funds: Seq<CoinView>, k: int)
    requires
        0 <= k < funds.len(),
        funds[k].denom == "uscrt"@,
    ensures
        k <= last_native(funds) < funds.len(),
        funds[last_native(funds)].denom == "uscrt"@,
    decreases funds.len(),
{
    if funds.last().denom != "uscrt"@ {
        let front = funds.drop_last();
        assert(front[k] == funds[k]);
        lemma_last_native(front, k);
        assert(front[last_native(front)] == funds[last_native(front)]);
    }
}

/// Who can withdraw how much, what is sent for it, and what the others are refused with. The very
/// amount leaves the sender and the supply.
pub proof fn law_withdraw_outcome(d: DepsView, env: EnvView, amount: u128)
    requires
        burn_fits(d, env, amount),
    ensures
        ({
            let step = withdraw_step(d, env, amount);
            let account = d.api.canonical_address(env.sender);
            let held = d.storage.balance(account->Ok_0);
            &&& account is Err ==> step == turned_down(d.storage, account->Err_0)
            &&& account is Ok && held < amount ==> step == turned_down(
                d.storage,
                saying(
                    "insufficient funds to burn: balance="@ + decimal_digits(held as nat)
                        + ", required="@ + decimal_digits(amount as nat),
                ),
            )
            &&& account is Ok && held >= amount ==> {
                &&& vanished(d.storage, step.storage, account->Ok_0, amount)
                &&& ledger_alone_differs(d.storage, step.storage)
                &&& step.outcome is Ok
                &&& step.outcome->Ok_0.messages == seq![
                    SendView {
                        from_address: env.contract,
                        to_address: env.sender,
                        amount: seq![CoinView { denom: "uscrt"@, amount }],
                    },
                ]
                &&& step.outcome->Ok_0.data is None
                &&& step.outcome->Ok_0.log == telling(
                    seq![
                        ("action"@, "withdraw"@),
                        ("account"@, env.sender),
                        ("amount"@, decimal_digits(amount as nat)),
                    ],
                    None,
                )->Ok_0.log
            }
        }),
{
}

/// Who can burn how much, and what the others are refused with. The very amount leaves the sender
/// and the supply.
pub proof fn law_burn_outcome(d: DepsView, env: EnvView, amount: u128)
    requires
        burn_fits(d, env, amount),
    ensures
        ({
            let step = burn_step(d, env, amount);
            let account = d.api.canonical_address(env.sender);
            let held = d.storage.balance(account->Ok_0);
            &&& account is Err ==> step == turned_down(d.storage, account->Err_0)
            &&& account is Ok && held < amount ==> step == turned_down(
                d.storage,
                saying(
                    "insufficient funds to burn: balance="@ + decimal_digits(held as nat)
                        + ", required="@ + decimal_digits(amount as nat),
                ),
            )
            &&& account is Ok && held >= amount ==> {
                &&& vanished(d.storage, step.storage, account->Ok_0, amount)
                &&& ledger_alone_differs(d.storage, step.storage)
                &&& step.outcome == telling(
                    seq![
                        ("action"@, "burn"@),
                        ("account"@, env.sender),
                        ("amount"@, decimal_digits(amount as nat)),
                    ],
                    None,
                )
            }
        }),
{
    if let Ok(r) = burn_step(d, env, amount).outcome {
        assert(r.log =~= telling(
            seq![
                ("action"@, "burn"@),
                ("account"@, env.sender),
                ("amount"@, decimal_digits(amount as nat)),
            ],
            None,
        )->Ok_0.log);
    }
}

/// A swap that is answered has destroyed the very amount: the sender held it, and it has left the
/// sender and the supply. Nobody else's balance changes. One swap is recorded, with the amount, the
/// destination and the next nonce, after those that were.
pub proof fn law_swap_burns_what_it_records(
    d: DepsView,
    env: EnvView,
    amount: u128,
    destination: Seq<char>,
)
    requires
        burn_fits(d, env, amount),
        swap_step(d, env, amount, destination).outcome is Ok,
    ensures
        ({
            let s = d.storage;
            let t = swap_step(d, env, amount, destination).storage;
            let a = d.api.canonical_address(env.sender)->Ok_0;
            &&& d.api.canonical_address(env.sender) is Ok
            &&& s.balance(a) >= amount
            &&& t.balance(a) + amount == s.balance(a)
            &&& t.total_supply + amount == s.total_supply
            &&& forall|x: Seq<u8>| x != a ==> #[trigger] t.balance(x) == s.balance(x)
            &&& t.swaps.len() == s.swaps.len() + 1
            &&& t.swaps.drop_last() == s.swaps
            &&& t.swaps.last().amount == amount
            &&& t.swaps.last().destination == destination
            &&& t.swaps.last().nonce == s.swaps.len()
            &&& t.constants == s.constants
            &&& t.allowances == s.allowances
            &&& t.viewing_keys == s.viewing_keys
            &&& t.transfers == s.transfers
        }),
{
    let s = d.storage;
    let t = swap_step(d, env, amount, destination).storage;
    assert(t.swaps.drop_last() =~= s.swaps);
}

/// Who can swap how much, and what the others are refused with.
pub proof fn law_swap_outcome(d: DepsView, env: EnvView, amount: u128, destination: Seq<char>)
    requires
        burn_fits(d, env, amount),
    ensures
        ({
            let step = swap_step(d, env, amount, destination);
            let account = d.api.canonical_address(env.sender);
            let held = d.storage.balance(account->Ok_0);
            &&& account is Err ==> step == turned_down(d.storage, account->Err_0)
            &&& account is Ok && held < amount ==> step == turned_down(
                d.storage,
                saying(
                    "insufficient funds to burn: balance="@ + decimal_digits(held as nat)
                        + ", required="@ + decimal_digits(amount as nat),
                ),
            )
            &&& account is Ok && held >= amount && d.storage.swaps.len() > u32::MAX ==> {
                &&& step.outcome == Err::<ResponseView, StdErrorView>(
                    saying("No nonce is left"@),
                )
                &&& vanished(d.storage, step.storage, account->Ok_0, amount)
                &&& ledger_alone_differs(d.storage, step.storage)
            }
            &&& account is Ok && held >= amount && d.storage.swaps.len() <= u32::MAX
                ==> step.outcome == telling(
                Seq::empty(),
                Some(HandleAnswer::Swap { status: ResponseStatus::Success }),
            )
        }),
{
    if let Ok(r) = swap_step(d, env, amount, destination).outcome {
        assert(r.log =~= telling(Seq::empty(), None)->Ok_0.log);
    }
}

/// Swapping does to the ledger what burning does.
pub proof fn law_swap_burns(d: DepsView, env: EnvView, amount: u128, destination: Seq<char>)
    ensures
        swap_step(d, env, amount, destination).storage.balances == burn_step(
            d,
            env,
            amount,
        ).storage.balances,
        swap_step(d, env, amount, destination).storage.total_supply == burn_step(
            d,
            env,
            amount,
        ).storage.total_supply,
        withdraw_step(d, env, amount).storage == burn_step(d, env, amount).storage,
{
}

/// Who can mint, what is added to the account and to the supply, and what the others are refused
/// with.
pub proof fn law_mint_outcome(d: DepsView, env: EnvView, address: Seq<char>, amount: u128)
    requires
        mint_fits(d, env, address, amount),
    ensures
        ({
            let s = d.storage;
            let step = mint_step(d, env, address, amount);
            let account = d.api.canonical_address(address);
            let by_admin = s.constants is Some && s.constants->Some_0.admin == env.sender;
            &&& s.constants is None ==> step == turned_down(
                s,
                saying("no constants stored in configuration"@),
            )
            &&& s.constants is Some && !by_admin ==> step == turned_down(
                s,
                saying("Admin commands can only be ran from admin address"@),
            )
            &&& by_admin && account is Err ==> {
                &&& step.outcome == Err::<ResponseView, StdErrorView>(account->Err_0)
                &&& ledger_alone_differs(s, step.storage)
                &&& step.storage.balances == s.balances
                &&& step.storage.total_supply == s.total_supply + amount
            }
            &&& by_admin && account is Ok ==> {
                &&& step.outcome == telling(
                    Seq::empty(),
                    Some(HandleAnswer::Mint { status: ResponseStatus::Success }),
                )
                &&& ledger_alone_differs(s, step.storage)
                &&& appeared(s, step.storage, account->Ok_0, amount)
            }
        }),
{
    if let Ok(r) = mint_step(d, env, address, amount).outcome {
        assert(r.log =~= telling(Seq::empty(), None)->Ok_0.log);
    }
}

/// Who can name an admin, what that changes, and what the others are refused with.
pub proof fn law_change_admin_outcome(d: DepsView, env: EnvView, address: Seq<char>)
    ensures
        ({
            let s = d.storage;
            let step = change_admin_step(d, env, address);
            let by_admin = s.constants is Some && s.constants->Some_0.admin == env.sender;
            &&& s.constants is None ==> step == turned_down(
                s,
                saying("no constants stored in configuration"@),
            )
            &&& s.constants is Some && !by_admin ==> step == turned_down(
                s,
                saying("Admin commands can only be ran from admin address"@),
            )
            &&& by_admin ==> {
                &&& step.outcome == telling(Seq::empty(), None)
                &&& step.storage.constants is Some
                &&& step.storage.constants->Some_0.admin == address
                &&& step.storage.constants->Some_0.name == s.constants->Some_0.name
                &&& step.storage.constants->Some_0.symbol == s.constants->Some_0.symbol
                &&& step.storage.constants->Some_0.decimals == s.constants->Some_0.decimals
                &&& step.storage.balances == s.balances
                &&& step.storage.total_supply == s.total_supply
                &&& step.storage.allowances == s.allowances
                &&& step.storage.viewing_keys == s.viewing_keys
                &&& step.storage.transfers == s.transfers
                &&& step.storage.swaps == s.swaps
            }
        }),
{
    if let Ok(r) = change_admin_step(d, env, address).outcome {
        assert(r.log =~= telling(Seq::empty(), None)->Ok_0.log);
    }
}

/// An approval between two addresses is always done, and touches nothing but allowances.
pub proof fn law_approve_outcome(d: DepsView, env: EnvView, spender: Seq<char>, amount: u128)
    ensures
        ({
            let s = d.storage;
            let step = approve_step(d, env, spender, amount);
            let owner = d.api.canonical_address(env.sender);
            let sp = d.api.canonical_address(spender);
            &&& owner is Err ==> step == turned_down(s, owner->Err_0)
            &&& owner is Ok && sp is Err ==> step == turned_down(s, sp->Err_0)
            &&& owner is Ok && sp is Ok ==> step.outcome == telling(
                seq![
                    ("action"@, "approve"@),
                    ("owner"@, env.sender),
                    ("spender"@, spender),
                ],
                None,
            )
            &&& step.storage.constants == s.constants
            &&& step.storage.balances == s.balances
            &&& step.storage.total_supply == s.total_supply
            &&& step.storage.viewing_keys == s.viewing_keys
            &&& step.storage.transfers == s.transfers
            &&& step.storage.swaps == s.swaps
        }),
{
    if let Ok(r) = approve_step(d, env, spender, amount).outcome {
        assert(r.log =~= telling(
            seq![("action"@, "approve"@), ("owner"@, env.sender), ("spender"@, spender)],
            None,
        )->Ok_0.log);
    }
}

/// What the question for an allowance is told: the amount that may still be taken, or zero if that
/// cannot be read.
pub proof fn law_check_allowance_outcome(d: DepsView, env: EnvView, spender: Seq<char>)
    ensures
        ({
            let s = d.storage;
            let step = check_allowance_step(d, env, spender);
            let owner = d.api.canonical_address(env.sender);
            let sp = d.api.canonical_address(spender);
            let allowed = s.allowance(owner->Ok_0, sp->Ok_0);
            let shown = if allowed is Ok {
                decimal_digits(allowed->Ok_0 as nat)
            } else {
                "0"@
            };
            &&& step.storage == s
            &&& owner is Err ==> step == turned_down(s, owner->Err_0)
            &&& owner is Ok && sp is Err ==> step == turned_down(s, sp->Err_0)
            &&& owner is Ok && sp is Ok ==> step.outcome == telling(
                seq![
                    ("action"@, "check_allowance"@),
                    ("account"@, env.sender),
                    ("spender"@, spender),
                    ("amount"@, filled(shown, 64)),
                ],
                None,
            )
        }),
{
    let owner = d.api.canonical_address(env.sender);
    let sp = d.api.canonical_address(spender);
    let allowed = d.storage.allowance(owner->Ok_0, sp->Ok_0);
    let shown = if allowed is Ok {
        decimal_digits(allowed->Ok_0 as nat)
    } else {
        "0"@
    };
    if let Ok(r) = check_allowance_step(d, env, spender).outcome {
        assert(r.log =~= telling(
            seq![
                ("action"@, "check_allowance"@),
                ("account"@, env.sender),
                ("spender"@, spender),
                ("amount"@, filled(shown, 64)),
            ],
            None,
        )->Ok_0.log);
    }
}

/// What the question for the own balance is told: the balance in whole tokens with the symbol, or
/// zero where the contract was not instantiated.
pub proof fn law_balance_outcome(d: DepsView, env: EnvView)
    ensures
        ({
            let s = d.storage;
            let step = balance_step(d, env);
            let account = d.api.canonical_address(env.sender);
            let shown = if s.constants is Some {
                display_token(
                    s.balance(account->Ok_0),
                    s.constants->Some_0.symbol,
                    s.constants->Some_0.decimals,
                )
            } else {
                "0"@
            };
            &&& step.storage == s
            &&& account is Err ==> step == turned_down(s, account->Err_0)
            &&& account is Ok ==> step.outcome == telling(
                seq![
                    ("action"@, "balance"@),
                    ("account"@, env.sender),
                    ("amount"@, filled(shown, 64)),
                ],
                None,
            )
        }),
{
    let s = d.storage;
    let account = d.api.canonical_address(env.sender);
    let shown = if s.constants is Some {
        display_token(
            s.balance(account->Ok_0),
            s.constants->Some_0.symbol,
            s.constants->Some_0.decimals,
        )
    } else {
        "0"@
    };
    if let Ok(r) = balance_step(d, env).outcome {
        assert(r.log =~= telling(
            seq![
                ("action"@, "balance"@),
                ("account"@, env.sender),
                ("amount"@, filled(shown, 64)),
            ],
            None,
        )->Ok_0.log);
    }
}

/// Whether the account's key is kept under the digest, and nothing else differs.
pub open spec fn key_alone_differs(
    s: StorageView,
    t: StorageView,
    account: Seq<u8>,
    digest: Seq<u8>,
) -> bool {
    &&& t.viewing_key(account) == Some(digest)
    &&& forall|x: Seq<u8>| x != account ==> #[trigger] t.viewing_key(x) == s.viewing_key(x)
    &&& t.constants == s.constants
    &&& t.balances == s.balances
    &&& t.total_supply == s.total_supply
    &&& t.allowances == s.allowances
    &&& t.transfers == s.transfers
    &&& t.swaps == s.swaps
}

/// Which keys are kept, under which digest, and what the sender is told. A key of forty-four
/// characters is kept; any other is answered with a failure.
pub proof fn law_set_key_outcome(d: DepsView, env: EnvView, key: Seq<char>)
    requires
        set_key_fits(d, env, key),
    ensures
        ({
            let s = d.storage;
            let step = set_key_step(d, env, key);
            let account = d.api.canonical_address(env.sender);
            &&& key.len() != 44 ==> step.storage == s && step.outcome == telling(
                seq![
                    ("result"@, "failed!"@),
                    ("viewing key"@, "viewing key must be a string exactly 44 characters!"@),
                ],
                None,
            )
            &&& key.len() == 44 && account is Err ==> step == turned_down(s, account->Err_0)
            &&& key.len() == 44 && account is Ok ==> {
                &&& key_alone_differs(s, step.storage, account->Ok_0, d.keys.digests[key])
                &&& step.outcome == telling(
                    seq![("result"@, "success"@), ("viewing key"@, key)],
                    None,
                )
            }
        }),
{
    let step = set_key_step(d, env, key);
    if key.len() != 44 {
        reveal_strlit("viewing key must be a string exactly 44 characters!");
        reveal_strlit("viewing key must be a string exactly ");
        reveal_strlit(" characters!");
        reveal_with_fuel(decimal_digits, 3);
        assert(wrong_length_text()
            =~= "viewing key must be a string exactly 44 characters!"@);
        assert(step.outcome->Ok_0.log =~= telling(
            seq![
                ("result"@, "failed!"@),
                ("viewing key"@, "viewing key must be a string exactly 44 characters!"@),
            ],
            None,
        )->Ok_0.log);
    } else if let Ok(r) = step.outcome {
        assert(r.log =~= telling(
            seq![("result"@, "success"@), ("viewing key"@, key)],
            None,
        )->Ok_0.log);
    }
}

/// Which key is made, of the sender, the letters `yo` and the bytes of the entropy, under which
/// digest it is kept, and what the sender is told.
pub proof fn law_create_key_outcome(d: DepsView, env: EnvView, entropy: Seq<char>)
    requires
        create_key_fits(d, env, entropy),
    ensures
        ({
            let s = d.storage;
            let step = create_key_step(d, env, entropy);
            let account = d.api.canonical_address(env.sender);
            let key = d.keys.made[KeyRequestView {
                sender: env.sender,
                seed: seq![121u8, 111u8],
                entropy: encode_utf8(entropy),
            }];
            &&& account is Err ==> step == turned_down(s, account->Err_0)
            &&& account is Ok ==> {
                &&& key_alone_differs(s, step.storage, account->Ok_0, d.keys.digests[key])
                &&& step.outcome == telling(seq![("viewing key"@, key)], None)
            }
        }),
{
    if let Ok(r) = create_key_step(d, env, entropy).outcome {
        let key = d.keys.made[KeyRequestView {
            sender: env.sender,
            seed: seq![121u8, 111u8],
            entropy: encode_utf8(entropy),
        }];
        assert(r.log =~= telling(seq![("viewing key"@, key)], None)->Ok_0.log);
    }
}

/// A message does what its own operation does, with the very values that it brings.
pub proof fn law_messages_reach_their_operation(
    d: DepsView,
    env: EnvView,
    amount: u128,
    first: Seq<char>,
    second: Seq<char>,
)
    ensures
        handle_step(d, env, HandleMsgView::Deposit) == deposit_step(d, env),
        handle_step(d, env, HandleMsgView::Withdraw { amount }) == withdraw_step(d, env, amount),
        handle_step(d, env, HandleMsgView::Balance) == balance_step(d, env),
        handle_step(d, env, HandleMsgView::Transfer { recipient: first, amount })
            == transfer_step(d, env, first, amount),
        handle_step(d, env, HandleMsgView::Burn { amount }) == burn_step(d, env, amount),
        handle_step(d, env, HandleMsgView::Mint { amount, address: first }) == mint_step(
            d,
            env,
            first,
            amount,
        ),
        handle_step(d, env, HandleMsgView::ChangeAdmin { address: first }) == change_admin_step(
            d,
            env,
            first,
        ),
        handle_step(d, env, HandleMsgView::CreateViewingKey { entropy: first })
            == create_key_step(d, env, first),
        handle_step(d, env, HandleMsgView::SetViewingKey { key: first }) == set_key_step(
            d,
            env,
            first,
        ),
        handle_step(
            d,
            env,
            HandleMsgView::TransferFrom { owner: first, recipient: second, amount },
        ) == transfer_from_step(d, env, first, second, amount),
        handle_step(d, env, HandleMsgView::Allowance { spender: first }) == check_allowance_step(
            d,
            env,
            first,
        ),
        handle_step(d, env, HandleMsgView::Approve { spender: first, amount }) == approve_step(
            d,
            env,
            first,
            amount,
        ),
        handle_step(
            d,
            env,
            HandleMsgView::Swap { amount, network: first, destination: second },
        ) == swap_step(d, env, amount, second),
{
}

/// What a message needs in order to be run: nothing but that sums and differences stay in range,
/// that a balance can be shown where it is asked for, and that the key derivation has answered.
pub proof fn law_messages_need_no_more(d: DepsView, env: EnvView, msg: HandleMsgView)
    ensures
        ({
            let s = d.storage;
            let sender = d.api.canonical_address(env.sender);
            let held = s.balance(sender->Ok_0);
            match msg {
                HandleMsgView::Deposit => (sender is Ok ==> held + deposited(env.sent_funds)
                    <= u128::MAX && s.total_supply + deposited(env.sent_funds) <= u128::MAX)
                    ==> handle_fits(d, env, msg),
                HandleMsgView::Withdraw { amount } => amount <= s.total_supply ==> handle_fits(
                    d,
                    env,
                    msg,
                ),
                HandleMsgView::Burn { amount } => amount <= s.total_supply ==> handle_fits(
                    d,
                    env,
                    msg,
                ),
                HandleMsgView::Swap { amount, .. } => amount <= s.total_supply ==> handle_fits(
                    d,
                    env,
                    msg,
                ),
                HandleMsgView::Balance => (s.constants is Some ==> s.constants->Some_0.decimals
                    <= 9 && held * 1_000_000_000_000_000_000 <= u128::MAX) ==> handle_fits(
                    d,
                    env,
                    msg,
                ),
                HandleMsgView::Mint { amount, address } => (s.total_supply + amount <= u128::MAX
                    && s.balance(d.api.canonical_address(address)->Ok_0) + amount <= u128::MAX)
                    ==> handle_fits(d, env, msg),
                HandleMsgView::CreateViewingKey { entropy } => {
                    let request = KeyRequestView {
                        sender: env.sender,
                        seed: seq![121u8, 111u8],
                        entropy: encode_utf8(entropy),
                    };
                    d.keys.made.contains_key(request) && d.keys.digests.contains_key(
                        d.keys.made[request],
                    ) ==> handle_fits(d, env, msg)
                },
                HandleMsgView::SetViewingKey { key } => d.keys.digests.contains_key(key)
                    || key.len() != 44 ==> handle_fits(d, env, msg),
                _ => handle_fits(d, env, msg),
            }
        }),
{
}

/// Two transfers in a row to one recipient move what one transfer of the sum moves.
pub proof fn law_transfers_add_up(
    d: DepsView,
    env: EnvView,
    recipient: Seq<char>,
    first: u128,
    second: u128,
    account: Seq<u8>,
)
    requires
        first + second <= u128::MAX,
        transfer_step(d, env, recipient, (first + second) as u128).outcome is Ok,
    ensures
        ({
            let there = transfer_step(d, env, recipient, first);
            let twice = transfer_step(after(d, there), env, recipient, second);
            &&& there.outcome is Ok
            &&& twice.outcome is Ok
            &&& twice.storage.balance(account) == transfer_step(
                d,
                env,
                recipient,
                (first + second) as u128,
            ).storage.balance(account)
        }),
{
}

} // verus!
