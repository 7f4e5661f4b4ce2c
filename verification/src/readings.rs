//! What is read from the storage, and how reading goes with writing; what the contract is
//! instantiated with; what questions are answered.

use vstd::prelude::*;
use vstd::utf8::encode_utf8;

use crate::api::ApiView;
use crate::codec::law_amount_read_back;
use crate::contract::took;
use crate::deps::DepsView;
use crate::display::display_token;
use crate::laws::law_init_accepts;
use crate::listing::shown_transfers;
use crate::model::{
    authenticated_answer, balance_answer, given_out, init_fits, init_step, lemma_given_out_stops,
    no_digest, opens, query_answer, question_fits, shown_balance, swap_answer, transfers_answer,
    Step,
};
use crate::msg::{InitMsgView, InitialBalanceView, QueryAnswerView, QueryMsgView};
use crate::operations::saying;
use crate::state::{
    all_humanized, key_kept, lemma_first_failure, ConstantsView, StorageView, StoredTxView,
    SwapView, TxView,
};
use crate::types::{result_view, CoinView, HandleResponse, ResponseView, StdError, StdErrorView};
use crate::viewing_key::KeyServiceView;

verus! {

/// A conversion gives what the chain answered, and an error where it was not asked.
pub proof fn law_conversions_are_the_answers(
    api: ApiView,
    human: Seq<char>,
    canonical: Seq<u8>,
    account: Result<Seq<u8>, StdErrorView>,
    address: Result<Seq<char>, StdErrorView>,
)
    ensures
        ({
            let asked = ApiView { canonical: api.canonical.insert(human, account), ..api };
            let named = ApiView { human: api.human.insert(canonical, address), ..api };
            &&& asked.canonical_address(human) == account
            &&& named.human_address(canonical) == address
            &&& forall|x: Seq<char>|
                x != human ==> #[trigger] asked.canonical_address(x) == api.canonical_address(x)
            &&& forall|x: Seq<u8>|
                x != canonical ==> #[trigger] named.human_address(x) == api.human_address(x)
            &&& !api.canonical.contains_key(human) ==> api.canonical_address(human) is Err
            &&& !api.human.contains_key(canonical) ==> api.human_address(canonical) is Err
        }),
{
}

/// In a blank storage nobody holds or may take anything, no key is set and nothing is recorded.
pub proof fn law_blank_holds_nothing(a: Seq<u8>, b: Seq<u8>, n: u32)
    ensures
        ({
            let s = StorageView::blank();
            &&& s.balance(a) == 0
            &&& s.total_supply == 0
            &&& s.allowance(a, b) == Ok::<u128, StdErrorView>(0)
            &&& s.viewing_key(a) is None
            &&& s.history(a).len() == 0
            &&& s.swap(n) == Err::<SwapView, StdErrorView>(saying("No swap with this nonce"@))
            &&& s.config() == Err::<ConstantsView, StdErrorView>(
                saying("no constants stored in configuration"@),
            )
        }),
{
}

/// A balance that was set reads back, and no other balance and nothing else has changed. A balance
/// reads as what is kept for the account.
pub proof fn law_balance_reads_back(s: StorageView, a: Seq<u8>, amount: u128)
    ensures
        s.with_balance(a, amount).balance(a) == amount,
        s.with_balance(a, amount).balances[a] == amount,
        forall|x: Seq<u8>|
            x != a ==> #[trigger] s.with_balance(a, amount).balance(x) == s.balance(x),
        s.with_balance(a, amount).total_supply == s.total_supply,
        s.with_balance(a, amount).constants == s.constants,
        s.with_balance(a, amount).allowances == s.allowances,
        s.with_balance(a, amount).viewing_keys == s.viewing_keys,
        s.with_balance(a, amount).transfers == s.transfers,
        s.with_balance(a, amount).swaps == s.swaps,
        s.balances.contains_key(a) ==> s.balance(a) == s.balances[a],
        !s.balances.contains_key(a) ==> s.balance(a) == 0,
{
}

/// A supply that was set reads back, and nothing else has changed.
pub proof fn law_supply_reads_back(s: StorageView, supply: u128)
    ensures
        s.with_supply(supply).total_supply == supply,
        s.with_supply(supply).constants == s.constants,
        s.with_supply(supply).balances == s.balances,
        s.with_supply(supply).allowances == s.allowances,
        s.with_supply(supply).viewing_keys == s.viewing_keys,
        s.with_supply(supply).transfers == s.transfers,
        s.with_supply(supply).swaps == s.swaps,
{
}

/// Constants that were set read back, and nothing else has changed.
pub proof fn law_constants_read_back(s: StorageView, c: ConstantsView)
    ensures
        s.with_constants(c).config() == Ok::<ConstantsView, StdErrorView>(c),
        s.with_constants(c).constants == Some(c),
        s.with_constants(c).total_supply == s.total_supply,
        s.with_constants(c).balances == s.balances,
        s.with_constants(c).allowances == s.allowances,
        s.with_constants(c).viewing_keys == s.viewing_keys,
        s.with_constants(c).transfers == s.transfers,
        s.with_constants(c).swaps == s.swaps,
        s.constants is Some ==> s.config() == Ok::<ConstantsView, StdErrorView>(
            s.constants->Some_0,
        ),
        s.constants is None ==> s.config() == Err::<ConstantsView, StdErrorView>(
            saying("no constants stored in configuration"@),
        ),
{
}

/// An allowance that was set reads back, no other allowance and nothing else has changed, and what
/// does not have sixteen bytes cannot be read.
pub proof fn law_allowance_reads_back(
    s: StorageView,
    owner: Seq<u8>,
    spender: Seq<u8>,
    amount: u128,
)
    ensures
        ({
            let t = s.with_allowance(owner, spender, amount);
            &&& t.allowance(owner, spender) == Ok::<u128, StdErrorView>(amount)
            &&& forall|x: Seq<u8>, y: Seq<u8>|
                (x, y) != (owner, spender) ==> #[trigger] t.allowance(x, y) == s.allowance(x, y)
            &&& t.constants == s.constants
            &&& t.total_supply == s.total_supply
            &&& t.balances == s.balances
            &&& t.viewing_keys == s.viewing_keys
            &&& t.transfers == s.transfers
            &&& t.swaps == s.swaps
        }),
        !s.allowances.contains_key((owner, spender)) ==> s.allowance(owner, spender) == Ok::<
            u128,
            StdErrorView,
        >(0),
        s.allowances.contains_key((owner, spender)) && s.allowances[(owner, spender)].len() != 16
            ==> s.allowance(owner, spender) == Err::<u128, StdErrorView>(
            saying("Corrupted data found. 16 byte expected."@),
        ),
        s.allowances.contains_key((owner, spender)) && s.allowances[(owner, spender)].len() == 16
            ==> s.allowance(owner, spender) is Ok,
{
    law_amount_read_back(amount);
}

/// A viewing key's digest reads back, and no other and nothing else has changed. A key that is kept
/// is kept under its digest.
pub proof fn law_viewing_key_reads_back(
    s: StorageView,
    keys: KeyServiceView,
    a: Seq<u8>,
    digest: Seq<u8>,
    key: Seq<char>,
)
    ensures
        ({
            let t = s.with_viewing_key(a, digest);
            &&& t.viewing_key(a) == Some(digest)
            &&& forall|x: Seq<u8>| x != a ==> #[trigger] t.viewing_key(x) == s.viewing_key(x)
            &&& t.constants == s.constants
            &&& t.total_supply == s.total_supply
            &&& t.balances == s.balances
            &&& t.allowances == s.allowances
            &&& t.transfers == s.transfers
            &&& t.swaps == s.swaps
        }),
        keys.digests.contains_key(key) ==> {
            &&& keys.digest(key) == Some(keys.digests[key])
            &&& key_kept(s, keys, a, key) == s.with_viewing_key(a, keys.digests[key])
            &&& keys.matches(key, digest) <==> keys.digests[key] == digest
        },
        !keys.digests.contains_key(key) ==> keys.digest(key) is None,
{
}

/// A recorded transfer is the newest of the account's, after those that were, and no other history
/// and nothing else has changed.
pub proof fn law_history_reads_back(s: StorageView, a: Seq<u8>, tx: StoredTxView)
    ensures
        s.with_tx(a, tx).history(a) == s.history(a).push(tx),
        forall|x: Seq<u8>| x != a ==> #[trigger] s.with_tx(a, tx).history(x) == s.history(x),
        s.with_tx(a, tx).constants == s.constants,
        s.with_tx(a, tx).total_supply == s.total_supply,
        s.with_tx(a, tx).balances == s.balances,
        s.with_tx(a, tx).allowances == s.allowances,
        s.with_tx(a, tx).viewing_keys == s.viewing_keys,
        s.with_tx(a, tx).swaps == s.swaps,
{
}

/// A transfer is recorded with its sender, its receiver, its amount and its denomination, as the
/// newest of both accounts, once even if they are one. No other history and nothing else changes.
pub proof fn law_transfer_is_kept(
    s: StorageView,
    sender: Seq<u8>,
    receiver: Seq<u8>,
    amount: u128,
    denom: Seq<char>,
)
    ensures
        ({
            let t = s.with_transfer(sender, receiver, amount, denom);
            let tx = StoredTxView { sender, receiver, coins: CoinView { denom, amount } };
            &&& t.history(sender) == s.history(sender).push(tx)
            &&& t.history(receiver) == s.history(receiver).push(tx)
            &&& forall|x: Seq<u8>|
                x != sender && x != receiver ==> #[trigger] t.history(x) == s.history(x)
            &&& t.constants == s.constants
            &&& t.total_supply == s.total_supply
            &&& t.balances == s.balances
            &&& t.allowances == s.allowances
            &&& t.viewing_keys == s.viewing_keys
            &&& t.swaps == s.swaps
        }),
{
}

/// Of a history, as many transfers are shown as are asked for and there are, the newest first.
pub proof fn law_newest_come_first(s: StorageView, account: Seq<u8>, n: u32)
    ensures
        ({
            let all = s.history(account);
            let shown = s.newest(account, n);
            &&& shown.len() == if n < all.len() {
                n as nat
            } else {
                all.len()
            }
            &&& forall|i: int|
                0 <= i < shown.len() ==> #[trigger] shown[i] == all[all.len() - 1 - i]
        }),
{
}

/// A recorded swap reads back under its nonce, which is the number of swaps before it, and nothing
/// else has changed.
pub proof fn law_swap_is_kept(s: StorageView, destination: Seq<char>, amount: u128, nonce: u32)
    requires
        s.swaps.len() <= u32::MAX,
    ensures
        ({
            let t = s.with_swap(destination, amount);
            &&& t.swap(s.swaps.len() as u32) == Ok::<SwapView, StdErrorView>(
                SwapView { destination, amount, nonce: s.swaps.len() as u32 },
            )
            &&& nonce < s.swaps.len() ==> t.swap(nonce) == s.swap(nonce)
            &&& nonce > s.swaps.len() ==> t.swap(nonce) == Err::<SwapView, StdErrorView>(
                saying("No swap with this nonce"@),
            )
            &&& t.constants == s.constants
            &&& t.total_supply == s.total_supply
            &&& t.balances == s.balances
            &&& t.allowances == s.allowances
            &&& t.viewing_keys == s.viewing_keys
            &&& t.transfers == s.transfers
        }),
{
}

/// The sum of the amounts in the list.
pub open spec fn amounts(list: Seq<InitialBalanceView>) -> int {
    list.fold_left(0, |total: int, b: InitialBalanceView| total + b.amount)
}

/// Whether every entry of the list names an account.
pub open spec fn all_named(d: DepsView, list: Seq<InitialBalanceView>) -> bool {
    forall|i: int|
        0 <= i < list.len() ==> d.api.canonical_address((#[trigger] list[i]).address) is Ok
}

proof fn lemma_given_out_frame(d: DepsView, list: Seq<InitialBalanceView>)
    ensures
        given_out(d, list).0.total_supply == d.storage.total_supply,
        given_out(d, list).0.constants == d.storage.constants,
        given_out(d, list).0.allowances == d.storage.allowances,
        given_out(d, list).0.viewing_keys == d.storage.viewing_keys,
        given_out(d, list).0.transfers == d.storage.transfers,
        given_out(d, list).0.swaps == d.storage.swaps,
    decreases list.len(),
{
    if list.len() > 0 {
        lemma_given_out_frame(d, list.drop_last());
    }
}

proof fn lemma_given_out_meaning(d: DepsView, list: Seq<InitialBalanceView>)
    requires
        all_named(d, list),
    ensures
        given_out(d, list).2 is Ok,
        given_out(d, list).1 == amounts(list),
        forall|x: Seq<u8>|
            (forall|i: int|
                0 <= i < list.len() ==> d.api.canonical_address((#[trigger] list[i]).address)
                    != Ok::<Seq<u8>, StdErrorView>(x)) ==> #[trigger] given_out(d, list).0.balance(
                x,
            ) == d.storage.balance(x),
    decreases list.len(),
{
    if list.len() > 0 {
        let front = list.drop_last();
        let n = list.len() - 1;
        assert(list[n] == list.last());
        assert forall|i: int| 0 <= i < front.len() implies d.api.canonical_address(
            (#[trigger] front[i]).address,
        ) is Ok by {
            assert(front[i] == list[i]);
        }
        lemma_given_out_meaning(d, front);
        assert forall|x: Seq<u8>|
            (forall|i: int|
                0 <= i < list.len() ==> d.api.canonical_address((#[trigger] list[i]).address)
                    != Ok::<Seq<u8>, StdErrorView>(x)) implies #[trigger] given_out(
            d,
            list,
        ).0.balance(x) == d.storage.balance(x) by {
            assert forall|i: int| 0 <= i < front.len() implies d.api.canonical_address(
                (#[trigger] front[i]).address,
            ) != Ok::<Seq<u8>, StdErrorView>(x) by {
                assert(front[i] == list[i]);
            }
            assert(given_out(d, front).0.balance(x) == d.storage.balance(x));
        }
    }
}

proof fn lemma_given_out_last(d: DepsView, list: Seq<InitialBalanceView>, i: int)
    requires
        all_named(d, list),
        0 <= i < list.len(),
        forall|j: int|
            i < j < list.len() ==> d.api.canonical_address((#[trigger] list[j]).address)
                != d.api.canonical_address(list[i].address),
    ensures
        given_out(d, list).0.balance(d.api.canonical_address(list[i].address)->Ok_0)
            == list[i].amount,
    decreases list.len(),
{
    let front = list.drop_last();
    let n = list.len() - 1;
    assert(list[n] == list.last());
    assert forall|j: int| 0 <= j < front.len() implies d.api.canonical_address(
        (#[trigger] front[j]).address,
    ) is Ok by {
        assert(front[j] == list[j]);
    }
    lemma_given_out_meaning(d, front);
    if i < n {
        assert(front[i] == list[i]);
        assert forall|j: int| i < j < front.len() implies d.api.canonical_address(
            (#[trigger] front[j]).address,
        ) != d.api.canonical_address(front[i].address) by {
            assert(front[j] == list[j]);
        }
        lemma_given_out_last(d, front, i);
    }
}

/// An instantiated contract has as its supply the sum of all initial amounts. Each account holds
/// what the last entry that names it gives it; accounts that no entry names hold what they held.
/// The answer is empty, and nothing but balances, the supply and the constants has changed.
pub proof fn law_init_gives_what_it_says(d: DepsView, msg: InitMsgView)
    requires
        init_fits(d, msg),
        init_step(d, msg).outcome is Ok,
    ensures
        ({
            let list = msg.initial_balances;
            let step = init_step(d, msg);
            &&& step.storage.total_supply == amounts(list)
            &&& forall|i: int|
                #![trigger list[i]]
                0 <= i < list.len() && (forall|j: int|
                    i < j < list.len() ==> d.api.canonical_address((#[trigger] list[j]).address)
                        != d.api.canonical_address(list[i].address)) ==> step.storage.balance(
                    d.api.canonical_address(list[i].address)->Ok_0,
                ) == list[i].amount
            &&& forall|x: Seq<u8>|
                (forall|i: int|
                    0 <= i < list.len() ==> d.api.canonical_address((#[trigger] list[i]).address)
                        != Ok::<Seq<u8>, StdErrorView>(x)) ==> #[trigger] step.storage.balance(x)
                    == d.storage.balance(x)
            &&& step.outcome->Ok_0.messages.len() == 0
            &&& step.outcome->Ok_0.log.len() == 0
            &&& step.outcome->Ok_0.data is None
            &&& step.storage.allowances == d.storage.allowances
            &&& step.storage.viewing_keys == d.storage.viewing_keys
            &&& step.storage.transfers == d.storage.transfers
            &&& step.storage.swaps == d.storage.swaps
        }),
{
    let list = msg.initial_balances;
    let step = init_step(d, msg);
    law_init_accepts(d, msg);
    lemma_given_out_meaning(d, list);
    lemma_given_out_frame(d, list);
    let s = given_out(d, list).0;
    assert(step.storage.balances == s.balances);
    assert forall|i: int|
        #![trigger list[i]]
        0 <= i < list.len() && (forall|j: int|
            i < j < list.len() ==> d.api.canonical_address((#[trigger] list[j]).address)
                != d.api.canonical_address(list[i].address)) implies step.storage.balance(
        d.api.canonical_address(list[i].address)->Ok_0,
    ) == list[i].amount by {
        lemma_given_out_last(d, list, i);
        assert(step.storage.balance(d.api.canonical_address(list[i].address)->Ok_0) == s.balance(
            d.api.canonical_address(list[i].address)->Ok_0,
        ));
    }
    assert forall|x: Seq<u8>|
        (forall|i: int|
            0 <= i < list.len() ==> d.api.canonical_address((#[trigger] list[i]).address) != Ok::<
                Seq<u8>,
                StdErrorView,
            >(x)) implies #[trigger] step.storage.balance(x) == d.storage.balance(x) by {
        assert(step.storage.balance(x) == s.balance(x));
    }
}

/// What keeps the contract from being instantiated, in the order in which it is looked at: the
/// first entry that names no account, the name, the symbol, the number of decimals. Without such a
/// reason it is instantiated. A refusal sets neither constants nor a supply.
pub proof fn law_init_refusals(d: DepsView, msg: InitMsgView, i: int)
    ensures
        ({
            let list = msg.initial_balances;
            let step = init_step(d, msg);
            let name_ok = 3 <= encode_utf8(msg.name).len() <= 30;
            let symbol_ok = 3 <= msg.symbol.len() <= 6 && forall|k: int|
                0 <= k < msg.symbol.len() ==> 'A' <= #[trigger] msg.symbol[k] <= 'Z';
            &&& 0 <= i < list.len() && all_named(d, list.take(i)) && d.api.canonical_address(
                list[i].address,
            ) is Err ==> step.outcome == Err::<ResponseView, StdErrorView>(
                d.api.canonical_address(list[i].address)->Err_0,
            )
            &&& all_named(d, list) && !name_ok ==> step.outcome == Err::<
                ResponseView,
                StdErrorView,
            >(saying("Name is not in the expected format (3-30 UTF-8 bytes)"@))
            &&& all_named(d, list) && name_ok && !symbol_ok ==> step.outcome == Err::<
                ResponseView,
                StdErrorView,
            >(saying("Ticker symbol is not in expected format [A-Z]{3,6}"@))
            &&& all_named(d, list) && name_ok && symbol_ok && msg.decimals > 18 ==> step.outcome
                == Err::<ResponseView, StdErrorView>(saying("Decimals must not exceed 18"@))
            &&& all_named(d, list) && name_ok && symbol_ok && msg.decimals <= 18 ==> {
                &&& step.outcome is Ok
                &&& step.storage.constants is Some
                &&& step.storage.constants->Some_0.name == msg.name
                &&& step.storage.constants->Some_0.symbol == msg.symbol
                &&& step.storage.constants->Some_0.decimals == msg.decimals
                &&& step.storage.constants->Some_0.admin == msg.admin
            }
            &&& step.outcome is Err ==> {
                &&& step.storage.constants == d.storage.constants
                &&& step.storage.total_supply == d.storage.total_supply
                &&& step.storage.allowances == d.storage.allowances
                &&& step.storage.viewing_keys == d.storage.viewing_keys
                &&& step.storage.transfers == d.storage.transfers
                &&& step.storage.swaps == d.storage.swaps
            }
        }),
{
    let list = msg.initial_balances;
    lemma_given_out_frame(d, list);
    if 0 <= i < list.len() && all_named(d, list.take(i)) && d.api.canonical_address(
        list[i].address,
    ) is Err {
        lemma_given_out_meaning(d, list.take(i));
        assert(list.take(i + 1).drop_last() =~= list.take(i));
        assert(list.take(i + 1).last() == list[i]);
        lemma_given_out_stops(d, list, i + 1);
    }
    if all_named(d, list) {
        lemma_given_out_meaning(d, list);
    }
}

/// What a refused instantiation has left behind: the balances of the entries before the first that
/// names no account, or of all entries if there is no such entry.
pub proof fn law_init_refusal_leaves(d: DepsView, msg: InitMsgView, n: int, i: int, x: Seq<u8>)
    requires
        init_step(d, msg).outcome is Err,
        0 <= n <= msg.initial_balances.len(),
        all_named(d, msg.initial_balances.take(n)),
        n < msg.initial_balances.len() ==> d.api.canonical_address(
            msg.initial_balances[n].address,
        ) is Err,
    ensures
        ({
            let list = msg.initial_balances.take(n);
            let t = init_step(d, msg).storage;
            &&& 0 <= i < n && (forall|j: int|
                i < j < n ==> d.api.canonical_address((#[trigger] list[j]).address)
                    != d.api.canonical_address(list[i].address)) ==> t.balance(
                d.api.canonical_address(list[i].address)->Ok_0,
            ) == list[i].amount
            &&& (forall|j: int|
                0 <= j < n ==> d.api.canonical_address((#[trigger] list[j]).address) != Ok::<
                    Seq<u8>,
                    StdErrorView,
                >(x)) ==> t.balance(x) == d.storage.balance(x)
        }),
{
    let all = msg.initial_balances;
    let list = all.take(n);
    lemma_given_out_meaning(d, list);
    if n < all.len() {
        assert(all.take(n + 1).drop_last() =~= list);
        assert(all.take(n + 1).last() == all[n]);
        lemma_given_out_stops(d, all, n + 1);
    } else {
        assert(list =~= all);
    }
    assert(init_step(d, msg).storage == given_out(d, list).0);
    if 0 <= i < n && (forall|j: int|
        i < j < n ==> d.api.canonical_address((#[trigger] list[j]).address)
            != d.api.canonical_address(list[i].address)) {
        lemma_given_out_last(d, list, i);
    }
}

/// The contract may be instantiated with whatever adds up to an amount.
pub proof fn law_init_needs_no_more(d: DepsView, msg: InitMsgView)
    requires
        all_named(d, msg.initial_balances),
        amounts(msg.initial_balances) <= u128::MAX,
    ensures
        init_fits(d, msg),
{
    lemma_given_out_meaning(d, msg.initial_balances);
}

proof fn lemma_all_humanized(txs: Seq<StoredTxView>, api: ApiView)
    requires
        forall|i: int|
            0 <= i < txs.len() ==> api.human_address((#[trigger] txs[i]).sender) is Ok
                && api.human_address(txs[i].receiver) is Ok,
    ensures
        all_humanized(txs, api) is Ok,
        all_humanized(txs, api)->Ok_0.len() == txs.len(),
        forall|i: int|
            0 <= i < txs.len() ==> #[trigger] all_humanized(txs, api)->Ok_0[i] == (TxView {
                sender: api.human_address(txs[i].sender)->Ok_0,
                receiver: api.human_address(txs[i].receiver)->Ok_0,
                coins: txs[i].coins,
            }),
    decreases txs.len(),
{
    if txs.len() > 0 {
        let front = txs.drop_last();
        assert(txs[txs.len() - 1] == txs.last());
        assert forall|i: int| 0 <= i < front.len() implies api.human_address(
            (#[trigger] front[i]).sender,
        ) is Ok && api.human_address(front[i].receiver) is Ok by {
            assert(front[i] == txs[i]);
        }
        lemma_all_humanized(front, api);
        let shown = all_humanized(txs, api)->Ok_0;
        assert forall|i: int| 0 <= i < txs.len() implies #[trigger] shown[i] == (TxView {
            sender: api.human_address(txs[i].sender)->Ok_0,
            receiver: api.human_address(txs[i].receiver)->Ok_0,
            coins: txs[i].coins,
        }) by {
            if i < front.len() {
                assert(front[i] == txs[i]);
                assert(shown[i] == all_humanized(front, api)->Ok_0[i]);
            }
        }
    }
}

/// The question for transfers is answered with the newest transfers, as many as are asked for and
/// there are, the newest first, each with the addresses of both sides as people write them and with
/// its coins. That holds where all these addresses can be written.
pub proof fn law_transfers_are_answered(d: DepsView, account: Seq<u8>, n: u32)
    requires
        forall|i: int|
            0 <= i < d.storage.history(account).len() ==> d.api.human_address(
                (#[trigger] d.storage.history(account)[i]).sender,
            ) is Ok && d.api.human_address(d.storage.history(account)[i].receiver) is Ok,
    ensures
        ({
            let all = d.storage.history(account);
            let count = if n < all.len() {
                n as nat
            } else {
                all.len()
            };
            transfers_answer(d, account, n) == Ok::<QueryAnswerView, StdErrorView>(
                QueryAnswerView::Text(
                    encode_utf8(
                        shown_transfers(
                            Seq::new(
                                count,
                                |i: int|
                                    TxView {
                                        sender: d.api.human_address(
                                            all[all.len() - 1 - i].sender,
                                        )->Ok_0,
                                        receiver: d.api.human_address(
                                            all[all.len() - 1 - i].receiver,
                                        )->Ok_0,
                                        coins: all[all.len() - 1 - i].coins,
                                    },
                            ),
                        ),
                    ),
                ),
            )
        }),
{
    let all = d.storage.history(account);
    let newest = d.storage.newest(account, n);
    law_newest_come_first(d.storage, account, n);
    assert forall|i: int| 0 <= i < newest.len() implies d.api.human_address(
        (#[trigger] newest[i]).sender,
    ) is Ok && d.api.human_address(newest[i].receiver) is Ok by {
        assert(newest[i] == all[all.len() - 1 - i]);
    }
    lemma_all_humanized(newest, d.api);
    let count = if n < all.len() {
        n as nat
    } else {
        all.len()
    };
    assert(all_humanized(newest, d.api)->Ok_0 =~= Seq::new(
        count,
        |i: int|
            TxView {
                sender: d.api.human_address(all[all.len() - 1 - i].sender)->Ok_0,
                receiver: d.api.human_address(all[all.len() - 1 - i].receiver)->Ok_0,
                coins: all[all.len() - 1 - i].coins,
            },
    ));
}

/// If one of the transfers that are asked for has an address that cannot be written, the answer is
/// the error of the newest such transfer, that of its sender before that of its receiver.
pub proof fn law_unwritable_transfers_are_refused(d: DepsView, account: Seq<u8>, n: u32, i: int)
    requires
        0 <= i < n,
        i < d.storage.history(account).len(),
        forall|j: int|
            d.storage.history(account).len() - i <= j < d.storage.history(account).len()
                ==> d.api.human_address((#[trigger] d.storage.history(account)[j]).sender) is Ok
                && d.api.human_address(d.storage.history(account)[j].receiver) is Ok,
    ensures
        ({
            let all = d.storage.history(account);
            let sender = d.api.human_address(all[all.len() - 1 - i].sender);
            let receiver = d.api.human_address(all[all.len() - 1 - i].receiver);
            &&& sender is Err ==> transfers_answer(d, account, n) == Err::<
                QueryAnswerView,
                StdErrorView,
            >(sender->Err_0)
            &&& sender is Ok && receiver is Err ==> transfers_answer(d, account, n) == Err::<
                QueryAnswerView,
                StdErrorView,
            >(receiver->Err_0)
        }),
{
    let all = d.storage.history(account);
    let newest = d.storage.newest(account, n);
    law_newest_come_first(d.storage, account, n);
    let front = newest.take(i);
    assert forall|j: int| 0 <= j < front.len() implies d.api.human_address(
        (#[trigger] front[j]).sender,
    ) is Ok && d.api.human_address(front[j].receiver) is Ok by {
        assert(newest[j] == all[all.len() - 1 - j]);
    }
    lemma_all_humanized(front, d.api);
    assert(newest[i] == all[all.len() - 1 - i]);
    if let Err(e) = newest[i].humanized(d.api) {
        lemma_first_failure(newest, i, d.api, e);
    }
}

/// The balance is answered as it is held, in whole tokens with the token's symbol.
pub proof fn law_balance_is_answered(d: DepsView, address: Seq<char>)
    ensures
        ({
            let account = d.api.canonical_address(address);
            let s = d.storage;
            let missing = saying("no constants stored in configuration"@);
            let text = display_token(
                s.balance(account->Ok_0),
                s.constants->Some_0.symbol,
                s.constants->Some_0.decimals,
            );
            &&& s.constants is None ==> shown_balance(s, account->Ok_0) == Err::<
                Seq<char>,
                StdErrorView,
            >(missing)
            &&& s.constants is Some ==> shown_balance(s, account->Ok_0) == Ok::<
                Seq<char>,
                StdErrorView,
            >(text)
            &&& account is Err ==> balance_answer(d, address) == Err::<
                QueryAnswerView,
                StdErrorView,
            >(account->Err_0)
            &&& account is Ok && s.constants is None ==> balance_answer(d, address) == Err::<
                QueryAnswerView,
                StdErrorView,
            >(missing)
            &&& account is Ok && s.constants is Some ==> balance_answer(d, address) == Ok::<
                QueryAnswerView,
                StdErrorView,
            >(QueryAnswerView::Text(encode_utf8(text)))
        }),
{
}

/// A swap is answered as it was recorded, and a nonce that no swap has is refused.
pub proof fn law_swap_is_answered(d: DepsView, nonce: u32)
    ensures
        nonce < d.storage.swaps.len() ==> swap_answer(d, nonce) == Ok::<
            QueryAnswerView,
            StdErrorView,
        >(QueryAnswerView::Swap { result: d.storage.swaps[nonce as int] }),
        nonce >= d.storage.swaps.len() ==> swap_answer(d, nonce) == Err::<
            QueryAnswerView,
            StdErrorView,
        >(saying("No swap with this nonce"@)),
        query_answer(d, QueryMsgView::Swap { nonce }) == swap_answer(d, nonce),
{
}

/// Who is answered: whoever presents a key whose digest is the one that is kept for the account is
/// answered for that account, everyone else is told that the key is wrong, and an address that
/// cannot be converted is refused.
pub proof fn law_keys_decide(d: DepsView, address: Seq<char>, key: Seq<char>, n: u32)
    ensures
        ({
            let account = d.api.canonical_address(address);
            let kept = d.storage.viewing_keys;
            let right = {
                &&& kept.contains_key(account->Ok_0)
                &&& d.keys.digests.contains_key(key)
                &&& kept[account->Ok_0] == d.keys.digests[key]
            };
            let refusal = Ok::<QueryAnswerView, StdErrorView>(
                QueryAnswerView::Text(
                    encode_utf8("Wrong viewing key for this address or viewing key not set"@),
                ),
            );
            let balance = QueryMsgView::Balance { address, key };
            let transfers = QueryMsgView::Transfers { address, key, n };
            &&& account is Ok ==> (opens(d, account->Ok_0, key) <==> right)
            &&& authenticated_answer(d, balance) == query_answer(d, balance)
            &&& authenticated_answer(d, transfers) == query_answer(d, transfers)
            &&& account is Err ==> query_answer(d, balance) == Err::<
                QueryAnswerView,
                StdErrorView,
            >(account->Err_0)
            &&& account is Err ==> query_answer(d, transfers) == Err::<
                QueryAnswerView,
                StdErrorView,
            >(account->Err_0)
            &&& account is Ok && !right ==> query_answer(d, balance) == refusal
            &&& account is Ok && !right ==> query_answer(d, transfers) == refusal
            &&& account is Ok && right ==> query_answer(d, balance) == balance_answer(d, address)
            &&& account is Ok && right ==> query_answer(d, transfers) == transfers_answer(
                d,
                account->Ok_0,
                n,
            )
        }),
{
}

/// A question for transfers may be asked with every key whose digest is known, unless no key is set
/// and the digest is twenty-four zeros; a question for the balance wherever, besides, the balance
/// can be shown.
pub proof fn law_questions_need_no_more(d: DepsView, address: Seq<char>, key: Seq<char>, n: u32)
    requires
        d.keys.digests.contains_key(key),
        d.api.canonical_address(address) is Ok ==> d.storage.viewing_keys.contains_key(
            d.api.canonical_address(address)->Ok_0,
        ) || d.keys.digests[key] != Seq::new(24, |i: int| 0u8),
    ensures
        question_fits(d, QueryMsgView::Transfers { address, key, n }),
        (d.storage.constants is Some ==> d.storage.constants->Some_0.decimals <= 9
            && d.storage.balance(d.api.canonical_address(address)->Ok_0)
            * 1_000_000_000_000_000_000 <= u128::MAX) ==> question_fits(
            d,
            QueryMsgView::Balance { address, key },
        ),
{
    assert(no_digest() =~= Seq::new(24, |i: int| 0u8));
}

/// A message that took a step left the storage of the step, answered what the step answers, and
/// left the answers of the chain and of the key derivation alone.
pub proof fn law_steps_are_taken_exactly(
    before: DepsView,
    now: DepsView,
    r: Result<HandleResponse, StdError>,
    step: Step,
)
    requires
        took(before, now, r, step),
    ensures
        now.storage == step.storage,
        now.api == before.api,
        now.keys == before.keys,
        r is Ok ==> step.outcome == Ok::<ResponseView, StdErrorView>(r->Ok_0@),
        r is Err ==> step.outcome == Err::<ResponseView, StdErrorView>(r->Err_0@),
        r is Ok ==> result_view(r) == Ok::<ResponseView, StdErrorView>(r->Ok_0@),
        r is Err ==> result_view(r) == Err::<ResponseView, StdErrorView>(r->Err_0@),
{
}

} // verus!
