//! Transfers as they are written out for whoever may see them.

use vstd::prelude::*;
use vstd::string::*;

use crate::state::{Tx, TxView};
use crate::text::{decimal_digits, u128_to_string};

verus! {

/// The text in quotation marks, with what cannot be shown as it is written in escapes: what std
/// writes for a text under `{:?}`.
pub uninterp spec fn quoted(s: Seq<char>) -> Seq<char>;

/// `format!` with `{:?}` on a text, which is std's `Debug` for `str`.
///
/// Trusted: what is written depends on the text alone. [`quoted`] names it; which characters are
/// escaped, and how, is left unsaid.
#[verifier::external_body]
fn quote(s: &str) -> (r: String)
    ensures
        r@ == quoted(s@),
{
    format!("{:?}", s)
}

/// One transfer, written out. The addresses and the denomination are in quotation marks already.
pub open spec fn tx_text(
    sender: Seq<char>,
    receiver: Seq<char>,
    denom: Seq<char>,
    amount: u128,
) -> Seq<char> {
    "Tx { sender: HumanAddr("@ + sender + "), receiver: HumanAddr("@ + receiver
        + "), coins: Coin { denom: "@ + denom + ", amount: Uint128("@ + decimal_digits(
        amount as nat,
    ) + ") } }"@
}

/// The items one after the other, with a comma and a blank in between.
pub open spec fn separated(items: Seq<Seq<char>>) -> Seq<char>
    decreases items.len(),
{
    if items.len() == 0 {
        Seq::empty()
    } else if items.len() == 1 {
        items[0]
    } else {
        separated(items.drop_last()) + ", "@ + items.last()
    }
}

/// The items as a list in square brackets.
pub open spec fn list_text(items: Seq<Seq<char>>) -> Seq<char> {
    "["@ + separated(items) + "]"@
}

/// One transfer, written out.
pub open spec fn shown_tx(tx: TxView) -> Seq<char> {
    tx_text(quoted(tx.sender), quoted(tx.receiver), quoted(tx.coins.denom), tx.coins.amount)
}

/// The transfers, written out in their order.
pub open spec fn shown_transfers(txs: Seq<TxView>) -> Seq<char> {
    list_text(txs.map_values(|tx: TxView| shown_tx(tx)))
}

/// Writes out one transfer, whose addresses and denomination are in quotation marks already.
pub fn write_tx(sender: &str, receiver: &str, denom: &str, amount: u128) -> (r: String)
    ensures
        r@ == tx_text(sender@, receiver@, denom@, amount),
{
    let mut s = "Tx { sender: HumanAddr(".to_owned();
    s.append(sender);
    s.append("), receiver: HumanAddr(");
    s.append(receiver);
    s.append("), coins: Coin { denom: ");
    s.append(denom);
    s.append(", amount: Uint128(");
    s.append(u128_to_string(amount).as_str());
    s.append(") } }");
    s
}

/// The views of texts.
pub open spec fn texts_view(items: Seq<String>) -> Seq<Seq<char>> {
    items.map_values(|t: String| t@)
}

/// Writes the items as a list in square brackets.
pub fn write_list(items: &Vec<String>) -> (r: String)
    ensures
        r@ == list_text(texts_view(items@)),
{
    let ghost all = texts_view(items@);
    let mut s = "[".to_owned();
    let mut i: usize = 0;
    assert(separated(all.take(0)) =~= Seq::empty());
    assert(s@ =~= "["@ + separated(all.take(0)));
    while i < items.len()
        invariant
            i <= items@.len(),
            all == texts_view(items@),
            s@ == "["@ + separated(all.take(i as int)),
        decreases items@.len() - i,
    {
        if i > 0 {
            s.append(", ");
        }
        s.append(items[i].as_str());
        proof {
            let upto = all.take(i + 1);
            assert(upto.drop_last() =~= all.take(i as int));
            assert(upto.last() == items@[i as int]@);
            assert(s@ =~= "["@ + separated(upto));
        }
        i = i + 1;
    }
    assert(all.take(i as int) =~= all);
    s.append("]");
    s
}

/// Writes out the transfers in their order.
pub fn write_transfers(txs: &Vec<Tx>) -> (r: String)
    ensures
        r@ == shown_transfers(txs@.map_values(|tx: Tx| tx@)),
{
    let ghost shown = txs@.map_values(|tx: Tx| tx@).map_values(|tx: TxView| shown_tx(tx));
    let mut items: Vec<String> = Vec::new();
    let mut i: usize = 0;
    while i < txs.len()
        invariant
            i <= txs@.len(),
            shown == txs@.map_values(|tx: Tx| tx@).map_values(|tx: TxView| shown_tx(tx)),
            items@.len() == i,
            forall|j: int| 0 <= j < i ==> (#[trigger] items@[j])@ == shown[j],
        decreases txs@.len() - i,
    {
        let tx = &txs[i];
        let item = write_tx(
            quote(tx.sender.as_str()).as_str(),
            quote(tx.receiver.as_str()).as_str(),
            quote(tx.coins.denom.as_str()).as_str(),
            tx.coins.amount,
        );
        assert(item@ == shown[i as int]);
        items.push(item);
        i = i + 1;
    }
    assert(texts_view(items@) =~= shown);
    write_list(&items)
}

/// A list without items is a pair of brackets, and one more item goes behind those that are there,
/// before the closing bracket.
pub proof fn law_lists_grow(items: Seq<Seq<char>>, item: Seq<char>)
    ensures
        list_text(Seq::<Seq<char>>::empty()) == "[]"@,
        items.len() == 0 ==> list_text(items.push(item)) == "["@ + item + "]"@,
        items.len() > 0 ==> list_text(items.push(item)) == list_text(items).drop_last() + ", "@
            + item + "]"@,
{
    reveal_strlit("[]");
    reveal_strlit("[");
    reveal_strlit("]");
    assert(list_text(Seq::<Seq<char>>::empty()) =~= "[]"@);
    assert(items.push(item).drop_last() =~= items);
    if items.len() > 0 {
        assert(list_text(items).drop_last() =~= "["@ + separated(items));
        assert(list_text(items.push(item)) =~= list_text(items).drop_last() + ", "@ + item
            + "]"@);
    }
}

/// No transfers are written as a pair of brackets, and one more transfer goes behind those that are
/// there, with its own sender, receiver, denomination and amount.
pub proof fn law_listings_grow(txs: Seq<TxView>, tx: TxView)
    ensures
        shown_transfers(Seq::<TxView>::empty()) == "[]"@,
        ({
            let item = "Tx { sender: HumanAddr("@ + quoted(tx.sender) + "), receiver: HumanAddr("@
                + quoted(tx.receiver) + "), coins: Coin { denom: "@ + quoted(tx.coins.denom)
                + ", amount: Uint128("@ + decimal_digits(tx.coins.amount as nat) + ") } }"@;
            &&& txs.len() == 0 ==> shown_transfers(txs.push(tx)) == "["@ + item + "]"@
            &&& txs.len() > 0 ==> shown_transfers(txs.push(tx)) == shown_transfers(
                txs,
            ).drop_last() + ", "@ + item + "]"@
        }),
{
    let show = |t: TxView| shown_tx(t);
    assert(Seq::<TxView>::empty().map_values(show) =~= Seq::<Seq<char>>::empty());
    assert(txs.push(tx).map_values(show) =~= txs.map_values(show).push(shown_tx(tx)));
    law_lists_grow(txs.map_values(show), shown_tx(tx));
}

/// A transfer is written with its parts in their places.
pub proof fn law_tx_text_names_its_parts(
    sender: Seq<char>,
    receiver: Seq<char>,
    denom: Seq<char>,
    amount: u128,
)
    ensures
        ({
            let t = tx_text(sender, receiver, denom, amount);
            let a = "Tx { sender: HumanAddr("@;
            let b = "), receiver: HumanAddr("@;
            let c = "), coins: Coin { denom: "@;
            let e = ", amount: Uint128("@;
            let s1 = a.len() as int;
            let r1 = s1 + sender.len() + b.len();
            let d1 = r1 + receiver.len() + c.len();
            let n1 = d1 + denom.len() + e.len();
            let digits = decimal_digits(amount as nat);
            &&& t.take(s1) == a
            &&& t.subrange(s1, s1 + sender.len()) == sender
            &&& t.subrange(s1 + sender.len(), r1) == b
            &&& t.subrange(r1, r1 + receiver.len()) == receiver
            &&& t.subrange(r1 + receiver.len(), d1) == c
            &&& t.subrange(d1, d1 + denom.len()) == denom
            &&& t.subrange(d1 + denom.len(), n1) == e
            &&& t.subrange(n1, n1 + digits.len()) == digits
            &&& t.skip(n1 + digits.len()) == ") } }"@
        }),
{
    let t = tx_text(sender, receiver, denom, amount);
    let a = "Tx { sender: HumanAddr("@;
    let b = "), receiver: HumanAddr("@;
    let c = "), coins: Coin { denom: "@;
    let e = ", amount: Uint128("@;
    let s1 = a.len() as int;
    let r1 = s1 + sender.len() + b.len();
    let d1 = r1 + receiver.len() + c.len();
    let n1 = d1 + denom.len() + e.len();
    let digits = decimal_digits(amount as nat);
    assert(t.take(s1) =~= a);
    assert(t.subrange(s1, s1 + sender.len()) =~= sender);
    assert(t.subrange(s1 + sender.len(), r1) =~= b);
    assert(t.subrange(r1, r1 + receiver.len()) =~= receiver);
    assert(t.subrange(r1 + receiver.len(), d1) =~= c);
    assert(t.subrange(d1, d1 + denom.len()) =~= denom);
    assert(t.subrange(d1 + denom.len(), n1) =~= e);
    assert(t.subrange(n1, n1 + digits.len()) =~= digits);
    assert(t.skip(n1 + digits.len()) =~= ") } }"@);
}

/// Texts are seen one by one, as they are.
pub proof fn law_texts_are_seen(items: Seq<String>, i: int)
    ensures
        texts_view(items).len() == items.len(),
        0 <= i < items.len() ==> texts_view(items)[i] == items[i]@,
{
}

} // verus!
