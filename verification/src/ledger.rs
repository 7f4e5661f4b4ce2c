//! The sum of all balances, and what it has to do with the supply.

use vstd::prelude::*;

use crate::state::StorageView;

verus! {

/// The sum of all balances.
pub open spec fn held(balances: Map<Seq<u8>, u128>) -> nat
    decreases balances.dom().len(),
{
    if balances.dom().finite() && balances.dom().len() > 0 {
        let k = balances.dom().choose();
        balances[k] as nat + held(balances.remove(k))
    } else {
        0
    }
}

/// Whether there are at least as many tokens as all accounts hold.
pub open spec fn solvent(s: StorageView) -> bool {
    held(s.balances) <= s.total_supply
}

/// Every account's balance is one term of the sum.
pub proof fn lemma_held_split(m: Map<Seq<u8>, u128>, k: Seq<u8>)
    requires
        m.dom().finite(),
        m.contains_key(k),
    ensures
        held(m) == m[k] as nat + held(m.remove(k)),
    decreases m.dom().len(),
{
    let c = m.dom().choose();
    assert(m.dom().contains(c));
    if c != k {
        lemma_held_split(m.remove(c), k);
        lemma_held_split(m.remove(k), c);
        assert(m.remove(c).remove(k) =~= m.remove(k).remove(c));
    }
}

/// Setting one balance changes the sum by what it changes the balance.
pub proof fn lemma_held_set(s: StorageView, account: Seq<u8>, amount: u128)
    requires
        s.valid(),
    ensures
        s.with_balance(account, amount).valid(),
        held(s.with_balance(account, amount).balances) + s.balance(account) == held(s.balances)
            + amount,
        s.balance(account) <= held(s.balances),
{
    let m = s.balances;
    let n = m.insert(account, amount);
    lemma_held_split(n, account);
    if m.contains_key(account) {
        lemma_held_split(m, account);
        assert(n.remove(account) =~= m.remove(account));
    } else {
        assert(n.remove(account) =~= m);
    }
}

/// Two accounts together hold no more than all.
pub proof fn lemma_two_held(s: StorageView, a: Seq<u8>, b: Seq<u8>)
    requires
        s.valid(),
        a != b,
    ensures
        s.balance(a) + s.balance(b) <= held(s.balances),
{
    lemma_held_set(s, a, 0);
    let t = s.with_balance(a, 0);
    lemma_held_set(t, b, 0);
    assert(t.balance(b) == s.balance(b));
}

} // verus!
