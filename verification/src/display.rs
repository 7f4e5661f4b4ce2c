//! Amounts as they are shown to people.

use cosmwasm_std::Decimal;
use vstd::arithmetic::power::pow;
use vstd::prelude::*;
use vstd::string::*;

use crate::text::{
    all_digits, decimal_digits, law_numeral_reads_back, law_trailing_zeros_go, lemma_digit_count,
    lemma_padded_reads_back, lemma_trailing_zeros_decide, lemma_trailing_zeros_value,
    lemma_trim_is_shorter, numeral, padded_digits, without_trailing_zeros,
};

verus! {

/// The power of ten with this exponent.
pub open spec fn pow10(e: nat) -> nat
    decreases e,
{
    if e == 0 {
        1
    } else {
        10 * pow10((e - 1) as nat)
    }
}

/// How many parts a fixed-point number divides one into: ten to the eighteenth.
pub const FRACTIONAL: u128 = 1_000_000_000_000_000_000;

/// The text of a fixed-point number of `atomics` parts: the whole, and after a point the part
/// that is left, without zeros at the end. A number without such a part has no point.
pub open spec fn fixed_point_text(atomics: nat) -> Seq<char> {
    let whole = decimal_digits(atomics / FRACTIONAL as nat);
    let part = atomics % FRACTIONAL as nat;
    if part == 0 {
        whole
    } else {
        whole.push('.') + without_trailing_zeros(padded_digits(part, 18))
    }
}

/// The number of parts of the quotient, rounded down.
pub open spec fn ratio_atomics(nominator: u128, denominator: u128) -> nat {
    ((nominator as nat) * (FRACTIONAL as nat)) / (denominator as nat)
}

/// `cosmwasm_std::Decimal::from_ratio`, and `to_string` on what it returns.
///
/// Trusted: the quotient is kept as a fixed-point number with eighteen fractional digits, rounded
/// down, and is written as [`fixed_point_text`] says. The call fails for a denominator of zero and
/// for a nominator whose product with ten to the eighteenth does not fit; both are left out.
#[verifier::external_body]
fn ratio_text(nominator: u128, denominator: u128) -> (text: String)
    requires
        denominator != 0,
        nominator * FRACTIONAL <= u128::MAX,
    ensures
        text@ == fixed_point_text(ratio_atomics(nominator, denominator)),
{
    Decimal::from_ratio(nominator, denominator).to_string()
}

/// Whether an amount with this many decimals can be shown: the number of units in one token is a
/// 32-bit number, which ten to the tenth is not, and the amount fits a fixed-point number.
pub open spec fn displayable(amount: u128, decimals: u8) -> bool {
    &&& decimals <= 9
    &&& amount * FRACTIONAL <= u128::MAX
}

/// How an amount is shown: in whole tokens, followed by the symbol.
pub open spec fn display_token(amount: u128, symbol: Seq<char>, decimals: u8) -> Seq<char> {
    fixed_point_text(ratio_atomics(amount, pow10(decimals as nat) as u128)) + " "@ + symbol
}

proof fn lemma_pow10_monotone(a: nat, b: nat)
    requires
        a <= b,
    ensures
        0 < pow10(a) <= pow10(b),
    decreases b,
{
    if a < b {
        lemma_pow10_monotone(a, (b - 1) as nat);
    } else if b > 0 {
        lemma_pow10_monotone((a - 1) as nat, (b - 1) as nat);
    }
}

proof fn lemma_pow10_values()
    ensures
        pow10(9) == 1_000_000_000,
        pow10(18) == FRACTIONAL,
        pow10(21) == 1_000_000_000_000_000_000_000,
        pow10(39) == 1_000_000_000_000_000_000_000_000_000_000_000_000_000nat,
{
    reveal_with_fuel(pow10, 40);
}

/// The power of ten with this exponent.
fn units_per_token(decimals: u8) -> (r: u32)
    requires
        decimals <= 9,
    ensures
        r == pow10(decimals as nat),
        r > 0,
{
    let mut p: u32 = 1;
    let mut i: u8 = 0;
    while i < decimals
        invariant
            i <= decimals,
            decimals <= 9,
            p == pow10(i as nat),
        decreases decimals - i,
    {
        proof {
            lemma_pow10_monotone((i + 1) as nat, 9);
            lemma_pow10_values();
        }
        p = p * 10;
        i = i + 1;
    }
    proof {
        lemma_pow10_monotone(0, decimals as nat);
    }
    p
}

/// Shows an amount in whole tokens, followed by the symbol.
pub fn to_display_token(amount: u128, symbol: &str, decimals: u8) -> (r: String)
    requires
        displayable(amount, decimals),
    ensures
        r@ == display_token(amount, symbol@, decimals),
{
    let units = units_per_token(decimals);
    let mut s = ratio_text(amount, units as u128);
    s.append(" ");
    s.append(symbol);
    s
}

/// Whether an amount with this many decimals can be shown.
pub fn can_display(amount: u128, decimals: u8) -> (r: bool)
    ensures
        r == displayable(amount, decimals),
{
    let limit: u128 = 340_282_366_920_938_463_463;
    decimals <= 9 && amount <= limit
}

proof fn lemma_pow10_adds(a: nat, b: nat)
    ensures
        pow10(a + b) == pow10(a) * pow10(b),
    decreases b,
{
    if b > 0 {
        lemma_pow10_adds(a, (b - 1) as nat);
        assert(pow10(a + b) == 10 * pow10((a + b - 1) as nat));
        assert(10 * (pow10(a) * pow10((b - 1) as nat)) == pow10(a) * (10 * pow10((b - 1) as nat)))
            by (nonlinear_arith);
    } else {
        assert(pow10(a) * 1 == pow10(a)) by (nonlinear_arith);
    }
}

/// An amount that can be shown is shown without rounding: the parts of the number that is written
/// are the amount, times the parts that one unit has.
pub proof fn law_display_does_not_round(amount: u128, decimals: u8)
    requires
        displayable(amount, decimals),
    ensures
        ratio_atomics(amount, pow10(decimals as nat) as u128) == amount * pow10(
            (18 - decimals) as nat,
        ),
{
    let p = pow10(decimals as nat);
    let q = pow10((18 - decimals) as nat);
    lemma_pow10_monotone(decimals as nat, 9);
    lemma_pow10_values();
    lemma_pow10_adds(decimals as nat, (18 - decimals) as nat);
    assert(amount as nat * (p * q) == (amount as nat * q) * p) by (nonlinear_arith);
    let product = amount as nat * q;
    assert((product * p) / p == product) by (nonlinear_arith)
        requires
            p > 0,
    ;
}

/// Two numbers that are written alike are the same.
pub proof fn law_fixed_point_is_faithful(x: nat, y: nat)
    requires
        fixed_point_text(x) == fixed_point_text(y),
    ensures
        x == y,
{
    let f = FRACTIONAL as nat;
    let wx = decimal_digits(x / f);
    let wy = decimal_digits(y / f);
    let tx = fixed_point_text(x);
    let ty = fixed_point_text(y);
    law_numeral_reads_back(x / f);
    law_numeral_reads_back(y / f);
    lemma_pow10_values();
    lemma_padded_reads_back(x % f, 18);
    lemma_padded_reads_back(y % f, 18);
    let px = padded_digits(x % f, 18);
    let py = padded_digits(y % f, 18);
    let rx = without_trailing_zeros(px);
    let ry = without_trailing_zeros(py);
    if x % f != 0 {
        assert(tx == wx.push('.') + rx);
        assert(tx[wx.len() as int] == '.');
        assert(forall|i: int| 0 <= i < wx.len() ==> tx[i] == #[trigger] wx[i]);
    }
    if y % f != 0 {
        assert(ty == wy.push('.') + ry);
        assert(ty[wy.len() as int] == '.');
        assert(forall|i: int| 0 <= i < wy.len() ==> ty[i] == #[trigger] wy[i]);
    }
    if x % f == 0 && y % f == 0 {
        assert(wx == wy);
    } else if x % f == 0 {
        assert(wx[wy.len() as int] == '.');
    } else if y % f == 0 {
        assert(wy[wx.len() as int] == '.');
    } else {
        if wx.len() < wy.len() {
            assert(wy[wx.len() as int] == '.');
        }
        if wy.len() < wx.len() {
            assert(wx[wy.len() as int] == '.');
        }
        assert(wx =~= wy) by {
            assert forall|i: int| 0 <= i < wx.len() implies wx[i] == wy[i] by {
                assert(tx[i] == ty[i]);
            }
        }
        assert(rx =~= tx.skip(wx.len() as int + 1));
        assert(ry =~= ty.skip(wy.len() as int + 1));
        lemma_trailing_zeros_decide(px, py);
    }
    assert(x == (x / f) * f + x % f);
    assert(y == (y / f) * f + y % f);
}

/// Two amounts of one token that are shown alike are the same.
pub proof fn law_display_tells_amounts_apart(a: u128, b: u128, symbol: Seq<char>, decimals: u8)
    requires
        displayable(a, decimals),
        displayable(b, decimals),
        display_token(a, symbol, decimals) == display_token(b, symbol, decimals),
    ensures
        a == b,
{
    let p = pow10(decimals as nat) as u128;
    let x = ratio_atomics(a, p);
    let y = ratio_atomics(b, p);
    let da = display_token(a, symbol, decimals);
    let db = display_token(b, symbol, decimals);
    assert(da.len() == fixed_point_text(x).len() + " "@.len() + symbol.len());
    assert(db.len() == fixed_point_text(y).len() + " "@.len() + symbol.len());
    assert(fixed_point_text(x) =~= da.take(fixed_point_text(x).len() as int));
    assert(fixed_point_text(y) =~= db.take(fixed_point_text(y).len() as int));
    law_fixed_point_is_faithful(x, y);
    law_display_does_not_round(a, decimals);
    law_display_does_not_round(b, decimals);
    let q = pow10((18 - decimals) as nat);
    lemma_pow10_monotone(0, (18 - decimals) as nat);
    assert(a == b) by (nonlinear_arith)
        requires
            a * q == b * q,
            q > 0,
    ;
}

/// A number of tokens is shown with at most forty characters, a blank and the symbol.
pub proof fn law_display_is_short(amount: u128, symbol: Seq<char>, decimals: u8)
    requires
        displayable(amount, decimals),
    ensures
        display_token(amount, symbol, decimals).len() <= 41 + symbol.len(),
{
    let p = pow10(decimals as nat);
    let x = ratio_atomics(amount, p as u128);
    lemma_pow10_monotone(decimals as nat, 9);
    lemma_pow10_values();
    let product = amount as nat * FRACTIONAL as nat;
    assert(product / p <= product) by (nonlinear_arith)
        requires
            p > 0,
    ;
    lemma_digit_count(x / FRACTIONAL as nat, 21);
    let part = x % FRACTIONAL as nat;
    lemma_padded_reads_back(part, 18);
    lemma_trim_is_shorter(padded_digits(part, 18));
    reveal_strlit(" ");
}

/// Every amount has at most thirty-nine digits.
pub proof fn lemma_amount_digit_count(amount: u128)
    ensures
        decimal_digits(amount as nat).len() <= 39,
{
    lemma_pow10_values();
    lemma_digit_count(amount as nat, 39);
}

/// A power of ten is a power of ten.
pub proof fn law_power_of_ten(e: nat)
    ensures
        pow10(e) == pow(10, e),
    decreases e,
{
    reveal(pow);
    if e > 0 {
        law_power_of_ten((e - 1) as nat);
    }
}

/// A fixed-point number is written as its whole part and, if there is more, a point and a fraction
/// of one to eighteen digits, the last of them no zero, that has the value of what is left.
pub proof fn law_fixed_point_text(x: nat)
    ensures
        ({
            let one = 1_000_000_000_000_000_000nat;
            let t = fixed_point_text(x);
            &&& x % one == 0 ==> t == decimal_digits(x / one)
            &&& x % one != 0 ==> exists|f: Seq<char>|
                #![trigger numeral(f)]
                {
                    &&& t == decimal_digits(x / one) + seq!['.'] + f
                    &&& 0 < f.len() <= 18
                    &&& all_digits(f)
                    &&& f.last() != '0'
                    &&& numeral(f) * pow10((18 - f.len()) as nat) == x % one
                }
        }),
{
    let one = 1_000_000_000_000_000_000nat;
    let part = x % one;
    if part != 0 {
        lemma_pow10_values();
        lemma_padded_reads_back(part, 18);
        let padded = padded_digits(part, 18);
        let f = without_trailing_zeros(padded);
        law_trailing_zeros_go(padded);
        lemma_trailing_zeros_value(padded);
        if f.len() == 0 {
            assert(numeral(f) == 0);
            assert(0 * pow10(18) == 0);
        }
        assert forall|i: int| 0 <= i < f.len() implies '0' <= #[trigger] f[i] <= '9' by {
            assert(f[i] == padded[i]);
        }
        assert(fixed_point_text(x) =~= decimal_digits(x / one) + seq!['.'] + f);
        assert(numeral(f) * pow10((18 - f.len()) as nat) == part);
    }
}

/// An amount is shown as the number of whole tokens that it is, a blank and the symbol: the number
/// has as many eighteenth decimal parts as the amount has units, times what one unit has.
pub proof fn law_display_shows_the_amount(amount: u128, symbol: Seq<char>, decimals: u8)
    requires
        decimals <= 9,
        amount * 1_000_000_000_000_000_000 <= u128::MAX,
    ensures
        displayable(amount, decimals),
        display_token(amount, symbol, decimals) == fixed_point_text(
            (amount * pow(10, (18 - decimals) as nat)) as nat,
        ) + seq![' '] + symbol,
{
    law_display_does_not_round(amount, decimals);
    law_power_of_ten((18 - decimals) as nat);
    reveal_strlit(" ");
    assert(" "@ =~= seq![' ']);
}

} // verus!
