//! Decimal numerals and the texts that are built from them.

use vstd::prelude::*;
use vstd::string::*;

use crate::display::pow10;

verus! {

/// The character of one decimal digit.
pub open spec fn digit(d: nat) -> char {
    if d == 0 {
        '0'
    } else if d == 1 {
        '1'
    } else if d == 2 {
        '2'
    } else if d == 3 {
        '3'
    } else if d == 4 {
        '4'
    } else if d == 5 {
        '5'
    } else if d == 6 {
        '6'
    } else if d == 7 {
        '7'
    } else if d == 8 {
        '8'
    } else {
        '9'
    }
}

/// The decimal numeral of `n`, without leading zeros.
pub open spec fn decimal_digits(n: nat) -> Seq<char>
    decreases n,
{
    if n < 10 {
        seq![digit(n)]
    } else {
        decimal_digits(n / 10).push(digit(n % 10))
    }
}

/// The last `width` decimal digits of `n`, leading zeros written out.
pub open spec fn padded_digits(n: nat, width: nat) -> Seq<char>
    decreases width,
{
    if width == 0 {
        Seq::empty()
    } else {
        padded_digits(n / 10, (width - 1) as nat).push(digit(n % 10))
    }
}

/// `s` without the zeros at its end.
pub open spec fn without_trailing_zeros(s: Seq<char>) -> Seq<char>
    decreases s.len(),
{
    if s.len() > 0 && s.last() == '0' {
        without_trailing_zeros(s.drop_last())
    } else {
        s
    }
}

/// The text of a shortfall: what there is, and what was asked for.
pub open spec fn shortfall(prefix: Seq<char>, available: u128, required: u128) -> Seq<char> {
    prefix + decimal_digits(available as nat) + ", required="@ + decimal_digits(required as nat)
}

fn digit_str(d: u128) -> (r: &'static str)
    requires
        d < 10,
    ensures
        r@ == seq![digit(d as nat)],
{
    proof {
        reveal_strlit("0");
        reveal_strlit("1");
        reveal_strlit("2");
        reveal_strlit("3");
        reveal_strlit("4");
        reveal_strlit("5");
        reveal_strlit("6");
        reveal_strlit("7");
        reveal_strlit("8");
        reveal_strlit("9");
    }
    if d == 0 {
        "0"
    } else if d == 1 {
        "1"
    } else if d == 2 {
        "2"
    } else if d == 3 {
        "3"
    } else if d == 4 {
        "4"
    } else if d == 5 {
        "5"
    } else if d == 6 {
        "6"
    } else if d == 7 {
        "7"
    } else if d == 8 {
        "8"
    } else {
        "9"
    }
}

/// Writes `n` as a decimal numeral.
pub fn u128_to_string(n: u128) -> (r: String)
    ensures
        r@ == decimal_digits(n as nat),
    decreases n,
{
    if n < 10 {
        digit_str(n).to_owned()
    } else {
        let mut s = u128_to_string(n / 10);
        s.append(digit_str(n % 10));
        s
    }
}

/// Writes the text of a shortfall.
pub fn shortfall_text(prefix: &str, available: u128, required: u128) -> (r: String)
    ensures
        r@ == shortfall(prefix@, available, required),
{
    let mut s = prefix.to_owned();
    s.append(u128_to_string(available).as_str());
    s.append(", required=");
    s.append(u128_to_string(required).as_str());
    s
}

/// The number that a numeral writes.
pub open spec fn numeral(s: Seq<char>) -> nat
    decreases s.len(),
{
    if s.len() == 0 {
        0
    } else {
        numeral(s.drop_last()) * 10 + (s.last() as nat - '0' as nat) as nat
    }
}

/// Whether the text is made of decimal digits alone.
pub open spec fn all_digits(s: Seq<char>) -> bool {
    forall|i: int| 0 <= i < s.len() ==> '0' <= #[trigger] s[i] <= '9'
}

proof fn lemma_digit(d: nat)
    requires
        d < 10,
    ensures
        '0' <= digit(d) <= '9',
        digit(d) as nat - '0' as nat == d,
{
}

/// A decimal numeral is made of digits, and reads back as its number.
pub proof fn law_numeral_reads_back(n: nat)
    ensures
        all_digits(decimal_digits(n)),
        decimal_digits(n).len() > 0,
        numeral(decimal_digits(n)) == n,
    decreases n,
{
    reveal_with_fuel(numeral, 2);
    if n < 10 {
        lemma_digit(n);
        assert(decimal_digits(n).drop_last() =~= Seq::empty());
    } else {
        law_numeral_reads_back(n / 10);
        lemma_digit(n % 10);
        let s = decimal_digits(n);
        assert(s.drop_last() =~= decimal_digits(n / 10));
        assert forall|i: int| 0 <= i < s.len() implies '0' <= #[trigger] s[i] <= '9' by {
            if i < s.len() - 1 {
                assert(s[i] == decimal_digits(n / 10)[i]);
            }
        }
    }
}

/// The padded digits of a number read back as the number.
pub proof fn lemma_padded_reads_back(n: nat, width: nat)
    requires
        n < pow10(width),
    ensures
        all_digits(padded_digits(n, width)),
        padded_digits(n, width).len() == width,
        numeral(padded_digits(n, width)) == n,
    decreases width,
{
    if width > 0 {
        let front = padded_digits(n / 10, (width - 1) as nat);
        lemma_padded_reads_back(n / 10, (width - 1) as nat);
        lemma_digit(n % 10);
        let s = padded_digits(n, width);
        assert(s.drop_last() =~= front);
        assert forall|i: int| 0 <= i < s.len() implies '0' <= #[trigger] s[i] <= '9' by {
            if i < s.len() - 1 {
                assert(s[i] == front[i]);
            }
        }
    }
}

/// Texts of one length that differ only in zeros at the end do not differ.
pub proof fn lemma_trailing_zeros_decide(s: Seq<char>, t: Seq<char>)
    requires
        s.len() == t.len(),
        without_trailing_zeros(s) == without_trailing_zeros(t),
    ensures
        s == t,
{
    lemma_trim_shape(s);
    lemma_trim_shape(t);
    let k = without_trailing_zeros(s).len() as int;
    assert forall|i: int| 0 <= i < s.len() implies s[i] == t[i] by {
        if i < k {
            assert(s.take(k)[i] == t.take(k)[i]);
        }
    }
    assert(s =~= t);
}

proof fn lemma_trim_shape(s: Seq<char>)
    ensures
        without_trailing_zeros(s).len() <= s.len(),
        without_trailing_zeros(s) == s.take(without_trailing_zeros(s).len() as int),
        forall|i: int| without_trailing_zeros(s).len() <= i < s.len() ==> #[trigger] s[i] == '0',
    decreases s.len(),
{
    if s.len() > 0 && s.last() == '0' {
        let front = s.drop_last();
        lemma_trim_shape(front);
        let n = without_trailing_zeros(s).len();
        assert(front.take(n as int) =~= s.take(n as int));
        assert forall|i: int| n <= i < s.len() implies #[trigger] s[i] == '0' by {
            if i < front.len() {
                assert(s[i] == front[i]);
            }
        }
    } else {
        assert(s.take(s.len() as int) =~= s);
    }
}

/// Leaving out zeros at the end makes no text longer.
pub proof fn lemma_trim_is_shorter(s: Seq<char>)
    ensures
        without_trailing_zeros(s).len() <= s.len(),
{
    lemma_trim_shape(s);
}

/// A number below the power of ten with the exponent `width` has at most `width` digits.
pub proof fn lemma_digit_count(n: nat, width: nat)
    requires
        n < pow10(width),
        width > 0,
    ensures
        decimal_digits(n).len() <= width,
    decreases width,
{
    reveal_with_fuel(pow10, 2);
    if n >= 10 {
        lemma_digit_count(n / 10, (width - 1) as nat);
    }
}

/// A decimal numeral has no leading zero: it starts with one only if it is the numeral of zero,
/// which has one digit.
pub proof fn law_numeral_has_no_leading_zero(n: nat)
    ensures
        n > 0 ==> decimal_digits(n)[0] != '0',
        n < 10 <==> decimal_digits(n).len() == 1,
    decreases n,
{
    if n >= 10 {
        law_numeral_has_no_leading_zero(n / 10);
        law_numeral_reads_back(n / 10);
    }
}

/// Leaving out the zeros at the end leaves out zeros alone, and all of them.
pub proof fn law_trailing_zeros_go(s: Seq<char>)
    ensures
        ({
            let t = without_trailing_zeros(s);
            &&& t.len() <= s.len()
            &&& t == s.take(t.len() as int)
            &&& forall|i: int| t.len() <= i < s.len() ==> #[trigger] s[i] == '0'
            &&& t.len() > 0 ==> t.last() != '0'
        }),
    decreases s.len(),
{
    lemma_trim_shape(s);
    if s.len() > 0 && s.last() == '0' {
        law_trailing_zeros_go(s.drop_last());
    }
}

/// Zeros at the end stand for powers of ten.
pub proof fn lemma_trailing_zeros_value(s: Seq<char>)
    ensures
        without_trailing_zeros(s).len() <= s.len(),
        numeral(s) == numeral(without_trailing_zeros(s)) * pow10(
            (s.len() - without_trailing_zeros(s).len()) as nat,
        ),
    decreases s.len(),
{
    lemma_trim_shape(s);
    let t = without_trailing_zeros(s);
    if s.len() > 0 && s.last() == '0' {
        lemma_trailing_zeros_value(s.drop_last());
        lemma_trim_shape(s.drop_last());
        let k = (s.len() - t.len()) as nat;
        let v = numeral(t);
        let p = pow10((k - 1) as nat);
        assert(pow10(k) == 10 * p);
        assert((v * p) * 10 == v * (10 * p)) by (nonlinear_arith);
    } else {
        assert(numeral(s) * 1 == numeral(s)) by (nonlinear_arith);
    }
}

/// The text of a shortfall names both amounts, first what there is.
pub proof fn law_shortfall_names_both(prefix: Seq<char>, available: u128, required: u128)
    ensures
        ({
            let t = shortfall(prefix, available, required);
            let a = decimal_digits(available as nat);
            let r = decimal_digits(required as nat);
            &&& t.len() == prefix.len() + a.len() + ", required="@.len() + r.len()
            &&& t.take(prefix.len() as int) == prefix
            &&& t.subrange(prefix.len() as int, (prefix.len() + a.len()) as int) == a
            &&& t.subrange(
                (prefix.len() + a.len()) as int,
                (prefix.len() + a.len() + ", required="@.len()) as int,
            ) == ", required="@
            &&& t.skip((prefix.len() + a.len() + ", required="@.len()) as int) == r
        }),
{
    let t = shortfall(prefix, available, required);
    let a = decimal_digits(available as nat);
    let r = decimal_digits(required as nat);
    let p = prefix.len() as int;
    let q = p + a.len();
    let m = q + ", required="@.len();
    assert(t.take(p) =~= prefix);
    assert(t.subrange(p, q) =~= a);
    assert(t.subrange(q, m) =~= ", required="@);
    assert(t.skip(m) =~= r);
}

} // verus!
