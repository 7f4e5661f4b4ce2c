//! Amounts as sixteen bytes, the most significant first.

use vstd::arithmetic::div_mod::lemma_div_denominator;
use vstd::arithmetic::power::{lemma_pow_positive, pow};
use vstd::prelude::*;

verus! {

/// How many bytes an amount takes.
pub const AMOUNT_BYTES: usize = 16;

/// The power of 256 with this exponent.
pub open spec fn pow256(e: nat) -> nat
    decreases e,
{
    if e == 0 {
        1
    } else {
        256 * pow256((e - 1) as nat)
    }
}

/// The number that the bytes write, the most significant byte first.
pub open spec fn be_value(s: Seq<u8>) -> nat
    decreases s.len(),
{
    if s.len() == 0 {
        0
    } else {
        be_value(s.drop_last()) * 256 + s.last() as nat
    }
}

/// The last `width` bytes of `n`, the most significant first.
pub open spec fn be_bytes(n: nat, width: nat) -> Seq<u8>
    decreases width,
{
    if width == 0 {
        Seq::empty()
    } else {
        be_bytes(n / 256, (width - 1) as nat).push((n % 256) as u8)
    }
}

proof fn lemma_be_value_bound(s: Seq<u8>)
    ensures
        be_value(s) < pow256(s.len()),
    decreases s.len(),
{
    if s.len() > 0 {
        lemma_be_value_bound(s.drop_last());
    }
}

proof fn lemma_pow256_monotone(a: nat, b: nat)
    requires
        a <= b,
    ensures
        pow256(a) <= pow256(b),
    decreases b,
{
    if a < b {
        lemma_pow256_monotone(a, (b - 1) as nat);
    }
}

proof fn lemma_pow256_values()
    ensures
        pow256(15) == 0x1_00000000_00000000_00000000_000000nat,
        pow256(16) == u128::MAX + 1,
{
    reveal_with_fuel(pow256, 17);
}

proof fn lemma_be_bytes_len(n: nat, width: nat)
    ensures
        be_bytes(n, width).len() == width,
    decreases width,
{
    if width > 0 {
        lemma_be_bytes_len(n / 256, (width - 1) as nat);
    }
}

proof fn lemma_decode_encoded(n: nat, width: nat)
    requires
        n < pow256(width),
    ensures
        be_value(be_bytes(n, width)) == n,
    decreases width,
{
    if width > 0 {
        lemma_decode_encoded(n / 256, (width - 1) as nat);
        let s = be_bytes(n, width);
        assert(s.drop_last() =~= be_bytes(n / 256, (width - 1) as nat));
    }
}

/// Reading the bytes of an amount gives the amount back.
pub proof fn law_amount_read_back(n: u128)
    ensures
        be_bytes(n as nat, 16).len() == 16,
        be_value(be_bytes(n as nat, 16)) == n,
{
    lemma_pow256_values();
    lemma_be_bytes_len(n as nat, 16);
    lemma_decode_encoded(n as nat, 16);
}

/// Bytes are the bytes, as many of them, of the number that is read from them.
pub proof fn law_bytes_written_back(s: Seq<u8>)
    ensures
        be_bytes(be_value(s), s.len()) == s,
    decreases s.len(),
{
    if s.len() == 0 {
        assert(be_bytes(be_value(s), s.len()) =~= s);
    } else {
        law_bytes_written_back(s.drop_last());
        assert(be_value(s) / 256 == be_value(s.drop_last()));
        assert(be_value(s) % 256 == s.last());
        assert(be_bytes(be_value(s), s.len()) =~= s);
    }
}

fn encode(n: u128, width: usize) -> (r: Vec<u8>)
    ensures
        r@ == be_bytes(n as nat, width as nat),
    decreases width,
{
    if width == 0 {
        Vec::new()
    } else {
        let mut v = encode(n / 256, width - 1);
        v.push((n % 256) as u8);
        v
    }
}

/// The bytes of an amount.
pub fn u128_to_bytes(n: u128) -> (r: Vec<u8>)
    ensures
        r@ == be_bytes(n as nat, 16),
{
    encode(n, AMOUNT_BYTES)
}

/// The amount that the bytes hold, if there are sixteen of them.
pub fn bytes_to_u128(bytes: &Vec<u8>) -> (r: Option<u128>)
    ensures
        match r {
            Some(n) => bytes@.len() == 16 && n == be_value(bytes@),
            None => bytes@.len() != 16,
        },
{
    if bytes.len() != AMOUNT_BYTES {
        return None;
    }
    let mut n: u128 = 0;
    let mut i: usize = 0;
    while i < AMOUNT_BYTES
        invariant
            i <= 16,
            bytes@.len() == 16,
            n == be_value(bytes@.take(i as int)),
        decreases 16 - i,
    {
        proof {
            lemma_be_value_bound(bytes@.take(i as int));
            lemma_pow256_monotone(i as nat, 15);
            lemma_pow256_values();
            assert(bytes@.take(i + 1).drop_last() =~= bytes@.take(i as int));
        }
        n = n * 256 + bytes[i] as u128;
        i = i + 1;
    }
    assert(bytes@.take(16) =~= bytes@);
    Some(n)
}

/// Each byte is the digit of its place: the byte at `i` counts how often the power of 256 fits that
/// as many places are left for.
pub proof fn law_bytes_are_digits(n: nat, width: nat, i: int)
    requires
        0 <= i < width,
    ensures
        be_bytes(n, width).len() == width,
        be_bytes(n, width)[i] == (n as int / pow(256, (width - 1 - i) as nat)) % 256,
    decreases width,
{
    lemma_be_bytes_len(n, width);
    lemma_be_bytes_len(n / 256, (width - 1) as nat);
    reveal(pow);
    if i < width - 1 {
        law_bytes_are_digits(n / 256, (width - 1) as nat, i);
        let e = (width - 2 - i) as nat;
        lemma_pow_positive(256, e);
        lemma_div_denominator(n as int, 256, pow(256, e));
        assert(pow(256, (e + 1) as nat) == 256 * pow(256, e));
    } else {
        assert(pow(256, 0) == 1);
    }
}

} // verus!
