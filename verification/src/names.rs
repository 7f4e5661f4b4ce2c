//! What a token may be called.

use vstd::prelude::*;
use vstd::string::*;
use vstd::utf8::*;

verus! {

/// Whether the name takes 3 to 30 bytes in UTF-8.
pub open spec fn valid_name(name: Seq<char>) -> bool {
    3 <= encode_utf8(name).len() <= 30
}

/// Whether the symbol is 3 to 6 of the letters `A` to `Z`.
pub open spec fn valid_symbol(symbol: Seq<char>) -> bool {
    &&& 3 <= symbol.len() <= 6
    &&& forall|i: int| 0 <= i < symbol.len() ==> 'A' <= #[trigger] symbol[i] <= 'Z'
}

/// Whether the name takes 3 to 30 bytes in UTF-8.
pub fn is_valid_name(name: &str) -> (r: bool)
    ensures
        r == valid_name(name@),
{
    let len = name.as_bytes().len();
    3 <= len && len <= 30
}

/// Characters that are written with bytes below 128 alone are ASCII characters.
proof fn lemma_low_bytes_are_ascii(s: Seq<char>)
    requires
        forall|i: int| 0 <= i < encode_utf8(s).len() ==> #[trigger] encode_utf8(s)[i] < 128,
    ensures
        is_ascii_chars(s),
    decreases s.len(),
{
    if s.len() > 0 {
        let bytes = encode_utf8(s);
        let rest = s.drop_first();
        encode_utf8_first_scalar(s);
        let b = bytes[0];
        assert(b < 128);
        assert((b & 0x7f) < 128) by (bit_vector);
        let c = s[0];
        let code = c as u32;
        assert(code == (b & 0x7f) as u32);
        assert(encode_scalar(code).len() == 1);
        char_u32_cast(c, code);
        assert(c == code as char);
        assert(c <= '\u{7f}');
        assert forall|i: int| 0 <= i < encode_utf8(rest).len() implies #[trigger] encode_utf8(
            rest,
        )[i] < 128 by {
            assert(encode_utf8(rest)[i] == bytes[i + 1]);
        }
        lemma_low_bytes_are_ascii(rest);
        assert forall|i: int| 0 <= i < s.len() implies '\0' <= #[trigger] s[i] <= '\u{7f}' by {
            if i > 0 {
                assert(s[i] == rest[i - 1]);
            }
        }
    }
}

/// Whether the symbol is 3 to 6 of the letters `A` to `Z`.
pub fn is_valid_symbol(symbol: &str) -> (r: bool)
    ensures
        r == valid_symbol(symbol@),
{
    let bytes = symbol.as_bytes();
    let len = bytes.len();
    proof {
        if is_ascii_chars(symbol@) {
            is_ascii_chars_encode_utf8(symbol@);
        }
        if valid_symbol(symbol@) {
            assert(is_ascii_chars(symbol@));
        }
    }
    if len < 3 || 6 < len {
        return false;
    }
    let mut i: usize = 0;
    while i < len
        invariant
            i <= len,
            len == bytes@.len(),
            bytes@ == encode_utf8(symbol@),
            valid_symbol(symbol@) ==> is_ascii_chars(symbol@),
            forall|j: int| 0 <= j < i ==> 65 <= #[trigger] bytes@[j] <= 90,
        decreases len - i,
    {
        if bytes[i] < 65 || 90 < bytes[i] {
            proof {
                if valid_symbol(symbol@) {
                    is_ascii_chars_encode_utf8(symbol@);
                    assert(symbol@[i as int] as u8 == bytes@[i as int]);
                }
            }
            return false;
        }
        i = i + 1;
    }
    proof {
        lemma_low_bytes_are_ascii(symbol@);
        is_ascii_chars_encode_utf8(symbol@);
        assert forall|j: int| 0 <= j < symbol@.len() implies 'A' <= #[trigger] symbol@[j]
            <= 'Z' by {
            assert(symbol@[j] as u8 == bytes@[j]);
        }
    }
    true
}

} // verus!
