//! Texts whose length tells nothing about what they say.

use vstd::prelude::*;
use vstd::string::*;

verus! {

/// The length that a [`ConstLenStr`] is filled up to.
pub const CONST_LEN: usize = 64;

/// `s`, filled up with spaces to `width` characters if it is shorter.
pub open spec fn filled(s: Seq<char>, width: nat) -> Seq<char> {
    if s.len() < width {
        s + Seq::new((width - s.len()) as nat, |i: int| ' ')
    } else {
        s
    }
}

/// A text that is written out at a constant length.
#[derive(Debug)]
pub struct ConstLenStr(pub String);

impl ConstLenStr {
    /// The text, filled up to [`CONST_LEN`] characters.
    pub fn render(&self) -> (r: String)
        ensures
            r@ == filled(self.0@, CONST_LEN as nat),
    {
        let mut s = self.0.clone();
        let mut n: usize = self.0.as_str().unicode_len();
        proof {
            assert(s@ =~= self.0@ + Seq::new(0, |i: int| ' '));
            reveal_strlit(" ");
        }
        while n < CONST_LEN
            invariant
                self.0@.len() <= n,
                n <= CONST_LEN || n == self.0@.len(),
                s@ == self.0@ + Seq::new((n - self.0@.len()) as nat, |i: int| ' '),
                " "@ =~= seq![' '],
            decreases CONST_LEN - n,
        {
            s.append(" ");
            n = n + 1;
            assert(s@ =~= self.0@ + Seq::new((n - self.0@.len()) as nat, |i: int| ' '));
        }
        assert(s@ =~= filled(self.0@, CONST_LEN as nat));
        s
    }
}

/// Every text of at most [`CONST_LEN`] characters is written out with exactly that many, and can
/// still be read off the front.
pub proof fn law_constant_length(s: Seq<char>)
    requires
        s.len() <= CONST_LEN,
    ensures
        filled(s, CONST_LEN as nat).len() == CONST_LEN,
        filled(s, CONST_LEN as nat).take(s.len() as int) == s,
{
    assert(filled(s, CONST_LEN as nat).take(s.len() as int) =~= s);
}

/// What a text is filled up with is spaces alone, and a text that is long enough stays as it is.
pub proof fn law_filled_with_spaces(s: Seq<char>, width: nat, i: int)
    ensures
        s.len() >= width ==> filled(s, width) == s,
        s.len() < width ==> filled(s, width).len() == width,
        0 <= i < s.len() ==> filled(s, width)[i] == s[i],
        s.len() <= i < width ==> filled(s, width)[i] == ' ',
{
}

} // verus!
