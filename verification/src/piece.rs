//! Listings as sequences of pieces: characters, and floating-point values
//! kept as their IEEE-754 bits for the caller to render.

use vstd::prelude::*;
use crate::text::str_chars;

verus! {

/// A piece of a listing.
#[derive(Debug, Clone, Copy, PartialEq, Eq, Structural)]
pub enum Piece {
    /// A character, by its Unicode scalar value.
    Char(u32),
    /// A 64-bit float, by its bits.
    Float64(u64),
    /// A 32-bit float, by its bits.
    Float32(u32),
}

/// The characters of `s` as pieces.
pub open spec fn lit(s: Seq<char>) -> Seq<Piece>
    decreases s.len(),
{
    if s.len() == 0 {
        Seq::empty()
    } else {
        let c: char = s[s.len() - 1];
        lit(s.subrange(0, s.len() - 1)).push(Piece::Char(c as u32))
    }
}

/// Adding a character adds its piece.
pub proof fn lemma_lit_push(s: Seq<char>, c: char)
    ensures
        lit(s.push(c)) == lit(s).push(Piece::Char(c as u32)),
{
    let t = s.push(c);
    assert(t.subrange(0, t.len() - 1) =~= s);
}

/// Appends the characters of `s`.
pub fn put_chars(out: &mut Vec<Piece>, s: &[char])
    ensures
        final(out)@ == old(out)@ + lit(s@),
{
    let ghost start = out@;
    let mut i: usize = 0;
    assert(s@.take(0).len() == 0);
    assert(out@ =~= start + lit(s@.take(0)));
    while i < s.len()
        invariant
            0 <= i <= s@.len(),
            out@ == start + lit(s@.take(i as int)),
        decreases s@.len() - i,
    {
        let c: char = s[i];
        let ghost before = out@;
        out.push(Piece::Char(c as u32));
        proof {
            lemma_lit_push(s@.take(i as int), c);
            assert(s@.take(i + 1) =~= s@.take(i as int).push(c));
        }
        i = i + 1;
        assert(out@ =~= start + lit(s@.take(i as int)));
    }
    assert(s@.take(s@.len() as int) =~= s@);
}

/// Appends the characters of a string.
pub fn put_text(out: &mut Vec<Piece>, s: &str)
    ensures
        final(out)@ == old(out)@ + lit(s@),
{
    let chars = str_chars(s);
    put_chars(out, chars.as_slice());
}

} // verus!
