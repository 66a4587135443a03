//! Open documents and the server's state.
//!
//! A document's text is held in a `ropey::Rope`; positions are converted
//! between LSP line/character pairs, byte offsets and char indices the way
//! the rope counts lines: a line ends after LF, CR, CRLF (one break), VT,
//! FF, NEL, LS or PS.

use vstd::prelude::*;
use vstd::utf8::encode_utf8;
use ropey::Rope;
use crate::lsp_types::{Position, TextRange};

verus! {

#[verifier::external_type_specification]
#[verifier::external_body]
pub struct ExRope(Rope);

/// The characters held by a rope.
pub uninterp spec fn rope_chars(r: Rope) -> Seq<char>;

// ============================================================================
// Lines, bytes and chars
// ============================================================================

/// Whether `c` ends a line on its own or as the end of CRLF.
pub open spec fn is_break_char(c: char) -> bool {
    c == '\n' || c == '\r' || c == '\u{0B}' || c == '\u{0C}' || c == '\u{85}' || c == '\u{2028}' || c == '\u{2029}'
}

/// Whether a line ends right after position `k` (a CR followed by LF does
/// not end one: the pair ends at the LF).
pub open spec fn ends_line(s: Seq<char>, k: int) -> bool {
    &&& 0 <= k < s.len()
    &&& is_break_char(s[k])
    &&& !(s[k] == '\r' && k + 1 < s.len() && s[k + 1] == '\n')
}

/// The number of line ends among the first `n` chars.
pub open spec fn breaks_before(s: Seq<char>, n: int) -> nat
    decreases n,
{
    if n <= 0 {
        0
    } else {
        breaks_before(s, n - 1) + (if ends_line(s, n - 1) { 1nat } else { 0nat })
    }
}

/// The number of lines: one more than the number of line ends.
pub open spec fn line_count(s: Seq<char>) -> nat {
    breaks_before(s, s.len() as int) + 1
}

/// The first position at or after `n` before which `i` lines have ended,
/// or the length when there is none.
pub open spec fn first_reaching(s: Seq<char>, i: nat, n: int) -> nat
    decreases s.len() - n,
{
    if n >= s.len() {
        s.len()
    } else if breaks_before(s, n) >= i {
        if n < 0 { 0 } else { n as nat }
    } else {
        first_reaching(s, i, n + 1)
    }
}

/// The char index where line `i` starts (the length for the line after
/// the last one).
pub open spec fn line_start(s: Seq<char>, i: nat) -> nat {
    first_reaching(s, i, 0)
}

/// The length of the UTF-8 encoding of `s`.
pub open spec fn utf8_len(s: Seq<char>) -> nat {
    encode_utf8(s).len()
}

/// How many of the first `n` chars end at or before byte `b`.
pub open spec fn chars_ending_by(s: Seq<char>, b: int, n: int) -> nat
    decreases n,
{
    if n <= 0 {
        0
    } else {
        chars_ending_by(s, b, n - 1) + (if utf8_len(s.take(n)) <= b { 1nat } else { 0nat })
    }
}

/// The index of the char that byte `b` belongs to (the length for the
/// byte after the last one).
pub open spec fn char_at_byte(s: Seq<char>, b: int) -> nat {
    chars_ending_by(s, b, s.len() as int)
}

/// Encoding is compatible with concatenation.
pub proof fn lemma_utf8_concat(a: Seq<char>, b: Seq<char>)
    ensures
        encode_utf8(a + b) == encode_utf8(a) + encode_utf8(b),
    decreases a.len(),
{
    if a.len() == 0 {
        assert(a + b =~= b);
        assert(encode_utf8(a) =~= Seq::<u8>::empty());
        assert(encode_utf8(a) + encode_utf8(b) =~= encode_utf8(b));
    } else {
        let ab = a + b;
        assert(ab[0] == a[0]);
        assert(ab.drop_first() =~= a.drop_first() + b);
        lemma_utf8_concat(a.drop_first(), b);
        assert(encode_utf8(ab) == encode_scalar_of(ab[0]) + encode_utf8(ab.drop_first()));
        assert(encode_utf8(a) == encode_scalar_of(a[0]) + encode_utf8(a.drop_first()));
        assert(encode_utf8(ab) =~= encode_utf8(a) + encode_utf8(b));
    }
}

spec fn encode_scalar_of(c: char) -> Seq<u8> {
    vstd::utf8::encode_scalar(c as u32)
}

/// A prefix encodes to no more bytes than the whole.
pub proof fn lemma_utf8_prefix(s: Seq<char>, k: int)
    requires
        0 <= k <= s.len(),
    ensures
        utf8_len(s.take(k)) <= utf8_len(s),
{
    lemma_utf8_concat(s.take(k), s.skip(k));
    assert(s.take(k) + s.skip(k) =~= s);
}

proof fn lemma_chars_ending_by_bound(s: Seq<char>, b: int, n: int)
    ensures
        chars_ending_by(s, b, n) <= if n < 0 { 0 } else { n },
    decreases n,
{
    if n > 0 {
        lemma_chars_ending_by_bound(s, b, n - 1);
    }
}

proof fn lemma_breaks_monotone(s: Seq<char>, a: int, b: int)
    requires
        a <= b,
    ensures
        breaks_before(s, a) <= breaks_before(s, b),
    decreases b - a,
{
    if a < b {
        lemma_breaks_monotone(s, a, b - 1);
    }
}

proof fn lemma_first_reaching_le(s: Seq<char>, i: nat, n: int, c: int)
    requires
        0 <= n <= c <= s.len(),
        breaks_before(s, c) >= i,
    ensures
        first_reaching(s, i, n) <= c,
    decreases s.len() - n,
{
    if n < s.len() && breaks_before(s, n) < i {
        assert(n != c);
        lemma_first_reaching_le(s, i, n + 1, c);
    }
}

proof fn lemma_first_reaching_range(s: Seq<char>, i: nat, n: int)
    requires
        0 <= n,
    ensures
        first_reaching(s, i, n) <= s.len(),
        n <= s.len() ==> n <= first_reaching(s, i, n),
    decreases s.len() - n,
{
    if n < s.len() && breaks_before(s, n) < i {
        lemma_first_reaching_range(s, i, n + 1);
    }
}

/// A line starts no later than the next one.
pub proof fn lemma_line_start_monotone(s: Seq<char>, i: nat)
    ensures
        line_start(s, i) <= line_start(s, i + 1),
        line_start(s, i + 1) <= s.len(),
{
    lemma_first_reaching_range(s, i, 0);
    lemma_first_reaching_range(s, i + 1, 0);
    lemma_first_reaching_mono(s, i, 0);
}

proof fn lemma_first_reaching_mono(s: Seq<char>, i: nat, n: int)
    requires
        0 <= n,
    ensures
        first_reaching(s, i, n) <= first_reaching(s, i + 1, n),
    decreases s.len() - n,
{
    if n < s.len() {
        if breaks_before(s, n) >= i + 1 {
        } else if breaks_before(s, n) >= i {
            lemma_first_reaching_range(s, i + 1, n + 1);
        } else {
            lemma_first_reaching_mono(s, i, n + 1);
        }
    }
}

proof fn lemma_scalar_nonempty(c: char)
    ensures
        vstd::utf8::encode_scalar(c as u32).len() >= 1,
{
}

proof fn lemma_utf8_step(s: Seq<char>, j: int)
    requires
        0 <= j < s.len(),
    ensures
        utf8_len(s.take(j + 1)) > utf8_len(s.take(j)),
{
    let one = seq![s[j]];
    assert(s.take(j + 1) =~= s.take(j) + one);
    lemma_utf8_concat(s.take(j), one);
    assert(one.drop_first() =~= Seq::<char>::empty());
    assert(encode_utf8(one) == encode_scalar_of(one[0]) + encode_utf8(one.drop_first()));
    lemma_scalar_nonempty(s[j]);
}

proof fn lemma_utf8_strict(s: Seq<char>, a: int, b: int)
    requires
        0 <= a < b <= s.len(),
    ensures
        utf8_len(s.take(a)) < utf8_len(s.take(b)),
    decreases b - a,
{
    lemma_utf8_step(s, b - 1);
    if a < b - 1 {
        lemma_utf8_strict(s, a, b - 1);
    }
}

proof fn lemma_chars_ending_at_boundary(s: Seq<char>, k: int, n: int)
    requires
        0 <= k <= s.len(),
        0 <= n <= s.len(),
    ensures
        chars_ending_by(s, utf8_len(s.take(k)) as int, n) == if n <= k { n } else { k },
    decreases n,
{
    if n > 0 {
        lemma_chars_ending_at_boundary(s, k, n - 1);
        if n <= k {
            if n < k {
                lemma_utf8_strict(s, n, k);
            }
        } else {
            lemma_utf8_strict(s, k, n);
        }
    }
}

/// The char that starts at a char boundary is the one there.
pub proof fn lemma_char_at_boundary(s: Seq<char>, k: int)
    requires
        0 <= k <= s.len(),
    ensures
        char_at_byte(s, utf8_len(s.take(k)) as int) == k,
{
    lemma_chars_ending_at_boundary(s, k, s.len() as int);
}

proof fn lemma_first_reaching_ge(s: Seq<char>, i: nat, m: int, k: int)
    requires
        0 <= m,
        0 <= k <= s.len(),
        breaks_before(s, k) < i,
    ensures
        first_reaching(s, i, m) >= k,
    decreases s.len() - m,
{
    if m < s.len() {
        if breaks_before(s, m) >= i {
            if m <= k {
                lemma_breaks_monotone(s, m, k);
            }
        } else {
            lemma_first_reaching_ge(s, i, m + 1, k);
        }
    }
}

/// Converting the offset of a char boundary to a position and back gives
/// the offset again, where the position's line and character fit in 32
/// bits.
pub proof fn lemma_offset_position_roundtrip(s: Seq<char>, k: int)
    requires
        0 <= k <= s.len(),
        breaks_before(s, k) <= u32::MAX,
        k - line_start(s, breaks_before(s, k)) <= u32::MAX,
    ensures
        offset_position(s, utf8_len(s.take(k)) as int) matches Some(p)
            && position_offset(s, p) == Some(utf8_len(s.take(k))),
{
    let o = utf8_len(s.take(k)) as int;
    lemma_utf8_prefix(s, k);
    lemma_char_at_boundary(s, k);
    let line = breaks_before(s, k);
    lemma_first_reaching_le(s, line, 0, k);
    lemma_breaks_monotone(s, k, s.len() as int);
    lemma_first_reaching_ge(s, line + 1, 0, k);
    let p = Position { line: line as u32, character: (k - line_start(s, line)) as u32 };
    assert(offset_position(s, o) == Some(p));
    assert(p.line as nat == line);
    assert((p.line + 1) as nat == line + 1);
    let start = line_start(s, line);
    assert(p.character as int == k - start);
}

// ============================================================================
// Calls into the rope
// ============================================================================

/// `Rope::from_str`: a rope holding the characters of `text`.
#[verifier::external_body]
fn rope_from_str(text: &str) -> (r: Rope)
    ensures
        rope_chars(r) == text@,
{
    Rope::from_str(text)
}

/// `Rope::clone`: a rope holding the same characters.
#[verifier::external_body]
fn rope_clone(r: &Rope) -> (c: Rope)
    ensures
        rope_chars(c) == rope_chars(*r),
{
    r.clone()
}

/// `Rope::to_string` (through `Display`): the characters as a string.
#[verifier::external_body]
fn rope_text(r: &Rope) -> (s: String)
    ensures
        s@ == rope_chars(*r),
{
    r.to_string()
}

/// `Rope::len_lines`: one more than the number of line breaks.
#[verifier::external_body]
fn rope_len_lines(r: &Rope) -> (n: usize)
    ensures
        n == line_count(rope_chars(*r)),
{
    r.len_lines()
}

/// `Rope::len_bytes`: the length of the UTF-8 encoding.
#[verifier::external_body]
fn rope_len_bytes(r: &Rope) -> (n: usize)
    ensures
        n == utf8_len(rope_chars(*r)),
{
    r.len_bytes()
}

/// `Rope::len_chars`: the number of chars.
#[verifier::external_body]
fn rope_len_chars(r: &Rope) -> (n: usize)
    ensures
        n == rope_chars(*r).len(),
{
    r.len_chars()
}

/// `Rope::line_to_char`: the char index where line `i` starts; the line
/// after the last one starts at the end.
#[verifier::external_body]
fn rope_line_to_char(r: &Rope, i: usize) -> (c: usize)
    requires
        i <= line_count(rope_chars(*r)),
    ensures
        c == line_start(rope_chars(*r), i as nat),
{
    r.line_to_char(i)
}

/// `Rope::line` then `RopeSlice::len_chars`: the number of chars of line
/// `i`, its line break included.
#[verifier::external_body]
fn rope_line_len(r: &Rope, i: usize) -> (n: usize)
    requires
        i < line_count(rope_chars(*r)),
    ensures
        n == line_start(rope_chars(*r), (i + 1) as nat) - line_start(rope_chars(*r), i as nat),
{
    r.line(i).len_chars()
}

/// `Rope::line` then `to_string`: the text of line `i`, its line break
/// included.
#[verifier::external_body]
fn rope_line_text(r: &Rope, i: usize) -> (s: String)
    requires
        i < line_count(rope_chars(*r)),
    ensures
        s@ == rope_chars(*r).subrange(line_start(rope_chars(*r), i as nat) as int, line_start(rope_chars(*r), (i + 1) as nat) as int),
{
    r.line(i).to_string()
}

/// `Rope::char_to_byte`: the byte offset where char `c` starts.
#[verifier::external_body]
fn rope_char_to_byte(r: &Rope, c: usize) -> (b: usize)
    requires
        c <= rope_chars(*r).len(),
    ensures
        b == utf8_len(rope_chars(*r).take(c as int)),
{
    r.char_to_byte(c)
}

/// `Rope::byte_to_char`: the index of the char that byte `b` belongs to.
#[verifier::external_body]
fn rope_byte_to_char(r: &Rope, b: usize) -> (c: usize)
    requires
        b <= utf8_len(rope_chars(*r)),
    ensures
        c == char_at_byte(rope_chars(*r), b as int),
{
    r.byte_to_char(b)
}

/// `Rope::char_to_line`: the number of line breaks before char `c`.
#[verifier::external_body]
fn rope_char_to_line(r: &Rope, c: usize) -> (l: usize)
    requires
        c <= rope_chars(*r).len(),
    ensures
        l == breaks_before(rope_chars(*r), c as int),
{
    r.char_to_line(c)
}

/// `Rope::remove` on `start..end`: the chars in that range leave.
#[verifier::external_body]
fn rope_remove(r: &mut Rope, start: usize, end: usize)
    requires
        start <= end <= rope_chars(*old(r)).len(),
    ensures
        rope_chars(*final(r)) == rope_chars(*old(r)).take(start as int) + rope_chars(*old(r)).skip(end as int),
{
    r.remove(start..end)
}

/// `Rope::insert`: the text goes in before char `at`.
#[verifier::external_body]
fn rope_insert(r: &mut Rope, at: usize, text: &str)
    requires
        at <= rope_chars(*old(r)).len(),
    ensures
        rope_chars(*final(r)) == rope_chars(*old(r)).take(at as int) + text@ + rope_chars(*old(r)).skip(at as int),
{
    r.insert(at, text)
}

// ============================================================================
// Documents
// ============================================================================

/// A change sent by the client: text for a range, or the whole new text
/// when there is no range.
#[derive(Debug, Clone)]
pub struct TextDocumentContentChangeEvent {
    pub range: Option<TextRange>,
    pub range_length: Option<u32>,
    pub text: String,
}

/// The text of line `i`, its line break included; `None` past the last
/// line.
pub open spec fn doc_line(s: Seq<char>, i: int) -> Option<Seq<char>> {
    if 0 <= i < line_count(s) {
        Some(s.subrange(line_start(s, i as nat) as int, line_start(s, (i + 1) as nat) as int))
    } else {
        None
    }
}

/// The byte offset of a line/character position: `None` past the last
/// line; a character past the end of its line (break included) is taken
/// as that end.
pub open spec fn position_offset(s: Seq<char>, pos: Position) -> Option<nat> {
    if pos.line >= line_count(s) {
        None
    } else {
        let start = line_start(s, pos.line as nat);
        let len = line_start(s, (pos.line + 1) as nat) - start;
        let c = if pos.character < len { pos.character as int } else { len };
        Some(utf8_len(s.take(start + c)))
    }
}

/// The line/character position of a byte offset: `None` past the end.
pub open spec fn offset_position(s: Seq<char>, offset: int) -> Option<Position> {
    if offset > utf8_len(s) {
        None
    } else {
        let c = char_at_byte(s, offset);
        let line = breaks_before(s, c as int);
        Some(Position { line: line as u32, character: (c - line_start(s, line)) as u32 })
    }
}

/// The text after one change, or `None` where a range ends before it
/// starts.
pub open spec fn apply_change(s: Seq<char>, ch: TextDocumentContentChangeEvent) -> Option<Seq<char>> {
    match ch.range {
        None => Some(ch.text@),
        Some(r) => match (position_offset(s, r.start), position_offset(s, r.end)) {
            (Some(a), Some(b)) => {
                let sc = char_at_byte(s, a as int);
                let ec = char_at_byte(s, b as int);
                if sc <= ec {
                    Some(s.take(sc as int) + ch.text@ + s.skip(ec as int))
                } else {
                    None
                }
            },
            _ => Some(s),
        },
    }
}

/// The text after the first `n` changes, in order.
pub open spec fn apply_changes_spec(s: Seq<char>, changes: Seq<TextDocumentContentChangeEvent>, n: int) -> Option<Seq<char>>
    decreases n,
{
    if n <= 0 {
        Some(s)
    } else {
        match apply_changes_spec(s, changes, n - 1) {
            Some(t) => if n <= changes.len() { apply_change(t, changes[n - 1]) } else { Some(t) },
            None => None,
        }
    }
}

/// An open document.
#[derive(Debug)]
pub struct Document {
    /// The document URI.
    pub uri: String,
    /// The text.
    pub content: Rope,
    /// The version from the client.
    pub version: i32,
    /// The language identifier (`aria`).
    pub language_id: String,
}

impl Document {
    /// The characters of the document.
    pub open spec fn chars(&self) -> Seq<char> {
        rope_chars(self.content)
    }

    /// A document holding `content`.
    pub fn new(uri: String, content: String, version: i32, language_id: String) -> (d: Self)
        ensures
            d.uri == uri,
            d.chars() == content@,
            d.version == version,
            d.language_id == language_id,
    {
        let rope = rope_from_str(content.as_str());
        Document { uri, content: rope, version, language_id }
    }

    /// A copy of the document.
    pub fn clone_document(&self) -> (d: Self)
        ensures
            d.uri@ == self.uri@,
            d.chars() == self.chars(),
            d.version == self.version,
            d.language_id@ == self.language_id@,
    {
        Document {
            uri: self.uri.clone(),
            content: rope_clone(&self.content),
            version: self.version,
            language_id: self.language_id.clone(),
        }
    }

    /// The text of the document.
    pub fn text(&self) -> (s: String)
        ensures
            s@ == self.chars(),
    {
        rope_text(&self.content)
    }

    /// The number of lines: one more than the number of line breaks.
    pub fn line_count(&self) -> (n: usize)
        ensures
            n == line_count(self.chars()),
    {
        rope_len_lines(&self.content)
    }

    /// The text of line `line_idx`, its line break included.
    pub fn line(&self, line_idx: usize) -> (r: Option<String>)
        ensures
            match r {
                Some(s) => doc_line(self.chars(), line_idx as int) == Some(s@),
                None => doc_line(self.chars(), line_idx as int) is None,
            },
    {
        if line_idx < rope_len_lines(&self.content) {
            Some(rope_line_text(&self.content, line_idx))
        } else {
            None
        }
    }

    /// The byte offset of an LSP position.
    pub fn position_to_offset(&self, position: Position) -> (r: Option<usize>)
        ensures
            match r {
                Some(o) => position_offset(self.chars(), position) == Some(o as nat) && o <= utf8_len(self.chars()),
                None => position_offset(self.chars(), position) is None,
            },
    {
        let ghost s = self.chars();
        let line_idx = position.line as usize;
        let char_idx = position.character as usize;
        if line_idx >= rope_len_lines(&self.content) {
            return None;
        }
        proof {
            lemma_line_start_monotone(s, line_idx as nat);
        }
        let _total = rope_len_chars(&self.content);
        let line_start = rope_line_to_char(&self.content, line_idx);
        let line_len = rope_line_len(&self.content, line_idx);
        let char_offset = if char_idx < line_len { char_idx } else { line_len };
        let offset = rope_char_to_byte(&self.content, line_start + char_offset);
        proof {
            lemma_utf8_prefix(s, (line_start + char_offset) as int);
        }
        Some(offset)
    }

    /// The LSP position of a byte offset.
    pub fn offset_to_position(&self, offset: usize) -> (r: Option<Position>)
        ensures
            r == offset_position(self.chars(), offset as int),
    {
        let ghost s = self.chars();
        if offset > rope_len_bytes(&self.content) {
            return None;
        }
        let char_idx = rope_byte_to_char(&self.content, offset);
        proof {
            lemma_chars_ending_by_bound(s, offset as int, s.len() as int);
        }
        let line_idx = rope_char_to_line(&self.content, char_idx);
        proof {
            lemma_breaks_monotone(s, char_idx as int, s.len() as int);
            lemma_first_reaching_le(s, line_idx as nat, 0, char_idx as int);
        }
        let line_start_char = rope_line_to_char(&self.content, line_idx);
        let character = char_idx - line_start_char;
        Some(Position { line: line_idx as u32, character: character as u32 })
    }

    /// Whether a change can be applied: its range, when it has one and both
    /// ends fall inside the document, does not end before it starts.
    pub fn change_applies(&self, change: &TextDocumentContentChangeEvent) -> (b: bool)
        ensures
            b == apply_change(self.chars(), *change) is Some,
    {
        let ghost s = self.chars();
        match &change.range {
            Some(range) => {
                let start_offset = self.position_to_offset(range.start);
                let end_offset = self.position_to_offset(range.end);
                match (start_offset, end_offset) {
                    (Some(start), Some(end)) => {
                        let start_char = rope_byte_to_char(&self.content, start);
                        let end_char = rope_byte_to_char(&self.content, end);
                        start_char <= end_char
                    },
                    _ => true,
                }
            },
            None => true,
        }
    }

    /// Applies the changes in order, then takes the new version.
    pub fn apply_changes(&mut self, changes: Vec<TextDocumentContentChangeEvent>, version: i32)
        requires
            apply_changes_spec(old(self).chars(), changes@, changes@.len() as int) is Some,
        ensures
            Some(final(self).chars()) == apply_changes_spec(old(self).chars(), changes@, changes@.len() as int),
            final(self).version == version,
            final(self).uri == old(self).uri,
            final(self).language_id == old(self).language_id,
    {
        let ghost s0 = self.chars();
        let mut i: usize = 0;
        while i < changes.len()
            invariant
                0 <= i <= changes@.len(),
                apply_changes_spec(s0, changes@, changes@.len() as int) is Some,
                apply_changes_spec(s0, changes@, i as int) == Some(self.chars()),
                self.uri == old(self).uri,
                self.language_id == old(self).language_id,
            decreases changes@.len() - i,
        {
            proof {
                lemma_changes_prefix(s0, changes@, i as int + 1, changes@.len() as int);
            }
            let change = &changes[i];
            self.apply_change(change);
            i = i + 1;
        }
        self.version = version;
    }

    fn apply_change(&mut self, change: &TextDocumentContentChangeEvent)
        requires
            apply_change(old(self).chars(), *change) is Some,
        ensures
            Some(final(self).chars()) == apply_change(old(self).chars(), *change),
            final(self).version == old(self).version,
            final(self).uri == old(self).uri,
            final(self).language_id == old(self).language_id,
    {
        let ghost s = self.chars();
        match &change.range {
            Some(range) => {
                let start_offset = self.position_to_offset(range.start);
                let end_offset = self.position_to_offset(range.end);
                match (start_offset, end_offset) {
                    (Some(start), Some(end)) => {
                        let start_char = rope_byte_to_char(&self.content, start);
                        let end_char = rope_byte_to_char(&self.content, end);
                        proof {
                            lemma_chars_ending_by_bound(s, end as int, s.len() as int);
                        }
                        rope_remove(&mut self.content, start_char, end_char);
                        rope_insert(&mut self.content, start_char, change.text.as_str());
                        proof {
                            let t = s.take(start_char as int) + s.skip(end_char as int);
                            assert(t.take(start_char as int) =~= s.take(start_char as int));
                            assert(t.skip(start_char as int) =~= s.skip(end_char as int));
                        }
                    },
                    _ => {},
                }
            },
            None => {
                self.content = rope_from_str(change.text.as_str());
            },
        }
    }
}

proof fn lemma_changes_prefix(s: Seq<char>, changes: Seq<TextDocumentContentChangeEvent>, i: int, n: int)
    requires
        0 <= i <= n,
        apply_changes_spec(s, changes, n) is Some,
    ensures
        apply_changes_spec(s, changes, i) is Some,
    decreases n - i,
{
    if i < n {
        lemma_changes_prefix(s, changes, i, n - 1);
    }
}

// ============================================================================
// Server state
// ============================================================================

/// Server settings.
#[derive(Debug)]
pub struct ServerConfig {
    /// Whether inlay hints are shown.
    pub inlay_hints_enabled: bool,
    /// How effects are shown: `inline`, `hover` or `both`.
    pub effect_display_style: String,
    /// When contracts are checked: `on-save`, `on-type` or `manual`.
    pub contract_checking: String,
    /// The most completion items returned.
    pub max_completion_items: usize,
}

impl ServerConfig {
    /// A copy of the settings.
    pub fn clone_config(&self) -> (c: Self)
        ensures
            c.inlay_hints_enabled == self.inlay_hints_enabled,
            c.effect_display_style@ == self.effect_display_style@,
            c.contract_checking@ == self.contract_checking@,
            c.max_completion_items == self.max_completion_items,
    {
        ServerConfig {
            inlay_hints_enabled: self.inlay_hints_enabled,
            effect_display_style: self.effect_display_style.clone(),
            contract_checking: self.contract_checking.clone(),
            max_completion_items: self.max_completion_items,
        }
    }
}

impl Default for ServerConfig {
    fn default() -> (c: Self)
        ensures
            c.inlay_hints_enabled,
            c.effect_display_style@ == "inline"@,
            c.contract_checking@ == "on-save"@,
            c.max_completion_items == 50,
    {
        ServerConfig {
            inlay_hints_enabled: true,
            effect_display_style: crate::text::owned_string("inline"),
            contract_checking: crate::text::owned_string("on-save"),
            max_completion_items: 50,
        }
    }
}

/// What the server keeps of an open document.
pub struct DocView {
    pub text: Seq<char>,
    pub version: i32,
    pub language_id: Seq<char>,
}

/// The view of a document.
pub open spec fn doc_view(d: Document) -> DocView {
    DocView { text: d.chars(), version: d.version, language_id: d.language_id@ }
}

/// No two documents have the same URI.
pub open spec fn distinct_uris(s: Seq<Document>) -> bool {
    forall|i: int, j: int| 0 <= i < j < s.len() ==> #[trigger] s[i].uri@ != #[trigger] s[j].uri@
}

/// The documents by URI.
pub open spec fn docs_map(s: Seq<Document>) -> Map<Seq<char>, DocView>
    decreases s.len(),
{
    if s.len() == 0 {
        Map::empty()
    } else {
        docs_map(s.drop_last()).insert(s.last().uri@, doc_view(s.last()))
    }
}

proof fn lemma_docs_dom(s: Seq<Document>)
    ensures
        forall|u: Seq<char>| #[trigger] docs_map(s).dom().contains(u) <==> exists|i: int| 0 <= i < s.len() && s[i].uri@ == u,
    decreases s.len(),
{
    if s.len() > 0 {
        let d = s.drop_last();
        lemma_docs_dom(d);
        assert forall|u: Seq<char>| #[trigger] docs_map(s).dom().contains(u) <==> exists|i: int| 0 <= i < s.len() && s[i].uri@ == u by {
            if docs_map(s).dom().contains(u) {
                if u == s.last().uri@ {
                    assert(s[s.len() - 1].uri@ == u);
                } else {
                    assert(docs_map(d).dom().contains(u));
                    let i = choose|i: int| 0 <= i < d.len() && d[i].uri@ == u;
                    assert(s[i].uri@ == u);
                }
            }
            if exists|i: int| 0 <= i < s.len() && s[i].uri@ == u {
                let i = choose|i: int| 0 <= i < s.len() && s[i].uri@ == u;
                if i < s.len() - 1 {
                    assert(d[i].uri@ == u);
                    assert(docs_map(d).dom().contains(u));
                } else {
                    assert(s.last().uri@ == u);
                }
                assert(docs_map(s).dom().contains(u));
            }
        }
    }
}

proof fn lemma_distinct_drop_last(s: Seq<Document>)
    requires
        distinct_uris(s),
        s.len() > 0,
    ensures
        distinct_uris(s.drop_last()),
{
    let d = s.drop_last();
    assert forall|a: int, b: int| 0 <= a < b < d.len() implies #[trigger] d[a].uri@ != #[trigger] d[b].uri@ by {
        assert(s[a].uri@ != s[b].uri@);
    }
}

proof fn lemma_docs_at(s: Seq<Document>, i: int)
    requires
        distinct_uris(s),
        0 <= i < s.len(),
    ensures
        docs_map(s).dom().contains(s[i].uri@),
        docs_map(s)[s[i].uri@] == doc_view(s[i]),
    decreases s.len(),
{
    if i < s.len() - 1 {
        let d = s.drop_last();
        assert(d[i] == s[i]);
        assert(s[i].uri@ != s[s.len() - 1].uri@);
        lemma_distinct_drop_last(s);
        lemma_docs_at(d, i);
    }
}

proof fn lemma_docs_update(s: Seq<Document>, i: int, x: Document)
    requires
        distinct_uris(s),
        0 <= i < s.len(),
        x.uri@ == s[i].uri@,
    ensures
        distinct_uris(s.update(i, x)),
        docs_map(s.update(i, x)) == docs_map(s).insert(x.uri@, doc_view(x)),
    decreases s.len(),
{
    let t = s.update(i, x);
    assert forall|a: int, b: int| 0 <= a < b < t.len() implies #[trigger] t[a].uri@ != #[trigger] t[b].uri@ by {
        assert(s[a].uri@ != s[b].uri@);
    }
    let d = s.drop_last();
    if i == s.len() - 1 {
        assert(t.drop_last() =~= d);
        assert(docs_map(t) =~= docs_map(s).insert(x.uri@, doc_view(x)));
    } else {
        assert(t.drop_last() =~= d.update(i, x));
        assert(d[i] == s[i]);
        lemma_distinct_drop_last(s);
        lemma_docs_update(d, i, x);
        assert(s.last().uri@ != x.uri@);
        assert(docs_map(t) =~= docs_map(s).insert(x.uri@, doc_view(x)));
    }
}

proof fn lemma_docs_remove(s: Seq<Document>, i: int)
    requires
        distinct_uris(s),
        0 <= i < s.len(),
    ensures
        distinct_uris(s.remove(i)),
        docs_map(s.remove(i)) == docs_map(s).remove(s[i].uri@),
    decreases s.len(),
{
    let t = s.remove(i);
    assert forall|a: int, b: int| 0 <= a < b < t.len() implies #[trigger] t[a].uri@ != #[trigger] t[b].uri@ by {
        let a2 = if a < i { a } else { a + 1 };
        let b2 = if b < i { b } else { b + 1 };
        assert(t[a] == s[a2]);
        assert(t[b] == s[b2]);
        assert(s[a2].uri@ != s[b2].uri@);
    }
    let d = s.drop_last();
    let u = s[i].uri@;
    if i == s.len() - 1 {
        assert(t =~= d);
        lemma_docs_dom(d);
        assert(!docs_map(d).dom().contains(u)) by {
            if docs_map(d).dom().contains(u) {
                let j = choose|j: int| 0 <= j < d.len() && d[j].uri@ == u;
                assert(s[j].uri@ != s[i].uri@);
            }
        }
        assert(docs_map(t) =~= docs_map(s).remove(u));
    } else {
        assert(t.drop_last() =~= d.remove(i));
        assert(t.last() == s.last());
        assert(d[i] == s[i]);
        lemma_distinct_drop_last(s);
        lemma_docs_remove(d, i);
        assert(s.last().uri@ != u);
        assert(docs_map(t) =~= docs_map(s).remove(u));
    }
}

proof fn lemma_docs_len(s: Seq<Document>)
    requires
        distinct_uris(s),
    ensures
        docs_map(s).dom().finite(),
        docs_map(s).dom().len() == s.len(),
    decreases s.len(),
{
    if s.len() > 0 {
        let d = s.drop_last();
        lemma_distinct_drop_last(s);
        lemma_docs_len(d);
        lemma_docs_dom(d);
        assert(!docs_map(d).dom().contains(s.last().uri@)) by {
            if docs_map(d).dom().contains(s.last().uri@) {
                let j = choose|j: int| 0 <= j < d.len() && d[j].uri@ == s.last().uri@;
                assert(s[j].uri@ != s[s.len() - 1].uri@);
            }
        }
    }
}

/// The server's state: open documents, settings, and whether the client
/// has finished initialization.
pub struct ServerState {
    documents: Vec<Document>,
    config: ServerConfig,
    initialized: bool,
}

impl ServerState {
    /// Open documents have distinct URIs.
    pub closed spec fn wf(&self) -> bool {
        distinct_uris(self.documents@)
    }

    /// The open documents by URI.
    pub closed spec fn documents_view(&self) -> Map<Seq<char>, DocView> {
        docs_map(self.documents@)
    }

    /// The settings.
    pub closed spec fn settings(&self) -> ServerConfig {
        self.config
    }

    /// Whether initialization has finished.
    pub closed spec fn initialized_flag(&self) -> bool {
        self.initialized
    }

    /// A state without documents, with the default settings, not yet
    /// initialized.
    pub fn new() -> (st: Self)
        ensures
            st.wf(),
            st.documents_view() == Map::<Seq<char>, DocView>::empty(),
            !st.initialized_flag(),
            st.settings().inlay_hints_enabled,
            st.settings().effect_display_style@ == "inline"@,
            st.settings().contract_checking@ == "on-save"@,
            st.settings().max_completion_items == 50,
    {
        ServerState { documents: Vec::new(), config: ServerConfig::default(), initialized: false }
    }

    /// Records whether initialization has finished.
    pub fn set_initialized(&mut self, initialized: bool)
        requires
            old(self).wf(),
        ensures
            final(self).wf(),
            final(self).initialized_flag() == initialized,
            final(self).documents_view() == old(self).documents_view(),
            final(self).settings() == old(self).settings(),
    {
        self.initialized = initialized;
    }

    /// Whether initialization has finished.
    pub fn is_initialized(&self) -> (b: bool)
        ensures
            b == self.initialized_flag(),
    {
        self.initialized
    }

    fn find(&self, uri: &str) -> (r: Option<usize>)
        requires
            self.wf(),
        ensures
            match r {
                Some(i) => i < self.documents@.len() && self.documents@[i as int].uri@ == uri@,
                None => !self.documents_view().dom().contains(uri@),
            },
    {
        proof {
            lemma_docs_dom(self.documents@);
        }
        let mut i: usize = 0;
        while i < self.documents.len()
            invariant
                0 <= i <= self.documents@.len(),
                forall|j: int| 0 <= j < i ==> #[trigger] self.documents@[j].uri@ != uri@,
            decreases self.documents@.len() - i,
        {
            if crate::text::str_equal(self.documents[i].uri.as_str(), uri) {
                return Some(i);
            }
            i = i + 1;
        }
        None
    }

    /// Opens a document, replacing an open one with the same URI.
    pub fn open_document(&mut self, uri: String, text: String, version: i32, language_id: String)
        requires
            old(self).wf(),
        ensures
            final(self).wf(),
            final(self).documents_view() == old(self).documents_view().insert(uri@,
                DocView { text: text@, version, language_id: language_id@ }),
            final(self).settings() == old(self).settings(),
            final(self).initialized_flag() == old(self).initialized_flag(),
    {
        let found = self.find(uri.as_str());
        let doc = Document::new(uri, text, version, language_id);
        match found {
            Some(i) => {
                proof {
                    lemma_docs_update(self.documents@, i as int, doc);
                }
                self.documents.set(i, doc);
            },
            None => {
                let ghost before = self.documents@;
                proof {
                    lemma_docs_dom(before);
                }
                self.documents.push(doc);
                assert(self.documents@.drop_last() =~= before);
                assert forall|a: int, b: int| 0 <= a < b < self.documents@.len()
                    implies #[trigger] self.documents@[a].uri@ != #[trigger] self.documents@[b].uri@ by {
                    if b == before.len() {
                        assert(before[a].uri@ != doc.uri@);
                    } else {
                        assert(before[a].uri@ != before[b].uri@);
                    }
                }
            },
        }
    }

    /// Applies changes to an open document; `false` when none has the URI.
    pub fn update_document(&mut self, uri: &str, changes: Vec<TextDocumentContentChangeEvent>, version: i32) -> (b: bool)
        requires
            old(self).wf(),
            old(self).documents_view().dom().contains(uri@) ==> apply_changes_spec(
                old(self).documents_view()[uri@].text, changes@, changes@.len() as int) is Some,
        ensures
            final(self).wf(),
            b == old(self).documents_view().dom().contains(uri@),
            !b ==> final(self).documents_view() == old(self).documents_view(),
            b ==> final(self).documents_view() == old(self).documents_view().insert(uri@, DocView {
                text: apply_changes_spec(old(self).documents_view()[uri@].text, changes@, changes@.len() as int).unwrap(),
                version,
                language_id: old(self).documents_view()[uri@].language_id,
            }),
            final(self).settings() == old(self).settings(),
            final(self).initialized_flag() == old(self).initialized_flag(),
    {
        match self.find(uri) {
            Some(i) => {
                proof {
                    lemma_docs_at(self.documents@, i as int);
                }
                let mut doc = self.documents.remove(i);
                let ghost rest = self.documents@;
                doc.apply_changes(changes, version);
                self.documents.insert(i, doc);
                proof {
                    assert(self.documents@ =~= old(self).documents@.update(i as int, doc));
                    lemma_docs_update(old(self).documents@, i as int, doc);
                }
                true
            },
            None => false,
        }
    }

    /// Closes the document with the URI and hands it back.
    pub fn close_document(&mut self, uri: &str) -> (r: Option<Document>)
        requires
            old(self).wf(),
        ensures
            final(self).wf(),
            final(self).documents_view() == old(self).documents_view().remove(uri@),
            match r {
                Some(d) => old(self).documents_view().dom().contains(uri@) && d.uri@ == uri@
                    && doc_view(d) == old(self).documents_view()[uri@],
                None => !old(self).documents_view().dom().contains(uri@),
            },
            final(self).settings() == old(self).settings(),
            final(self).initialized_flag() == old(self).initialized_flag(),
    {
        match self.find(uri) {
            Some(i) => {
                proof {
                    lemma_docs_at(self.documents@, i as int);
                    lemma_docs_remove(self.documents@, i as int);
                }
                let d = self.documents.remove(i);
                Some(d)
            },
            None => {
                assert(old(self).documents_view().remove(uri@) =~= old(self).documents_view());
                None
            },
        }
    }

    /// A copy of the document with the URI.
    pub fn get_document(&self, uri: &str) -> (r: Option<Document>)
        requires
            self.wf(),
        ensures
            match r {
                Some(d) => self.documents_view().dom().contains(uri@) && d.uri@ == uri@
                    && doc_view(d) == self.documents_view()[uri@],
                None => !self.documents_view().dom().contains(uri@),
            },
    {
        match self.find(uri) {
            Some(i) => {
                proof {
                    lemma_docs_at(self.documents@, i as int);
                }
                Some(self.documents[i].clone_document())
            },
            None => None,
        }
    }

    /// The number of open documents.
    pub fn document_count(&self) -> (n: usize)
        requires
            self.wf(),
        ensures
            n == self.documents_view().dom().len(),
    {
        proof {
            lemma_docs_len(self.documents@);
        }
        self.documents.len()
    }

    /// The URIs of the open documents, each once.
    pub fn document_uris(&self) -> (v: Vec<String>)
        requires
            self.wf(),
        ensures
            v@.len() == self.documents_view().dom().len(),
            forall|i: int| 0 <= i < v@.len() ==> self.documents_view().dom().contains(#[trigger] v@[i]@),
            forall|u: Seq<char>| #[trigger] self.documents_view().dom().contains(u) ==> exists|i: int| 0 <= i < v@.len() && v@[i]@ == u,
            forall|i: int, j: int| 0 <= i < j < v@.len() ==> #[trigger] v@[i]@ != #[trigger] v@[j]@,
    {
        proof {
            lemma_docs_len(self.documents@);
            lemma_docs_dom(self.documents@);
        }
        let mut v: Vec<String> = Vec::new();
        let mut i: usize = 0;
        while i < self.documents.len()
            invariant
                distinct_uris(self.documents@),
                0 <= i <= self.documents@.len(),
                v@.len() == i,
                forall|j: int| 0 <= j < i ==> #[trigger] v@[j]@ == self.documents@[j].uri@,
            decreases self.documents@.len() - i,
        {
            v.push(self.documents[i].uri.clone());
            i = i + 1;
        }
        assert forall|u: Seq<char>| #[trigger] self.documents_view().dom().contains(u) implies exists|i: int| 0 <= i < v@.len() && v@[i]@ == u by {
            let k = choose|k: int| 0 <= k < self.documents@.len() && self.documents@[k].uri@ == u;
            assert(v@[k]@ == u);
        }
        assert forall|a: int, b: int| 0 <= a < b < v@.len() implies #[trigger] v@[a]@ != #[trigger] v@[b]@ by {
            assert(self.documents@[a].uri@ != self.documents@[b].uri@);
        }
        assert forall|a: int| 0 <= a < v@.len() implies self.documents_view().dom().contains(#[trigger] v@[a]@) by {
            assert(self.documents@[a].uri@ == v@[a]@);
        }
        v
    }

    /// Whether a change can be applied to the document with the URI (see
    /// `Document::change_applies`); `true` when no document has the URI.
    pub fn change_applies(&self, uri: &str, change: &TextDocumentContentChangeEvent) -> (b: bool)
        requires
            self.wf(),
        ensures
            b == (self.documents_view().dom().contains(uri@) ==> apply_change(self.documents_view()[uri@].text, *change) is Some),
    {
        match self.find(uri) {
            Some(i) => {
                proof {
                    lemma_docs_at(self.documents@, i as int);
                }
                self.documents[i].change_applies(change)
            },
            None => true,
        }
    }

    /// On save, brings the stored text in line with the saved text when the
    /// client sent it and it differs: the whole text is replaced and the
    /// version goes up by one.  Gives whether the document was replaced.
    pub fn sync_saved_text(&mut self, uri: &str, text: Option<String>) -> (changed: bool)
        requires
            old(self).wf(),
            old(self).documents_view().dom().contains(uri@) ==> old(self).documents_view()[uri@].version < i32::MAX,
        ensures
            final(self).wf(),
            changed == (text is Some && old(self).documents_view().dom().contains(uri@)
                && old(self).documents_view()[uri@].text != text.unwrap()@),
            changed ==> final(self).documents_view() == old(self).documents_view().insert(uri@, DocView {
                text: text.unwrap()@,
                version: (old(self).documents_view()[uri@].version + 1) as i32,
                language_id: old(self).documents_view()[uri@].language_id,
            }),
            !changed ==> final(self).documents_view() == old(self).documents_view(),
            final(self).settings() == old(self).settings(),
            final(self).initialized_flag() == old(self).initialized_flag(),
    {
        match text {
            Some(t) => match self.get_document(uri) {
                Some(doc) => {
                    let current = doc.text();
                    if crate::text::str_equal(current.as_str(), t.as_str()) {
                        false
                    } else {
                        let ghost saved = t@;
                        let mut changes: Vec<TextDocumentContentChangeEvent> = Vec::new();
                        changes.push(TextDocumentContentChangeEvent { range: None, range_length: None, text: t });
                        assert(apply_changes_spec(doc.chars(), changes@, 0) == Some(doc.chars()));
                        assert(changes@[0].range is None && changes@[0].text@ == saved);
                        assert(apply_change(doc.chars(), changes@[0]) == Some(saved));
                        assert(apply_changes_spec(doc.chars(), changes@, 1) == Some(saved));
                        let _ = self.update_document(uri, changes, doc.version + 1);
                        true
                    }
                },
                None => false,
            },
            None => false,
        }
    }

    /// A copy of the settings.
    pub fn config(&self) -> (c: ServerConfig)
        ensures
            c.inlay_hints_enabled == self.settings().inlay_hints_enabled,
            c.effect_display_style@ == self.settings().effect_display_style@,
            c.contract_checking@ == self.settings().contract_checking@,
            c.max_completion_items == self.settings().max_completion_items,
    {
        self.config.clone_config()
    }

    /// Replaces the settings.
    pub fn update_config(&mut self, config: ServerConfig)
        requires
            old(self).wf(),
        ensures
            final(self).wf(),
            final(self).settings() == config,
            final(self).documents_view() == old(self).documents_view(),
            final(self).initialized_flag() == old(self).initialized_flag(),
    {
        self.config = config;
    }
}

/// What `open_document` leaves is what `get_document` then reads: the
/// document opened under `uri`, with the other documents as they were.
pub proof fn law_open_then_get(before: ServerState, after: ServerState, uri: Seq<char>, doc: DocView)
    requires
        after.documents_view() == before.documents_view().insert(uri, doc),
    ensures
        after.documents_view().dom().contains(uri),
        after.documents_view()[uri] == doc,
        forall|u: Seq<char>| u != uri ==> (#[trigger] after.documents_view().dom().contains(u)
            == before.documents_view().dom().contains(u)),
        forall|u: Seq<char>| u != uri && before.documents_view().dom().contains(u)
            ==> #[trigger] after.documents_view()[u] == before.documents_view()[u],
{
}

/// After `close_document`, no document has the URI, the others are as they
/// were, and the count drops by one when one was open.
pub proof fn law_close_then_count(before: ServerState, after: ServerState, uri: Seq<char>)
    requires
        before.wf(),
        after.wf(),
        after.documents_view() == before.documents_view().remove(uri),
    ensures
        !after.documents_view().dom().contains(uri),
        after.documents_view().dom().len() == if before.documents_view().dom().contains(uri) {
            before.documents_view().dom().len() - 1
        } else {
            before.documents_view().dom().len() as int
        },
{
    lemma_docs_len(before.documents@);
}

impl Default for ServerState {
    fn default() -> (st: Self)
        ensures
            st.wf(),
            st.documents_view() == Map::<Seq<char>, DocView>::empty(),
            !st.initialized_flag(),
    {
        ServerState::new()
    }
}

} // verus!
