//! Positions, ranges, spans and the byte-offset/line index of the language
//! server.
//!
//! Positions are zero-based (line, character) pairs ordered
//! lexicographically; ranges are half-open `[start, end)`.

use vstd::prelude::*;
use crate::text::{decimal, push_decimal, string_from_chars, push_all};
use vstd::string::StringSliceAdditionalSpecFns;

verus! {

// ============================================================================
// Position
// ============================================================================

/// A zero-based (line, character) position in a document. The character
/// offset is measured in UTF-16 code units, as the LSP specifies.
#[derive(Debug, Clone, Copy, PartialEq, Eq, Structural, Hash)]
pub struct Position {
    /// Zero-based line number.
    pub line: u32,
    /// Zero-based character offset (UTF-16 code units).
    pub character: u32,
}

/// The lexicographic "strictly before" order on positions.
pub open spec fn pos_before(a: Position, b: Position) -> bool {
    a.line < b.line || (a.line == b.line && a.character < b.character)
}

impl Default for Position {
    fn default() -> (p: Self)
        ensures
            p == (Position { line: 0, character: 0 }),
    {
        Position { line: 0, character: 0 }
    }
}

impl Position {
    /// Creates a position at the given line and character.
    pub fn new(line: u32, character: u32) -> (p: Self)
        ensures
            p.line == line,
            p.character == character,
    {
        Self { line, character }
    }

    /// The start of a document, (0, 0).
    pub fn start() -> (p: Self)
        ensures
            p.line == 0,
            p.character == 0,
    {
        Self::new(0, 0)
    }

    /// Whether this position comes strictly before `other`.
    pub fn is_before(&self, other: &Position) -> (b: bool)
        ensures
            b == pos_before(*self, *other),
    {
        self.line < other.line || (self.line == other.line && self.character < other.character)
    }

    /// Whether this position comes strictly after `other`.
    pub fn is_after(&self, other: &Position) -> (b: bool)
        ensures
            b == pos_before(*other, *self),
    {
        other.is_before(self)
    }

    /// Whether this position is at the start of its line.
    pub fn is_line_start(&self) -> (b: bool)
        ensures
            b == (self.character == 0),
    {
        self.character == 0
    }

    /// The one-based `line:column` rendering of this position.
    pub fn display_string(&self) -> (s: String)
        ensures
            s@ == decimal((self.line + 1) as nat) + seq![':'] + decimal((self.character + 1) as nat),
    {
        let mut out: Vec<char> = Vec::new();
        push_decimal(&mut out, self.line as u64 + 1);
        out.push(':');
        push_decimal(&mut out, self.character as u64 + 1);
        string_from_chars(out.as_slice())
    }
}

/// `is_before` is irreflexive, transitive and total on distinct positions;
/// `is_after` is its converse.
pub proof fn lemma_position_strict_total_order(a: Position, b: Position, c: Position)
    ensures
        !pos_before(a, a),
        pos_before(a, b) && pos_before(b, c) ==> pos_before(a, c),
        a != b ==> (pos_before(a, b) || pos_before(b, a)),
        !(pos_before(a, b) && pos_before(b, a)),
{
}

// ============================================================================
// TextRange
// ============================================================================

/// A half-open range `[start, end)` of positions.
#[derive(Debug, Clone, Copy, PartialEq, Eq, Structural, Hash)]
pub struct TextRange {
    /// Start position (inclusive).
    pub start: Position,
    /// End position (exclusive).
    pub end: Position,
}

/// The earlier of two positions (the second on ties).
pub open spec fn pos_min(a: Position, b: Position) -> Position {
    if pos_before(a, b) { a } else { b }
}

/// The later of two positions (the second on ties).
pub open spec fn pos_max(a: Position, b: Position) -> Position {
    if pos_before(b, a) { a } else { b }
}

/// Whether `pos` lies in the half-open range `r`.
pub open spec fn range_contains(r: TextRange, pos: Position) -> bool {
    !pos_before(pos, r.start) && pos_before(pos, r.end)
}

/// Whether two ranges share at least one position strictly inside both.
pub open spec fn ranges_overlap(a: TextRange, b: TextRange) -> bool {
    pos_before(b.start, a.end) && pos_before(a.start, b.end)
}

impl Default for TextRange {
    fn default() -> (r: Self)
        ensures
            r.start == (Position { line: 0, character: 0 }),
            r.end == (Position { line: 0, character: 0 }),
    {
        TextRange { start: Position::new(0, 0), end: Position::new(0, 0) }
    }
}

impl TextRange {
    /// Creates a range from `start` to `end`.
    pub fn new(start: Position, end: Position) -> (r: Self)
        ensures
            r.start == start,
            r.end == end,
    {
        Self { start, end }
    }

    /// The empty range at a single position.
    pub fn point(pos: Position) -> (r: Self)
        ensures
            r.start == pos,
            r.end == pos,
    {
        Self::new(pos, pos)
    }

    /// The range covering a whole line: from column 0 to the largest column.
    pub fn line(line: u32) -> (r: Self)
        ensures
            r.start == (Position { line, character: 0 }),
            r.end == (Position { line, character: u32::MAX }),
    {
        Self::new(Position::new(line, 0), Position::new(line, u32::MAX))
    }

    /// Whether the range is empty (start equals end).
    pub fn is_empty(&self) -> (b: bool)
        ensures
            b == (self.start == self.end),
    {
        self.start == self.end
    }

    /// Whether the range contains `pos` (end excluded).
    pub fn contains(&self, pos: Position) -> (b: bool)
        ensures
            b == range_contains(*self, pos),
    {
        !pos.is_before(&self.start) && pos.is_before(&self.end)
    }

    /// Whether this range contains all of `other`.
    pub fn contains_range(&self, other: &TextRange) -> (b: bool)
        ensures
            b == (range_contains(*self, other.start) && (range_contains(*self, other.end)
                || self.end == other.end)),
    {
        self.contains(other.start) && (self.contains(other.end) || self.end == other.end)
    }

    /// Whether the two ranges overlap; ranges that only touch do not.
    pub fn overlaps(&self, other: &TextRange) -> (b: bool)
        ensures
            b == ranges_overlap(*self, *other),
    {
        other.start.is_before(&self.end) && self.start.is_before(&other.end)
    }

    /// The common part of two ranges, if they overlap.
    pub fn intersection(&self, other: &TextRange) -> (r: Option<TextRange>)
        ensures
            ranges_overlap(*self, *other) <==> r is Some,
            r matches Some(i) ==> i.start == pos_max(self.start, other.start) && i.end == pos_min(
                self.end,
                other.end,
            ),
    {
        if !self.overlaps(other) {
            return None;
        }
        let start = if self.start.is_before(&other.start) {
            other.start
        } else {
            self.start
        };
        let end = if self.end.is_before(&other.end) {
            self.end
        } else {
            other.end
        };
        Some(TextRange::new(start, end))
    }

    /// The smallest range covering both ranges.
    pub fn union(&self, other: &TextRange) -> (r: TextRange)
        ensures
            r.start == pos_min(self.start, other.start),
            r.end == pos_max(self.end, other.end),
    {
        let start = if self.start.is_before(&other.start) {
            self.start
        } else {
            other.start
        };
        let end = if self.end.is_after(&other.end) {
            self.end
        } else {
            other.end
        };
        TextRange::new(start, end)
    }

    /// The `start-end` rendering, each end one-based.
    pub fn display_string(&self) -> (s: String)
        ensures
            s@ == decimal((self.start.line + 1) as nat) + seq![':'] + decimal((self.start.character + 1) as nat)
                + seq!['-'] + decimal((self.end.line + 1) as nat) + seq![':'] + decimal(
                (self.end.character + 1) as nat,
            ),
    {
        let mut out: Vec<char> = Vec::new();
        push_decimal(&mut out, self.start.line as u64 + 1);
        out.push(':');
        push_decimal(&mut out, self.start.character as u64 + 1);
        out.push('-');
        push_decimal(&mut out, self.end.line as u64 + 1);
        out.push(':');
        push_decimal(&mut out, self.end.character as u64 + 1);
        string_from_chars(out.as_slice())
    }
}

/// Overlap is symmetric, and the union of two ranges covers the positions of
/// both and does not depend on the order of its arguments.
pub proof fn lemma_range_overlap_union(a: TextRange, b: TextRange, p: Position)
    ensures
        ranges_overlap(a, b) == ranges_overlap(b, a),
        pos_min(a.start, b.start) == pos_min(b.start, a.start),
        pos_max(a.end, b.end) == pos_max(b.end, a.end),
        range_contains(a, p) ==> range_contains(
            TextRange { start: pos_min(a.start, b.start), end: pos_max(a.end, b.end) },
            p,
        ),
        range_contains(b, p) ==> range_contains(
            TextRange { start: pos_min(a.start, b.start), end: pos_max(a.end, b.end) },
            p,
        ),
{
}

/// A position lies in the intersection of two overlapping ranges exactly when
/// it lies in both ranges.
pub proof fn lemma_intersection_contains(a: TextRange, b: TextRange, p: Position)
    requires
        ranges_overlap(a, b),
    ensures
        range_contains(
            TextRange { start: pos_max(a.start, b.start), end: pos_min(a.end, b.end) },
            p,
        ) <==> (range_contains(a, p) && range_contains(b, p)),
{
}

// ============================================================================
// Location
// ============================================================================

/// A range within a document named by its URI text.
#[derive(Debug, Clone)]
pub struct Location {
    /// The document URI.
    pub uri: String,
    /// The range within the document.
    pub range: TextRange,
}

impl Location {
    /// Creates a location.
    pub fn new(uri: String, range: TextRange) -> (l: Self)
        ensures
            l.uri == uri,
            l.range == range,
    {
        Self { uri, range }
    }

    /// A location at a single position.
    pub fn point(uri: String, pos: Position) -> (l: Self)
        ensures
            l.uri == uri,
            l.range.start == pos,
            l.range.end == pos,
    {
        Self::new(uri, TextRange::point(pos))
    }

    /// The `uri:range` rendering.
    pub fn display_string(&self) -> (s: String)
        ensures
            s@ == self.uri@ + seq![':'] + decimal((self.range.start.line + 1) as nat) + seq![':']
                + decimal((self.range.start.character + 1) as nat) + seq!['-'] + decimal((self.range.end.line + 1) as nat)
                + seq![':'] + decimal((self.range.end.character + 1) as nat),
    {
        let mut out = crate::text::str_chars(self.uri.as_str());
        out.push(':');
        let range = crate::text::str_chars(self.range.display_string().as_str());
        push_all(&mut out, range.as_slice());
        let s = string_from_chars(out.as_slice());
        assert(s@ =~= self.uri@ + seq![':'] + decimal((self.range.start.line + 1) as nat) + seq![':']
                + decimal((self.range.start.character + 1) as nat) + seq!['-'] + decimal((self.range.end.line + 1) as nat)
                + seq![':'] + decimal((self.range.end.character + 1) as nat));
        s
    }
}

/// A link from an origin range to a target definition.
#[derive(Debug, Clone)]
pub struct LocationLink {
    /// The range at the origin that produced the link.
    pub origin_selection_range: Option<TextRange>,
    /// The target document URI.
    pub target_uri: String,
    /// The full range of the target.
    pub target_range: TextRange,
    /// The part of the target to select.
    pub target_selection_range: TextRange,
}

impl LocationLink {
    /// Creates a link without an origin range.
    pub fn new(target_uri: String, target_range: TextRange, target_selection_range: TextRange) -> (l:
        Self)
        ensures
            l.origin_selection_range is None,
            l.target_uri == target_uri,
            l.target_range == target_range,
            l.target_selection_range == target_selection_range,
    {
        Self { origin_selection_range: None, target_uri, target_range, target_selection_range }
    }

    /// Sets the origin range.
    pub fn with_origin(self, range: TextRange) -> (l: Self)
        ensures
            l.origin_selection_range == Some(range),
            l.target_uri == self.target_uri,
            l.target_range == self.target_range,
            l.target_selection_range == self.target_selection_range,
    {
        LocationLink { origin_selection_range: Some(range), ..self }
    }
}

// ============================================================================
// TextEdit
// ============================================================================

/// A replacement of a range by new text.
#[derive(Debug, Clone)]
pub struct TextEdit {
    /// The range to replace.
    pub range: TextRange,
    /// The text that replaces it.
    pub new_text: String,
}

impl TextEdit {
    /// Creates an edit.
    pub fn new(range: TextRange, new_text: String) -> (e: Self)
        ensures
            e.range == range,
            e.new_text == new_text,
    {
        Self { range, new_text }
    }

    /// Inserts `text` at `pos`.
    pub fn insert(pos: Position, text: String) -> (e: Self)
        ensures
            e.range.start == pos,
            e.range.end == pos,
            e.new_text == text,
    {
        Self::new(TextRange::point(pos), text)
    }

    /// Deletes the text of `range`.
    pub fn delete(range: TextRange) -> (e: Self)
        ensures
            e.range == range,
            e.new_text@ == Seq::<char>::empty(),
    {
        Self::new(range, String::new())
    }

    /// Replaces the text of `range` by `text`.
    pub fn replace(range: TextRange, text: String) -> (e: Self)
        ensures
            e.range == range,
            e.new_text == text,
    {
        Self::new(range, text)
    }
}

// ============================================================================
// Span
// ============================================================================

/// A half-open range of byte offsets `[start, end)`.
#[derive(Debug, Clone, Copy, PartialEq, Eq, Structural, Hash)]
pub struct Span {
    /// Start offset (inclusive).
    pub start: usize,
    /// End offset (exclusive).
    pub end: usize,
}

impl Default for Span {
    fn default() -> (s: Self)
        ensures
            s.start == 0,
            s.end == 0,
    {
        Span { start: 0, end: 0 }
    }
}

impl Span {
    /// Creates a span; its start may not lie after its end.
    pub fn new(start: usize, end: usize) -> (s: Self)
        requires
            start <= end,
        ensures
            s.start == start,
            s.end == end,
    {
        Self { start, end }
    }

    /// The empty span at `offset`.
    pub fn point(offset: usize) -> (s: Self)
        ensures
            s.start == offset,
            s.end == offset,
    {
        Self::new(offset, offset)
    }

    /// The span of a range of offsets.
    pub fn from_range(range: std::ops::Range<usize>) -> (s: Self)
        requires
            range.start <= range.end,
        ensures
            s.start == range.start,
            s.end == range.end,
    {
        Self::new(range.start, range.end)
    }

    /// The number of bytes covered.
    pub fn len(&self) -> (n: usize)
        requires
            self.start <= self.end,
        ensures
            n == self.end - self.start,
    {
        self.end - self.start
    }

    /// Whether the span covers no byte.
    pub fn is_empty(&self) -> (b: bool)
        ensures
            b == (self.start == self.end),
    {
        self.start == self.end
    }

    /// Whether the span covers `offset`.
    pub fn contains(&self, offset: usize) -> (b: bool)
        ensures
            b == (self.start <= offset && offset < self.end),
    {
        offset >= self.start && offset < self.end
    }

    /// Whether two spans share a byte.
    pub fn overlaps(&self, other: &Span) -> (b: bool)
        ensures
            b == (self.start < other.end && other.start < self.end),
    {
        self.start < other.end && other.start < self.end
    }

    /// The smallest span covering both spans.
    pub fn union(&self, other: &Span) -> (s: Span)
        requires
            self.start <= self.end,
            other.start <= other.end,
        ensures
            s.start == (if self.start <= other.start { self.start } else { other.start }),
            s.end == (if self.end >= other.end { self.end } else { other.end }),
    {
        let start = if self.start <= other.start {
            self.start
        } else {
            other.start
        };
        let end = if self.end >= other.end {
            self.end
        } else {
            other.end
        };
        Span::new(start, end)
    }

    /// This span as a range of offsets.
    pub fn as_range(&self) -> (r: std::ops::Range<usize>)
        ensures
            r.start == self.start,
            r.end == self.end,
    {
        self.start..self.end
    }

    /// The `start..end` rendering.
    pub fn display_string(&self) -> (s: String)
        ensures
            s@ == decimal(self.start as nat) + seq!['.', '.'] + decimal(self.end as nat),
    {
        let mut out: Vec<char> = Vec::new();
        push_decimal(&mut out, self.start as u64);
        out.push('.');
        out.push('.');
        push_decimal(&mut out, self.end as u64);
        string_from_chars(out.as_slice())
    }
}

/// A value together with the span it came from.
#[derive(Debug, Clone)]
pub struct Spanned<T> {
    /// The value.
    pub value: T,
    /// Where it came from.
    pub span: Span,
}

impl<T> Spanned<T> {
    /// Pairs a value with a span.
    pub fn new(value: T, span: Span) -> (s: Self)
        ensures
            s.value == value,
            s.span == span,
    {
        Self { value, span }
    }

    /// Maps the value, keeping the span.
    pub fn map<U, F: FnOnce(T) -> U>(self, f: F) -> (r: Spanned<U>)
        requires
            f.requires((self.value,)),
        ensures
            f.ensures((self.value,), r.value),
            r.span == self.span,
    {
        Spanned { value: f(self.value), span: self.span }
    }
}

impl<T> std::ops::Deref for Spanned<T> {
    type Target = T;

    fn deref(&self) -> &T {
        &self.value
    }
}

// ============================================================================
// LineIndex
// ============================================================================

/// The line start offsets of a byte sequence: 0, then one past each newline
/// among the first `n` bytes.
pub open spec fn line_starts_upto(bytes: Seq<u8>, n: nat) -> Seq<usize>
    decreases n,
{
    if n == 0 {
        seq![0usize]
    } else {
        let prev = line_starts_upto(bytes, (n - 1) as nat);
        if bytes[n - 1] == 10u8 {
            prev.push(n as usize)
        } else {
            prev
        }
    }
}

/// The line start offsets of a whole byte sequence.
pub open spec fn line_starts_of(bytes: Seq<u8>) -> Seq<usize> {
    line_starts_upto(bytes, bytes.len())
}

/// A strictly increasing sequence of offsets starting at 0 and bounded by `len`.
pub open spec fn starts_ok(s: Seq<usize>, len: nat) -> bool {
    &&& s.len() >= 1
    &&& s[0] == 0
    &&& forall|i: int, j: int| 0 <= i < j < s.len() ==> s[i] < s[j]
    &&& forall|i: int| 0 <= i < s.len() ==> s[i] <= len
}

proof fn lemma_line_starts_ok(bytes: Seq<u8>, n: nat)
    requires
        n <= bytes.len(),
        bytes.len() <= usize::MAX,
    ensures
        starts_ok(line_starts_upto(bytes, n), n),
        line_starts_upto(bytes, n).len() <= n + 1,
    decreases n,
{
    if n > 0 {
        lemma_line_starts_ok(bytes, (n - 1) as nat);
    }
}

/// Whether a byte begins a UTF-8 encoded character (is no continuation
/// byte `10xxxxxx`).
pub open spec fn starts_char(b: u8) -> bool {
    b < 0x80 || b >= 0xC0
}

/// The UTF-16 code units of the character a byte begins: none for a
/// continuation byte, two for the first byte of a four-byte encoding, one
/// otherwise.
pub open spec fn utf16_units(b: u8) -> int {
    if !starts_char(b) {
        0
    } else if b >= 0xF0 {
        2
    } else {
        1
    }
}

/// The UTF-16 length of the characters that begin among `bytes[from..to]`.
pub open spec fn utf16_len(bytes: Seq<u8>, from: int, to: int) -> int
    decreases to - from,
{
    if to <= from {
        0
    } else {
        utf16_len(bytes, from, to - 1) + utf16_units(bytes[to - 1])
    }
}

/// Whether `o` is a character boundary: the end of the text or a byte
/// that begins a character.
pub open spec fn char_boundary(bytes: Seq<u8>, o: int) -> bool {
    o == bytes.len() || (0 <= o < bytes.len() && starts_char(bytes[o]))
}

/// The offset that `units` UTF-16 code units after `from` reach, searching
/// from `o`: the first character boundary at or after `o` by which at least
/// that many units have been passed, or the end of the text.
pub open spec fn units_reach(bytes: Seq<u8>, from: int, units: int, o: int) -> int
    decreases bytes.len() - o,
{
    if o >= bytes.len() {
        bytes.len() as int
    } else if utf16_len(bytes, from, o) >= units && starts_char(bytes[o]) {
        o
    } else {
        units_reach(bytes, from, units, o + 1)
    }
}

/// Passing more bytes never lowers the UTF-16 length, and a byte that
/// begins a character adds at least one unit.
proof fn lemma_utf16_len_grows(bytes: Seq<u8>, from: int, k: int, o: int)
    requires
        from <= k <= o,
    ensures
        utf16_len(bytes, from, k) <= utf16_len(bytes, from, o),
        k < o && 0 <= k < bytes.len() && starts_char(bytes[k]) ==> utf16_len(bytes, from, k) < utf16_len(bytes, from, o),
    decreases o - k,
{
    if k < o {
        lemma_utf16_len_grows(bytes, from, k, o - 1);
        if k == o - 1 {
            assert(utf16_len(bytes, from, o) == utf16_len(bytes, from, k) + utf16_units(bytes[k]));
        }
    }
}

/// Searching from any offset before a boundary reached with exactly its own
/// length finds that boundary.
proof fn lemma_units_reach(bytes: Seq<u8>, from: int, o: int, k: int)
    requires
        0 <= from <= k <= o,
        o <= bytes.len(),
        char_boundary(bytes, o),
    ensures
        units_reach(bytes, from, utf16_len(bytes, from, o), k) == o,
    decreases o - k,
{
    let u = utf16_len(bytes, from, o);
    if k < o {
        if starts_char(bytes[k]) {
            lemma_utf16_len_grows(bytes, from, k, o);
        }
        lemma_units_reach(bytes, from, o, k + 1);
        assert(units_reach(bytes, from, u, k) == units_reach(bytes, from, u, k + 1));
    }
}

/// Converts between byte offsets and (line, character) positions, the
/// character counted in UTF-16 code units.
pub struct LineIndex {
    line_starts: Vec<usize>,
    bytes: Vec<u8>,
}

impl LineIndex {
    /// The line start offsets.
    pub closed spec fn starts(&self) -> Seq<usize> {
        self.line_starts@
    }

    /// The UTF-8 bytes of the indexed text.
    pub closed spec fn bytes(&self) -> Seq<u8> {
        self.bytes@
    }

    /// The length of the indexed text in bytes.
    pub open spec fn text_len(&self) -> nat {
        self.bytes().len()
    }

    /// Well-formedness: the starts are those of the text.
    pub open spec fn wf(&self) -> bool {
        &&& self.starts() == line_starts_of(self.bytes())
        &&& starts_ok(self.starts(), self.text_len())
        &&& self.text_len() <= usize::MAX
    }

    /// The line of an offset: the last line whose start is not after it.
    pub open spec fn is_line_of(&self, line: int, offset: int) -> bool {
        &&& 0 <= line < self.starts().len()
        &&& self.starts()[line] <= offset
        &&& line + 1 < self.starts().len() ==> offset < self.starts()[line + 1]
    }

    /// Builds the index of `text`: line starts are 0 and one past each `\n`
    /// byte of its UTF-8 encoding.
    pub fn new(text: &str) -> (idx: Self)
        ensures
            idx.bytes() == text.spec_bytes(),
            idx.starts() == line_starts_of(text.spec_bytes()),
            idx.text_len() == text.spec_bytes().len(),
            idx.wf(),
    {
        let bytes = text.as_bytes();
        let n = bytes.len();
        let mut line_starts: Vec<usize> = Vec::new();
        line_starts.push(0);
        let mut copy: Vec<u8> = Vec::new();
        let mut i: usize = 0;
        while i < n
            invariant
                n == bytes@.len(),
                bytes@ == text.spec_bytes(),
                0 <= i <= n,
                line_starts@ == line_starts_upto(bytes@, i as nat),
                copy@ == bytes@.take(i as int),
            decreases n - i,
        {
            if bytes[i] == 10u8 {
                line_starts.push(i + 1);
            }
            copy.push(bytes[i]);
            i = i + 1;
            assert(copy@ =~= bytes@.take(i as int));
        }
        assert(copy@ =~= bytes@);
        proof {
            lemma_line_starts_ok(bytes@, n as nat);
        }
        Self { line_starts, bytes: copy }
    }

    /// The number of lines.
    pub fn line_count(&self) -> (n: usize)
        ensures
            n == self.starts().len(),
    {
        self.line_starts.len()
    }

    /// The offset where `line` starts, if the text has that line.
    pub fn line_start(&self, line: u32) -> (r: Option<usize>)
        ensures
            (line < self.starts().len()) <==> r is Some,
            r matches Some(o) ==> o == self.starts()[line as int],
    {
        if (line as usize) < self.line_starts.len() {
            Some(self.line_starts[line as usize])
        } else {
            None
        }
    }

    /// The UTF-16 length of `bytes[from..to]`.
    fn utf16_between(&self, from: usize, to: usize) -> (n: u128)
        requires
            from <= to <= self.text_len(),
        ensures
            n == utf16_len(self.bytes(), from as int, to as int),
    {
        let mut n: u128 = 0;
        let mut k: usize = from;
        while k < to
            invariant
                from <= k <= to <= self.text_len(),
                n == utf16_len(self.bytes(), from as int, k as int),
                n <= 2 * (k - from),
            decreases to - k,
        {
            let b = self.bytes[k];
            if b < 0x80 || b >= 0xC0 {
                if b >= 0xF0 {
                    n = n + 2;
                } else {
                    n = n + 1;
                }
            }
            k = k + 1;
        }
        n
    }

    /// Converts a byte offset (clamped to the text length) to a position:
    /// its line, and the UTF-16 length of the line up to it.
    pub fn offset_to_position(&self, offset: usize) -> (p: Position)
        requires
            self.wf(),
        ensures
            ({
                let o = if offset <= self.text_len() { offset as int } else { self.text_len() as int };
                exists|line: int|
                    #![trigger self.starts()[line]]
                    self.is_line_of(line, o) && p.line == line as u32
                        && p.character == utf16_len(self.bytes(), self.starts()[line] as int, o) as u32
            }),
    {
        let len = self.bytes.len();
        let o = if offset <= len {
            offset
        } else {
            len
        };
        let n = self.line_starts.len();
        let mut lo: usize = 0;
        let mut hi: usize = n;
        while hi - lo > 1
            invariant
                self.wf(),
                len == self.text_len(),
                o <= len,
                n == self.starts().len(),
                0 <= lo < hi <= n,
                self.starts()[lo as int] <= o,
                hi < n ==> o < self.starts()[hi as int],
            decreases hi - lo,
        {
            let mid = lo + (hi - lo) / 2;
            if self.line_starts[mid] <= o {
                lo = mid;
            } else {
                hi = mid;
            }
        }
        let line_start = self.line_starts[lo];
        assert(self.is_line_of(lo as int, o as int));
        let units = self.utf16_between(line_start, o);
        Position::new(lo as u32, units as u32)
    }

    /// Converts a position to a byte offset: from the start of its line,
    /// the first character boundary by which `character` UTF-16 code units
    /// have been passed, or the end of the text; no offset when the line
    /// does not exist.
    pub fn position_to_offset(&self, pos: Position) -> (r: Option<usize>)
        requires
            self.wf(),
        ensures
            (pos.line < self.starts().len()) <==> r is Some,
            r matches Some(o) ==> o == self.spec_position_to_offset(pos),
    {
        let line_start = match self.line_start(pos.line) {
            Some(s) => s,
            None => return None,
        };
        let len = self.bytes.len();
        let target = pos.character as u128;
        let ghost from = line_start as int;
        let mut o: usize = line_start;
        let mut units: u128 = 0;
        while o < len && !self.stops_at(o, units, target)
            invariant
                self.wf(),
                len == self.text_len(),
                from <= o <= len,
                from == self.starts()[pos.line as int],
                units == utf16_len(self.bytes(), from, o as int),
                units <= 2 * (o - from),
                units_reach(self.bytes(), from, target as int, from) == units_reach(self.bytes(), from, target as int, o as int),
            decreases len - o,
        {
            let b = self.bytes[o];
            if b < 0x80 || b >= 0xC0 {
                if b >= 0xF0 {
                    units = units + 2;
                } else {
                    units = units + 1;
                }
            }
            o = o + 1;
        }
        Some(o)
    }

    /// Whether the search for a column stops at offset `o`, with `units`
    /// passed: enough units and a byte that begins a character.
    fn stops_at(&self, o: usize, units: u128, target: u128) -> (b: bool)
        requires
            o < self.text_len(),
        ensures
            b == (units >= target && starts_char(self.bytes()[o as int])),
    {
        let c = self.bytes[o];
        units >= target && (c < 0x80 || c >= 0xC0)
    }

    /// Converts a span of offsets to a range of positions.
    pub fn span_to_range(&self, span: Span) -> (r: TextRange)
        requires
            self.wf(),
        ensures
            r.start == self.spec_offset_to_position(span.start),
            r.end == self.spec_offset_to_position(span.end),
    {
        let s = self.offset_to_position(span.start);
        let e = self.offset_to_position(span.end);
        proof {
            self.lemma_offset_to_position_unique(span.start, s);
            self.lemma_offset_to_position_unique(span.end, e);
        }
        TextRange::new(s, e)
    }

    /// Converts a range of positions to a span of offsets; none when a line
    /// is missing. The start offset may not come after the end offset.
    pub fn range_to_span(&self, range: TextRange) -> (r: Option<Span>)
        requires
            self.wf(),
            range.start.line < self.starts().len() && range.end.line < self.starts().len()
                ==> self.spec_position_to_offset(range.start) <= self.spec_position_to_offset(
                range.end,
            ),
        ensures
            (range.start.line < self.starts().len() && range.end.line < self.starts().len())
                <==> r is Some,
            r matches Some(s) ==> s.start == self.spec_position_to_offset(range.start) && s.end
                == self.spec_position_to_offset(range.end),
    {
        let start = match self.position_to_offset(range.start) {
            Some(s) => s,
            None => return None,
        };
        let end = match self.position_to_offset(range.end) {
            Some(e) => e,
            None => return None,
        };
        Some(Span::new(start, end))
    }

    /// The offset a position converts to, for a line that exists.
    pub open spec fn spec_position_to_offset(&self, pos: Position) -> int {
        let from = self.starts()[pos.line as int] as int;
        units_reach(self.bytes(), from, pos.character as int, from)
    }

    /// The position an offset converts to.
    pub open spec fn spec_offset_to_position(&self, offset: usize) -> Position {
        let o = if offset <= self.text_len() { offset as int } else { self.text_len() as int };
        let line = choose|line: int| self.is_line_of(line, o);
        Position { line: line as u32, character: utf16_len(self.bytes(), self.starts()[line] as int, o) as u32 }
    }

    proof fn lemma_line_of_unique(&self, a: int, b: int, o: int)
        requires
            self.wf(),
            self.is_line_of(a, o),
            self.is_line_of(b, o),
        ensures
            a == b,
    {
        if a < b {
            assert(self.starts()[a + 1] <= self.starts()[b]);
        } else if b < a {
            assert(self.starts()[b + 1] <= self.starts()[a]);
        }
    }

    proof fn lemma_offset_to_position_unique(&self, offset: usize, p: Position)
        requires
            self.wf(),
            ({
                let o = if offset <= self.text_len() { offset as int } else { self.text_len() as int };
                exists|line: int|
                    #![trigger self.starts()[line]]
                    self.is_line_of(line, o) && p.line == line as u32
                        && p.character == utf16_len(self.bytes(), self.starts()[line] as int, o) as u32
            }),
        ensures
            p == self.spec_offset_to_position(offset),
    {
        let o = if offset <= self.text_len() { offset as int } else { self.text_len() as int };
        let l1 = choose|line: int|
            #![trigger self.starts()[line]]
            self.is_line_of(line, o) && p.line == line as u32
                && p.character == utf16_len(self.bytes(), self.starts()[line] as int, o) as u32;
        let l2 = choose|line: int| self.is_line_of(line, o);
        self.lemma_line_of_unique(l1, l2, o);
    }
}

/// Every character boundary of the text survives the round trip through a
/// position: `position_to_offset(offset_to_position(o)) == Some(o)`, as
/// long as the line number and the column fit in a `u32`.
pub proof fn lemma_line_index_roundtrip(idx: &LineIndex, offset: usize)
    requires
        idx.wf(),
        offset <= idx.text_len(),
        char_boundary(idx.bytes(), offset as int),
        idx.starts().len() <= u32::MAX + 1,
        forall|l: int| 0 <= l < idx.starts().len() && #[trigger] idx.starts()[l] <= offset
            ==> utf16_len(idx.bytes(), idx.starts()[l] as int, offset as int) <= u32::MAX,
    ensures
        ({
            let p = idx.spec_offset_to_position(offset);
            &&& p.line < idx.starts().len()
            &&& idx.spec_position_to_offset(p) == offset
        }),
{
    let o = offset as int;
    assert(exists|l: int| idx.is_line_of(l, o)) by {
        let n = idx.starts().len() as int;
        let w = lemma_find_line(idx, o, n - 1);
        assert(idx.is_line_of(w, o));
    }
    let l = choose|l: int| idx.is_line_of(l, o);
    let from = idx.starts()[l] as int;
    assert(utf16_len(idx.bytes(), from, o) <= u32::MAX);
    lemma_utf16_len_grows(idx.bytes(), from, from, o);
    lemma_units_reach(idx.bytes(), from, o, from);
    let p = idx.spec_offset_to_position(offset);
    assert(p.line as int == l);
    assert(p.character as int == utf16_len(idx.bytes(), from, o));
}

/// Whether the column of offset `o` on every line that starts at or before
/// it fits in a `u32`.
pub open spec fn columns_fit(idx: &LineIndex, o: int) -> bool {
    forall|l: int| 0 <= l < idx.starts().len() && #[trigger] idx.starts()[l] <= o
        ==> utf16_len(idx.bytes(), idx.starts()[l] as int, o) <= u32::MAX
}

/// A span between character boundaries survives the round trip through a
/// range: converting it to positions and back gives it again, as long as
/// line numbers and columns fit in a `u32`.
pub proof fn lemma_span_range_roundtrip(idx: &LineIndex, span: Span)
    requires
        idx.wf(),
        span.start <= span.end <= idx.text_len(),
        char_boundary(idx.bytes(), span.start as int),
        char_boundary(idx.bytes(), span.end as int),
        idx.starts().len() <= u32::MAX + 1,
        columns_fit(idx, span.start as int),
        columns_fit(idx, span.end as int),
    ensures
        ({
            let s = idx.spec_offset_to_position(span.start);
            let e = idx.spec_offset_to_position(span.end);
            &&& s.line < idx.starts().len()
            &&& e.line < idx.starts().len()
            &&& idx.spec_position_to_offset(s) == span.start
            &&& idx.spec_position_to_offset(e) == span.end
        }),
{
    lemma_line_index_roundtrip(idx, span.start);
    lemma_line_index_roundtrip(idx, span.end);
}

/// Every line but the first starts right after a newline byte, after the
/// start of the line before it, and within the text.
pub proof fn lemma_line_starts_follow_newlines(idx: &LineIndex, l: int)
    requires
        idx.wf(),
        0 < l < idx.starts().len(),
    ensures
        idx.starts()[l] >= 1,
        idx.bytes()[idx.starts()[l] - 1] == 10u8,
        idx.starts()[l - 1] < idx.starts()[l],
        idx.starts()[l] <= idx.text_len(),
{
    lemma_starts_after_newline(idx.bytes(), idx.text_len(), l);
}

proof fn lemma_starts_after_newline(bytes: Seq<u8>, n: nat, l: int)
    requires
        n <= bytes.len(),
        bytes.len() <= usize::MAX,
        0 < l < line_starts_upto(bytes, n).len(),
    ensures
        1 <= line_starts_upto(bytes, n)[l] <= n,
        bytes[line_starts_upto(bytes, n)[l] - 1] == 10u8,
    decreases n,
{
    if n > 0 {
        let prev = line_starts_upto(bytes, (n - 1) as nat);
        if bytes[n - 1] == 10u8 {
            assert(line_starts_upto(bytes, n) == prev.push(n as usize));
        } else {
            assert(line_starts_upto(bytes, n) == prev);
        }
        if l < prev.len() {
            lemma_starts_after_newline(bytes, (n - 1) as nat, l);
        }
    }
}

proof fn lemma_find_line(idx: &LineIndex, o: int, k: int) -> (l: int)
    requires
        idx.wf(),
        0 <= o <= idx.text_len(),
        0 <= k < idx.starts().len(),
        k + 1 < idx.starts().len() ==> o < idx.starts()[k + 1],
    ensures
        idx.is_line_of(l, o),
    decreases k,
{
    if idx.starts()[k] <= o {
        k
    } else {
        lemma_find_line(idx, o, k - 1)
    }
}

} // verus!
