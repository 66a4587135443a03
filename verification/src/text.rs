//! Character-level helpers shared by the language-server modules.
//!
//! Text is handled as sequences of `char`s; the few standard-library
//! conversions and Unicode classifications used here are trusted wrappers.

use vstd::prelude::*;

verus! {

/// What `char::is_alphanumeric` answers for a character (Unicode tables).
pub uninterp spec fn unicode_alphanumeric(c: char) -> bool;

/// Whether a character has the Unicode `White_Space` property, which is
/// what `char::is_whitespace` answers: tab through carriage return, space,
/// next line, no-break space, ogham space mark, en quad through hair space,
/// line and paragraph separators, narrow no-break space, medium
/// mathematical space and ideographic space.
pub open spec fn unicode_whitespace(c: char) -> bool {
    ||| '\u{9}' <= c <= '\u{d}'
    ||| c == ' '
    ||| c == '\u{85}'
    ||| c == '\u{a0}'
    ||| c == '\u{1680}'
    ||| '\u{2000}' <= c <= '\u{200a}'
    ||| c == '\u{2028}'
    ||| c == '\u{2029}'
    ||| c == '\u{202f}'
    ||| c == '\u{205f}'
    ||| c == '\u{3000}'
}

/// What `str::to_lowercase` returns for a character sequence (Unicode tables).
pub uninterp spec fn unicode_lowercase(s: Seq<char>) -> Seq<char>;

/// What `char::is_uppercase` answers (the Unicode `Uppercase` property).
pub uninterp spec fn unicode_uppercase(c: char) -> bool;

/// Calls `str::chars` and collects the characters; the result is exactly the
/// character sequence of the string.
#[verifier::external_body]
pub fn str_chars(s: &str) -> (v: Vec<char>)
    ensures
        v@ == s@,
{
    s.chars().collect()
}

/// Collects characters into a `String` (`FromIterator<char>`); the string
/// holds exactly these characters.
#[verifier::external_body]
pub fn string_from_chars(v: &[char]) -> (s: String)
    ensures
        s@ == v@,
{
    v.iter().collect()
}

/// Calls `char::is_alphanumeric`; the answer is named, and for ASCII it is
/// stated: true exactly for letters and digits.
#[verifier::external_body]
pub fn is_alphanumeric(c: char) -> (b: bool)
    ensures
        b == unicode_alphanumeric(c),
        c <= '\u{7f}' ==> (b <==> ('a' <= c <= 'z' || 'A' <= c <= 'Z' || '0' <= c <= '9')),
{
    c.is_alphanumeric()
}

/// Whether a character is whitespace, as `char::is_whitespace` answers.
pub fn is_whitespace(c: char) -> (b: bool)
    ensures
        b == unicode_whitespace(c),
{
    ('\u{9}' <= c && c <= '\u{d}') || c == ' ' || c == '\u{85}' || c == '\u{a0}' || c == '\u{1680}'
        || ('\u{2000}' <= c && c <= '\u{200a}') || c == '\u{2028}' || c == '\u{2029}' || c == '\u{202f}'
        || c == '\u{205f}' || c == '\u{3000}'
}

/// Calls `char::is_uppercase`; the answer is named, not restated.
#[verifier::external_body]
pub fn is_uppercase(c: char) -> (b: bool)
    ensures
        b == unicode_uppercase(c),
        c <= '\u{7f}' ==> (b <==> 'A' <= c <= 'Z'),
{
    c.is_uppercase()
}

/// Calls `str::to_lowercase` on the characters; the result is named by
/// `unicode_lowercase` applied to the input characters.
#[verifier::external_body]
pub fn to_lowercase(s: &str) -> (r: String)
    ensures
        r@ == unicode_lowercase(s@),
{
    s.to_lowercase()
}

/// The decimal digits of a natural number, most significant first.
pub open spec fn decimal(n: nat) -> Seq<char>
    decreases n,
{
    if n < 10 {
        seq![digit_char((n % 10) as nat)]
    } else {
        decimal(n / 10).push(digit_char((n % 10) as nat))
    }
}

/// The ASCII digit for a value below ten.
pub open spec fn digit_char(d: nat) -> char {
    if d == 0 {
        '0'
    } else if d == 1 {
        '1'
    } else if d == 2 {
        '2'
    } else if d == 3 {
        '3'
    } else if d == 4 {
        '4'
    } else if d == 5 {
        '5'
    } else if d == 6 {
        '6'
    } else if d == 7 {
        '7'
    } else if d == 8 {
        '8'
    } else {
        '9'
    }
}

pub(crate) fn digit(d: u64) -> (c: char)
    requires
        d < 10,
    ensures
        c == digit_char(d as nat),
{
    if d == 0 {
        '0'
    } else if d == 1 {
        '1'
    } else if d == 2 {
        '2'
    } else if d == 3 {
        '3'
    } else if d == 4 {
        '4'
    } else if d == 5 {
        '5'
    } else if d == 6 {
        '6'
    } else if d == 7 {
        '7'
    } else if d == 8 {
        '8'
    } else {
        '9'
    }
}

/// Appends the decimal representation of `n` to `out`.
pub fn push_decimal(out: &mut Vec<char>, n: u64)
    ensures
        final(out)@ == old(out)@ + decimal(n as nat),
    decreases n,
{
    if n < 10 {
        out.push(digit(n));
    } else {
        push_decimal(out, n / 10);
        out.push(digit(n % 10));
        assert(final(out)@ =~= old(out)@ + decimal(n as nat));
    }
}

/// Appends the decimal representation of a 128-bit `n` to `out`.
pub fn push_decimal_wide(out: &mut Vec<char>, n: u128)
    ensures
        final(out)@ == old(out)@ + decimal(n as nat),
    decreases n,
{
    if n < 10 {
        out.push(digit(n as u64));
    } else {
        push_decimal_wide(out, n / 10);
        out.push(digit((n % 10) as u64));
        assert(final(out)@ =~= old(out)@ + decimal(n as nat));
    }
}

/// Appends characters of a slice to `out`.
pub fn push_all(out: &mut Vec<char>, s: &[char])
    ensures
        final(out)@ == old(out)@ + s@,
{
    let ghost start = out@;
    let mut i: usize = 0;
    while i < s.len()
        invariant
            0 <= i <= s@.len(),
            out@ == start + s@.subrange(0, i as int),
        decreases s@.len() - i,
    {
        out.push(s[i]);
        i = i + 1;
        assert(out@ =~= start + s@.subrange(0, i as int));
    }
    assert(s@.subrange(0, s@.len() as int) =~= s@);
}

/// Whether `s` starts with `p`.
pub open spec fn seq_starts_with(s: Seq<char>, p: Seq<char>) -> bool {
    p.len() <= s.len() && s.subrange(0, p.len() as int) == p
}

/// Whether `p` occurs as a contiguous part of `s`.
pub open spec fn seq_contains(s: Seq<char>, p: Seq<char>) -> bool {
    exists|i: int| 0 <= i <= s.len() - p.len() && #[trigger] s.subrange(i, i + p.len()) == p
}

/// Whether `s` ends with `p`.
pub open spec fn seq_ends_with(s: Seq<char>, p: Seq<char>) -> bool {
    p.len() <= s.len() && s.subrange(s.len() - p.len(), s.len() as int) == p
}

/// Checks whether `s` starts with `p`.
pub fn starts_with(s: &[char], p: &[char]) -> (b: bool)
    ensures
        b == seq_starts_with(s@, p@),
{
    if p.len() > s.len() {
        return false;
    }
    let mut i: usize = 0;
    while i < p.len()
        invariant
            p@.len() <= s@.len(),
            0 <= i <= p@.len(),
            forall|j: int| 0 <= j < i ==> s@[j] == p@[j],
        decreases p@.len() - i,
    {
        if s[i] != p[i] {
            assert(s@.subrange(0, p@.len() as int)[i as int] != p@[i as int]);
            return false;
        }
        i = i + 1;
    }
    assert(s@.subrange(0, p@.len() as int) =~= p@);
    true
}

/// Checks whether `s` ends with `p`.
pub fn ends_with(s: &[char], p: &[char]) -> (b: bool)
    ensures
        b == seq_ends_with(s@, p@),
{
    if p.len() > s.len() {
        return false;
    }
    let n = s.len();
    let off = n - p.len();
    let mut i: usize = 0;
    while i < p.len()
        invariant
            n == s@.len(),
            p@.len() <= s@.len(),
            off == s@.len() - p@.len(),
            0 <= i <= p@.len(),
            forall|j: int| 0 <= j < i ==> s@[off + j] == p@[j],
        decreases p@.len() - i,
    {
        if s[off + i] != p[i] {
            assert(s@.subrange(off as int, s@.len() as int)[i as int] != p@[i as int]);
            return false;
        }
        i = i + 1;
    }
    assert(s@.subrange(off as int, s@.len() as int) =~= p@);
    true
}

/// Checks whether `p` occurs in `s`.
pub fn contains(s: &[char], p: &[char]) -> (b: bool)
    ensures
        b == seq_contains(s@, p@),
{
    if p.len() > s.len() {
        assert(!seq_contains(s@, p@));
        return false;
    }
    let n = s.len();
    let last = n - p.len();
    let mut i: usize = 0;
    while i <= last
        invariant
            n == s@.len(),
            p@.len() <= s@.len(),
            last == s@.len() - p@.len(),
            0 <= i <= last + 1,
            forall|k: int| 0 <= k < i ==> #[trigger] s@.subrange(k, k + p@.len()) != p@,
        ensures
            forall|k: int| 0 <= k <= last ==> #[trigger] s@.subrange(k, k + p@.len()) != p@,
        decreases last + 1 - i,
    {
        if matches_at(s, p, i) {
            return true;
        }
        if i == last {
            break;
        }
        i = i + 1;
    }
    assert(!seq_contains(s@, p@));
    false
}

/// Checks whether `p` occurs in `s` at position `at`.
pub fn matches_at(s: &[char], p: &[char], at: usize) -> (b: bool)
    requires
        at + p@.len() <= s@.len(),
    ensures
        b == (s@.subrange(at as int, at + p@.len()) == p@),
{
    let n = s.len();
    let mut i: usize = 0;
    while i < p.len()
        invariant
            n == s@.len(),
            at + p@.len() <= s@.len(),
            0 <= i <= p@.len(),
            forall|j: int| 0 <= j < i ==> s@[at + j] == p@[j],
        decreases p@.len() - i,
    {
        if s[at + i] != p[i] {
            assert(s@.subrange(at as int, at + p@.len())[i as int] != p@[i as int]);
            return false;
        }
        i = i + 1;
    }
    assert(s@.subrange(at as int, at + p@.len()) =~= p@);
    true
}

/// Copies the characters `s[from..to]` into a new vector.
pub fn slice_chars(s: &[char], from: usize, to: usize) -> (r: Vec<char>)
    requires
        from <= to <= s@.len(),
    ensures
        r@ == s@.subrange(from as int, to as int),
{
    let mut r: Vec<char> = Vec::new();
    let mut i = from;
    while i < to
        invariant
            from <= i <= to <= s@.len(),
            r@ == s@.subrange(from as int, i as int),
        decreases to - i,
    {
        r.push(s[i]);
        i = i + 1;
        assert(r@ =~= s@.subrange(from as int, i as int));
    }
    r
}

/// `s` with leading whitespace removed.
pub open spec fn trim_start(s: Seq<char>) -> Seq<char>
    decreases s.len(),
{
    if s.len() > 0 && unicode_whitespace(s[0]) {
        trim_start(s.drop_first())
    } else {
        s
    }
}

/// `s` with trailing whitespace removed.
pub open spec fn trim_end(s: Seq<char>) -> Seq<char>
    decreases s.len(),
{
    if s.len() > 0 && unicode_whitespace(s.last()) {
        trim_end(s.drop_last())
    } else {
        s
    }
}

/// `s` with leading and trailing whitespace removed.
pub open spec fn trim(s: Seq<char>) -> Seq<char> {
    trim_end(trim_start(s))
}

/// Removes leading whitespace (`str::trim_start`).
pub fn trim_start_chars(s: &[char]) -> (r: Vec<char>)
    ensures
        r@ == trim_start(s@),
{
    let n = s.len();
    let mut i: usize = 0;
    assert(s@.subrange(0, n as int) =~= s@);
    while i < n && is_whitespace(s[i])
        invariant
            n == s@.len(),
            0 <= i <= n,
            trim_start(s@) == trim_start(s@.subrange(i as int, n as int)),
        decreases n - i,
    {
        assert(s@.subrange(i as int, n as int).drop_first() =~= s@.subrange(i + 1, n as int));
        i = i + 1;
    }
    let r = slice_chars(s, i, n);
    proof {
        if i < n {
            assert(!unicode_whitespace(s@.subrange(i as int, n as int)[0]));
        }
    }
    r
}

/// Removes trailing whitespace (`str::trim_end`).
pub fn trim_end_chars(s: &[char]) -> (r: Vec<char>)
    ensures
        r@ == trim_end(s@),
{
    let mut j: usize = s.len();
    assert(s@.subrange(0, j as int) =~= s@);
    while j > 0 && is_whitespace(s[j - 1])
        invariant
            0 <= j <= s@.len(),
            trim_end(s@) == trim_end(s@.subrange(0, j as int)),
        decreases j,
    {
        assert(s@.subrange(0, j as int).drop_last() =~= s@.subrange(0, j - 1));
        j = j - 1;
    }
    let r = slice_chars(s, 0, j);
    proof {
        if j > 0 {
            assert(!unicode_whitespace(s@.subrange(0, j as int).last()));
        }
    }
    r
}

/// Removes leading and trailing whitespace (`str::trim`).
pub fn trim_chars(s: &[char]) -> (r: Vec<char>)
    ensures
        r@ == trim(s@),
{
    let a = trim_start_chars(s);
    trim_end_chars(a.as_slice())
}

/// An identifier character: alphanumeric or underscore.
pub open spec fn ident_char(c: char) -> bool {
    unicode_alphanumeric(c) || c == '_'
}

/// Whether `c` can be part of an identifier.
pub fn is_identifier_char(c: char) -> (b: bool)
    ensures
        b == ident_char(c),
{
    is_alphanumeric(c) || c == '_'
}

/// The index of the first non-identifier character of `s`, if any.
pub open spec fn first_non_ident(s: Seq<char>) -> Option<int> {
    if exists|i: int| 0 <= i < s.len() && !ident_char(#[trigger] s[i]) {
        Some(choose|i: int| 0 <= i < s.len() && !ident_char(#[trigger] s[i]) && forall|j: int|
            0 <= j < i ==> ident_char(#[trigger] s[j]))
    } else {
        None
    }
}

/// Finds the first non-identifier character (`str::find` with that predicate).
pub fn find_non_ident(s: &[char]) -> (r: Option<usize>)
    ensures
        r matches Some(i) ==> i < s@.len() && first_non_ident(s@) == Some(i as int),
        r is None ==> first_non_ident(s@) is None,
{
    let n = s.len();
    let mut i: usize = 0;
    while i < n
        invariant
            n == s@.len(),
            0 <= i <= n,
            forall|j: int| 0 <= j < i ==> ident_char(#[trigger] s@[j]),
        decreases n - i,
    {
        if !is_identifier_char(s[i]) {
            proof {
                let w = choose|k: int| 0 <= k < s@.len() && !ident_char(#[trigger] s@[k]) && forall|j: int|
                    0 <= j < k ==> ident_char(#[trigger] s@[j]);
                assert(0 <= i < s@.len() && !ident_char(s@[i as int]) && forall|j: int|
                    0 <= j < i ==> ident_char(#[trigger] s@[j]));
                if w < i {
                    assert(ident_char(s@[w]));
                } else if w > i {
                    assert(ident_char(s@[i as int]));
                }
            }
            return Some(i);
        }
        i = i + 1;
    }
    None
}

/// Whether two character slices are equal.
pub fn chars_equal(a: &[char], b: &[char]) -> (r: bool)
    ensures
        r == (a@ == b@),
{
    if a.len() != b.len() {
        return false;
    }
    let mut i: usize = 0;
    while i < a.len()
        invariant
            a@.len() == b@.len(),
            0 <= i <= a@.len(),
            forall|j: int| 0 <= j < i ==> a@[j] == b@[j],
        decreases a@.len() - i,
    {
        if a[i] != b[i] {
            return false;
        }
        i = i + 1;
    }
    assert(a@ =~= b@);
    true
}

/// Whether two strings hold the same characters.
pub fn str_equal(a: &str, b: &str) -> (r: bool)
    ensures
        r == (a@ == b@),
{
    let x = str_chars(a);
    let y = str_chars(b);
    chars_equal(x.as_slice(), y.as_slice())
}

/// The concatenation of two strings.
pub fn concat2(a: &str, b: &str) -> (r: String)
    ensures
        r@ == a@ + b@,
{
    let mut out = str_chars(a);
    let tail = str_chars(b);
    push_all(&mut out, tail.as_slice());
    string_from_chars(out.as_slice())
}


/// An owned copy of a string slice.
pub fn owned_string(s: &str) -> (r: String)
    ensures
        r@ == s@,
{
    string_from_chars(str_chars(s).as_slice())
}


/// Whether every character of `s` is an ASCII digit.
pub open spec fn all_digits(s: Seq<char>) -> bool {
    forall|i: int| 0 <= i < s.len() ==> '0' <= #[trigger] s[i] <= '9'
}

/// The number that a string of ASCII digits denotes in decimal.
pub open spec fn digits_value(s: Seq<char>) -> int
    decreases s.len(),
{
    if s.len() == 0 {
        0
    } else {
        10 * digits_value(s.drop_last()) + (s.last() as int - '0' as int)
    }
}

/// The value of a decimal integer literal as `str::parse::<i64>` reads it:
/// an optional `+` or `-`, then one or more ASCII digits; `None` where the
/// text has another form or the value does not fit in an `i64`.
pub open spec fn parse_i64_spec(s: Seq<char>) -> Option<i64> {
    let neg = s.len() > 0 && s[0] == '-';
    let body = if s.len() > 0 && (s[0] == '-' || s[0] == '+') { s.drop_first() } else { s };
    let v = if neg { -digits_value(body) } else { digits_value(body) };
    if body.len() > 0 && all_digits(body) && i64::MIN <= v <= i64::MAX {
        Some(v as i64)
    } else {
        None
    }
}

/// Digits only add to a value: a prefix never denotes more.
pub proof fn lemma_digits_value_prefix(s: Seq<char>, i: int)
    requires
        all_digits(s),
        0 <= i <= s.len(),
    ensures
        0 <= digits_value(s.take(i)) <= digits_value(s),
    decreases s.len() - i,
{
    if i < s.len() {
        lemma_digits_value_prefix(s, i + 1);
        assert(s.take(i + 1).drop_last() =~= s.take(i));
        assert(s.take(i + 1).last() == s[i]);
        lemma_digits_value_nonneg(s.take(i));
    } else {
        assert(s.take(i) =~= s);
        lemma_digits_value_nonneg(s);
    }
}

/// A string of digits denotes a value of at least 0.
pub proof fn lemma_digits_value_nonneg(s: Seq<char>)
    requires
        all_digits(s),
    ensures
        digits_value(s) >= 0,
    decreases s.len(),
{
    if s.len() > 0 {
        assert(all_digits(s.drop_last()));
        lemma_digits_value_nonneg(s.drop_last());
    }
}

/// Reads a decimal integer literal as `str::parse::<i64>` does.
pub fn parse_i64(s: &str) -> (r: Option<i64>)
    ensures
        r == parse_i64_spec(s@),
{
    let v = str_chars(s);
    let n = v.len();
    let neg = n > 0 && v[0] == '-';
    let start: usize = if n > 0 && (v[0] == '-' || v[0] == '+') { 1 } else { 0 };
    let ghost body = if s@.len() > 0 && (s@[0] == '-' || s@[0] == '+') { s@.drop_first() } else { s@ };
    assert(body =~= v@.subrange(start as int, n as int));
    if start >= n {
        return None;
    }
    // Magnitudes above 2^63 fit neither sign.
    let limit: u128 = 9223372036854775808;
    let mut acc: u128 = 0;
    let mut i: usize = start;
    while i < n
        invariant
            v@ == s@,
            n == v@.len(),
            start <= i <= n,
            body =~= v@.subrange(start as int, n as int),
            all_digits(body.take(i - start)),
            acc == digits_value(body.take(i - start)),
            limit == 9223372036854775808,
            body == (if s@.len() > 0 && (s@[0] == '-' || s@[0] == '+') { s@.drop_first() } else { s@ }),
            neg == (s@.len() > 0 && s@[0] == '-'),
            acc <= limit,
            body.len() == n - start,
        decreases n - i,
    {
        let c = v[i];
        if !('0' <= c && c <= '9') {
            assert(!all_digits(body)) by {
                assert(body[i - start] == v@[i as int]);
                assert(!('0' <= body[i - start] <= '9'));
            }
            assert(parse_i64_spec(s@) is None);
            return None;
        }
        let d = (c as u32 - '0' as u32) as u128;
        proof {
            assert(body.take(i - start + 1).drop_last() =~= body.take(i - start));
            assert(body.take(i - start + 1).last() == c);
            assert(all_digits(body.take(i - start + 1))) by {
                assert forall|j: int| 0 <= j < body.take(i - start + 1).len() implies
                    '0' <= #[trigger] body.take(i - start + 1)[j] <= '9' by {
                    if j < i - start {
                        assert(body.take(i - start + 1)[j] == body.take(i - start)[j]);
                    }
                }
            }
        }
        acc = acc * 10 + d;
        if acc > limit {
            proof {
                let k = i - start + 1;
                if all_digits(body) {
                    lemma_digits_value_prefix(body, k);
                    assert(digits_value(body) > limit);
                }
            }
            assert(parse_i64_spec(s@) is None);
            return None;
        }
        i = i + 1;
    }
    assert(body.take(n - start) =~= body);
    if neg {
        Some((0 - acc as i128) as i64)
    } else if acc < limit {
        Some(acc as i64)
    } else {
        None
    }
}


} // verus!
