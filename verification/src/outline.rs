//! The outline of a document: the symbols declared on its lines, found by
//! the keywords that start the lines, with the members of blocks that end at
//! a matching `end` line. Positions are byte offsets within a line.

use vstd::prelude::*;
use crate::lsp_types::{Position, TextRange};
use crate::text::{
    is_identifier_char, is_uppercase, is_whitespace, matches_at, seq_starts_with, slice_chars, starts_with,
    str_chars, string_from_chars, trim, trim_chars, trim_start, trim_start_chars, unicode_alphanumeric,
    unicode_uppercase, unicode_whitespace, ident_char,
};

verus! {

// ============================================================================
// Lines
// ============================================================================

/// The position of the first `\n` at or after `i`.
pub open spec fn first_newline(s: Seq<char>, i: int) -> Option<int>
    decreases s.len() - i,
{
    if i < 0 || i >= s.len() {
        None
    } else if s[i] == '\n' {
        Some(i)
    } else {
        first_newline(s, i + 1)
    }
}

pub proof fn lemma_first_newline(s: Seq<char>, i: int)
    requires
        0 <= i,
    ensures
        first_newline(s, i) matches Some(k) ==> i <= k < s.len() && s[k] == '\n'
            && forall|j: int| i <= j < k ==> #[trigger] s[j] != '\n',
        first_newline(s, i) is None ==> forall|j: int| i <= j < s.len() ==> #[trigger] s[j] != '\n',
    decreases s.len() - i,
{
    if i < s.len() {
        lemma_first_newline(s, i + 1);
    }
}

proof fn lemma_first_newline_skip(s: Seq<char>, a: int, i: int)
    requires
        0 <= a <= s.len(),
        0 <= i,
    ensures
        first_newline(s.skip(a), i) == match first_newline(s, a + i) {
            Some(k) => Some(k - a),
            None => None::<int>,
        },
    decreases s.len() - a - i,
{
    if a + i < s.len() {
        lemma_first_newline_skip(s, a, i + 1);
        assert(s.skip(a)[i] == s[a + i]);
    }
}

/// A line without the `\r` of a `\r\n` ending.
pub open spec fn strip_cr(s: Seq<char>) -> Seq<char> {
    if s.len() > 0 && s.last() == '\r' {
        s.drop_last()
    } else {
        s
    }
}

/// The lines of a text as `str::lines` gives them: split at each `\n`, a
/// `\r` before the `\n` removed, and no empty line after a final `\n`.
pub open spec fn text_lines(s: Seq<char>) -> Seq<Seq<char>>
    decreases s.len(),
{
    if s.len() == 0 {
        Seq::empty()
    } else {
        match first_newline(s, 0) {
            Some(k) => {
                proof {
                    lemma_first_newline(s, 0);
                }
                seq![strip_cr(s.take(k))] + text_lines(s.skip(k + 1))
            },
            None => seq![s],
        }
    }
}

/// The views of a list of character vectors.
pub open spec fn lines_view(v: Seq<Vec<char>>) -> Seq<Seq<char>> {
    v.map_values(|l: Vec<char>| l@)
}

/// The lines of a text.
pub fn split_lines(text: &str) -> (r: Vec<Vec<char>>)
    ensures
        lines_view(r@) == text_lines(text@),
{
    let chars = str_chars(text);
    let n = chars.len();
    let mut out: Vec<Vec<char>> = Vec::new();
    let mut start: usize = 0;
    assert(chars@.skip(0) =~= chars@);
    while start < n
        invariant
            n == chars@.len(),
            chars@ == text@,
            0 <= start <= n,
            lines_view(out@) + text_lines(chars@.skip(start as int)) == text_lines(chars@),
        decreases n - start,
    {
        let ghost rest = chars@.skip(start as int);
        let mut j = start;
        while j < n && chars[j] != '\n'
            invariant
                n == chars@.len(),
                start <= j <= n,
                forall|k: int| start <= k < j ==> #[trigger] chars@[k] != '\n',
            decreases n - j,
        {
            j = j + 1;
        }
        proof {
            lemma_first_newline_skip(chars@, start as int, 0);
            lemma_first_newline(chars@, start as int);
            if j < n {
                assert(first_newline(chars@, start as int) == Some(j as int)) by {
                    let f = first_newline(chars@, start as int);
                    if f != Some(j as int) {
                        if let Some(k) = f {
                            if k < j {
                                assert(chars@[k] != '\n');
                            } else {
                                assert(chars@[j as int] != '\n');
                            }
                        } else {
                            assert(chars@[j as int] != '\n');
                        }
                    }
                }
            } else {
                assert(first_newline(chars@, start as int) is None) by {
                    if let Some(k) = first_newline(chars@, start as int) {
                        assert(chars@[k] != '\n');
                    }
                }
            }
        }
        let line = slice_chars(chars.as_slice(), start, j);
        let line = if line.len() > 0 && j < n && line[line.len() - 1] == '\r' {
            slice_chars(line.as_slice(), 0, line.len() - 1)
        } else {
            line
        };
        let ghost before = out@;
        out.push(line);
        proof {
            assert(lines_view(out@) =~= lines_view(before).push(line@));
            if j < n {
                assert(rest.take(j - start) =~= chars@.subrange(start as int, j as int));
                assert(rest.skip(j - start + 1) =~= chars@.skip(j + 1));
                assert(line@ == strip_cr(rest.take(j - start)));
                assert(text_lines(rest) == seq![line@] + text_lines(chars@.skip(j + 1)));
                assert(lines_view(out@) + text_lines(chars@.skip(j + 1)) =~= lines_view(before) + text_lines(rest));
            } else {
                assert(rest =~= chars@.subrange(start as int, n as int));
                assert(line@ == rest);
                assert(text_lines(rest) == seq![rest]);
                assert(chars@.skip(n as int) =~= Seq::<char>::empty());
                assert(lines_view(out@) + text_lines(chars@.skip(n as int)) =~= lines_view(before) + text_lines(rest));
            }
        }
        start = if j < n { j + 1 } else { n };
    }
    assert(chars@.skip(n as int) =~= Seq::<char>::empty());
    assert(lines_view(out@) =~= lines_view(out@) + text_lines(chars@.skip(n as int)));
    out
}

// ============================================================================
// Searching within a line
// ============================================================================

/// The byte length of characters in UTF-8, as `str::len` gives it.
pub open spec fn blen(s: Seq<char>) -> usize {
    vstd::utf8::encode_utf8(s).len() as usize
}

/// The byte length of characters in UTF-8.
pub fn byte_len(s: &[char]) -> (n: usize)
    ensures
        n == blen(s@),
{
    let text = string_from_chars(s);
    text.as_str().len()
}

/// The first position at or after `i` where `p` occurs in `s`.
pub open spec fn find_from(s: Seq<char>, p: Seq<char>, i: int) -> Option<int>
    decreases s.len() + 1 - i,
{
    if i < 0 || i + p.len() > s.len() {
        None
    } else if s.subrange(i, i + p.len()) == p {
        Some(i)
    } else {
        find_from(s, p, i + 1)
    }
}

/// The first position where `p` occurs in `s` (`str::find`).
pub fn find_chars(s: &[char], p: &[char]) -> (r: Option<usize>)
    ensures
        match r {
            Some(i) => find_from(s@, p@, 0) == Some(i as int) && i + p@.len() <= s@.len(),
            None => find_from(s@, p@, 0) is None,
        },
{
    if p.len() > s.len() {
        return None;
    }
    let last = s.len() - p.len();
    let mut i: usize = 0;
    loop
        invariant
            last + p@.len() == s@.len(),
            0 <= i <= last,
            find_from(s@, p@, 0) == find_from(s@, p@, i as int),
        decreases last - i,
    {
        if matches_at(s, p, i) {
            return Some(i);
        }
        if i == last {
            return None;
        }
        i = i + 1;
    }
}

/// The characters at which a name or path ends, for the kinds of lines.
#[derive(Debug, Clone, Copy, PartialEq, Eq, Structural)]
pub enum Stop {
    /// `(`, `<` or whitespace: after a function name.
    FnName,
    /// Anything but an identifier character.
    NonIdent,
    /// `:`, `=` or whitespace: after a bound name.
    Binding,
    /// `{`, `\n` or `;`: after an import path.
    ImportEnd,
    /// `=`, `<` or whitespace: after a type alias name.
    TypeAlias,
    /// `(`, `{`, `,` or whitespace: after a variant name.
    Variant,
    /// `=`, `:` or whitespace: after an associated type name.
    AssocType,
}

/// Whether `c` ends a name of the given kind.
pub open spec fn is_stop(k: Stop, c: char) -> bool {
    match k {
        Stop::FnName => c == '(' || c == '<' || unicode_whitespace(c),
        Stop::NonIdent => !ident_char(c),
        Stop::Binding => c == ':' || c == '=' || unicode_whitespace(c),
        Stop::ImportEnd => c == '{' || c == '\n' || c == ';',
        Stop::TypeAlias => c == '=' || c == '<' || unicode_whitespace(c),
        Stop::Variant => c == '(' || c == '{' || c == ',' || unicode_whitespace(c),
        Stop::AssocType => c == '=' || c == ':' || unicode_whitespace(c),
    }
}

fn stop_char(k: Stop, c: char) -> (b: bool)
    ensures
        b == is_stop(k, c),
{
    match k {
        Stop::FnName => c == '(' || c == '<' || is_whitespace(c),
        Stop::NonIdent => !is_identifier_char(c),
        Stop::Binding => c == ':' || c == '=' || is_whitespace(c),
        Stop::ImportEnd => c == '{' || c == '\n' || c == ';',
        Stop::TypeAlias => c == '=' || c == '<' || is_whitespace(c),
        Stop::Variant => c == '(' || c == '{' || c == ',' || is_whitespace(c),
        Stop::AssocType => c == '=' || c == ':' || is_whitespace(c),
    }
}

/// The first position at or after `i` of a character ending a name.
pub open spec fn first_stop(s: Seq<char>, k: Stop, i: int) -> Option<int>
    decreases s.len() - i,
{
    if i < 0 || i >= s.len() {
        None
    } else if is_stop(k, s[i]) {
        Some(i)
    } else {
        first_stop(s, k, i + 1)
    }
}

/// The end of the name at the start of `s`, or its length.
pub open spec fn stop_or_len(s: Seq<char>, k: Stop) -> int {
    match first_stop(s, k, 0) {
        Some(e) => e,
        None => s.len() as int,
    }
}

/// The first character ending a name (`str::find` with a predicate).
pub fn find_stop(s: &[char], k: Stop) -> (r: Option<usize>)
    ensures
        match r {
            Some(i) => first_stop(s@, k, 0) == Some(i as int) && i < s@.len(),
            None => first_stop(s@, k, 0) is None,
        },
{
    let mut i: usize = 0;
    while i < s.len()
        invariant
            0 <= i <= s@.len(),
            first_stop(s@, k, 0) == first_stop(s@, k, i as int),
        decreases s@.len() - i,
    {
        if stop_char(k, s[i]) {
            return Some(i);
        }
        i = i + 1;
    }
    None
}

fn stop_or_len_exec(s: &[char], k: Stop) -> (e: usize)
    ensures
        e == stop_or_len(s@, k),
        e <= s@.len(),
{
    match find_stop(s, k) {
        Some(e) => e,
        None => s.len(),
    }
}

/// `s` without the prefix `p`, if it starts with it.
pub open spec fn strip(s: Seq<char>, p: Seq<char>) -> Seq<char> {
    if seq_starts_with(s, p) {
        s.skip(p.len() as int)
    } else {
        s
    }
}

fn strip_exec(s: &[char], p: &[char]) -> (r: Vec<char>)
    ensures
        r@ == strip(s@, p@),
{
    if starts_with(s, p) {
        slice_chars(s, p.len(), s.len())
    } else {
        slice_chars(s, 0, s.len())
    }
}

// ============================================================================
// Symbols
// ============================================================================

/// The kind of an outline symbol.
#[derive(Debug, Clone, Copy, PartialEq, Eq, Structural)]
pub enum DocumentSymbolKind {
    Function,
    Struct,
    Enum,
    Interface,
    Constant,
    Variable,
    Module,
    Namespace,
    TypeParameter,
    Field,
    EnumMember,
    Method,
}

/// A symbol of the outline.
#[derive(Debug)]
pub struct DocumentSymbol {
    pub name: String,
    pub detail: Option<String>,
    pub kind: DocumentSymbolKind,
    /// The whole declaration.
    pub range: TextRange,
    /// The part to select.
    pub selection_range: TextRange,
    /// Members of a block declaration, when it has any.
    pub children: Option<Vec<DocumentSymbol>>,
}

/// The value of an outline symbol.
pub struct SymbolV {
    pub name: Seq<char>,
    pub detail: Option<Seq<char>>,
    pub kind: DocumentSymbolKind,
    pub range: TextRange,
    pub selection_range: TextRange,
    pub children: Option<Seq<SymbolV>>,
}

/// The values of a list of symbols.
pub open spec fn syms_view(v: Vec<DocumentSymbol>) -> Seq<SymbolV>
    decreases v,
{
    Seq::new(
        v@.len(),
        |i: int|
            if 0 <= i < v@.len() {
                proof {
                    assert(decreases_to!(v => v@));
                    assert(decreases_to!(v@ => v@[i]));
                }
                sym_view(v@[i])
            } else {
                SymbolV {
                    name: Seq::empty(),
                    detail: None,
                    kind: DocumentSymbolKind::Function,
                    range: TextRange { start: Position { line: 0, character: 0 }, end: Position { line: 0, character: 0 } },
                    selection_range: TextRange { start: Position { line: 0, character: 0 }, end: Position { line: 0, character: 0 } },
                    children: None,
                }
            },
    )
}

/// The value of a symbol.
pub open spec fn sym_view(s: DocumentSymbol) -> SymbolV
    decreases s,
{
    SymbolV {
        name: s.name@,
        detail: match s.detail {
            Some(d) => Some(d@),
            None => None,
        },
        kind: s.kind,
        range: s.range,
        selection_range: s.selection_range,
        children: match s.children {
            Some(c) => Some(syms_view(c)),
            None => None,
        },
    }
}

/// The range from `(l1, c1)` to `(l2, c2)`.
pub open spec fn rng(l1: u32, c1: u32, l2: u32, c2: u32) -> TextRange {
    TextRange { start: Position { line: l1, character: c1 }, end: Position { line: l2, character: c2 } }
}

/// A symbol spanning its whole line, selected from `sel_start`.
pub open spec fn line_symbol(name: Seq<char>, detail: Seq<char>, kind: DocumentSymbolKind, n: u32, line: Seq<char>, sel_start: u32) -> SymbolV {
    SymbolV {
        name,
        detail: Some(detail),
        kind,
        range: rng(n, 0, n, blen(line) as u32),
        selection_range: rng(n, sel_start, n, blen(line) as u32),
        children: None,
    }
}

fn make_range(l1: u32, c1: u32, l2: u32, c2: u32) -> (r: TextRange)
    ensures
        r == rng(l1, c1, l2, c2),
{
    TextRange { start: Position { line: l1, character: c1 }, end: Position { line: l2, character: c2 } }
}

fn line_symbol_exec(name: Vec<char>, detail: &str, kind: DocumentSymbolKind, n: u32, line: &[char], sel_start: u32) -> (s: DocumentSymbol)
    ensures
        sym_view(s) == line_symbol(name@, detail@, kind, n, line@, sel_start),
{
    let len = byte_len(line) as u32;
    let s = DocumentSymbol {
        name: string_from_chars(name.as_slice()),
        detail: Some(string_from_chars(str_chars(detail).as_slice())),
        kind,
        range: make_range(n, 0, n, len),
        selection_range: make_range(n, sel_start, n, len),
        children: None,
    };
    s
}


// ============================================================================
// Declarations on one line
// ============================================================================

/// The name declared by a line that starts with `kw`: the characters up to
/// the first one ending a name (or to the end, unless `must_stop`); `None`
/// when the line does not start with `kw` or the name is empty.
pub open spec fn decl_name(c: Seq<char>, kw: Seq<char>, stop: Stop, must_stop: bool) -> Option<Seq<char>> {
    if !seq_starts_with(c, kw) {
        None
    } else {
        let rest = c.skip(kw.len() as int);
        let e = first_stop(rest, stop, 0);
        if e is None && must_stop {
            None
        } else {
            let end = match e {
                Some(k) => k,
                None => rest.len() as int,
            };
            if end == 0 {
                None
            } else {
                Some(rest.take(end))
            }
        }
    }
}

fn decl_name_exec(c: &[char], kw: &[char], stop: Stop, must_stop: bool) -> (r: Option<Vec<char>>)
    ensures
        match r {
            Some(v) => decl_name(c@, kw@, stop, must_stop) == Some(v@),
            None => decl_name(c@, kw@, stop, must_stop) is None,
        },
{
    if !starts_with(c, kw) {
        return None;
    }
    let rest = slice_chars(c, kw.len(), c.len());
    let end = match find_stop(rest.as_slice(), stop) {
        Some(k) => k,
        None => {
            if must_stop {
                return None;
            }
            rest.len()
        },
    };
    if end == 0 {
        return None;
    }
    Some(slice_chars(rest.as_slice(), 0, end))
}

/// The byte length, as a line position.
pub open spec fn bpos(s: Seq<char>) -> u32 {
    blen(s) as u32
}

/// The symbol of a line declaring a name with `kw` (after the given
/// prefixes were removed from the trimmed line into `c`), selected from the
/// first occurrence of `kw` in the line; `None` when the line has no such
/// declaration.
pub open spec fn keyword_symbol(
    c: Seq<char>,
    kw: Seq<char>,
    stop: Stop,
    must_stop: bool,
    detail: Seq<char>,
    kind: DocumentSymbolKind,
    n: u32,
    line: Seq<char>,
) -> Option<SymbolV> {
    match decl_name(c, kw, stop, must_stop) {
        None => None,
        Some(name) => match find_from(line, kw, 0) {
            None => None,
            Some(j) => Some(line_symbol(name, detail, kind, n, line, bpos(line.take(j)))),
        },
    }
}

fn keyword_symbol_exec(
    c: &[char],
    kw: &[char],
    stop: Stop,
    must_stop: bool,
    detail: &str,
    kind: DocumentSymbolKind,
    n: u32,
    line: &[char],
) -> (r: Option<DocumentSymbol>)
    ensures
        match r {
            Some(s) => keyword_symbol(c@, kw@, stop, must_stop, detail@, kind, n, line@) == Some(sym_view(s)),
            None => keyword_symbol(c@, kw@, stop, must_stop, detail@, kind, n, line@) is None,
        },
{
    let name = match decl_name_exec(c, kw, stop, must_stop) {
        Some(name) => name,
        None => return None,
    };
    let j = match find_chars(line, kw) {
        Some(j) => j,
        None => return None,
    };
    let before = slice_chars(line, 0, j);
    let start = byte_len(before.as_slice()) as u32;
    Some(line_symbol_exec(name, detail, kind, n, line, start))
}

/// `pub `
pub open spec fn kw_pub() -> Seq<char> { seq!['p', 'u', 'b', ' '] }
/// `async `
pub open spec fn kw_async() -> Seq<char> { seq!['a', 's', 'y', 'n', 'c', ' '] }
/// `fn `
pub open spec fn kw_fn() -> Seq<char> { seq!['f', 'n', ' '] }
/// `const `
pub open spec fn kw_const() -> Seq<char> { seq!['c', 'o', 'n', 's', 't', ' '] }
/// `mod `
pub open spec fn kw_mod() -> Seq<char> { seq!['m', 'o', 'd', ' '] }
/// `type `
pub open spec fn kw_type() -> Seq<char> { seq!['t', 'y', 'p', 'e', ' '] }
/// `let `
pub open spec fn kw_let() -> Seq<char> { seq!['l', 'e', 't', ' '] }
/// `mut `
pub open spec fn kw_mut() -> Seq<char> { seq!['m', 'u', 't', ' '] }
/// `import `
pub open spec fn kw_import() -> Seq<char> { seq!['i', 'm', 'p', 'o', 'r', 't', ' '] }
/// `use `
pub open spec fn kw_use() -> Seq<char> { seq!['u', 's', 'e', ' '] }
/// `struct `
pub open spec fn kw_struct() -> Seq<char> { seq!['s', 't', 'r', 'u', 'c', 't', ' '] }
/// `enum `
pub open spec fn kw_enum() -> Seq<char> { seq!['e', 'n', 'u', 'm', ' '] }
/// `effect `
pub open spec fn kw_effect() -> Seq<char> { seq!['e', 'f', 'f', 'e', 'c', 't', ' '] }
/// `trait `
pub open spec fn kw_trait() -> Seq<char> { seq!['t', 'r', 'a', 'i', 't', ' '] }

/// A function declaration (`[pub ][async ]fn name`), detailed as an async
/// function when the line mentions `async `.
pub open spec fn function_symbol(trimmed: Seq<char>, n: u32, line: Seq<char>) -> Option<SymbolV> {
    keyword_symbol(
        strip(strip(trimmed, kw_pub()), kw_async()),
        kw_fn(),
        Stop::FnName,
        true,
        if find_from(trimmed, kw_async(), 0) is Some { "async function"@ } else { "function"@ },
        DocumentSymbolKind::Function,
        n,
        line,
    )
}

fn extract_function_symbol(trimmed: &[char], line_num: u32, line: &[char]) -> (r: Option<DocumentSymbol>)
    ensures
        match r {
            Some(s) => function_symbol(trimmed@, line_num, line@) == Some(sym_view(s)),
            None => function_symbol(trimmed@, line_num, line@) is None,
        },
{
    let p = ['p', 'u', 'b', ' '];
    let a = ['a', 's', 'y', 'n', 'c', ' '];
    let f = ['f', 'n', ' '];
    assert(p@ =~= kw_pub());
    assert(a@ =~= kw_async());
    assert(f@ =~= kw_fn());
    let c1 = strip_exec(trimmed, &p);
    let c2 = strip_exec(c1.as_slice(), &a);
    let is_async = find_chars(trimmed, &a).is_some();
    let detail = if is_async { "async function" } else { "function" };
    keyword_symbol_exec(c2.as_slice(), &f, Stop::FnName, true, detail, DocumentSymbolKind::Function, line_num, line)
}

/// A constant declaration (`[pub ]const NAME`).
pub open spec fn const_symbol(trimmed: Seq<char>, n: u32, line: Seq<char>) -> Option<SymbolV> {
    keyword_symbol(strip(trimmed, kw_pub()), kw_const(), Stop::Binding, true, "constant"@, DocumentSymbolKind::Constant, n, line)
}

fn extract_const_symbol(trimmed: &[char], line_num: u32, line: &[char]) -> (r: Option<DocumentSymbol>)
    ensures
        match r {
            Some(s) => const_symbol(trimmed@, line_num, line@) == Some(sym_view(s)),
            None => const_symbol(trimmed@, line_num, line@) is None,
        },
{
    let p = ['p', 'u', 'b', ' '];
    let k = ['c', 'o', 'n', 's', 't', ' '];
    assert(p@ =~= kw_pub());
    assert(k@ =~= kw_const());
    let c = strip_exec(trimmed, &p);
    keyword_symbol_exec(c.as_slice(), &k, Stop::Binding, true, "constant", DocumentSymbolKind::Constant, line_num, line)
}

/// A module declaration (`[pub ]mod name`).
pub open spec fn module_symbol(trimmed: Seq<char>, n: u32, line: Seq<char>) -> Option<SymbolV> {
    keyword_symbol(strip(trimmed, kw_pub()), kw_mod(), Stop::NonIdent, false, "module"@, DocumentSymbolKind::Module, n, line)
}

fn extract_module_symbol(trimmed: &[char], line_num: u32, line: &[char]) -> (r: Option<DocumentSymbol>)
    ensures
        match r {
            Some(s) => module_symbol(trimmed@, line_num, line@) == Some(sym_view(s)),
            None => module_symbol(trimmed@, line_num, line@) is None,
        },
{
    let p = ['p', 'u', 'b', ' '];
    let k = ['m', 'o', 'd', ' '];
    assert(p@ =~= kw_pub());
    assert(k@ =~= kw_mod());
    let c = strip_exec(trimmed, &p);
    keyword_symbol_exec(c.as_slice(), &k, Stop::NonIdent, false, "module", DocumentSymbolKind::Module, line_num, line)
}

/// A type alias (`[pub ]type Name =`).
pub open spec fn type_alias_symbol(trimmed: Seq<char>, n: u32, line: Seq<char>) -> Option<SymbolV> {
    keyword_symbol(strip(trimmed, kw_pub()), kw_type(), Stop::TypeAlias, true, "type alias"@, DocumentSymbolKind::TypeParameter, n, line)
}

fn extract_type_alias_symbol(trimmed: &[char], line_num: u32, line: &[char]) -> (r: Option<DocumentSymbol>)
    ensures
        match r {
            Some(s) => type_alias_symbol(trimmed@, line_num, line@) == Some(sym_view(s)),
            None => type_alias_symbol(trimmed@, line_num, line@) is None,
        },
{
    let p = ['p', 'u', 'b', ' '];
    let k = ['t', 'y', 'p', 'e', ' '];
    assert(p@ =~= kw_pub());
    assert(k@ =~= kw_type());
    let c = strip_exec(trimmed, &p);
    keyword_symbol_exec(c.as_slice(), &k, Stop::TypeAlias, true, "type alias", DocumentSymbolKind::TypeParameter, line_num, line)
}

/// A top-level binding (`let [mut ]name` on an unindented line), selected
/// from the start of the line.
pub open spec fn let_symbol(trimmed: Seq<char>, n: u32, line: Seq<char>) -> Option<SymbolV> {
    if !seq_starts_with(trimmed, kw_let()) || blen(line) != blen(trim_start(line)) {
        None
    } else {
        let rest = strip(trimmed.skip(4), kw_mut());
        match first_stop(rest, Stop::Binding, 0) {
            None => None,
            Some(e) => if e == 0 {
                None
            } else {
                Some(line_symbol(rest.take(e), "variable"@, DocumentSymbolKind::Variable, n, line, 0))
            },
        }
    }
}

fn extract_let_symbol(trimmed: &[char], line_num: u32, line: &[char]) -> (r: Option<DocumentSymbol>)
    ensures
        match r {
            Some(s) => let_symbol(trimmed@, line_num, line@) == Some(sym_view(s)),
            None => let_symbol(trimmed@, line_num, line@) is None,
        },
{
    let l = ['l', 'e', 't', ' '];
    let m = ['m', 'u', 't', ' '];
    assert(l@ =~= kw_let());
    assert(m@ =~= kw_mut());
    if !starts_with(trimmed, &l) {
        return None;
    }
    let unindented = trim_start_chars(line);
    if byte_len(line) != byte_len(unindented.as_slice()) {
        return None;
    }
    let after = slice_chars(trimmed, 4, trimmed.len());
    let rest = strip_exec(after.as_slice(), &m);
    let e = match find_stop(rest.as_slice(), Stop::Binding) {
        Some(e) => e,
        None => return None,
    };
    if e == 0 {
        return None;
    }
    let name = slice_chars(rest.as_slice(), 0, e);
    Some(line_symbol_exec(name, "variable", DocumentSymbolKind::Variable, line_num, line, 0))
}

/// An import (`import path` or `use path`): the trimmed path up to `{`, a
/// newline or `;`, selected from the start of the line.
pub open spec fn import_symbol(trimmed: Seq<char>, n: u32, line: Seq<char>) -> Option<SymbolV> {
    if !seq_starts_with(trimmed, kw_import()) && !seq_starts_with(trimmed, kw_use()) {
        None
    } else {
        let rest = if seq_starts_with(trimmed, kw_import()) { trimmed.skip(7) } else { trimmed.skip(4) };
        let name = trim(rest.take(stop_or_len(rest, Stop::ImportEnd)));
        if name.len() == 0 {
            None
        } else {
            Some(line_symbol(name, "import"@, DocumentSymbolKind::Namespace, n, line, 0))
        }
    }
}

fn extract_import_symbol(trimmed: &[char], line_num: u32, line: &[char]) -> (r: Option<DocumentSymbol>)
    ensures
        match r {
            Some(s) => import_symbol(trimmed@, line_num, line@) == Some(sym_view(s)),
            None => import_symbol(trimmed@, line_num, line@) is None,
        },
{
    let i = ['i', 'm', 'p', 'o', 'r', 't', ' '];
    let u = ['u', 's', 'e', ' '];
    assert(i@ =~= kw_import());
    assert(u@ =~= kw_use());
    let rest = if starts_with(trimmed, &i) {
        slice_chars(trimmed, 7, trimmed.len())
    } else if starts_with(trimmed, &u) {
        slice_chars(trimmed, 4, trimmed.len())
    } else {
        return None;
    };
    let end = stop_or_len_exec(rest.as_slice(), Stop::ImportEnd);
    let path = slice_chars(rest.as_slice(), 0, end);
    let name = trim_chars(path.as_slice());
    if name.len() == 0 {
        return None;
    }
    Some(line_symbol_exec(name, "import", DocumentSymbolKind::Namespace, line_num, line, 0))
}

// ============================================================================
// Blocks and their members
// ============================================================================

/// Whether a trimmed line opens a block that a later `end` line closes.
pub open spec fn opens_block(t: Seq<char>) -> bool {
    seq_starts_with(t, seq!['f', 'n', ' '])
        || seq_starts_with(t, seq!['s', 't', 'r', 'u', 'c', 't', ' '])
        || seq_starts_with(t, seq!['e', 'n', 'u', 'm', ' '])
        || seq_starts_with(t, seq!['e', 'f', 'f', 'e', 'c', 't', ' '])
        || seq_starts_with(t, seq!['t', 'r', 'a', 'i', 't', ' '])
        || seq_starts_with(t, seq!['i', 'f', ' '])
        || seq_starts_with(t, seq!['m', 'a', 't', 'c', 'h', ' '])
        || seq_starts_with(t, seq!['f', 'o', 'r', ' '])
        || seq_starts_with(t, seq!['w', 'h', 'i', 'l', 'e', ' '])
        || seq_starts_with(t, seq!['h', 'a', 'n', 'd', 'l', 'e', 'r', ' '])
        || seq_starts_with(t, seq!['i', 'm', 'p', 'l', ' '])
        || seq_starts_with(t, seq!['p', 'u', 'b', ' ', 'f', 'n', ' '])
        || seq_starts_with(t, seq!['p', 'u', 'b', ' ', 's', 't', 'r', 'u', 'c', 't', ' '])
        || seq_starts_with(t, seq!['p', 'u', 'b', ' ', 'e', 'n', 'u', 'm', ' '])
        || seq_starts_with(t, seq!['p', 'u', 'b', ' ', 'e', 'f', 'f', 'e', 'c', 't', ' '])
        || seq_starts_with(t, seq!['p', 'u', 'b', ' ', 't', 'r', 'a', 'i', 't', ' '])
        || seq_starts_with(t, seq!['a', 's', 'y', 'n', 'c', ' ', 'f', 'n', ' '])
        || seq_starts_with(t, seq!['p', 'u', 'b', ' ', 'a', 's', 'y', 'n', 'c', ' ', 'f', 'n', ' '])
}

fn opens_block_exec(t: &[char]) -> (b: bool)
    ensures
        b == opens_block(t@),
{
    let k0 = ['f', 'n', ' '];
    assert(k0@ =~= seq!['f', 'n', ' ']);
    let k1 = ['s', 't', 'r', 'u', 'c', 't', ' '];
    assert(k1@ =~= seq!['s', 't', 'r', 'u', 'c', 't', ' ']);
    let k2 = ['e', 'n', 'u', 'm', ' '];
    assert(k2@ =~= seq!['e', 'n', 'u', 'm', ' ']);
    let k3 = ['e', 'f', 'f', 'e', 'c', 't', ' '];
    assert(k3@ =~= seq!['e', 'f', 'f', 'e', 'c', 't', ' ']);
    let k4 = ['t', 'r', 'a', 'i', 't', ' '];
    assert(k4@ =~= seq!['t', 'r', 'a', 'i', 't', ' ']);
    let k5 = ['i', 'f', ' '];
    assert(k5@ =~= seq!['i', 'f', ' ']);
    let k6 = ['m', 'a', 't', 'c', 'h', ' '];
    assert(k6@ =~= seq!['m', 'a', 't', 'c', 'h', ' ']);
    let k7 = ['f', 'o', 'r', ' '];
    assert(k7@ =~= seq!['f', 'o', 'r', ' ']);
    let k8 = ['w', 'h', 'i', 'l', 'e', ' '];
    assert(k8@ =~= seq!['w', 'h', 'i', 'l', 'e', ' ']);
    let k9 = ['h', 'a', 'n', 'd', 'l', 'e', 'r', ' '];
    assert(k9@ =~= seq!['h', 'a', 'n', 'd', 'l', 'e', 'r', ' ']);
    let k10 = ['i', 'm', 'p', 'l', ' '];
    assert(k10@ =~= seq!['i', 'm', 'p', 'l', ' ']);
    let k11 = ['p', 'u', 'b', ' ', 'f', 'n', ' '];
    assert(k11@ =~= seq!['p', 'u', 'b', ' ', 'f', 'n', ' ']);
    let k12 = ['p', 'u', 'b', ' ', 's', 't', 'r', 'u', 'c', 't', ' '];
    assert(k12@ =~= seq!['p', 'u', 'b', ' ', 's', 't', 'r', 'u', 'c', 't', ' ']);
    let k13 = ['p', 'u', 'b', ' ', 'e', 'n', 'u', 'm', ' '];
    assert(k13@ =~= seq!['p', 'u', 'b', ' ', 'e', 'n', 'u', 'm', ' ']);
    let k14 = ['p', 'u', 'b', ' ', 'e', 'f', 'f', 'e', 'c', 't', ' '];
    assert(k14@ =~= seq!['p', 'u', 'b', ' ', 'e', 'f', 'f', 'e', 'c', 't', ' ']);
    let k15 = ['p', 'u', 'b', ' ', 't', 'r', 'a', 'i', 't', ' '];
    assert(k15@ =~= seq!['p', 'u', 'b', ' ', 't', 'r', 'a', 'i', 't', ' ']);
    let k16 = ['a', 's', 'y', 'n', 'c', ' ', 'f', 'n', ' '];
    assert(k16@ =~= seq!['a', 's', 'y', 'n', 'c', ' ', 'f', 'n', ' ']);
    let k17 = ['p', 'u', 'b', ' ', 'a', 's', 'y', 'n', 'c', ' ', 'f', 'n', ' '];
    assert(k17@ =~= seq!['p', 'u', 'b', ' ', 'a', 's', 'y', 'n', 'c', ' ', 'f', 'n', ' ']);
    starts_with(t, &k0)
        || starts_with(t, &k1)
        || starts_with(t, &k2)
        || starts_with(t, &k3)
        || starts_with(t, &k4)
        || starts_with(t, &k5)
        || starts_with(t, &k6)
        || starts_with(t, &k7)
        || starts_with(t, &k8)
        || starts_with(t, &k9)
        || starts_with(t, &k10)
        || starts_with(t, &k11)
        || starts_with(t, &k12)
        || starts_with(t, &k13)
        || starts_with(t, &k14)
        || starts_with(t, &k15)
        || starts_with(t, &k16)
        || starts_with(t, &k17)
}

/// `end`
pub open spec fn kw_end() -> Seq<char> { seq!['e', 'n', 'd'] }

/// The line of the `end` closing a block, searching from line `i` with
/// `depth` blocks open; the last line when there is none.
pub open spec fn end_search(lines: Seq<Seq<char>>, i: int, depth: int) -> int
    decreases lines.len() - i,
{
    if i < 0 || i >= lines.len() {
        if lines.len() == 0 { 0 } else { lines.len() - 1 }
    } else {
        let t = trim(lines[i]);
        if opens_block(t) {
            end_search(lines, i + 1, depth + 1)
        } else if t == kw_end() {
            if depth - 1 == 0 { i } else { end_search(lines, i + 1, depth - 1) }
        } else {
            end_search(lines, i + 1, depth)
        }
    }
}

/// The line of the `end` that closes the block opened on line `start`.
pub open spec fn end_line_of(lines: Seq<Seq<char>>, start: int) -> int {
    end_search(lines, start + 1, 1)
}

fn find_end_line(lines: &Vec<Vec<char>>, start_line: usize) -> (r: usize)
    ensures
        r == end_line_of(lines_view(lines@), start_line as int),
{
    let ghost lv = lines_view(lines@);
    let end = ['e', 'n', 'd'];
    assert(end@ =~= kw_end());
    if start_line >= lines.len() {
        return if lines.len() == 0 { 0 } else { lines.len() - 1 };
    }
    let mut depth: usize = 1;
    let mut i: usize = start_line + 1;
    while i < lines.len()
        invariant
            lv == lines_view(lines@),
            lv.len() == lines@.len(),
            end@ == kw_end(),
            start_line < lines@.len(),
            start_line + 1 <= i <= lines@.len(),
            1 <= depth <= i - start_line,
            end_search(lv, start_line + 1, 1) == end_search(lv, i as int, depth as int),
        decreases lines@.len() - i,
    {
        let t = trim_chars(lines[i].as_slice());
        assert(lv[i as int] == lines@[i as int]@);
        if opens_block_exec(t.as_slice()) {
            depth = depth + 1;
        } else if crate::text::chars_equal(t.as_slice(), &end) {
            if depth - 1 == 0 {
                return i;
            }
            depth = depth - 1;
        }
        i = i + 1;
    }
    if lines.len() == 0 { 0 } else { lines.len() - 1 }
}

/// The kinds of members that blocks list.
#[derive(Debug, Clone, Copy, PartialEq, Eq, Structural)]
pub enum Members {
    /// `name: Type` lines of a struct.
    Fields,
    /// Capitalised names of an enum.
    Variants,
    /// `fn name` lines of an effect.
    Operations,
    /// `fn name` and `type Name` lines of a trait.
    TraitMembers,
}

/// A line that lists no member: empty or a comment.
pub open spec fn skipped_line(t: Seq<char>) -> bool {
    t.len() == 0 || seq_starts_with(t, seq!['/', '/']) || seq_starts_with(t, seq!['#'])
}

/// The member declared on line `i` of a block.
pub open spec fn member_at(line: Seq<char>, i: int, which: Members) -> Option<SymbolV> {
    let t = trim(line);
    let n = i as u32;
    if skipped_line(t) {
        None
    } else {
        match which {
            Members::Fields => match find_from(t, seq![':'], 0) {
                Some(colon) => {
                    let name = strip(trim(t.take(colon)), kw_pub());
                    if name.len() > 0 && first_stop(name, Stop::NonIdent, 0) is None {
                        Some(line_symbol(name, "field"@, DocumentSymbolKind::Field, n, line, 0))
                    } else {
                        None
                    }
                },
                None => None,
            },
            Members::Variants => {
                let name = t.take(stop_or_len(t, Stop::Variant));
                if name.len() > 0 && unicode_uppercase(name[0]) {
                    Some(line_symbol(name, "variant"@, DocumentSymbolKind::EnumMember, n, line, 0))
                } else {
                    None
                }
            },
            Members::Operations => match decl_name(t, kw_fn(), Stop::FnName, true) {
                Some(name) => Some(line_symbol(name, "operation"@, DocumentSymbolKind::Method, n, line, 0)),
                None => None,
            },
            Members::TraitMembers => if seq_starts_with(t, kw_fn()) {
                match decl_name(t, kw_fn(), Stop::FnName, true) {
                    Some(name) => Some(line_symbol(name, "method"@, DocumentSymbolKind::Method, n, line, 0)),
                    None => None,
                }
            } else {
                match decl_name(t, kw_type(), Stop::AssocType, false) {
                    Some(name) => Some(line_symbol(name, "associated type"@, DocumentSymbolKind::TypeParameter, n, line, 0)),
                    None => None,
                }
            },
        }
    }
}

fn member_at_exec(line: &[char], i: usize, which: Members) -> (r: Option<DocumentSymbol>)
    ensures
        match r {
            Some(s) => member_at(line@, i as int, which) == Some(sym_view(s)),
            None => member_at(line@, i as int, which) is None,
        },
{
    let t = trim_chars(line);
    let slashes = ['/', '/'];
    let hash = ['#'];
    assert(slashes@ =~= seq!['/', '/']);
    assert(hash@ =~= seq!['#']);
    if t.len() == 0 || starts_with(t.as_slice(), &slashes) || starts_with(t.as_slice(), &hash) {
        return None;
    }
    let n = i as u32;
    let f = ['f', 'n', ' '];
    let ty = ['t', 'y', 'p', 'e', ' '];
    let p = ['p', 'u', 'b', ' '];
    assert(f@ =~= kw_fn());
    assert(ty@ =~= kw_type());
    assert(p@ =~= kw_pub());
    match which {
        Members::Fields => {
            let colon = [':'];
            assert(colon@ =~= seq![':']);
            match find_chars(t.as_slice(), &colon) {
                Some(c) => {
                    let before = slice_chars(t.as_slice(), 0, c);
                    let trimmed = trim_chars(before.as_slice());
                    let name = strip_exec(trimmed.as_slice(), &p);
                    if name.len() > 0 && find_stop(name.as_slice(), Stop::NonIdent).is_none() {
                        Some(line_symbol_exec(name, "field", DocumentSymbolKind::Field, n, line, 0))
                    } else {
                        None
                    }
                },
                None => None,
            }
        },
        Members::Variants => {
            let end = stop_or_len_exec(t.as_slice(), Stop::Variant);
            let name = slice_chars(t.as_slice(), 0, end);
            if name.len() > 0 && is_uppercase(name[0]) {
                Some(line_symbol_exec(name, "variant", DocumentSymbolKind::EnumMember, n, line, 0))
            } else {
                None
            }
        },
        Members::Operations => match decl_name_exec(t.as_slice(), &f, Stop::FnName, true) {
            Some(name) => Some(line_symbol_exec(name, "operation", DocumentSymbolKind::Method, n, line, 0)),
            None => None,
        },
        Members::TraitMembers => if starts_with(t.as_slice(), &f) {
            match decl_name_exec(t.as_slice(), &f, Stop::FnName, true) {
                Some(name) => Some(line_symbol_exec(name, "method", DocumentSymbolKind::Method, n, line, 0)),
                None => None,
            }
        } else {
            match decl_name_exec(t.as_slice(), &ty, Stop::AssocType, false) {
                Some(name) => Some(line_symbol_exec(name, "associated type", DocumentSymbolKind::TypeParameter, n, line, 0)),
                None => None,
            }
        },
    }
}

/// The members declared on lines `i` up to (not including) `end`.
pub open spec fn members_from(lines: Seq<Seq<char>>, i: int, end: int, which: Members) -> Seq<SymbolV>
    decreases end - i,
{
    if i < 0 || i >= end || i >= lines.len() {
        Seq::empty()
    } else {
        let rest = members_from(lines, i + 1, end, which);
        match member_at(lines[i], i, which) {
            Some(s) => seq![s] + rest,
            None => rest,
        }
    }
}

fn extract_members(lines: &Vec<Vec<char>>, start_line: usize, end_line: usize, which: Members) -> (r: Vec<DocumentSymbol>)
    ensures
        syms_view(r) == members_from(lines_view(lines@), start_line + 1, end_line as int, which),
{
    let ghost lv = lines_view(lines@);
    let mut out: Vec<DocumentSymbol> = Vec::new();
    if start_line >= lines.len() {
        assert(syms_view(out) =~= Seq::<SymbolV>::empty());
        return out;
    }
    let mut i = start_line + 1;
    assert(syms_view(out) =~= Seq::<SymbolV>::empty());
    while i < end_line && i < lines.len()
        invariant
            lv == lines_view(lines@),
            lv.len() == lines@.len(),
            start_line + 1 <= i,
            members_from(lv, start_line + 1, end_line as int, which)
                == syms_view(out) + members_from(lv, i as int, end_line as int, which),
        decreases lines@.len() - i,
    {
        assert(lv[i as int] == lines@[i as int]@);
        let m = member_at_exec(lines[i].as_slice(), i, which);
        let ghost before = out;
        match m {
            Some(s) => {
                out.push(s);
                assert(syms_view(out) =~= syms_view(before).push(sym_view(s)));
                assert(syms_view(out) + members_from(lv, i + 1, end_line as int, which)
                    =~= syms_view(before) + members_from(lv, i as int, end_line as int, which));
            },
            None => {},
        }
        i = i + 1;
    }
    assert(members_from(lv, i as int, end_line as int, which) == Seq::<SymbolV>::empty());
    assert(syms_view(out) + Seq::<SymbolV>::empty() =~= syms_view(out));
    out
}

/// A block declaration (`[pub ]<kw>Name ... end`) spanning to its `end`
/// line, with its members as children when it has any.
pub open spec fn block_symbol(
    lines: Seq<Seq<char>>,
    trimmed: Seq<char>,
    n: u32,
    line: Seq<char>,
    kw: Seq<char>,
    detail: Seq<char>,
    kind: DocumentSymbolKind,
    which: Members,
) -> Option<SymbolV> {
    match decl_name(strip(trimmed, kw_pub()), kw, Stop::NonIdent, false) {
        None => None,
        Some(name) => {
            let end = end_line_of(lines, n as int);
            let members = members_from(lines, n + 1, end, which);
            match find_from(line, kw, 0) {
                None => None,
                Some(j) => Some(SymbolV {
                    name,
                    detail: Some(detail),
                    kind,
                    range: rng(n, 0, end as u32, 3),
                    selection_range: rng(n, bpos(line.take(j)), n, bpos(line)),
                    children: if members.len() == 0 { None } else { Some(members) },
                }),
            }
        },
    }
}

fn block_symbol_exec(
    lines: &Vec<Vec<char>>,
    trimmed: &[char],
    line_num: u32,
    line: &[char],
    kw: &[char],
    detail: &str,
    kind: DocumentSymbolKind,
    which: Members,
) -> (r: Option<DocumentSymbol>)
    ensures
        match r {
            Some(s) => block_symbol(lines_view(lines@), trimmed@, line_num, line@, kw@, detail@, kind, which) == Some(sym_view(s)),
            None => block_symbol(lines_view(lines@), trimmed@, line_num, line@, kw@, detail@, kind, which) is None,
        },
{
    let p = ['p', 'u', 'b', ' '];
    assert(p@ =~= kw_pub());
    let c = strip_exec(trimmed, &p);
    let name = match decl_name_exec(c.as_slice(), kw, Stop::NonIdent, false) {
        Some(name) => name,
        None => return None,
    };
    let end_line = find_end_line(lines, line_num as usize);
    let children = extract_members(lines, line_num as usize, end_line, which);
    let j = match find_chars(line, kw) {
        Some(j) => j,
        None => return None,
    };
    let before = slice_chars(line, 0, j);
    let start = byte_len(before.as_slice()) as u32;
    let len = byte_len(line) as u32;
    let has_children = children.len() > 0;
    let s = DocumentSymbol {
        name: string_from_chars(name.as_slice()),
        detail: Some(string_from_chars(str_chars(detail).as_slice())),
        kind,
        range: make_range(line_num, 0, end_line as u32, 3),
        selection_range: make_range(line_num, start, line_num, len),
        children: if has_children { Some(children) } else { None },
    };
    Some(s)
}


/// A `struct` block.
pub open spec fn struct_symbol(lines: Seq<Seq<char>>, trimmed: Seq<char>, n: u32, line: Seq<char>) -> Option<SymbolV> {
    block_symbol(lines, trimmed, n, line, kw_struct(), "struct"@, DocumentSymbolKind::Struct, Members::Fields)
}

fn extract_struct_symbol(lines: &Vec<Vec<char>>, trimmed: &[char], line_num: u32, line: &[char]) -> (r: Option<DocumentSymbol>)
    ensures
        match r {
            Some(s) => struct_symbol(lines_view(lines@), trimmed@, line_num, line@) == Some(sym_view(s)),
            None => struct_symbol(lines_view(lines@), trimmed@, line_num, line@) is None,
        },
{
    let k = ['s', 't', 'r', 'u', 'c', 't', ' '];
    assert(k@ =~= kw_struct());
    block_symbol_exec(lines, trimmed, line_num, line, &k, "struct", DocumentSymbolKind::Struct, Members::Fields)
}

/// A `enum` block.
pub open spec fn enum_symbol(lines: Seq<Seq<char>>, trimmed: Seq<char>, n: u32, line: Seq<char>) -> Option<SymbolV> {
    block_symbol(lines, trimmed, n, line, kw_enum(), "enum"@, DocumentSymbolKind::Enum, Members::Variants)
}

fn extract_enum_symbol(lines: &Vec<Vec<char>>, trimmed: &[char], line_num: u32, line: &[char]) -> (r: Option<DocumentSymbol>)
    ensures
        match r {
            Some(s) => enum_symbol(lines_view(lines@), trimmed@, line_num, line@) == Some(sym_view(s)),
            None => enum_symbol(lines_view(lines@), trimmed@, line_num, line@) is None,
        },
{
    let k = ['e', 'n', 'u', 'm', ' '];
    assert(k@ =~= kw_enum());
    block_symbol_exec(lines, trimmed, line_num, line, &k, "enum", DocumentSymbolKind::Enum, Members::Variants)
}

/// A `effect` block.
pub open spec fn effect_symbol(lines: Seq<Seq<char>>, trimmed: Seq<char>, n: u32, line: Seq<char>) -> Option<SymbolV> {
    block_symbol(lines, trimmed, n, line, kw_effect(), "effect"@, DocumentSymbolKind::Interface, Members::Operations)
}

fn extract_effect_symbol(lines: &Vec<Vec<char>>, trimmed: &[char], line_num: u32, line: &[char]) -> (r: Option<DocumentSymbol>)
    ensures
        match r {
            Some(s) => effect_symbol(lines_view(lines@), trimmed@, line_num, line@) == Some(sym_view(s)),
            None => effect_symbol(lines_view(lines@), trimmed@, line_num, line@) is None,
        },
{
    let k = ['e', 'f', 'f', 'e', 'c', 't', ' '];
    assert(k@ =~= kw_effect());
    block_symbol_exec(lines, trimmed, line_num, line, &k, "effect", DocumentSymbolKind::Interface, Members::Operations)
}

/// A `trait` block.
pub open spec fn trait_symbol(lines: Seq<Seq<char>>, trimmed: Seq<char>, n: u32, line: Seq<char>) -> Option<SymbolV> {
    block_symbol(lines, trimmed, n, line, kw_trait(), "trait"@, DocumentSymbolKind::Interface, Members::TraitMembers)
}

fn extract_trait_symbol(lines: &Vec<Vec<char>>, trimmed: &[char], line_num: u32, line: &[char]) -> (r: Option<DocumentSymbol>)
    ensures
        match r {
            Some(s) => trait_symbol(lines_view(lines@), trimmed@, line_num, line@) == Some(sym_view(s)),
            None => trait_symbol(lines_view(lines@), trimmed@, line_num, line@) is None,
        },
{
    let k = ['t', 'r', 'a', 'i', 't', ' '];
    assert(k@ =~= kw_trait());
    block_symbol_exec(lines, trimmed, line_num, line, &k, "trait", DocumentSymbolKind::Interface, Members::TraitMembers)
}

/// The symbol declared on line `i`: the first of a function, struct, enum,
/// effect, trait, constant, top-level binding, module, import and type
/// alias declaration that the line holds.
pub open spec fn line_decl(lines: Seq<Seq<char>>, i: int) -> Option<SymbolV> {
    let line = lines[i];
    let t = trim(line);
    let n = i as u32;
    if function_symbol(t, n, line) is Some {
        function_symbol(t, n, line)
    } else if struct_symbol(lines, t, n, line) is Some {
        struct_symbol(lines, t, n, line)
    } else if enum_symbol(lines, t, n, line) is Some {
        enum_symbol(lines, t, n, line)
    } else if effect_symbol(lines, t, n, line) is Some {
        effect_symbol(lines, t, n, line)
    } else if trait_symbol(lines, t, n, line) is Some {
        trait_symbol(lines, t, n, line)
    } else if const_symbol(t, n, line) is Some {
        const_symbol(t, n, line)
    } else if let_symbol(t, n, line) is Some {
        let_symbol(t, n, line)
    } else if module_symbol(t, n, line) is Some {
        module_symbol(t, n, line)
    } else if import_symbol(t, n, line) is Some {
        import_symbol(t, n, line)
    } else {
        type_alias_symbol(t, n, line)
    }
}

/// The symbols declared on the lines from `i` on, in order.
pub open spec fn decls_from(lines: Seq<Seq<char>>, i: int) -> Seq<SymbolV>
    decreases lines.len() - i,
{
    if i < 0 || i >= lines.len() {
        Seq::empty()
    } else {
        match line_decl(lines, i) {
            Some(s) => seq![s] + decls_from(lines, i + 1),
            None => decls_from(lines, i + 1),
        }
    }
}

fn line_decl_exec(lines: &Vec<Vec<char>>, i: usize) -> (r: Option<DocumentSymbol>)
    requires
        i < lines@.len(),
    ensures
        match r {
            Some(s) => line_decl(lines_view(lines@), i as int) == Some(sym_view(s)),
            None => line_decl(lines_view(lines@), i as int) is None,
        },
{
    let line = lines[i].as_slice();
    assert(lines_view(lines@)[i as int] == line@);
    let t = trim_chars(line);
    let n = i as u32;
    if let Some(s) = extract_function_symbol(t.as_slice(), n, line) {
        return Some(s);
    }
    if let Some(s) = extract_struct_symbol(lines, t.as_slice(), n, line) {
        return Some(s);
    }
    if let Some(s) = extract_enum_symbol(lines, t.as_slice(), n, line) {
        return Some(s);
    }
    if let Some(s) = extract_effect_symbol(lines, t.as_slice(), n, line) {
        return Some(s);
    }
    if let Some(s) = extract_trait_symbol(lines, t.as_slice(), n, line) {
        return Some(s);
    }
    if let Some(s) = extract_const_symbol(t.as_slice(), n, line) {
        return Some(s);
    }
    if let Some(s) = extract_let_symbol(t.as_slice(), n, line) {
        return Some(s);
    }
    if let Some(s) = extract_module_symbol(t.as_slice(), n, line) {
        return Some(s);
    }
    if let Some(s) = extract_import_symbol(t.as_slice(), n, line) {
        return Some(s);
    }
    extract_type_alias_symbol(t.as_slice(), n, line)
}

/// The outline of a document: the symbols declared on its lines, in order
/// (see `line_decl`).
pub fn extract_document_symbols(content: &str, _uri: &str) -> (r: Vec<DocumentSymbol>)
    ensures
        syms_view(r) == decls_from(text_lines(content@), 0),
{
    let lines = split_lines(content);
    let ghost lv = lines_view(lines@);
    let mut symbols: Vec<DocumentSymbol> = Vec::new();
    let mut i: usize = 0;
    assert(syms_view(symbols) =~= Seq::<SymbolV>::empty());
    while i < lines.len()
        invariant
            lv == lines_view(lines@),
            lv == text_lines(content@),
            lv.len() == lines@.len(),
            0 <= i <= lines@.len(),
            decls_from(lv, 0) == syms_view(symbols) + decls_from(lv, i as int),
        decreases lines@.len() - i,
    {
        let ghost before = symbols;
        match line_decl_exec(&lines, i) {
            Some(s) => {
                symbols.push(s);
                assert(syms_view(symbols) =~= syms_view(before).push(sym_view(s)));
                assert(syms_view(symbols) + decls_from(lv, i + 1) =~= syms_view(before) + decls_from(lv, i as int));
            },
            None => {},
        }
        i = i + 1;
    }
    assert(syms_view(symbols) + decls_from(lv, i as int) =~= syms_view(symbols));
    symbols
}
} // verus!
