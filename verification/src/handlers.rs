//! The language-independent part of the request handlers: the completion
//! context and the completion lists of the completion request, and the
//! hover text of the hover request.

use vstd::prelude::*;
use crate::lsp_types::{Position, TextRange};
use crate::state::{Document, doc_line};
use crate::text::{
    ident_char, is_identifier_char, seq_contains, seq_starts_with, slice_chars, starts_with, contains,
    str_chars, str_equal, string_from_chars, trim_end, trim_end_chars, to_lowercase, unicode_lowercase,
    push_all,
};

verus! {

// ============================================================================
// Completion
// ============================================================================

/// What the completion request is completing.
#[derive(Debug, Clone, Copy, PartialEq, Eq, Structural)]
pub enum CompletionContext {
    /// A keyword is expected.
    Keyword,
    /// An effect name, after `!`.
    Effect,
    /// A type, after `:`.
    Type,
    /// A member, after `.`.
    Member,
    /// Inside a contract.
    Contract,
    /// Anything else.
    General,
}

/// The kind shown for a completion item.
#[derive(Debug, Clone, Copy, PartialEq, Eq, Structural)]
pub enum ItemKind {
    Keyword,
    Interface,
    Class,
    Method,
    Function,
    Variable,
}

/// How the inserted text is read.
#[derive(Debug, Clone, Copy, PartialEq, Eq, Structural)]
pub enum InsertTextFormat {
    PlainText,
    Snippet,
}

/// A completion item.
#[derive(Debug, Clone)]
pub struct CompletionItem {
    pub label: String,
    pub kind: Option<ItemKind>,
    pub detail: Option<String>,
    pub insert_text: Option<String>,
    pub insert_text_format: Option<InsertTextFormat>,
}

/// The value of a completion item: label, kind, detail, text to insert and
/// its format.
pub type ItemV = (Seq<char>, Option<ItemKind>, Option<Seq<char>>, Option<Seq<char>>, Option<InsertTextFormat>);

/// The value of an optional string.
pub open spec fn opt_str(s: Option<String>) -> Option<Seq<char>> {
    match s {
        Some(t) => Some(t@),
        None => None,
    }
}

/// The value of a completion item.
pub open spec fn item_view(i: CompletionItem) -> ItemV {
    (i.label@, i.kind, opt_str(i.detail), opt_str(i.insert_text), i.insert_text_format)
}

/// The values of a list of completion items.
pub open spec fn items_view(v: Seq<CompletionItem>) -> Seq<ItemV> {
    v.map_values(|i: CompletionItem| item_view(i))
}

fn owned(s: &str) -> (r: String)
    ensures
        r@ == s@,
{
    string_from_chars(str_chars(s).as_slice())
}

/// The keyword completions: keyword, description and snippet.
pub open spec fn keyword_table() -> Seq<(Seq<char>, Seq<char>, Seq<char>)> {
    seq![
        ("fn"@, "Define a function"@, "fn ${1:name}($2) {\n\t$0\n}"@),
        ("let"@, "Declare a variable"@, "let ${1:name} = $0;"@),
        ("mut"@, "Mutable binding"@, "mut "@),
        ("if"@, "Conditional expression"@, "if ${1:condition} {\n\t$0\n}"@),
        ("else"@, "Alternative branch"@, "else {\n\t$0\n}"@),
        ("while"@, "While loop"@, "while ${1:condition} {\n\t$0\n}"@),
        ("for"@, "For loop"@, "for ${1:item} in ${2:iter} {\n\t$0\n}"@),
        ("return"@, "Return from function"@, "return $0;"@),
        ("struct"@, "Define a struct"@, "struct ${1:Name} {\n\t$0\n}"@),
        ("enum"@, "Define an enum"@, "enum ${1:Name} {\n\t$0\n}"@),
        ("trait"@, "Define a trait"@, "trait ${1:Name} {\n\t$0\n}"@),
        ("impl"@, "Implement methods"@, "impl ${1:Type} {\n\t$0\n}"@),
        ("effect"@, "Define an effect"@, "effect ${1:Name} {\n\t$0\n}"@),
        ("handle"@, "Handle an effect"@, "handle {\n\t$0\n}"@),
        ("match"@, "Pattern matching"@, "match ${1:expr} {\n\t$0\n}"@),
        ("use"@, "Import item"@, "use ${0:path};"@),
        ("mod"@, "Define module"@, "mod ${0:name};"@),
        ("pub"@, "Public visibility"@, "pub "@),
    ]
}

/// The effect completions: name and description.
pub open spec fn effect_table() -> Seq<(Seq<char>, Seq<char>)> {
    seq![
        ("IO"@, "Input/output effect"@),
        ("Console"@, "Console I/O effect"@),
        ("Async"@, "Asynchronous computation effect"@),
        ("Exception"@, "Exception handling effect"@),
        ("State"@, "Mutable state effect"@),
        ("Reader"@, "Reader monad effect"@),
        ("Writer"@, "Writer monad effect"@),
        ("NonDet"@, "Non-determinism effect"@),
    ]
}

/// The type completions: name and description.
pub open spec fn type_table() -> Seq<(Seq<char>, Seq<char>)> {
    seq![
        ("Int"@, "Integer type"@),
        ("Float"@, "Floating point type"@),
        ("Bool"@, "Boolean type"@),
        ("String"@, "String type"@),
        ("Char"@, "Character type"@),
        ("Unit"@, "Unit type ()"@),
        ("Option"@, "Optional value"@),
        ("Result"@, "Result type for error handling"@),
        ("List"@, "List collection"@),
        ("Map"@, "Key-value map"@),
        ("Set"@, "Set collection"@),
    ]
}

fn keyword_at(i: usize) -> (r: (&'static str, &'static str, &'static str))
    requires
        i < keyword_table().len(),
    ensures
        r.0@ == keyword_table()[i as int].0,
        r.1@ == keyword_table()[i as int].1,
        r.2@ == keyword_table()[i as int].2,
{
    if i == 0 {
        ("fn", "Define a function", "fn ${1:name}($2) {\n\t$0\n}")
    } else if i == 1 {
        ("let", "Declare a variable", "let ${1:name} = $0;")
    } else if i == 2 {
        ("mut", "Mutable binding", "mut ")
    } else if i == 3 {
        ("if", "Conditional expression", "if ${1:condition} {\n\t$0\n}")
    } else if i == 4 {
        ("else", "Alternative branch", "else {\n\t$0\n}")
    } else if i == 5 {
        ("while", "While loop", "while ${1:condition} {\n\t$0\n}")
    } else if i == 6 {
        ("for", "For loop", "for ${1:item} in ${2:iter} {\n\t$0\n}")
    } else if i == 7 {
        ("return", "Return from function", "return $0;")
    } else if i == 8 {
        ("struct", "Define a struct", "struct ${1:Name} {\n\t$0\n}")
    } else if i == 9 {
        ("enum", "Define an enum", "enum ${1:Name} {\n\t$0\n}")
    } else if i == 10 {
        ("trait", "Define a trait", "trait ${1:Name} {\n\t$0\n}")
    } else if i == 11 {
        ("impl", "Implement methods", "impl ${1:Type} {\n\t$0\n}")
    } else if i == 12 {
        ("effect", "Define an effect", "effect ${1:Name} {\n\t$0\n}")
    } else if i == 13 {
        ("handle", "Handle an effect", "handle {\n\t$0\n}")
    } else if i == 14 {
        ("match", "Pattern matching", "match ${1:expr} {\n\t$0\n}")
    } else if i == 15 {
        ("use", "Import item", "use ${0:path};")
    } else if i == 16 {
        ("mod", "Define module", "mod ${0:name};")
    } else {
        ("pub", "Public visibility", "pub ")
    }
}

fn effect_at(i: usize) -> (r: (&'static str, &'static str))
    requires
        i < effect_table().len(),
    ensures
        r.0@ == effect_table()[i as int].0,
        r.1@ == effect_table()[i as int].1,
{
    if i == 0 {
        ("IO", "Input/output effect")
    } else if i == 1 {
        ("Console", "Console I/O effect")
    } else if i == 2 {
        ("Async", "Asynchronous computation effect")
    } else if i == 3 {
        ("Exception", "Exception handling effect")
    } else if i == 4 {
        ("State", "Mutable state effect")
    } else if i == 5 {
        ("Reader", "Reader monad effect")
    } else if i == 6 {
        ("Writer", "Writer monad effect")
    } else {
        ("NonDet", "Non-determinism effect")
    }
}

fn type_at(i: usize) -> (r: (&'static str, &'static str))
    requires
        i < type_table().len(),
    ensures
        r.0@ == type_table()[i as int].0,
        r.1@ == type_table()[i as int].1,
{
    if i == 0 {
        ("Int", "Integer type")
    } else if i == 1 {
        ("Float", "Floating point type")
    } else if i == 2 {
        ("Bool", "Boolean type")
    } else if i == 3 {
        ("String", "String type")
    } else if i == 4 {
        ("Char", "Character type")
    } else if i == 5 {
        ("Unit", "Unit type ()")
    } else if i == 6 {
        ("Option", "Optional value")
    } else if i == 7 {
        ("Result", "Result type for error handling")
    } else if i == 8 {
        ("List", "List collection")
    } else if i == 9 {
        ("Map", "Key-value map")
    } else {
        ("Set", "Set collection")
    }
}

/// The hover text of a keyword, if the word is one.
pub open spec fn keyword_hover(word: Seq<char>) -> Option<Seq<char>> {
    if word == "fn"@ {
        Some("**Keyword**: `fn`\n\nDeclares a function."@)
    } else if word == "let"@ {
        Some("**Keyword**: `let`\n\nDeclares an immutable variable binding."@)
    } else if word == "mut"@ {
        Some("**Keyword**: `mut`\n\nMakes a variable binding mutable."@)
    } else if word == "if"@ {
        Some("**Keyword**: `if`\n\nConditional expression."@)
    } else if word == "else"@ {
        Some("**Keyword**: `else`\n\nAlternative branch for `if`."@)
    } else if word == "while"@ {
        Some("**Keyword**: `while`\n\nLoop with condition."@)
    } else if word == "for"@ {
        Some("**Keyword**: `for`\n\nIterator loop."@)
    } else if word == "return"@ {
        Some("**Keyword**: `return`\n\nReturns from a function."@)
    } else if word == "struct"@ {
        Some("**Keyword**: `struct`\n\nDeclares a struct type."@)
    } else if word == "enum"@ {
        Some("**Keyword**: `enum`\n\nDeclares an enum type."@)
    } else if word == "trait"@ {
        Some("**Keyword**: `trait`\n\nDeclares a trait."@)
    } else if word == "impl"@ {
        Some("**Keyword**: `impl`\n\nImplements methods or traits."@)
    } else if word == "effect"@ {
        Some("**Keyword**: `effect`\n\nDeclares an algebraic effect."@)
    } else if word == "handle"@ {
        Some("**Keyword**: `handle`\n\nHandles an algebraic effect."@)
    } else if word == "requires"@ {
        Some("**Keyword**: `requires`\n\nPrecondition contract."@)
    } else if word == "ensures"@ {
        Some("**Keyword**: `ensures`\n\nPostcondition contract."@)
    } else {
        None
    }
}

fn keyword_hover_exec(word: &str) -> (r: Option<&'static str>)
    ensures
        match r {
            Some(t) => keyword_hover(word@) == Some(t@),
            None => keyword_hover(word@) is None,
        },
{
    if str_equal(word, "fn") {
        Some("**Keyword**: `fn`\n\nDeclares a function.")
    } else if str_equal(word, "let") {
        Some("**Keyword**: `let`\n\nDeclares an immutable variable binding.")
    } else if str_equal(word, "mut") {
        Some("**Keyword**: `mut`\n\nMakes a variable binding mutable.")
    } else if str_equal(word, "if") {
        Some("**Keyword**: `if`\n\nConditional expression.")
    } else if str_equal(word, "else") {
        Some("**Keyword**: `else`\n\nAlternative branch for `if`.")
    } else if str_equal(word, "while") {
        Some("**Keyword**: `while`\n\nLoop with condition.")
    } else if str_equal(word, "for") {
        Some("**Keyword**: `for`\n\nIterator loop.")
    } else if str_equal(word, "return") {
        Some("**Keyword**: `return`\n\nReturns from a function.")
    } else if str_equal(word, "struct") {
        Some("**Keyword**: `struct`\n\nDeclares a struct type.")
    } else if str_equal(word, "enum") {
        Some("**Keyword**: `enum`\n\nDeclares an enum type.")
    } else if str_equal(word, "trait") {
        Some("**Keyword**: `trait`\n\nDeclares a trait.")
    } else if str_equal(word, "impl") {
        Some("**Keyword**: `impl`\n\nImplements methods or traits.")
    } else if str_equal(word, "effect") {
        Some("**Keyword**: `effect`\n\nDeclares an algebraic effect.")
    } else if str_equal(word, "handle") {
        Some("**Keyword**: `handle`\n\nHandles an algebraic effect.")
    } else if str_equal(word, "requires") {
        Some("**Keyword**: `requires`\n\nPrecondition contract.")
    } else if str_equal(word, "ensures") {
        Some("**Keyword**: `ensures`\n\nPostcondition contract.")
    } else {
        None
    }
}

/// The keyword completions, as snippets.
pub open spec fn keyword_items() -> Seq<ItemV> {
    keyword_table().map_values(|r: (Seq<char>, Seq<char>, Seq<char>)|
        (r.0, Some(ItemKind::Keyword), Some(r.1), Some(r.2), Some(InsertTextFormat::Snippet)))
}

/// The effect completions.
pub open spec fn effect_items() -> Seq<ItemV> {
    effect_table().map_values(|r: (Seq<char>, Seq<char>)| (r.0, Some(ItemKind::Interface), Some(r.1), Some(r.0), None))
}

/// The type completions.
pub open spec fn type_items() -> Seq<ItemV> {
    type_table().map_values(|r: (Seq<char>, Seq<char>)| (r.0, Some(ItemKind::Class), Some(r.1), Some(r.0), None))
}

/// The keyword completions: each keyword with its description and snippet.
pub fn keyword_completions() -> (r: Vec<CompletionItem>)
    ensures
        items_view(r@) == keyword_items(),
{
    let mut out: Vec<CompletionItem> = Vec::new();
    let n: usize = 18;
    assert(keyword_table().len() == 18);
    let mut i: usize = 0;
    while i < n
        invariant
            n == keyword_table().len(),
            0 <= i <= n,
            items_view(out@) == keyword_items().take(i as int),
        decreases n - i,
    {
        let (kw, detail, snippet) = keyword_at(i);
        let item = CompletionItem {
            label: owned(kw),
            kind: Some(ItemKind::Keyword),
            detail: Some(owned(detail)),
            insert_text: Some(owned(snippet)),
            insert_text_format: Some(InsertTextFormat::Snippet),
        };
        let ghost before = out@;
        assert(item_view(item) == keyword_items()[i as int]);
        let ghost prev = out@;
        out.push(item);
        assert(items_view(out@) =~= items_view(prev).push(item_view(item)));
        assert(keyword_items().take(i + 1) =~= keyword_items().take(i as int).push(keyword_items()[i as int]));
        i = i + 1;
    }
    assert(keyword_items().take(n as int) =~= keyword_items());
    out
}

/// The effect completions: each effect name with its description.
pub fn effect_completions() -> (r: Vec<CompletionItem>)
    ensures
        items_view(r@) == effect_items(),
{
    let mut out: Vec<CompletionItem> = Vec::new();
    let n: usize = 8;
    assert(effect_table().len() == 8);
    let mut i: usize = 0;
    while i < n
        invariant
            n == effect_table().len(),
            0 <= i <= n,
            items_view(out@) == effect_items().take(i as int),
        decreases n - i,
    {
        let (name, detail) = effect_at(i);
        let item = CompletionItem {
            label: owned(name),
            kind: Some(ItemKind::Interface),
            detail: Some(owned(detail)),
            insert_text: Some(owned(name)),
            insert_text_format: None,
        };
        assert(item_view(item) == effect_items()[i as int]);
        let ghost prev = out@;
        out.push(item);
        assert(items_view(out@) =~= items_view(prev).push(item_view(item)));
        assert(effect_items().take(i + 1) =~= effect_items().take(i as int).push(effect_items()[i as int]));
        i = i + 1;
    }
    assert(effect_items().take(n as int) =~= effect_items());
    out
}

/// The type completions: each type name with its description.
pub fn type_completions() -> (r: Vec<CompletionItem>)
    ensures
        items_view(r@) == type_items(),
{
    let mut out: Vec<CompletionItem> = Vec::new();
    let n: usize = 11;
    assert(type_table().len() == 11);
    let mut i: usize = 0;
    while i < n
        invariant
            n == type_table().len(),
            0 <= i <= n,
            items_view(out@) == type_items().take(i as int),
        decreases n - i,
    {
        let (name, detail) = type_at(i);
        let item = CompletionItem {
            label: owned(name),
            kind: Some(ItemKind::Class),
            detail: Some(owned(detail)),
            insert_text: Some(owned(name)),
            insert_text_format: None,
        };
        assert(item_view(item) == type_items()[i as int]);
        let ghost prev = out@;
        out.push(item);
        assert(items_view(out@) =~= items_view(prev).push(item_view(item)));
        assert(type_items().take(i + 1) =~= type_items().take(i as int).push(type_items()[i as int]));
        i = i + 1;
    }
    assert(type_items().take(n as int) =~= type_items());
    out
}

/// The member completions: `map`, `filter` and `fold` snippets.
pub open spec fn member_items() -> Seq<ItemV> {
    seq![
        ("map"@, Some(ItemKind::Method), Some("Transform elements"@), Some("map(|${1:x}| ${0})"@), Some(InsertTextFormat::Snippet)),
        ("filter"@, Some(ItemKind::Method), Some("Filter elements"@), Some("filter(|${1:x}| ${0})"@), Some(InsertTextFormat::Snippet)),
        ("fold"@, Some(ItemKind::Method), Some("Fold/reduce elements"@), Some("fold(${1:init}, |${2:acc}, ${3:x}| ${0})"@), Some(InsertTextFormat::Snippet)),
    ]
}

/// The member completions (common collection methods).
pub fn member_completions() -> (r: Vec<CompletionItem>)
    ensures
        items_view(r@) == member_items(),
{
    let r = vec![
        CompletionItem {
            label: owned("map"),
            kind: Some(ItemKind::Method),
            detail: Some(owned("Transform elements")),
            insert_text: Some(owned("map(|${1:x}| ${0})")),
            insert_text_format: Some(InsertTextFormat::Snippet),
        },
        CompletionItem {
            label: owned("filter"),
            kind: Some(ItemKind::Method),
            detail: Some(owned("Filter elements")),
            insert_text: Some(owned("filter(|${1:x}| ${0})")),
            insert_text_format: Some(InsertTextFormat::Snippet),
        },
        CompletionItem {
            label: owned("fold"),
            kind: Some(ItemKind::Method),
            detail: Some(owned("Fold/reduce elements")),
            insert_text: Some(owned("fold(${1:init}, |${2:acc}, ${3:x}| ${0})")),
            insert_text_format: Some(InsertTextFormat::Snippet),
        },
    ];
    assert(items_view(r@) =~= member_items());
    r
}

/// The contract completions: `requires`, `ensures`, `old` and `result`.
pub open spec fn contract_items() -> Seq<ItemV> {
    seq![
        ("requires"@, Some(ItemKind::Keyword), Some("Precondition"@), Some("requires ${0:condition}"@), Some(InsertTextFormat::Snippet)),
        ("ensures"@, Some(ItemKind::Keyword), Some("Postcondition"@), Some("ensures ${0:condition}"@), Some(InsertTextFormat::Snippet)),
        ("old"@, Some(ItemKind::Function), Some("Reference to pre-state value"@), Some("old(${0:expr})"@), Some(InsertTextFormat::Snippet)),
        ("result"@, Some(ItemKind::Variable), Some("Return value in ensures clause"@), None, None),
    ]
}

/// The contract completions.
pub fn contract_completions() -> (r: Vec<CompletionItem>)
    ensures
        items_view(r@) == contract_items(),
{
    let r = vec![
        CompletionItem {
            label: owned("requires"),
            kind: Some(ItemKind::Keyword),
            detail: Some(owned("Precondition")),
            insert_text: Some(owned("requires ${0:condition}")),
            insert_text_format: Some(InsertTextFormat::Snippet),
        },
        CompletionItem {
            label: owned("ensures"),
            kind: Some(ItemKind::Keyword),
            detail: Some(owned("Postcondition")),
            insert_text: Some(owned("ensures ${0:condition}")),
            insert_text_format: Some(InsertTextFormat::Snippet),
        },
        CompletionItem {
            label: owned("old"),
            kind: Some(ItemKind::Function),
            detail: Some(owned("Reference to pre-state value")),
            insert_text: Some(owned("old(${0:expr})")),
            insert_text_format: Some(InsertTextFormat::Snippet),
        },
        CompletionItem {
            label: owned("result"),
            kind: Some(ItemKind::Variable),
            detail: Some(owned("Return value in ensures clause")),
            insert_text: None,
            insert_text_format: None,
        },
    ];
    assert(items_view(r@) =~= contract_items());
    r
}

/// The characters of a line before the cursor.
pub open spec fn before_cursor(line: Seq<char>, character: u32) -> Seq<char> {
    if (character as int) < line.len() { line.take(character as int) } else { line }
}

fn before_cursor_exec(line: &[char], character: u32) -> (r: Vec<char>)
    ensures
        r@ == before_cursor(line@, character),
{
    if (character as usize) < line.len() {
        slice_chars(line, 0, character as usize)
    } else {
        slice_chars(line, 0, line.len())
    }
}

/// Whether `s` ends with `c`.
pub open spec fn ends_with_char(s: Seq<char>, c: char) -> bool {
    s.len() > 0 && s.last() == c
}

/// What completes at a position: the trigger character decides first (`!`
/// an effect, `.` a member, `:` a type); else the text before the cursor,
/// with trailing whitespace removed: ending in `!`, `.` or `:` as for the
/// triggers, mentioning `requires` or `ensures` a contract, empty or ending
/// in `{` or `;` a keyword; anything else, or a missing line, is general.
pub open spec fn completion_context(line: Option<Seq<char>>, character: u32, trigger: Option<Seq<char>>) -> CompletionContext {
    if trigger == Some("!"@) {
        CompletionContext::Effect
    } else if trigger == Some("."@) {
        CompletionContext::Member
    } else if trigger == Some(":"@) {
        CompletionContext::Type
    } else {
        match line {
            None => CompletionContext::General,
            Some(l) => {
                let t = trim_end(before_cursor(l, character));
                if ends_with_char(t, '!') {
                    CompletionContext::Effect
                } else if ends_with_char(t, '.') {
                    CompletionContext::Member
                } else if ends_with_char(t, ':') {
                    CompletionContext::Type
                } else if seq_contains(t, "requires"@) || seq_contains(t, "ensures"@) {
                    CompletionContext::Contract
                } else if t.len() == 0 || ends_with_char(t, '{') || ends_with_char(t, ';') {
                    CompletionContext::Keyword
                } else {
                    CompletionContext::General
                }
            },
        }
    }
}

/// The completion context at `position` in the document, given the
/// trigger character.
pub fn determine_completion_context(doc: &Document, position: Position, trigger: Option<&str>) -> (c: CompletionContext)
    ensures
        c == completion_context(
            doc_line(doc.chars(), position.line as int),
            position.character,
            match trigger { Some(t) => Some(t@), None => None },
        ),
{
    match doc.line(position.line as usize) {
        Some(l) => completion_context_in_line(Some(l.as_str()), position, trigger),
        None => completion_context_in_line(None, position, trigger),
    }
}

/// The completion context at `position`, given the line there (as the
/// document holds it) and the trigger character.
pub fn completion_context_in_line(line: Option<&str>, position: Position, trigger: Option<&str>) -> (c: CompletionContext)
    ensures
        c == completion_context(
            match line { Some(l) => Some(l@), None => None },
            position.character,
            match trigger { Some(t) => Some(t@), None => None },
        ),
{
    if let Some(t) = trigger {
        if str_equal(t, "!") {
            return CompletionContext::Effect;
        }
        if str_equal(t, ".") {
            return CompletionContext::Member;
        }
        if str_equal(t, ":") {
            return CompletionContext::Type;
        }
    }
    let l = match line {
        Some(l) => l,
        None => return CompletionContext::General,
    };
    let chars = str_chars(l);
    let before = before_cursor_exec(chars.as_slice(), position.character);
    let t = trim_end_chars(before.as_slice());
    let n = t.len();
    if n > 0 && t[n - 1] == '!' {
        return CompletionContext::Effect;
    }
    if n > 0 && t[n - 1] == '.' {
        return CompletionContext::Member;
    }
    if n > 0 && t[n - 1] == ':' {
        return CompletionContext::Type;
    }
    let req = str_chars("requires");
    let ens = str_chars("ensures");
    if contains(t.as_slice(), req.as_slice()) || contains(t.as_slice(), ens.as_slice()) {
        return CompletionContext::Contract;
    }
    if n == 0 || t[n - 1] == '{' || t[n - 1] == ';' {
        return CompletionContext::Keyword;
    }
    CompletionContext::General
}

/// Where the run of identifier characters ending at `j` starts.
pub open spec fn ident_run_start(s: Seq<char>, j: int) -> int
    decreases j,
{
    if j > 0 && j <= s.len() && ident_char(s[j - 1]) {
        ident_run_start(s, j - 1)
    } else {
        j
    }
}

/// The identifier being typed: the identifier characters just before the
/// cursor.
pub open spec fn typed_prefix(before: Seq<char>) -> Seq<char> {
    before.skip(ident_run_start(before, before.len() as int))
}

/// The keyword items among the first `n` whose label starts with `prefix`.
pub open spec fn keywords_matching(prefix: Seq<char>, n: int) -> Seq<ItemV>
    decreases n,
{
    if n <= 0 || n > keyword_items().len() {
        Seq::empty()
    } else {
        let prev = keywords_matching(prefix, n - 1);
        if seq_starts_with(keyword_items()[n - 1].0, prefix) { prev.push(keyword_items()[n - 1]) } else { prev }
    }
}

/// The type items among the first `n` whose label starts with `prefix`,
/// ignoring case.
pub open spec fn types_matching(prefix: Seq<char>, n: int) -> Seq<ItemV>
    decreases n,
{
    if n <= 0 || n > type_items().len() {
        Seq::empty()
    } else {
        let prev = types_matching(prefix, n - 1);
        if seq_starts_with(unicode_lowercase(type_items()[n - 1].0), unicode_lowercase(prefix)) {
            prev.push(type_items()[n - 1])
        } else {
            prev
        }
    }
}

/// The general completions at a position: all keywords when no identifier
/// is being typed, else the keywords starting with it and the types starting
/// with it ignoring case; nothing when the line is missing.
pub open spec fn general_items(line: Option<Seq<char>>, character: u32) -> Seq<ItemV> {
    match line {
        None => Seq::empty(),
        Some(l) => {
            let prefix = typed_prefix(before_cursor(l, character));
            if prefix.len() == 0 {
                keyword_items()
            } else {
                keywords_matching(prefix, keyword_items().len() as int) + types_matching(prefix, type_items().len() as int)
            }
        },
    }
}

/// The general completions at `position` in the document.
pub fn general_completions(doc: &Document, position: Position) -> (r: Vec<CompletionItem>)
    ensures
        items_view(r@) == general_items(doc_line(doc.chars(), position.line as int), position.character),
{
    match doc.line(position.line as usize) {
        Some(l) => general_completions_in_line(Some(l.as_str()), position),
        None => general_completions_in_line(None, position),
    }
}

/// The general completions at `position`, given the line there.
pub fn general_completions_in_line(line: Option<&str>, position: Position) -> (r: Vec<CompletionItem>)
    ensures
        items_view(r@) == general_items(match line { Some(l) => Some(l@), None => None }, position.character),
{
    let l = match line {
        Some(l) => l,
        None => {
            let r: Vec<CompletionItem> = Vec::new();
            assert(items_view(r@) =~= Seq::<ItemV>::empty());
            return r;
        },
    };
    let chars = str_chars(l);
    let before = before_cursor_exec(chars.as_slice(), position.character);
    let mut start = before.len();
    while start > 0 && is_identifier_char(before[start - 1])
        invariant
            0 <= start <= before@.len(),
            ident_run_start(before@, before@.len() as int) == ident_run_start(before@, start as int),
        decreases start,
    {
        start = start - 1;
    }
    let prefix = slice_chars(before.as_slice(), start, before.len());
    assert(prefix@ =~= typed_prefix(before@));
    if prefix.len() == 0 {
        return keyword_completions();
    }
    let lower_prefix = to_lowercase(string_from_chars(prefix.as_slice()).as_str());
    let mut items: Vec<CompletionItem> = Vec::new();
    let keywords = keyword_completions();
    let mut i: usize = 0;
    assert(items_view(items@) =~= Seq::<ItemV>::empty());
    while i < keywords.len()
        invariant
            items_view(keywords@) == keyword_items(),
            keywords@.len() == keyword_items().len(),
            0 <= i <= keywords@.len(),
            items_view(items@) == keywords_matching(prefix@, i as int),
        decreases keywords@.len() - i,
    {
        let label = str_chars(keywords[i].label.as_str());
        assert(items_view(keywords@)[i as int] == item_view(keywords@[i as int]));
        if starts_with(label.as_slice(), prefix.as_slice()) {
            let ghost before_items = items@;
            items.push(keywords[i].clone_item());
            assert(items_view(items@) =~= items_view(before_items).push(keyword_items()[i as int]));
        }
        i = i + 1;
    }
    let ghost kw_part = items_view(items@);
    let types = type_completions();
    let mut j: usize = 0;
    let ghost mut typed: Seq<ItemV> = Seq::empty();
    while j < types.len()
        invariant
            items_view(types@) == type_items(),
            types@.len() == type_items().len(),
            0 <= j <= types@.len(),
            lower_prefix@ == unicode_lowercase(prefix@),
            items_view(items@) == kw_part + types_matching(prefix@, j as int),
        decreases types@.len() - j,
    {
        assert(items_view(types@)[j as int] == item_view(types@[j as int]));
        let lower_label = to_lowercase(types[j].label.as_str());
        let ll = str_chars(lower_label.as_str());
        let lp = str_chars(lower_prefix.as_str());
        if starts_with(ll.as_slice(), lp.as_slice()) {
            let ghost before_items = items@;
            items.push(types[j].clone_item());
            assert(items_view(items@) =~= items_view(before_items).push(type_items()[j as int]));
            assert(kw_part + types_matching(prefix@, j + 1) =~= (kw_part + types_matching(prefix@, j as int)).push(type_items()[j as int]));
        }
        j = j + 1;
    }
    items
}

impl CompletionItem {
    /// A copy of the item.
    pub fn clone_item(&self) -> (r: CompletionItem)
        ensures
            item_view(r) == item_view(*self),
    {
        CompletionItem {
            label: self.label.clone(),
            kind: self.kind,
            detail: match &self.detail {
                Some(d) => Some(d.clone()),
                None => None,
            },
            insert_text: match &self.insert_text {
                Some(t) => Some(t.clone()),
                None => None,
            },
            insert_text_format: self.insert_text_format,
        }
    }
}

// ============================================================================
// Hover
// ============================================================================

/// Hover contents: Markdown text, with the range it describes if known.
#[derive(Debug, Clone)]
pub struct Hover {
    pub markdown: String,
    pub range: Option<TextRange>,
}

/// Whether a character can be part of an identifier.
pub fn is_word_char(c: char) -> (b: bool)
    ensures
        b == ident_char(c),
{
    is_identifier_char(c)
}

/// The word under the cursor in the document (see
/// `definition::word_at_spec`).
pub fn get_word_at_position(doc: &Document, position: Position) -> (w: String)
    ensures
        w@ == crate::definition::word_at_spec(doc_line(doc.chars(), position.line as int), position),
{
    crate::definition::get_word_at_position(doc, position)
}

/// The hover text of a word: the description of a keyword, or a note that
/// type information is not available.
pub open spec fn placeholder_text(word: Seq<char>) -> Seq<char> {
    match keyword_hover(word) {
        Some(t) => t,
        None => "**`"@ + word + "`**\n\n_Type information not yet available._\n\n*Aria LSP is in early development. Semantic analysis will be integrated soon.*"@,
    }
}

/// The hover for a word, with no range.
pub fn create_placeholder_hover(word: &str) -> (h: Hover)
    ensures
        h.markdown@ == placeholder_text(word@),
        h.range is None,
{
    let text = match keyword_hover_exec(word) {
        Some(t) => owned(t),
        None => {
            let mut out: Vec<char> = Vec::new();
            push_str(&mut out, "**`");
            push_str(&mut out, word);
            push_str(&mut out, "`**\n\n_Type information not yet available._\n\n*Aria LSP is in early development. Semantic analysis will be integrated soon.*");
            string_from_chars(out.as_slice())
        },
    };
    Hover { markdown: text, range: None }
}

fn push_str(out: &mut Vec<char>, s: &str)
    ensures
        final(out)@ == old(out)@ + s@,
{
    let chars = str_chars(s);
    push_all(out, chars.as_slice());
}

/// A type, as an Aria code block.
pub fn format_type_info(type_str: &str) -> (r: String)
    ensures
        r@ == "```aria\n"@ + type_str@ + "\n```"@,
{
    let mut out: Vec<char> = Vec::new();
    push_str(&mut out, "```aria\n");
    push_str(&mut out, type_str);
    push_str(&mut out, "\n```");
    string_from_chars(out.as_slice())
}

/// The first `n` strings joined with `sep`.
pub open spec fn join(s: Seq<Seq<char>>, sep: Seq<char>, n: int) -> Seq<char>
    decreases n,
{
    if n <= 0 {
        Seq::empty()
    } else if n == 1 {
        s[0]
    } else {
        join(s, sep, n - 1) + sep + s[n - 1]
    }
}

/// The values of a list of strings.
pub open spec fn strs_view(v: Seq<String>) -> Seq<Seq<char>> {
    v.map_values(|s: String| s@)
}

/// The effects of a function, as a Markdown line; empty for no effects.
pub open spec fn effect_info(effects: Seq<Seq<char>>) -> Seq<char> {
    if effects.len() == 0 {
        Seq::empty()
    } else {
        "\n\n**Effects**: `!"@ + join(effects, ", "@, effects.len() as int) + "`"@
    }
}

/// The effects of a function, for hover text.
pub fn format_effect_info(effects: &[String]) -> (r: String)
    ensures
        r@ == effect_info(strs_view(effects@)),
{
    if effects.len() == 0 {
        return String::new();
    }
    let ghost sv = strs_view(effects@);
    let mut list: Vec<char> = Vec::new();
    push_str(&mut list, effects[0].as_str());
    let mut i: usize = 1;
    while i < effects.len()
        invariant
            sv == strs_view(effects@),
            1 <= i <= effects@.len(),
            list@ == join(sv, ", "@, i as int),
        decreases effects@.len() - i,
    {
        push_str(&mut list, ", ");
        push_str(&mut list, effects[i].as_str());
        i = i + 1;
    }
    let mut out: Vec<char> = Vec::new();
    push_str(&mut out, "\n\n**Effects**: `!");
    push_all(&mut out, list.as_slice());
    push_str(&mut out, "`");
    string_from_chars(out.as_slice())
}

/// A Markdown bullet of code for each of the first `n` strings.
pub open spec fn bullets(s: Seq<Seq<char>>, n: int) -> Seq<char>
    decreases n,
{
    if n <= 0 {
        Seq::empty()
    } else {
        bullets(s, n - 1) + "- `"@ + s[n - 1] + "`\n"@
    }
}

/// The contract of a function, for hover text: a `Requires` list and an
/// `Ensures` list, each only when not empty.
pub open spec fn contract_info(pre: Seq<Seq<char>>, post: Seq<Seq<char>>) -> Seq<char> {
    (if pre.len() == 0 { Seq::empty() } else { "\n\n**Requires**:\n"@ + bullets(pre, pre.len() as int) })
        + (if post.len() == 0 { Seq::empty() } else { "\n\n**Ensures**:\n"@ + bullets(post, post.len() as int) })
}

fn push_bullets(out: &mut Vec<char>, items: &[String])
    ensures
        final(out)@ == old(out)@ + bullets(strs_view(items@), items@.len() as int),
{
    let ghost sv = strs_view(items@);
    let ghost start = out@;
    let mut i: usize = 0;
    while i < items.len()
        invariant
            sv == strs_view(items@),
            0 <= i <= items@.len(),
            out@ == start + bullets(sv, i as int),
        decreases items@.len() - i,
    {
        push_str(out, "- `");
        push_str(out, items[i].as_str());
        push_str(out, "`\n");
        i = i + 1;
    }
}

/// The contract of a function, for hover text.
pub fn format_contract_info(pre: &[String], post: &[String]) -> (r: String)
    ensures
        r@ == contract_info(strs_view(pre@), strs_view(post@)),
{
    let mut out: Vec<char> = Vec::new();
    if pre.len() > 0 {
        push_str(&mut out, "\n\n**Requires**:\n");
        push_bullets(&mut out, pre);
    }
    let ghost mid = out@;
    if post.len() > 0 {
        push_str(&mut out, "\n\n**Ensures**:\n");
        push_bullets(&mut out, post);
    }
    string_from_chars(out.as_slice())
}

// ============================================================================
// Requests
// ============================================================================

/// The items offered for a completion context.
pub open spec fn items_for(ctx: CompletionContext, line: Option<Seq<char>>, character: u32) -> Seq<ItemV> {
    match ctx {
        CompletionContext::Keyword => keyword_items(),
        CompletionContext::Effect => effect_items(),
        CompletionContext::Type => type_items(),
        CompletionContext::Member => member_items(),
        CompletionContext::Contract => contract_items(),
        CompletionContext::General => general_items(line, character),
    }
}

/// The completion items at `position` in the document: the list for the
/// completion context there.
pub fn completion_items(doc: &Document, position: Position, trigger: Option<&str>) -> (r: Vec<CompletionItem>)
    ensures
        items_view(r@) == items_for(
            completion_context(doc_line(doc.chars(), position.line as int), position.character,
                match trigger { Some(t) => Some(t@), None => None }),
            doc_line(doc.chars(), position.line as int),
            position.character,
        ),
{
    match determine_completion_context(doc, position, trigger) {
        CompletionContext::Keyword => keyword_completions(),
        CompletionContext::Effect => effect_completions(),
        CompletionContext::Type => type_completions(),
        CompletionContext::Member => member_completions(),
        CompletionContext::Contract => contract_completions(),
        CompletionContext::General => general_completions(doc, position),
    }
}

/// The hover at `position` in the document: none off a word, else the
/// placeholder hover of the word.
pub fn hover_at(doc: &Document, position: Position) -> (r: Option<Hover>)
    ensures
        ({
            let w = crate::definition::word_at_spec(doc_line(doc.chars(), position.line as int), position);
            match r {
                Some(h) => w.len() > 0 && h.markdown@ == placeholder_text(w) && h.range is None,
                None => w.len() == 0,
            }
        }),
{
    let word = get_word_at_position(doc, position);
    if word.as_str().unicode_len() == 0 {
        None
    } else {
        Some(create_placeholder_hover(word.as_str()))
    }
}

} // verus!
