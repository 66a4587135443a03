//! Completion: candidates, the built-in providers, the completion context
//! of a cursor, and the merge of provider results.

use vstd::prelude::*;
use crate::lsp_types::Position;
use crate::state::{Document, doc_line};
use crate::definition::word_start;
use crate::text::{
    seq_starts_with, seq_ends_with, seq_contains, trim, trim_end, ident_char, unicode_lowercase,
    str_chars, string_from_chars, slice_chars, starts_with, ends_with, contains, trim_chars,
    trim_end_chars, is_identifier_char, to_lowercase, str_equal, chars_equal,
};

verus! {

/// Where in the source a completion was requested.
#[derive(Debug, Clone, PartialEq, Eq)]
pub enum CompletionContext {
    TopLevel,
    EffectAnnotation,
    TypePosition,
    MemberAccess { receiver: Option<String> },
    Expression,
    Contract,
    Pattern,
    ImportPath,
    Attribute,
    GenericParams,
    Unknown,
}

/// The kind of a completion item.
#[derive(Debug, Clone, Copy, PartialEq, Eq, Structural, Hash)]
pub enum CompletionKind {
    Keyword,
    Function,
    Method,
    Field,
    Variable,
    Constant,
    Type,
    TypeParameter,
    EnumVariant,
    Module,
    Property,
    Effect,
    Handler,
    Contract,
    Snippet,
    File,
    Folder,
    Operator,
}

/// Tags of completion items.
#[derive(Debug, Clone, Copy, PartialEq, Eq, Structural, Hash)]
pub enum CompletionTag {
    Deprecated,
}

/// A completion item with ranking data.
#[derive(Debug, Clone)]
pub struct CompletionCandidate {
    /// The label shown in the list.
    pub label: String,
    /// The kind of item.
    pub kind: CompletionKind,
    /// Detail text.
    pub detail: Option<String>,
    /// Documentation.
    pub documentation: Option<String>,
    /// Text to insert, if not the label.
    pub insert_text: Option<String>,
    /// Whether the insert text is a snippet.
    pub is_snippet: bool,
    /// Sort priority; lower comes first.
    pub priority: u32,
    /// Whether to preselect the item.
    pub preselect: bool,
    /// Text used for filtering.
    pub filter_text: Option<String>,
    /// Extra data for resolving.
    pub data: Option<String>,
    /// Whether the item is deprecated.
    pub deprecated: bool,
    /// Tags.
    pub tags: Vec<CompletionTag>,
}

/// The characters of an optional string.
pub open spec fn opt_view(s: Option<String>) -> Option<Seq<char>> {
    match s {
        Some(s) => Some(s@),
        None => None,
    }
}

/// `c` is the candidate a provider builds: the given fields, and the
/// defaults of `CompletionCandidate::new` elsewhere.
pub open spec fn is_candidate(
    c: CompletionCandidate,
    label: Seq<char>,
    kind: CompletionKind,
    detail: Seq<char>,
    documentation: Option<Seq<char>>,
    snippet: Option<Seq<char>>,
    priority: u32,
) -> bool {
    &&& c.label@ == label
    &&& c.kind == kind
    &&& opt_view(c.detail) == Some(detail)
    &&& opt_view(c.documentation) == documentation
    &&& opt_view(c.insert_text) == snippet
    &&& c.is_snippet == (snippet is Some)
    &&& c.priority == priority
    &&& !c.preselect
    &&& c.filter_text is None
    &&& c.data is None
    &&& !c.deprecated
    &&& c.tags@.len() == 0
}

impl CompletionCandidate {
    /// A candidate with the given label and kind and default settings.
    pub fn new(label: String, kind: CompletionKind) -> (c: Self)
        ensures
            c.label == label,
            c.kind == kind,
            c.detail is None,
            c.documentation is None,
            c.insert_text is None,
            !c.is_snippet,
            c.priority == 100,
            !c.preselect,
            c.filter_text is None,
            c.data is None,
            !c.deprecated,
            c.tags@.len() == 0,
    {
        Self {
            label,
            kind,
            detail: None,
            documentation: None,
            insert_text: None,
            is_snippet: false,
            priority: 100,
            preselect: false,
            filter_text: None,
            data: None,
            deprecated: false,
            tags: Vec::new(),
        }
    }

    /// Sets the detail text.
    pub fn with_detail(self, detail: String) -> (c: Self)
        ensures
            c == (CompletionCandidate { detail: Some(detail), ..self }),
    {
        CompletionCandidate { detail: Some(detail), ..self }
    }

    /// Sets the documentation.
    pub fn with_documentation(self, doc: String) -> (c: Self)
        ensures
            c == (CompletionCandidate { documentation: Some(doc), ..self }),
    {
        CompletionCandidate { documentation: Some(doc), ..self }
    }

    /// Sets the text to insert.
    pub fn with_insert_text(self, text: String) -> (c: Self)
        ensures
            c == (CompletionCandidate { insert_text: Some(text), ..self }),
    {
        CompletionCandidate { insert_text: Some(text), ..self }
    }

    /// Sets a snippet as the text to insert.
    pub fn as_snippet(self, snippet: String) -> (c: Self)
        ensures
            c == (CompletionCandidate { insert_text: Some(snippet), is_snippet: true, ..self }),
    {
        CompletionCandidate { insert_text: Some(snippet), is_snippet: true, ..self }
    }

    /// Sets the priority.
    pub fn with_priority(self, priority: u32) -> (c: Self)
        ensures
            c == (CompletionCandidate { priority, ..self }),
    {
        CompletionCandidate { priority, ..self }
    }

    /// Marks the candidate preselected.
    pub fn preselected(self) -> (c: Self)
        ensures
            c == (CompletionCandidate { preselect: true, ..self }),
    {
        CompletionCandidate { preselect: true, ..self }
    }

    /// Marks the candidate deprecated and tags it so.
    pub fn deprecated(self) -> (c: Self)
        ensures
            c.deprecated,
            c.tags@ == self.tags@.push(CompletionTag::Deprecated),
            c.label == self.label,
            c.kind == self.kind,
            c.detail == self.detail,
            c.documentation == self.documentation,
            c.insert_text == self.insert_text,
            c.is_snippet == self.is_snippet,
            c.priority == self.priority,
            c.preselect == self.preselect,
            c.filter_text == self.filter_text,
            c.data == self.data,
    {
        let mut c = self;
        c.deprecated = true;
        c.tags.push(CompletionTag::Deprecated);
        c
    }
}

// ============================================================================
// Built-in providers
// ============================================================================

/// Whether `prefix` admits `label`: an empty prefix admits everything,
/// otherwise the label must start with it.
pub open spec fn prefix_admits(label: Seq<char>, prefix: Seq<char>) -> bool {
    prefix.len() == 0 || seq_starts_with(label, prefix)
}

/// Whether `prefix` admits `label` ignoring case (Unicode lowercasing).
pub open spec fn prefix_admits_nocase(label: Seq<char>, prefix: Seq<char>) -> bool {
    prefix.len() == 0 || seq_starts_with(unicode_lowercase(label), unicode_lowercase(prefix))
}

/// A table entry: label, detail, optional documentation, optional snippet.
pub type SpecEntry = (Seq<char>, Seq<char>, Option<Seq<char>>, Option<Seq<char>>);

/// A table entry in executable form.
pub type Entry = (&'static str, &'static str, Option<&'static str>, Option<&'static str>);

/// The characters of an optional string slice.
pub open spec fn opt_str_view(s: Option<&str>) -> Option<Seq<char>> {
    match s {
        Some(s) => Some(s@),
        None => None,
    }
}

/// The characters of the fields of an entry.
pub open spec fn entry_view(e: Entry) -> SpecEntry {
    (e.0@, e.1@, opt_str_view(e.2), opt_str_view(e.3))
}

/// How a provider matches the typed prefix against labels.
#[derive(Debug, Clone, Copy, PartialEq, Eq, Structural)]
pub enum MatchMode {
    /// Case-sensitive prefix.
    Prefix,
    /// Case-insensitive prefix.
    PrefixNoCase,
    /// Case-insensitive substring.
    ContainsNoCase,
}

/// Whether the typed prefix admits a label; an empty prefix admits all.
pub open spec fn admits(label: Seq<char>, prefix: Seq<char>, mode: MatchMode) -> bool {
    prefix.len() == 0 || match mode {
        MatchMode::Prefix => seq_starts_with(label, prefix),
        MatchMode::PrefixNoCase => seq_starts_with(unicode_lowercase(label), unicode_lowercase(prefix)),
        MatchMode::ContainsNoCase => seq_contains(unicode_lowercase(label), unicode_lowercase(prefix)),
    }
}

/// The entries of `table` that the prefix admits, in table order.
pub open spec fn selected(table: Seq<SpecEntry>, prefix: Seq<char>, mode: MatchMode) -> Seq<SpecEntry> {
    table.filter(|e: SpecEntry| admits(e.0, prefix, mode))
}

/// `r` holds one candidate of the given kind and priority per entry of `sel`.
pub open spec fn built_from(
    r: Seq<CompletionCandidate>,
    sel: Seq<SpecEntry>,
    kind: CompletionKind,
    priority: u32,
) -> bool {
    &&& r.len() == sel.len()
    &&& forall|k: int| 0 <= k < r.len() ==> is_candidate(#[trigger] r[k], sel[k].0, kind, sel[k].1, sel[k].2, sel[k].3, priority)
}

fn admits_exec(label: &str, prefix: &str, mode: MatchMode) -> (b: bool)
    ensures
        b == admits(label@, prefix@, mode),
{
    let p = str_chars(prefix);
    if p.len() == 0 {
        return true;
    }
    match mode {
        MatchMode::Prefix => {
            let l = str_chars(label);
            starts_with(l.as_slice(), p.as_slice())
        },
        MatchMode::PrefixNoCase => {
            let ll = to_lowercase(label);
            let lp = to_lowercase(prefix);
            let l = str_chars(ll.as_str());
            let q = str_chars(lp.as_str());
            starts_with(l.as_slice(), q.as_slice())
        },
        MatchMode::ContainsNoCase => {
            let ll = to_lowercase(label);
            let lp = to_lowercase(prefix);
            let l = str_chars(ll.as_str());
            let q = str_chars(lp.as_str());
            contains(l.as_slice(), q.as_slice())
        },
    }
}

fn owned(s: &str) -> (r: String)
    ensures
        r@ == s@,
{
    s.to_owned()
}

fn owned_opt(s: Option<&str>) -> (r: Option<String>)
    ensures
        opt_view(r) == opt_str_view(s),
{
    match s {
        Some(s) => Some(owned(s)),
        None => None,
    }
}

/// Builds a candidate from each entry of `table` that `prefix` admits.
fn provide_from(
    table: &[Entry],
    prefix: &str,
    mode: MatchMode,
    kind: CompletionKind,
    priority: u32,
) -> (r: Vec<CompletionCandidate>)
    ensures
        built_from(r@, selected(table@.map_values(|e: Entry| entry_view(e)), prefix@, mode), kind, priority),
{
    let ghost spec_table = table@.map_values(|e: Entry| entry_view(e));
    let ghost pred = |e: SpecEntry| admits(e.0, prefix@, mode);
    let mut r: Vec<CompletionCandidate> = Vec::new();
    let mut i: usize = 0;
    while i < table.len()
        invariant
            0 <= i <= table@.len(),
            spec_table == table@.map_values(|e: Entry| entry_view(e)),
            pred == (|e: SpecEntry| admits(e.0, prefix@, mode)),
            built_from(r@, spec_table.take(i as int).filter(pred), kind, priority),
        decreases table@.len() - i,
    {
        let e = table[i];
        proof {
            reveal_with_fuel(Seq::<_>::filter, 1);
        }
        assert(spec_table.take(i + 1).drop_last() =~= spec_table.take(i as int));
        assert(spec_table.take(i + 1).last() == entry_view(e));
        if admits_exec(e.0, prefix, mode) {
            let mut c = CompletionCandidate::new(owned(e.0), kind).with_detail(owned(e.1));
            c.documentation = owned_opt(e.2);
            match e.3 {
                Some(snip) => {
                    c = c.as_snippet(owned(snip));
                },
                None => {},
            }
            c = c.with_priority(priority);
            r.push(c);
            proof {
                let sel = spec_table.take(i + 1).filter(pred);
                assert(sel == spec_table.take(i as int).filter(pred).push(entry_view(e)));
                assert forall|k: int| 0 <= k < r@.len() implies is_candidate(#[trigger] r@[k], sel[k].0, kind, sel[k].1, sel[k].2, sel[k].3, priority) by {
                    if k < r@.len() - 1 {
                        assert(r@[k] == old_r_at(r@, k));
                    }
                }
            }
        } else {
            assert(spec_table.take(i + 1).filter(pred) == spec_table.take(i as int).filter(pred));
        }
        i = i + 1;
    }
    assert(spec_table.take(table@.len() as int) =~= spec_table);
    r
}

spec fn old_r_at(r: Seq<CompletionCandidate>, k: int) -> CompletionCandidate {
    r[k]
}

/// The keyword table.
pub open spec fn keyword_table() -> Seq<SpecEntry> {
    seq![
        ("fn"@, "Define a function"@, None, Some("fn ${1:name}($2) {\n\t$0\n}"@)),
        ("let"@, "Declare a variable"@, None, Some("let ${1:name} = $0;"@)),
        ("mut"@, "Mutable binding"@, None, Some("mut "@)),
        ("if"@, "Conditional expression"@, None, Some("if ${1:condition} {\n\t$0\n}"@)),
        ("else"@, "Alternative branch"@, None, Some("else {\n\t$0\n}"@)),
        ("while"@, "While loop"@, None, Some("while ${1:condition} {\n\t$0\n}"@)),
        ("for"@, "For loop"@, None, Some("for ${1:item} in ${2:iter} {\n\t$0\n}"@)),
        ("return"@, "Return from function"@, None, Some("return $0;"@)),
        ("struct"@, "Define a struct"@, None, Some("struct ${1:Name} {\n\t$0\n}"@)),
        ("enum"@, "Define an enum"@, None, Some("enum ${1:Name} {\n\t$0\n}"@)),
        ("trait"@, "Define a trait"@, None, Some("trait ${1:Name} {\n\t$0\n}"@)),
        ("impl"@, "Implement methods"@, None, Some("impl ${1:Type} {\n\t$0\n}"@)),
        ("effect"@, "Define an effect"@, None, Some("effect ${1:Name} {\n\t$0\n}"@)),
        ("handle"@, "Handle an effect"@, None, Some("handle {\n\t$0\n}"@)),
        ("match"@, "Pattern matching"@, None, Some("match ${1:expr} {\n\t$0\n}"@)),
        ("use"@, "Import item"@, None, Some("use ${0:path};"@)),
        ("mod"@, "Define module"@, None, Some("mod ${0:name};"@)),
        ("pub"@, "Public visibility"@, None, Some("pub "@)),
        ("true"@, "Boolean true"@, None, Some("true"@)),
        ("false"@, "Boolean false"@, None, Some("false"@)),
        ("self"@, "Current instance"@, None, Some("self"@)),
        ("Self"@, "Current type"@, None, Some("Self"@))
    ]
}

fn keyword_table_exec() -> (t: [Entry; 22])
    ensures
        t@.map_values(|e: Entry| entry_view(e)) == keyword_table(),
{
    let t: [Entry; 22] = [
        ("fn", "Define a function", None, Some("fn ${1:name}($2) {\n\t$0\n}")),
        ("let", "Declare a variable", None, Some("let ${1:name} = $0;")),
        ("mut", "Mutable binding", None, Some("mut ")),
        ("if", "Conditional expression", None, Some("if ${1:condition} {\n\t$0\n}")),
        ("else", "Alternative branch", None, Some("else {\n\t$0\n}")),
        ("while", "While loop", None, Some("while ${1:condition} {\n\t$0\n}")),
        ("for", "For loop", None, Some("for ${1:item} in ${2:iter} {\n\t$0\n}")),
        ("return", "Return from function", None, Some("return $0;")),
        ("struct", "Define a struct", None, Some("struct ${1:Name} {\n\t$0\n}")),
        ("enum", "Define an enum", None, Some("enum ${1:Name} {\n\t$0\n}")),
        ("trait", "Define a trait", None, Some("trait ${1:Name} {\n\t$0\n}")),
        ("impl", "Implement methods", None, Some("impl ${1:Type} {\n\t$0\n}")),
        ("effect", "Define an effect", None, Some("effect ${1:Name} {\n\t$0\n}")),
        ("handle", "Handle an effect", None, Some("handle {\n\t$0\n}")),
        ("match", "Pattern matching", None, Some("match ${1:expr} {\n\t$0\n}")),
        ("use", "Import item", None, Some("use ${0:path};")),
        ("mod", "Define module", None, Some("mod ${0:name};")),
        ("pub", "Public visibility", None, Some("pub ")),
        ("true", "Boolean true", None, Some("true")),
        ("false", "Boolean false", None, Some("false")),
        ("self", "Current instance", None, Some("self")),
        ("Self", "Current type", None, Some("Self")),
    ];
    assert(t@.map_values(|e: Entry| entry_view(e)) =~= keyword_table());
    t
}

/// Keywords of the language.
pub struct KeywordProvider;

impl KeywordProvider {
    /// The provider's name.
    pub fn name(&self) -> (s: &'static str)
        ensures
            s@ == "keywords"@,
    {
        "keywords"
    }

    /// Keywords are offered at top level, in expressions and when unsure.
    pub fn can_handle(&self, context: &CompletionContext) -> (b: bool)
        ensures
            b == (context is TopLevel || context is Expression || context is Unknown),
    {
        match context {
            CompletionContext::TopLevel | CompletionContext::Expression | CompletionContext::Unknown => true,
            _ => false,
        }
    }

    /// The keywords that start with `prefix`, as snippets of priority 10.
    pub fn provide(&self, context: &CompletionContext, prefix: &str) -> (r: Vec<CompletionCandidate>)
        ensures
            built_from(r@, selected(keyword_table(), prefix@, MatchMode::Prefix), CompletionKind::Keyword, 10),
    {
        let t = keyword_table_exec();
        provide_from(&t, prefix, MatchMode::Prefix, CompletionKind::Keyword, 10)
    }
}

/// The effect table.
pub open spec fn effect_table() -> Seq<SpecEntry> {
    seq![
        ("IO"@, "General input/output effect"@, Some("Represents any I/O operation."@), None),
        ("Console"@, "Console I/O effect"@, Some("Reading from stdin or writing to stdout/stderr."@), None),
        ("Async"@, "Asynchronous computation"@, Some("Represents async/await operations."@), None),
        ("Exception"@, "Exception effect"@, Some("Represents operations that may throw."@), None),
        ("State"@, "Mutable state effect"@, Some("Represents mutable state operations."@), None),
        ("Reader"@, "Reader effect"@, Some("Environment reading operations."@), None),
        ("Writer"@, "Writer effect"@, Some("Logging/output accumulation."@), None),
        ("NonDet"@, "Non-determinism"@, Some("Non-deterministic choice operations."@), None),
        ("Abort"@, "Abort effect"@, Some("Early termination with a value."@), None),
        ("Amb"@, "Ambiguity effect"@, Some("Multiple possible values."@), None)
    ]
}

fn effect_table_exec() -> (t: [Entry; 10])
    ensures
        t@.map_values(|e: Entry| entry_view(e)) == effect_table(),
{
    let t: [Entry; 10] = [
        ("IO", "General input/output effect", Some("Represents any I/O operation."), None),
        ("Console", "Console I/O effect", Some("Reading from stdin or writing to stdout/stderr."), None),
        ("Async", "Asynchronous computation", Some("Represents async/await operations."), None),
        ("Exception", "Exception effect", Some("Represents operations that may throw."), None),
        ("State", "Mutable state effect", Some("Represents mutable state operations."), None),
        ("Reader", "Reader effect", Some("Environment reading operations."), None),
        ("Writer", "Writer effect", Some("Logging/output accumulation."), None),
        ("NonDet", "Non-determinism", Some("Non-deterministic choice operations."), None),
        ("Abort", "Abort effect", Some("Early termination with a value."), None),
        ("Amb", "Ambiguity effect", Some("Multiple possible values."), None),
    ];
    assert(t@.map_values(|e: Entry| entry_view(e)) =~= effect_table());
    t
}

/// The type table.
pub open spec fn type_table() -> Seq<SpecEntry> {
    seq![
        ("Int"@, "Integer type (64-bit signed)"@, None, None),
        ("Int8"@, "8-bit signed integer"@, None, None),
        ("Int16"@, "16-bit signed integer"@, None, None),
        ("Int32"@, "32-bit signed integer"@, None, None),
        ("Int64"@, "64-bit signed integer"@, None, None),
        ("UInt"@, "Unsigned integer"@, None, None),
        ("UInt8"@, "8-bit unsigned integer"@, None, None),
        ("UInt16"@, "16-bit unsigned integer"@, None, None),
        ("UInt32"@, "32-bit unsigned integer"@, None, None),
        ("UInt64"@, "64-bit unsigned integer"@, None, None),
        ("Float"@, "Floating point (64-bit)"@, None, None),
        ("Float32"@, "32-bit floating point"@, None, None),
        ("Float64"@, "64-bit floating point"@, None, None),
        ("Bool"@, "Boolean type"@, None, None),
        ("Char"@, "Unicode character"@, None, None),
        ("String"@, "UTF-8 string"@, None, None),
        ("Unit"@, "Unit type ()"@, None, None),
        ("Never"@, "Never type (!)"@, None, None),
        ("Option"@, "Optional value"@, None, None),
        ("Result"@, "Result type for error handling"@, None, None),
        ("List"@, "List collection"@, None, None),
        ("Map"@, "Key-value map"@, None, None),
        ("Set"@, "Set collection"@, None, None),
        ("Vec"@, "Vector/array type"@, None, None),
        ("Box"@, "Heap-allocated box"@, None, None),
        ("Rc"@, "Reference counted pointer"@, None, None),
        ("Arc"@, "Atomic reference counted pointer"@, None, None)
    ]
}

fn type_table_exec() -> (t: [Entry; 27])
    ensures
        t@.map_values(|e: Entry| entry_view(e)) == type_table(),
{
    let t: [Entry; 27] = [
        ("Int", "Integer type (64-bit signed)", None, None),
        ("Int8", "8-bit signed integer", None, None),
        ("Int16", "16-bit signed integer", None, None),
        ("Int32", "32-bit signed integer", None, None),
        ("Int64", "64-bit signed integer", None, None),
        ("UInt", "Unsigned integer", None, None),
        ("UInt8", "8-bit unsigned integer", None, None),
        ("UInt16", "16-bit unsigned integer", None, None),
        ("UInt32", "32-bit unsigned integer", None, None),
        ("UInt64", "64-bit unsigned integer", None, None),
        ("Float", "Floating point (64-bit)", None, None),
        ("Float32", "32-bit floating point", None, None),
        ("Float64", "64-bit floating point", None, None),
        ("Bool", "Boolean type", None, None),
        ("Char", "Unicode character", None, None),
        ("String", "UTF-8 string", None, None),
        ("Unit", "Unit type ()", None, None),
        ("Never", "Never type (!)", None, None),
        ("Option", "Optional value", None, None),
        ("Result", "Result type for error handling", None, None),
        ("List", "List collection", None, None),
        ("Map", "Key-value map", None, None),
        ("Set", "Set collection", None, None),
        ("Vec", "Vector/array type", None, None),
        ("Box", "Heap-allocated box", None, None),
        ("Rc", "Reference counted pointer", None, None),
        ("Arc", "Atomic reference counted pointer", None, None),
    ];
    assert(t@.map_values(|e: Entry| entry_view(e)) =~= type_table());
    t
}

/// The contract table.
pub open spec fn contract_table() -> Seq<SpecEntry> {
    seq![
        ("requires"@, "Precondition"@, None, Some("requires ${0:condition}"@)),
        ("ensures"@, "Postcondition"@, None, Some("ensures ${0:condition}"@)),
        ("invariant"@, "Loop/type invariant"@, None, Some("invariant ${0:condition}"@)),
        ("assert"@, "Runtime assertion"@, None, Some("assert ${0:condition}"@)),
        ("assume"@, "Compiler assumption"@, None, Some("assume ${0:condition}"@))
    ]
}

fn contract_table_exec() -> (t: [Entry; 5])
    ensures
        t@.map_values(|e: Entry| entry_view(e)) == contract_table(),
{
    let t: [Entry; 5] = [
        ("requires", "Precondition", None, Some("requires ${0:condition}")),
        ("ensures", "Postcondition", None, Some("ensures ${0:condition}")),
        ("invariant", "Loop/type invariant", None, Some("invariant ${0:condition}")),
        ("assert", "Runtime assertion", None, Some("assert ${0:condition}")),
        ("assume", "Compiler assumption", None, Some("assume ${0:condition}")),
    ];
    assert(t@.map_values(|e: Entry| entry_view(e)) =~= contract_table());
    t
}

/// The special table.
pub open spec fn special_table() -> Seq<SpecEntry> {
    seq![
        ("old"@, "Pre-state value"@, None, Some("old(${0:expr})"@)),
        ("result"@, "Return value"@, None, Some("result"@)),
        ("forall"@, "Universal quantifier"@, None, Some("forall ${1:x} in ${2:range} => ${0:condition}"@)),
        ("exists"@, "Existential quantifier"@, None, Some("exists ${1:x} in ${2:range} => ${0:condition}"@))
    ]
}

fn special_table_exec() -> (t: [Entry; 4])
    ensures
        t@.map_values(|e: Entry| entry_view(e)) == special_table(),
{
    let t: [Entry; 4] = [
        ("old", "Pre-state value", None, Some("old(${0:expr})")),
        ("result", "Return value", None, Some("result")),
        ("forall", "Universal quantifier", None, Some("forall ${1:x} in ${2:range} => ${0:condition}")),
        ("exists", "Existential quantifier", None, Some("exists ${1:x} in ${2:range} => ${0:condition}")),
    ];
    assert(t@.map_values(|e: Entry| entry_view(e)) =~= special_table());
    t
}

/// The snippet table.
pub open spec fn snippet_table() -> Seq<SpecEntry> {
    seq![
        ("fn main"@, "Main function"@, Some("Entry point for the program"@), Some("fn main() {\n\t$0\n}"@)),
        ("fn test"@, "Test function"@, Some("Unit test function"@), Some("#[test]\nfn test_${1:name}() {\n\t$0\n}"@)),
        ("struct new"@, "Struct with constructor"@, Some("Struct with new constructor"@), Some("struct ${1:Name} {\n\t${2:field}: ${3:Type},\n}\n\nimpl ${1:Name} {\n\tfn new(${2:field}: ${3:Type}) -> Self {\n\t\tSelf { ${2:field} }\n\t}\n}"@)),
        ("match option"@, "Match on Option"@, Some("Pattern match on Option type"@), Some("match ${1:opt} {\n\tSome(${2:value}) => $0,\n\tNone => todo!(),\n}"@)),
        ("match result"@, "Match on Result"@, Some("Pattern match on Result type"@), Some("match ${1:result} {\n\tOk(${2:value}) => $0,\n\tErr(${3:err}) => todo!(),\n}"@)),
        ("effect handler"@, "Effect handler block"@, Some("Handle algebraic effects"@), Some("handle {\n\t${1:effectful_expr}\n} with {\n\t${2:Effect}::${3:operation}(${4:args}) => $0,\n}"@)),
        ("impl trait"@, "Trait implementation"@, Some("Implement a trait for a type"@), Some("impl ${1:Trait} for ${2:Type} {\n\t$0\n}"@))
    ]
}

fn snippet_table_exec() -> (t: [Entry; 7])
    ensures
        t@.map_values(|e: Entry| entry_view(e)) == snippet_table(),
{
    let t: [Entry; 7] = [
        ("fn main", "Main function", Some("Entry point for the program"), Some("fn main() {\n\t$0\n}")),
        ("fn test", "Test function", Some("Unit test function"), Some("#[test]\nfn test_${1:name}() {\n\t$0\n}")),
        ("struct new", "Struct with constructor", Some("Struct with new constructor"), Some("struct ${1:Name} {\n\t${2:field}: ${3:Type},\n}\n\nimpl ${1:Name} {\n\tfn new(${2:field}: ${3:Type}) -> Self {\n\t\tSelf { ${2:field} }\n\t}\n}")),
        ("match option", "Match on Option", Some("Pattern match on Option type"), Some("match ${1:opt} {\n\tSome(${2:value}) => $0,\n\tNone => todo!(),\n}")),
        ("match result", "Match on Result", Some("Pattern match on Result type"), Some("match ${1:result} {\n\tOk(${2:value}) => $0,\n\tErr(${3:err}) => todo!(),\n}")),
        ("effect handler", "Effect handler block", Some("Handle algebraic effects"), Some("handle {\n\t${1:effectful_expr}\n} with {\n\t${2:Effect}::${3:operation}(${4:args}) => $0,\n}")),
        ("impl trait", "Trait implementation", Some("Implement a trait for a type"), Some("impl ${1:Trait} for ${2:Type} {\n\t$0\n}")),
    ];
    assert(t@.map_values(|e: Entry| entry_view(e)) =~= snippet_table());
    t
}

/// Effect names.
pub struct EffectProvider;

impl EffectProvider {
    /// The provider's name.
    pub fn name(&self) -> (s: &'static str)
        ensures
            s@ == "effects"@,
    {
        "effects"
    }

    /// Effects are offered after `!`.
    pub fn can_handle(&self, context: &CompletionContext) -> (b: bool)
        ensures
            b == (context is EffectAnnotation),
    {
        match context {
            CompletionContext::EffectAnnotation => true,
            _ => false,
        }
    }

    /// The effects whose names start with `prefix`, ignoring case.
    pub fn provide(&self, context: &CompletionContext, prefix: &str) -> (r: Vec<CompletionCandidate>)
        ensures
            built_from(r@, selected(effect_table(), prefix@, MatchMode::PrefixNoCase), CompletionKind::Effect, 5),
    {
        let t = effect_table_exec();
        provide_from(&t, prefix, MatchMode::PrefixNoCase, CompletionKind::Effect, 5)
    }
}

/// Type names.
pub struct TypeProvider;

impl TypeProvider {
    /// The provider's name.
    pub fn name(&self) -> (s: &'static str)
        ensures
            s@ == "types"@,
    {
        "types"
    }

    /// Types are offered in type position and generic parameter lists.
    pub fn can_handle(&self, context: &CompletionContext) -> (b: bool)
        ensures
            b == (context is TypePosition || context is GenericParams),
    {
        match context {
            CompletionContext::TypePosition | CompletionContext::GenericParams => true,
            _ => false,
        }
    }

    /// The types whose names start with `prefix`, ignoring case.
    pub fn provide(&self, context: &CompletionContext, prefix: &str) -> (r: Vec<CompletionCandidate>)
        ensures
            built_from(r@, selected(type_table(), prefix@, MatchMode::PrefixNoCase), CompletionKind::Type, 15),
    {
        let t = type_table_exec();
        provide_from(&t, prefix, MatchMode::PrefixNoCase, CompletionKind::Type, 15)
    }
}

/// Contract keywords, and in contracts the special identifiers.
pub struct ContractProvider;

impl ContractProvider {
    /// The provider's name.
    pub fn name(&self) -> (s: &'static str)
        ensures
            s@ == "contracts"@,
    {
        "contracts"
    }

    /// Contract keywords are offered in contracts and at top level.
    pub fn can_handle(&self, context: &CompletionContext) -> (b: bool)
        ensures
            b == (context is Contract || context is TopLevel),
    {
        match context {
            CompletionContext::Contract | CompletionContext::TopLevel => true,
            _ => false,
        }
    }

    /// The contract keywords starting with `prefix` (priority 20); inside a
    /// contract, followed by the special identifiers starting with it
    /// (functions of priority 25).
    pub fn provide(&self, context: &CompletionContext, prefix: &str) -> (r: Vec<CompletionCandidate>)
        ensures
            exists|a: Seq<CompletionCandidate>, b: Seq<CompletionCandidate>| {
                &&& r@ == a + b
                &&& built_from(a, selected(contract_table(), prefix@, MatchMode::Prefix), CompletionKind::Contract, 20)
                &&& if context is Contract {
                    built_from(b, selected(special_table(), prefix@, MatchMode::Prefix), CompletionKind::Function, 25)
                } else {
                    b.len() == 0
                }
            },
    {
        let t = contract_table_exec();
        let mut items = provide_from(&t, prefix, MatchMode::Prefix, CompletionKind::Contract, 20);
        let ghost a = items@;
        match context {
            CompletionContext::Contract => {
                let u = special_table_exec();
                let mut more = provide_from(&u, prefix, MatchMode::Prefix, CompletionKind::Function, 25);
                let ghost b = more@;
                items.append(&mut more);
                assert(items@ == a + b);
            },
            _ => {
                assert(items@ == a + Seq::<CompletionCandidate>::empty());
            },
        }
        items
    }
}

/// Code snippets.
pub struct SnippetProvider;

impl SnippetProvider {
    /// The provider's name.
    pub fn name(&self) -> (s: &'static str)
        ensures
            s@ == "snippets"@,
    {
        "snippets"
    }

    /// Snippets are offered at top level and in expressions.
    pub fn can_handle(&self, context: &CompletionContext) -> (b: bool)
        ensures
            b == (context is TopLevel || context is Expression),
    {
        match context {
            CompletionContext::TopLevel | CompletionContext::Expression => true,
            _ => false,
        }
    }

    /// The snippets whose labels contain `prefix`, ignoring case.
    pub fn provide(&self, context: &CompletionContext, prefix: &str) -> (r: Vec<CompletionCandidate>)
        ensures
            built_from(r@, selected(snippet_table(), prefix@, MatchMode::ContainsNoCase), CompletionKind::Snippet, 50),
    {
        let t = snippet_table_exec();
        provide_from(&t, prefix, MatchMode::ContainsNoCase, CompletionKind::Snippet, 50)
    }
}

// ============================================================================
// Completion context
// ============================================================================

/// `s` without its trailing dots.
pub open spec fn trim_end_dots(s: Seq<char>) -> Seq<char>
    decreases s.len(),
{
    if s.len() > 0 && s.last() == '.' {
        trim_end_dots(s.drop_last())
    } else {
        s
    }
}

/// A closing bracket.
pub open spec fn is_closer(c: char) -> bool {
    c == ')' || c == ']' || c == '}'
}

/// An opening bracket.
pub open spec fn is_opener(c: char) -> bool {
    c == '(' || c == '[' || c == '{'
}

/// A character that ends a receiver when met outside brackets.
pub open spec fn is_receiver_stop(c: char) -> bool {
    c == '.' || c == ' ' || c == '\t' || c == ',' || c == ';' || c == '='
}

/// Scanning `c[..i]` from the right with bracket depth `depth`: the index of
/// the first stop character met at depth zero, if any.
pub open spec fn receiver_stop(c: Seq<char>, i: int, depth: int) -> Option<int>
    decreases i,
{
    if i <= 0 || i > c.len() {
        None
    } else {
        let ch = c[i - 1];
        if is_closer(ch) {
            receiver_stop(c, i - 1, depth + 1)
        } else if is_opener(ch) {
            receiver_stop(c, i - 1, depth - 1)
        } else if is_receiver_stop(ch) && depth == 0 {
            Some(i - 1)
        } else {
            receiver_stop(c, i - 1, depth)
        }
    }
}

/// The receiver of a member access written before a trailing dot: the text
/// after the last top-level separator, trimmed; none when that is empty.
pub open spec fn receiver_spec(before_dot: Seq<char>) -> Option<Seq<char>> {
    let c = trim_end_dots(before_dot);
    let n = c.len() as int;
    match receiver_stop(c, n, 0) {
        Some(k) => {
            let r = c.subrange(k + 1, n);
            if r.len() == 0 {
                None
            } else {
                Some(trim(r))
            }
        },
        None => if trim(c).len() == 0 {
            None
        } else {
            Some(trim(c))
        },
    }
}

fn trim_end_dots_exec(s: &[char]) -> (r: Vec<char>)
    ensures
        r@ == trim_end_dots(s@),
{
    let mut j: usize = s.len();
    assert(s@.subrange(0, j as int) =~= s@);
    while j > 0 && s[j - 1] == '.'
        invariant
            0 <= j <= s@.len(),
            trim_end_dots(s@) == trim_end_dots(s@.subrange(0, j as int)),
        decreases j,
    {
        assert(s@.subrange(0, j as int).drop_last() =~= s@.subrange(0, j - 1));
        j = j - 1;
    }
    slice_chars(s, 0, j)
}

fn opt_string(v: &[char]) -> (r: Option<String>)
    ensures
        opt_view(r) == (if trim(v@).len() == 0 { None } else { Some(trim(v@)) }),
{
    let t = trim_chars(v);
    if t.len() == 0 {
        None
    } else {
        Some(string_from_chars(t.as_slice()))
    }
}

/// The receiver of a member access before a dot (e.g. `b` in `let a = b.`).
pub fn extract_receiver(before_dot: &str) -> (r: Option<String>)
    ensures
        opt_view(r) == receiver_spec(before_dot@),
{
    let all = str_chars(before_dot);
    let c = trim_end_dots_exec(all.as_slice());
    proof {
        lemma_trim_end_dots_len(all@);
    }
    let end = c.len();
    let mut depth: i128 = 0;
    let mut i: usize = end;
    while i > 0
        invariant
            end == c@.len(),
            c@ == trim_end_dots(before_dot@),
            c@.len() <= usize::MAX,
            0 <= i <= end,
            -(end - i) <= depth <= end - i,
            receiver_stop(c@, end as int, 0) == receiver_stop(c@, i as int, depth as int),
        decreases i,
    {
        let ch = c[i - 1];
        if ch == ')' || ch == ']' || ch == '}' {
            depth = depth + 1;
        } else if ch == '(' || ch == '[' || ch == '{' {
            depth = depth - 1;
        } else if (ch == '.' || ch == ' ' || ch == '\t' || ch == ',' || ch == ';' || ch == '=')
            && depth == 0 {
            assert(receiver_stop(c@, i as int, depth as int) == Some(i - 1));
            let receiver = slice_chars(c.as_slice(), i, end);
            if receiver.len() == 0 {
                return None;
            }
            return opt_string_nonempty(receiver.as_slice());
        }
        i = i - 1;
    }
    assert(receiver_stop(c@, 0, depth as int) is None);
    opt_string(c.as_slice())
}

fn opt_string_nonempty(v: &[char]) -> (r: Option<String>)
    ensures
        opt_view(r) == Some(trim(v@)),
{
    let t = trim_chars(v);
    Some(string_from_chars(t.as_slice()))
}

proof fn lemma_trim_end_dots_len(s: Seq<char>)
    ensures
        trim_end_dots(s).len() <= s.len(),
    decreases s.len(),
{
    if s.len() > 0 && s.last() == '.' {
        lemma_trim_end_dots_len(s.drop_last());
    }
}

/// The characters before the cursor on a line.
pub open spec fn before_cursor(l: Seq<char>, character: u32) -> Seq<char> {
    if character <= l.len() {
        l.take(character as int)
    } else {
        l
    }
}

/// The completion context of a cursor, from the trigger character and the
/// text before the cursor on its line.
pub open spec fn context_ok(
    r: CompletionContext,
    line: Option<Seq<char>>,
    character: u32,
    trigger: Option<Seq<char>>,
) -> bool {
    if trigger == Some("!"@) {
        r is EffectAnnotation
    } else if trigger == Some("."@) {
        r matches CompletionContext::MemberAccess { receiver } && receiver is None
    } else if trigger == Some(":"@) {
        r is TypePosition
    } else {
        match line {
            None => r is Unknown,
            Some(l) => {
                let t = trim_end(before_cursor(l, character));
                if seq_ends_with(t, seq!['!']) {
                    r is EffectAnnotation
                } else if seq_ends_with(t, seq!['.']) {
                    r matches CompletionContext::MemberAccess { receiver } && opt_view(receiver)
                        == receiver_spec(t)
                } else if seq_ends_with(t, seq![':']) && !seq_ends_with(t, seq![':', ':']) {
                    r is TypePosition
                } else if seq_contains(t, "requires"@) || seq_contains(t, "ensures"@)
                    || seq_contains(t, "invariant"@) {
                    r is Contract
                } else if seq_starts_with(t, "use "@) {
                    r is ImportPath
                } else if seq_contains(t, "match "@) || (seq_contains(t, "let "@) && !seq_contains(
                    t,
                    seq!['='],
                )) {
                    r is Pattern
                } else if t.len() == 0 {
                    r is TopLevel
                } else if seq_ends_with(t, seq!['<']) || (seq_contains(t, seq!['<'])
                    && !seq_contains(t, seq!['>'])) {
                    r is GenericParams
                } else {
                    r is Expression
                }
            },
        }
    }
}

fn one(c: char) -> (v: Vec<char>)
    ensures
        v@ == seq![c],
{
    let mut v: Vec<char> = Vec::new();
    v.push(c);
    assert(v@ =~= seq![c]);
    v
}

fn two(a: char, b: char) -> (v: Vec<char>)
    ensures
        v@ == seq![a, b],
{
    let mut v: Vec<char> = Vec::new();
    v.push(a);
    v.push(b);
    assert(v@ =~= seq![a, b]);
    v
}

fn lit_chars(s: &str) -> (v: Vec<char>)
    ensures
        v@ == s@,
{
    str_chars(s)
}

/// Determines the completion context from the trigger character and the
/// document's line at the cursor.
pub fn determine_context(doc: &Document, position: Position, trigger_char: Option<&str>) -> (r: CompletionContext)
    ensures
        context_ok(r, doc_line(doc.chars(), position.line as int), position.character, opt_str_view(trigger_char)),
{
    match doc.line(position.line as usize) {
        Some(l) => context_in_line(Some(l.as_str()), position, trigger_char),
        None => context_in_line(None, position, trigger_char),
    }
}

/// Determines the completion context from the trigger character and the
/// text of the cursor's line (`None` when the document has no such line).
pub fn context_in_line(line: Option<&str>, position: Position, trigger_char: Option<&str>) -> (r:
    CompletionContext)
    ensures
        context_ok(r, opt_str_view(line), position.character, opt_str_view(trigger_char)),
{
    match trigger_char {
        Some(t) => {
            if str_equal(t, "!") {
                return CompletionContext::EffectAnnotation;
            }
            if str_equal(t, ".") {
                return CompletionContext::MemberAccess { receiver: None };
            }
            if str_equal(t, ":") {
                return CompletionContext::TypePosition;
            }
        },
        None => {},
    }
    let l = match line {
        Some(l) => l,
        None => return CompletionContext::Unknown,
    };
    let chars = str_chars(l);
    let k = position.character as usize;
    let before = if k <= chars.len() {
        slice_chars(chars.as_slice(), 0, k)
    } else {
        chars
    };
    let tv = trim_end_chars(before.as_slice());
    let t = tv.as_slice();
    proof {
        lemma_trim_end_len(before@);
    }
    if ends_with(t, one('!').as_slice()) {
        return CompletionContext::EffectAnnotation;
    }
    if ends_with(t, one('.').as_slice()) {
        let s = string_from_chars(t);
        let receiver = extract_receiver(s.as_str());
        return CompletionContext::MemberAccess { receiver };
    }
    if ends_with(t, one(':').as_slice()) && !ends_with(t, two(':', ':').as_slice()) {
        return CompletionContext::TypePosition;
    }
    if contains(t, lit_chars("requires").as_slice()) || contains(t, lit_chars("ensures").as_slice())
        || contains(t, lit_chars("invariant").as_slice()) {
        return CompletionContext::Contract;
    }
    if starts_with(t, lit_chars("use ").as_slice()) {
        return CompletionContext::ImportPath;
    }
    if contains(t, lit_chars("match ").as_slice()) || (contains(t, lit_chars("let ").as_slice())
        && !contains(t, one('=').as_slice())) {
        return CompletionContext::Pattern;
    }
    if t.len() == 0 {
        return CompletionContext::TopLevel;
    }
    if ends_with(t, one('<').as_slice()) || (contains(t, one('<').as_slice()) && !contains(t, one('>').as_slice())) {
        return CompletionContext::GenericParams;
    }
    CompletionContext::Expression
}

proof fn lemma_trim_end_len(s: Seq<char>)
    ensures
        trim_end(s).len() <= s.len(),
    decreases s.len(),
{
    if s.len() > 0 && crate::text::unicode_whitespace(s.last()) {
        lemma_trim_end_len(s.drop_last());
    }
}

/// The identifier being typed before the cursor.
pub open spec fn prefix_spec(line: Option<Seq<char>>, character: u32) -> Seq<char> {
    match line {
        None => Seq::empty(),
        Some(l) => {
            let b = before_cursor(l, character);
            b.subrange(word_start(b, b.len() as int), b.len() as int)
        },
    }
}

/// The identifier being typed before the cursor, on the document's line at
/// the cursor.
pub fn get_prefix(doc: &Document, position: Position) -> (r: String)
    ensures
        r@ == prefix_spec(doc_line(doc.chars(), position.line as int), position.character),
{
    match doc.line(position.line as usize) {
        Some(l) => prefix_in_line(Some(l.as_str()), position),
        None => prefix_in_line(None, position),
    }
}

/// The identifier being typed before the cursor on the given line.
pub fn prefix_in_line(line: Option<&str>, position: Position) -> (r: String)
    ensures
        r@ == prefix_spec(opt_str_view(line), position.character),
{
    let l = match line {
        Some(l) => l,
        None => return String::new(),
    };
    let chars = str_chars(l);
    let k = position.character as usize;
    let before = if k <= chars.len() {
        slice_chars(chars.as_slice(), 0, k)
    } else {
        chars
    };
    let n = before.len();
    let mut start = n;
    while start > 0 && is_identifier_char(before[start - 1])
        invariant
            n == before@.len(),
            0 <= start <= n,
            word_start(before@, n as int) == word_start(before@, start as int),
        decreases start,
    {
        start = start - 1;
    }
    let w = slice_chars(before.as_slice(), start, n);
    string_from_chars(w.as_slice())
}

// ============================================================================
// Merging provider results
// ============================================================================

/// Lexicographic order of character sequences by code point.
pub open spec fn lex_lt(a: Seq<char>, b: Seq<char>) -> bool
    decreases a.len(),
{
    if a.len() == 0 {
        b.len() > 0
    } else if b.len() == 0 {
        false
    } else if a[0] != b[0] {
        (a[0] as u32) < (b[0] as u32)
    } else {
        lex_lt(a.drop_first(), b.drop_first())
    }
}

/// The ranking order: priority first, then label.
pub open spec fn rank_lt(a: CompletionCandidate, b: CompletionCandidate) -> bool {
    a.priority < b.priority || (a.priority == b.priority && lex_lt(a.label@, b.label@))
}

/// The candidates in order, each label kept at its first occurrence only.
pub open spec fn dedup_labels(s: Seq<CompletionCandidate>) -> Seq<CompletionCandidate>
    decreases s.len(),
{
    if s.len() == 0 {
        s
    } else {
        let d = dedup_labels(s.drop_last());
        if exists|k: int| 0 <= k < d.len() && #[trigger] d[k].label@ == s.last().label@ {
            d
        } else {
            d.push(s.last())
        }
    }
}

/// Strictly increasing in the ranking order.
pub open spec fn rank_sorted(s: Seq<CompletionCandidate>) -> bool {
    forall|i: int, j: int| 0 <= i < j < s.len() ==> rank_lt(#[trigger] s[i], #[trigger] s[j])
}

/// No two candidates share a label.
pub open spec fn labels_distinct(s: Seq<CompletionCandidate>) -> bool {
    forall|i: int, j: int| 0 <= i < j < s.len() ==> (#[trigger] s[i]).label@ != (#[trigger] s[j]).label@
}

/// Same length and the same elements.
pub open spec fn same_elems(a: Seq<CompletionCandidate>, b: Seq<CompletionCandidate>) -> bool {
    &&& a.len() == b.len()
    &&& forall|x: CompletionCandidate| a.contains(x) <==> b.contains(x)
}

proof fn lemma_lex_lt_order(a: Seq<char>, b: Seq<char>, c: Seq<char>)
    ensures
        !lex_lt(a, a),
        lex_lt(a, b) && lex_lt(b, c) ==> lex_lt(a, c),
        a != b ==> lex_lt(a, b) || lex_lt(b, a),
        !(lex_lt(a, b) && lex_lt(b, a)),
    decreases a.len(),
{
    if a.len() > 0 && b.len() > 0 && c.len() > 0 {
        lemma_lex_lt_order(a.drop_first(), b.drop_first(), c.drop_first());
    }
    if a.len() > 0 && b.len() > 0 && a[0] != b[0] {
        vstd::utf8::char_u32_cast(a[0], a[0] as u32);
        vstd::utf8::char_u32_cast(b[0], b[0] as u32);
        assert((a[0] as u32) != (b[0] as u32));
    }
    if a.len() == 0 && b.len() == 0 {
        assert(a =~= b);
    }
    if a.len() > 0 && b.len() > 0 && a != b && a[0] == b[0] {
        assert(a =~= seq![a[0]] + a.drop_first());
        assert(b =~= seq![b[0]] + b.drop_first());
    }
    if a.len() > 0 && b.len() > 0 {
        lemma_lex_lt_order(a.drop_first(), b.drop_first(), b.drop_first());
    }
    if a.len() > 0 {
        lemma_lex_lt_order(a.drop_first(), a.drop_first(), a.drop_first());
    }
    if a.len() > 0 && b.len() > 0 && c.len() > 0 && lex_lt(a, b) && lex_lt(b, c) {
        let x = a[0] as u32;
        let y = b[0] as u32;
        let z = c[0] as u32;
        if a[0] != b[0] && b[0] != c[0] {
            assert(x < y && y < z);
            if a[0] == c[0] {
                assert(x == z);
            }
        }
    }
}

proof fn lemma_rank_order(a: CompletionCandidate, b: CompletionCandidate, c: CompletionCandidate)
    ensures
        !rank_lt(a, a),
        rank_lt(a, b) && rank_lt(b, c) ==> rank_lt(a, c),
        a.label@ != b.label@ ==> rank_lt(a, b) || rank_lt(b, a),
        !(rank_lt(a, b) && rank_lt(b, a)),
{
    lemma_lex_lt_order(a.label@, b.label@, c.label@);
}

proof fn lemma_dedup_distinct(s: Seq<CompletionCandidate>)
    ensures
        labels_distinct(dedup_labels(s)),
        forall|x: CompletionCandidate| dedup_labels(s).contains(x) ==> s.contains(x),
    decreases s.len(),
{
    if s.len() > 0 {
        lemma_dedup_distinct(s.drop_last());
        let d = dedup_labels(s.drop_last());
        assert forall|x: CompletionCandidate| dedup_labels(s).contains(x) implies s.contains(x) by {
            if d.contains(x) {
                assert(s.drop_last().contains(x));
                let k = choose|k: int| 0 <= k < s.drop_last().len() && s.drop_last()[k] == x;
                assert(s[k] == x);
            } else {
                assert(x == s.last());
                assert(s[s.len() - 1] == x);
            }
        }
    }
}

/// Compares two labels in code point order.
fn label_lt(a: &[char], b: &[char]) -> (r: bool)
    ensures
        r == lex_lt(a@, b@),
{
    let mut i: usize = 0;
    assert(a@.skip(0) =~= a@);
    assert(b@.skip(0) =~= b@);
    while i < a.len() && i < b.len()
        invariant
            0 <= i <= a@.len(),
            i <= b@.len(),
            lex_lt(a@, b@) == lex_lt(a@.skip(i as int), b@.skip(i as int)),
        decreases a@.len() - i,
    {
        if a[i] != b[i] {
            return (a[i] as u32) < (b[i] as u32);
        }
        assert(a@.skip(i as int).drop_first() =~= a@.skip(i + 1));
        assert(b@.skip(i as int).drop_first() =~= b@.skip(i + 1));
        i = i + 1;
    }
    i == a.len() && i < b.len()
}

fn rank_less(a: &CompletionCandidate, b: &CompletionCandidate) -> (r: bool)
    ensures
        r == rank_lt(*a, *b),
{
    if a.priority != b.priority {
        return a.priority < b.priority;
    }
    let x = str_chars(a.label.as_str());
    let y = str_chars(b.label.as_str());
    label_lt(x.as_slice(), y.as_slice())
}

fn has_label(items: &Vec<CompletionCandidate>, label: &str) -> (r: bool)
    ensures
        r == exists|k: int| 0 <= k < items@.len() && #[trigger] items@[k].label@ == label@,
{
    let mut i: usize = 0;
    while i < items.len()
        invariant
            0 <= i <= items@.len(),
            forall|k: int| 0 <= k < i ==> #[trigger] items@[k].label@ != label@,
        decreases items@.len() - i,
    {
        if str_equal(items[i].label.as_str(), label) {
            return true;
        }
        i = i + 1;
    }
    false
}

/// Merges the candidates of all providers: the first candidate of each
/// label is kept, the rest are ranked by priority and then label, and at
/// most `max_items` of them are returned.
pub fn merge_candidates(items: Vec<CompletionCandidate>, max_items: usize) -> (r: Vec<CompletionCandidate>)
    ensures
        exists|sorted: Seq<CompletionCandidate>| {
            &&& same_elems(sorted, dedup_labels(items@))
            &&& rank_sorted(sorted)
            &&& r@ == if max_items <= sorted.len() { sorted.take(max_items as int) } else { sorted }
        },
{
    // keep the first candidate of each label
    let ghost all = items@;
    let mut rest = items;
    let mut unique: Vec<CompletionCandidate> = Vec::new();
    while rest.len() > 0
        invariant
            all.len() >= rest@.len(),
            rest@ == all.skip(all.len() - rest@.len()),
            unique@ == dedup_labels(all.take(all.len() - rest@.len())),
        decreases rest@.len(),
    {
        let ghost i = all.len() - rest@.len();
        let c = rest.remove(0);
        assert(c == all[i]);
        assert(all.take(i + 1).drop_last() =~= all.take(i));
        assert(all.take(i + 1).last() == all[i]);
        assert(rest@ =~= all.skip(i + 1));
        if !has_label(&unique, c.label.as_str()) {
            unique.push(c);
        }
    }
    assert(all.take(all.len() as int) =~= all);
    proof {
        lemma_dedup_distinct(all);
    }
    // insertion sort by rank
    let ghost u = unique@;
    let mut pending = unique;
    let mut sorted: Vec<CompletionCandidate> = Vec::new();
    while pending.len() > 0
        invariant
            labels_distinct(u),
            u.len() >= pending@.len(),
            pending@ == u.skip(u.len() - pending@.len()),
            same_elems(sorted@, u.take(u.len() - pending@.len())),
            rank_sorted(sorted@),
        decreases pending@.len(),
    {
        let ghost j = u.len() - pending@.len();
        let x = pending.remove(0);
        assert(x == u[j]);
        assert(pending@ =~= u.skip(j + 1));
        let mut p: usize = 0;
        while p < sorted.len() && !rank_less(&x, &sorted[p])
            invariant
                0 <= p <= sorted@.len(),
                forall|k: int| 0 <= k < p ==> !rank_lt(x, #[trigger] sorted@[k]),
            decreases sorted@.len() - p,
        {
            p = p + 1;
        }
        let ghost before = sorted@;
        sorted.insert(p, x);
        proof {
            lemma_insert_sorted(before, x, p as int, u, j);
        }
    }
    assert(u.take(u.len() as int) =~= u);
    sorted.truncate(max_items);
    sorted
}

proof fn lemma_insert_sorted(
    before: Seq<CompletionCandidate>,
    x: CompletionCandidate,
    p: int,
    u: Seq<CompletionCandidate>,
    j: int,
)
    requires
        labels_distinct(u),
        0 <= j < u.len(),
        x == u[j],
        same_elems(before, u.take(j)),
        rank_sorted(before),
        0 <= p <= before.len(),
        forall|k: int| 0 <= k < p ==> !rank_lt(x, #[trigger] before[k]),
        p < before.len() ==> rank_lt(x, before[p]),
    ensures
        same_elems(before.insert(p, x), u.take(j + 1)),
        rank_sorted(before.insert(p, x)),
{
    let after = before.insert(p, x);
    let t0 = u.take(j);
    let t1 = u.take(j + 1);
    assert(t1 =~= t0.push(x));
    // x's label differs from every earlier label
    assert forall|k: int| 0 <= k < before.len() implies (#[trigger] before[k]).label@ != x.label@ by {
        assert(before.contains(before[k]));
        assert(t0.contains(before[k]));
        let m = choose|m: int| 0 <= m < t0.len() && t0[m] == before[k];
        assert(u[m] == before[k]);
    }
    assert forall|y: CompletionCandidate| after.contains(y) <==> t1.contains(y) by {
        if after.contains(y) {
            let k = choose|k: int| 0 <= k < after.len() && after[k] == y;
            if k < p {
                assert(before[k] == y);
                assert(before.contains(y));
            } else if k > p {
                assert(before[k - 1] == y);
                assert(before.contains(y));
            }
            if y != x {
                assert(t0.contains(y));
                let m = choose|m: int| 0 <= m < t0.len() && t0[m] == y;
                assert(t1[m] == y);
            } else {
                assert(t1[j] == y);
            }
        }
        if t1.contains(y) {
            let m = choose|m: int| 0 <= m < t1.len() && t1[m] == y;
            if m < j {
                assert(t0[m] == y);
                assert(t0.contains(y));
                assert(before.contains(y));
                let k = choose|k: int| 0 <= k < before.len() && before[k] == y;
                if k < p {
                    assert(after[k] == y);
                } else {
                    assert(after[k + 1] == y);
                }
            } else {
                assert(after[p] == y);
            }
        }
    }
    assert forall|a: int, b: int| 0 <= a < b < after.len() implies rank_lt(#[trigger] after[a], #[trigger] after[b]) by {
        if b < p {
            assert(after[a] == before[a] && after[b] == before[b]);
        } else if b == p {
            assert(after[a] == before[a]);
            lemma_rank_order(before[a], x, x);
            assert(!rank_lt(x, before[a]));
        } else if a == p {
            assert(after[b] == before[b - 1]);
            if b - 1 > p {
                assert(rank_lt(before[p], before[b - 1]));
                lemma_rank_order(x, before[p], before[b - 1]);
            }
        } else if a < p {
            assert(after[a] == before[a] && after[b] == before[b - 1]);
        } else {
            assert(after[a] == before[a - 1] && after[b] == before[b - 1]);
        }
    }
}


// ============================================================================
// The completion engine
// ============================================================================

/// The providers the engine can ask.
#[derive(Debug, Clone, Copy, PartialEq, Eq, Structural)]
pub enum BuiltinProvider {
    Keyword,
    Effect,
    Type,
    Contract,
    Snippet,
}

/// Whether a provider handles a context.
pub open spec fn handles(p: BuiltinProvider, c: CompletionContext) -> bool {
    match p {
        BuiltinProvider::Keyword => c is TopLevel || c is Expression || c is Unknown,
        BuiltinProvider::Effect => c is EffectAnnotation,
        BuiltinProvider::Type => c is TypePosition || c is GenericParams,
        BuiltinProvider::Contract => c is Contract || c is TopLevel,
        BuiltinProvider::Snippet => c is TopLevel || c is Expression,
    }
}

/// Whether `r` is what a provider offers for a context and prefix.
pub open spec fn provided_by(p: BuiltinProvider, c: CompletionContext, prefix: Seq<char>, r: Seq<CompletionCandidate>) -> bool {
    match p {
        BuiltinProvider::Keyword => built_from(r, selected(keyword_table(), prefix, MatchMode::Prefix), CompletionKind::Keyword, 10),
        BuiltinProvider::Effect => built_from(r, selected(effect_table(), prefix, MatchMode::PrefixNoCase), CompletionKind::Effect, 5),
        BuiltinProvider::Type => built_from(r, selected(type_table(), prefix, MatchMode::PrefixNoCase), CompletionKind::Type, 15),
        BuiltinProvider::Contract => exists|a: Seq<CompletionCandidate>, b: Seq<CompletionCandidate>| {
            &&& r == a + b
            &&& built_from(a, selected(contract_table(), prefix, MatchMode::Prefix), CompletionKind::Contract, 20)
            &&& if c is Contract {
                built_from(b, selected(special_table(), prefix, MatchMode::Prefix), CompletionKind::Function, 25)
            } else {
                b.len() == 0
            }
        },
        BuiltinProvider::Snippet => built_from(r, selected(snippet_table(), prefix, MatchMode::ContainsNoCase), CompletionKind::Snippet, 50),
    }
}

/// Whether `segs` holds what each provider offers for the context and
/// prefix, in order: nothing from a provider that does not handle it.
pub open spec fn offered(ps: Seq<BuiltinProvider>, c: CompletionContext, prefix: Seq<char>, segs: Seq<Seq<CompletionCandidate>>) -> bool {
    &&& segs.len() == ps.len()
    &&& forall|i: int| 0 <= i < ps.len() ==> if handles(#[trigger] ps[i], c) {
        provided_by(ps[i], c, prefix, segs[i])
    } else {
        segs[i].len() == 0
    }
}

/// Gathers candidates from its providers and merges them.
pub struct CompletionEngine {
    providers: Vec<BuiltinProvider>,
    max_items: usize,
}

impl CompletionEngine {
    /// The providers, in the order they are asked.
    pub closed spec fn providers_spec(&self) -> Seq<BuiltinProvider> {
        self.providers@
    }

    /// The most candidates returned.
    pub closed spec fn max_items_spec(&self) -> usize {
        self.max_items
    }

    /// An engine asking the keyword, effect, type, contract and snippet
    /// providers, returning at most 50 candidates.
    pub fn new() -> (e: Self)
        ensures
            e.providers_spec() == seq![BuiltinProvider::Keyword, BuiltinProvider::Effect, BuiltinProvider::Type,
                BuiltinProvider::Contract, BuiltinProvider::Snippet],
            e.max_items_spec() == 50,
    {
        let mut providers: Vec<BuiltinProvider> = Vec::new();
        providers.push(BuiltinProvider::Keyword);
        providers.push(BuiltinProvider::Effect);
        providers.push(BuiltinProvider::Type);
        providers.push(BuiltinProvider::Contract);
        providers.push(BuiltinProvider::Snippet);
        CompletionEngine { providers, max_items: 50 }
    }

    /// Adds a provider, asked after the others.
    pub fn register(&mut self, provider: BuiltinProvider)
        ensures
            final(self).providers_spec() == old(self).providers_spec().push(provider),
            final(self).max_items_spec() == old(self).max_items_spec(),
    {
        self.providers.push(provider);
    }

    /// Sets the most candidates returned.
    pub fn set_max_items(&mut self, max: usize)
        ensures
            final(self).max_items_spec() == max,
            final(self).providers_spec() == old(self).providers_spec(),
    {
        self.max_items = max;
    }

    fn ask(p: BuiltinProvider, context: &CompletionContext, prefix: &str) -> (r: Vec<CompletionCandidate>)
        ensures
            if handles(p, *context) { provided_by(p, *context, prefix@, r@) } else { r@.len() == 0 },
    {
        match p {
            BuiltinProvider::Keyword => if KeywordProvider.can_handle(context) {
                KeywordProvider.provide(context, prefix)
            } else {
                Vec::new()
            },
            BuiltinProvider::Effect => if EffectProvider.can_handle(context) {
                EffectProvider.provide(context, prefix)
            } else {
                Vec::new()
            },
            BuiltinProvider::Type => if TypeProvider.can_handle(context) {
                TypeProvider.provide(context, prefix)
            } else {
                Vec::new()
            },
            BuiltinProvider::Contract => if ContractProvider.can_handle(context) {
                ContractProvider.provide(context, prefix)
            } else {
                Vec::new()
            },
            BuiltinProvider::Snippet => if SnippetProvider.can_handle(context) {
                SnippetProvider.provide(context, prefix)
            } else {
                Vec::new()
            },
        }
    }

    /// The candidates of the providers that handle the context, merged:
    /// the first of each label, ranked by priority then label, at most the
    /// maximum number.
    pub fn complete(&self, context: CompletionContext, prefix: &str, _document: &Document, _position: Position) -> (r: Vec<CompletionCandidate>)
        ensures
            exists|segs: Seq<Seq<CompletionCandidate>>, sorted: Seq<CompletionCandidate>| {
                &&& offered(self.providers_spec(), context, prefix@, segs)
                &&& same_elems(sorted, dedup_labels(segs.flatten()))
                &&& rank_sorted(sorted)
                &&& r@ == if self.max_items_spec() <= sorted.len() { sorted.take(self.max_items_spec() as int) } else { sorted }
            },
    {
        let mut all: Vec<CompletionCandidate> = Vec::new();
        let ghost mut segs: Seq<Seq<CompletionCandidate>> = Seq::empty();
        let mut i: usize = 0;
        assert(all@ =~= segs.flatten());
        while i < self.providers.len()
            invariant
                0 <= i <= self.providers@.len(),
                segs.len() == i,
                forall|j: int| 0 <= j < i ==> if handles(#[trigger] self.providers@[j], context) {
                    provided_by(self.providers@[j], context, prefix@, segs[j])
                } else {
                    segs[j].len() == 0
                },
                all@ == segs.flatten(),
            decreases self.providers@.len() - i,
        {
            let p = self.providers[i];
            let mut got = Self::ask(p, &context, prefix);
            let ghost seg = got@;
            all.append(&mut got);
            proof {
                segs.lemma_flatten_push(seg);
                segs = segs.push(seg);
            }
            i = i + 1;
        }
        merge_candidates(all, self.max_items)
    }
}


/// A source of completion candidates that a user of the engine supplies:
/// it says which contexts it handles and what it offers in them. Nothing is
/// assumed of what an implementation returns.
pub trait CompletionProvider {
    /// The provider's name.
    fn name(&self) -> String;

    /// Whether the provider handles the context.
    fn can_handle(&self, context: &CompletionContext) -> bool;

    /// The candidates the provider offers for the context and prefix.
    fn provide(&self, context: &CompletionContext, prefix: &str, document: &Document, position: Position)
        -> Vec<CompletionCandidate>;
}

/// The views of candidate vectors.
pub open spec fn offers_view(v: Seq<Vec<CompletionCandidate>>) -> Seq<Seq<CompletionCandidate>> {
    v.map_values(|c: Vec<CompletionCandidate>| c@)
}

impl CompletionEngine {
    /// Completes as `complete` does, with the offers of further providers
    /// (`extra`, one per provider, in the order they were registered)
    /// merged after the engine's own: the first candidate of each label is
    /// kept, ranked by priority then label, at most the maximum number.
    pub fn complete_with_offers(&self, context: CompletionContext, prefix: &str, extra: Vec<Vec<CompletionCandidate>>)
        -> (r: Vec<CompletionCandidate>)
        ensures
            exists|segs: Seq<Seq<CompletionCandidate>>, sorted: Seq<CompletionCandidate>| {
                &&& offered(self.providers_spec(), context, prefix@, segs)
                &&& same_elems(sorted, dedup_labels((segs + offers_view(extra@)).flatten()))
                &&& rank_sorted(sorted)
                &&& r@ == if self.max_items_spec() <= sorted.len() { sorted.take(self.max_items_spec() as int) } else { sorted }
            },
    {
        let mut all: Vec<CompletionCandidate> = Vec::new();
        let ghost mut segs: Seq<Seq<CompletionCandidate>> = Seq::empty();
        let mut i: usize = 0;
        assert(all@ =~= segs.flatten());
        while i < self.providers.len()
            invariant
                0 <= i <= self.providers@.len(),
                segs.len() == i,
                forall|j: int| 0 <= j < i ==> if handles(#[trigger] self.providers@[j], context) {
                    provided_by(self.providers@[j], context, prefix@, segs[j])
                } else {
                    segs[j].len() == 0
                },
                all@ == segs.flatten(),
            decreases self.providers@.len() - i,
        {
            let p = self.providers[i];
            let mut got = Self::ask(p, &context, prefix);
            let ghost seg = got@;
            all.append(&mut got);
            proof {
                segs.lemma_flatten_push(seg);
                segs = segs.push(seg);
            }
            i = i + 1;
        }
        let ghost own = segs;
        let ghost offers = offers_view(extra@);
        let mut rest = extra;
        let total: usize = rest.len();
        let mut k: usize = 0;
        let ghost mut taken: Seq<Seq<CompletionCandidate>> = Seq::empty();
        assert(offers_view(rest@) =~= offers.skip(0));
        while rest.len() > 0
            invariant
                taken == offers.take(k as int),
                offers_view(rest@) == offers.skip(k as int),
                k + rest@.len() == offers.len(),
                offers.len() == total,
                all@ == (own + taken).flatten(),
            decreases rest@.len(),
        {
            let ghost before = rest@;
            let mut got = rest.remove(0);
            let ghost seg = got@;
            proof {
                assert(offers_view(before)[0] == before[0]@);
                assert(offers.skip(k as int)[0] == offers[k as int]);
                assert(seg == offers[k as int]);
                assert(rest@ =~= before.subrange(1, before.len() as int));
                assert forall|j: int| 0 <= j < rest@.len() implies #[trigger] offers_view(rest@)[j] == offers.skip(k + 1)[j] by {
                    assert(rest@[j] == before[j + 1]);
                    assert(offers_view(before)[j + 1] == before[j + 1]@);
                    assert(offers.skip(k as int)[j + 1] == offers[k + 1 + j]);
                }
                assert(offers_view(rest@) =~= offers.skip(k + 1));
            }
            all.append(&mut got);
            proof {
                (own + taken).lemma_flatten_push(seg);
                assert((own + taken).push(seg) =~= own + taken.push(seg));
                taken = taken.push(seg);
                assert(taken =~= offers.take(k + 1));
            }
            k = k + 1;
        }
        assert(taken =~= offers);
        merge_candidates(all, self.max_items)
    }

    /// Completes with the engine's providers and then the providers
    /// `extra`: each of those that handles the context is asked for its
    /// candidates, the others offer nothing (see `complete_with_offers`).
    pub fn complete_with<P: CompletionProvider>(&self, context: CompletionContext, prefix: &str, document: &Document,
        position: Position, extra: &Vec<P>) -> (r: Vec<CompletionCandidate>)
        ensures
            exists|segs: Seq<Seq<CompletionCandidate>>, more: Seq<Seq<CompletionCandidate>>, sorted: Seq<CompletionCandidate>| {
                &&& offered(self.providers_spec(), context, prefix@, segs)
                &&& more.len() == extra@.len()
                &&& same_elems(sorted, dedup_labels((segs + more).flatten()))
                &&& rank_sorted(sorted)
                &&& r@ == if self.max_items_spec() <= sorted.len() { sorted.take(self.max_items_spec() as int) } else { sorted }
            },
    {
        let mut offers: Vec<Vec<CompletionCandidate>> = Vec::new();
        let mut i: usize = 0;
        while i < extra.len()
            invariant
                0 <= i <= extra@.len(),
                offers@.len() == i,
            decreases extra@.len() - i,
        {
            let p = &extra[i];
            if p.can_handle(&context) {
                offers.push(p.provide(&context, prefix, document, position));
            } else {
                offers.push(Vec::new());
            }
            i = i + 1;
        }
        self.complete_with_offers(context, prefix, offers)
    }
}


/// Closing brackets minus opening brackets in `s`.
pub open spec fn bracket_balance(s: Seq<char>) -> int
    decreases s.len(),
{
    if s.len() == 0 {
        0
    } else {
        bracket_balance(s.drop_last()) + if is_closer(s.last()) {
            1int
        } else if is_opener(s.last()) {
            -1int
        } else {
            0int
        }
    }
}

/// One more character at the end of a range adds its own bracket count.
proof fn lemma_bracket_balance_extend(c: Seq<char>, j: int, i: int)
    requires
        0 <= j < i <= c.len(),
    ensures
        bracket_balance(c.subrange(j, i)) == bracket_balance(c.subrange(j, i - 1)) + if is_closer(c[i - 1]) {
            1int
        } else if is_opener(c[i - 1]) {
            -1int
        } else {
            0int
        },
{
    assert(c.subrange(j, i).drop_last() =~= c.subrange(j, i - 1));
    assert(c.subrange(j, i).last() == c[i - 1]);
}

/// Scanning from the right with depth `d`: the separator found closes a
/// balanced tail, and every separator passed over lies inside brackets.
proof fn lemma_receiver_stop_balance(c: Seq<char>, i: int, d: int)
    requires
        0 <= i <= c.len(),
    ensures
        match receiver_stop(c, i, d) {
            Some(k) => 0 <= k < i && is_receiver_stop(c[k]) && d + bracket_balance(c.subrange(k + 1, i)) == 0
                && forall|j: int| k < j < i && is_receiver_stop(#[trigger] c[j]) ==> d + bracket_balance(c.subrange(j + 1, i)) != 0,
            None => forall|j: int| 0 <= j < i && is_receiver_stop(#[trigger] c[j]) ==> d + bracket_balance(c.subrange(j + 1, i)) != 0,
        },
    decreases i,
{
    if i == 0 {
    } else {
        let ch = c[i - 1];
        let step: int = if is_closer(ch) { 1int } else if is_opener(ch) { -1int } else { 0int };
        let d2: int = if is_closer(ch) { d + 1 } else if is_opener(ch) { d - 1 } else { d };
        if is_receiver_stop(ch) && d == 0 && !is_closer(ch) && !is_opener(ch) {
            assert(c.subrange(i, i).len() == 0);
        } else {
            lemma_receiver_stop_balance(c, i - 1, d2);
            assert forall|j: int| 0 <= j < i - 1 implies d + #[trigger] bracket_balance(c.subrange(j + 1, i))
                == d2 + bracket_balance(c.subrange(j + 1, i - 1)) by {
                lemma_bracket_balance_extend(c, j + 1, i);
            }
            assert(c.subrange(i, i).len() == 0);
        }
    }
}

/// The receiver before a dot is the tail of the text (trailing dots
/// dropped) after its last separator outside brackets: that separator (if
/// there is one) leaves a tail whose brackets balance, and every separator
/// inside the receiver is enclosed by brackets, so a call or index with
/// its arguments is kept whole with what it is applied to. No receiver is
/// found only for blank text or text that ends with a separator.
pub proof fn law_receiver_is_the_bracketed_tail(before_dot: Seq<char>)
    ensures
        ({
            let c = trim_end_dots(before_dot);
            let n = c.len() as int;
            match receiver_spec(before_dot) {
                Some(r) => exists|k: int| #![trigger c.subrange(k + 1, n)] -1 <= k < n && r == trim(c.subrange(k + 1, n))
                    && (k >= 0 ==> is_receiver_stop(c[k]) && bracket_balance(c.subrange(k + 1, n)) == 0)
                    && forall|j: int| k < j < n && is_receiver_stop(#[trigger] c[j]) ==> bracket_balance(c.subrange(j + 1, n)) != 0,
                None => trim(c).len() == 0 || (n > 0 && is_receiver_stop(c[n - 1])),
            }
        }),
{
    let c = trim_end_dots(before_dot);
    let n = c.len() as int;
    lemma_receiver_stop_balance(c, n, 0);
    match receiver_stop(c, n, 0) {
        Some(k) => {
            if receiver_spec(before_dot) is Some {
                let r = receiver_spec(before_dot)->0;
                assert(r == trim(c.subrange(k + 1, n)));
                assert(forall|j: int| k < j < n && is_receiver_stop(#[trigger] c[j]) ==> 0 + bracket_balance(c.subrange(j + 1, n)) != 0);
                assert(-1 <= k < n && r == trim(c.subrange(k + 1, n))
                    && (k >= 0 ==> is_receiver_stop(c[k]) && bracket_balance(c.subrange(k + 1, n)) == 0)
                    && forall|j: int| k < j < n && is_receiver_stop(#[trigger] c[j]) ==> bracket_balance(c.subrange(j + 1, n)) != 0);
            } else {
                assert(c.subrange(k + 1, n).len() == 0);
            }
        },
        None => {
            if receiver_spec(before_dot) is Some {
                let r = receiver_spec(before_dot)->0;
                let k: int = -1;
                assert(c.subrange(k + 1, n) =~= c);
                assert(r == trim(c.subrange(k + 1, n)));
                assert(forall|j: int| 0 <= j < n && is_receiver_stop(#[trigger] c[j]) ==> 0 + bracket_balance(c.subrange(j + 1, n)) != 0);
                assert(-1 <= k < n && r == trim(c.subrange(k + 1, n))
                    && (k >= 0 ==> is_receiver_stop(c[k]) && bracket_balance(c.subrange(k + 1, n)) == 0)
                    && forall|j: int| k < j < n && is_receiver_stop(#[trigger] c[j]) ==> bracket_balance(c.subrange(j + 1, n)) != 0);
            }
        },
    }
}

} // verus!
