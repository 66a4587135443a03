//! Diagnostics: the compiler-side representation, the common messages, the
//! conversion to line/column ranges, and the per-document collection.

use vstd::prelude::*;
use crate::lsp_types::{Span, TextRange, LineIndex};
use crate::text::{str_chars, string_from_chars, push_all, str_equal};
use vstd::pervasive::VecAdditionalExecFns;
use vstd::string::StringSliceAdditionalSpecFns;

verus! {

/// Severity of a diagnostic.
#[derive(Debug, Clone, Copy, PartialEq, Eq, Structural, Hash)]
pub enum Severity {
    Error,
    Warning,
    Information,
    Hint,
}

/// Extra categorisation of a diagnostic.
#[derive(Debug, Clone, Copy, PartialEq, Eq, Structural, Hash)]
pub enum DiagnosticTag {
    Unnecessary,
    Deprecated,
}

/// The compiler phase that produced a diagnostic.
#[derive(Debug, Clone, Copy, PartialEq, Eq, Structural, Hash)]
pub enum DiagnosticSource {
    Lexer,
    Parser,
    NameResolution,
    TypeChecker,
    EffectChecker,
    ContractChecker,
    BorrowChecker,
    Compiler,
}

/// The name under which each source is reported.
pub open spec fn source_name(s: DiagnosticSource) -> Seq<char> {
    match s {
        DiagnosticSource::Lexer => "aria-lexer"@,
        DiagnosticSource::Parser => "aria-parser"@,
        DiagnosticSource::NameResolution => "aria-names"@,
        DiagnosticSource::TypeChecker => "aria-types"@,
        DiagnosticSource::EffectChecker => "aria-effects"@,
        DiagnosticSource::ContractChecker => "aria-contracts"@,
        DiagnosticSource::BorrowChecker => "aria-borrow"@,
        DiagnosticSource::Compiler => "aria"@,
    }
}

impl DiagnosticSource {
    /// The name under which this source is reported.
    pub fn as_str(&self) -> (s: &'static str)
        ensures
            s@ == source_name(*self),
    {
        match self {
            DiagnosticSource::Lexer => "aria-lexer",
            DiagnosticSource::Parser => "aria-parser",
            DiagnosticSource::NameResolution => "aria-names",
            DiagnosticSource::TypeChecker => "aria-types",
            DiagnosticSource::EffectChecker => "aria-effects",
            DiagnosticSource::ContractChecker => "aria-contracts",
            DiagnosticSource::BorrowChecker => "aria-borrow",
            DiagnosticSource::Compiler => "aria",
        }
    }
}

/// Another location relevant to a diagnostic.
#[derive(Debug, Clone)]
pub struct RelatedInformation {
    /// The document URI.
    pub uri: String,
    /// The range in it.
    pub range: TextRange,
    /// How it relates.
    pub message: String,
}

impl RelatedInformation {
    /// Creates related information.
    pub fn new(uri: String, range: TextRange, message: String) -> (r: Self)
        ensures
            r.uri == uri,
            r.range == range,
            r.message == message,
    {
        Self { uri, range, message }
    }
}

/// One edit of a suggested fix.
#[derive(Debug, Clone)]
pub struct FixEdit {
    /// The bytes to replace.
    pub span: Span,
    /// The replacement.
    pub new_text: String,
}

/// A suggested fix.
#[derive(Debug, Clone)]
pub struct FixSuggestion {
    /// What the fix does.
    pub message: String,
    /// Its edits.
    pub edits: Vec<FixEdit>,
}

impl FixSuggestion {
    /// A fix without edits yet.
    pub fn new(message: String) -> (f: Self)
        ensures
            f.message == message,
            f.edits@.len() == 0,
    {
        Self { message, edits: Vec::new() }
    }

    /// Appends an edit.
    pub fn with_edit(self, span: Span, new_text: String) -> (f: Self)
        ensures
            f.message == self.message,
            f.edits@ == self.edits@.push(FixEdit { span, new_text }),
    {
        let mut f = self;
        f.edits.push(FixEdit { span, new_text });
        f
    }
}

/// A diagnostic as the compiler reports it.
#[derive(Debug, Clone)]
pub struct AriaDiagnostic {
    /// The message.
    pub message: String,
    /// Where it applies.
    pub span: Span,
    /// How severe it is.
    pub severity: Severity,
    /// Which phase produced it.
    pub source: DiagnosticSource,
    /// An error code.
    pub code: Option<String>,
    /// Related locations.
    pub related: Vec<RelatedInformation>,
    /// Tags.
    pub tags: Vec<DiagnosticTag>,
    /// A suggested fix.
    pub fix_suggestion: Option<FixSuggestion>,
}

/// `d` is a fresh diagnostic with these fields and nothing else set.
pub open spec fn is_fresh(
    d: AriaDiagnostic,
    message: String,
    span: Span,
    severity: Severity,
    source: DiagnosticSource,
) -> bool {
    &&& d.message == message
    &&& d.span == span
    &&& d.severity == severity
    &&& d.source == source
    &&& d.code is None
    &&& d.related@.len() == 0
    &&& d.tags@.len() == 0
    &&& d.fix_suggestion is None
}

impl AriaDiagnostic {
    fn fresh(message: String, span: Span, severity: Severity, source: DiagnosticSource) -> (d: Self)
        ensures
            is_fresh(d, message, span, severity, source),
    {
        Self {
            message,
            span,
            severity,
            source,
            code: None,
            related: Vec::new(),
            tags: Vec::new(),
            fix_suggestion: None,
        }
    }

    /// An error.
    pub fn error(message: String, span: Span, source: DiagnosticSource) -> (d: Self)
        ensures
            is_fresh(d, message, span, Severity::Error, source),
    {
        Self::fresh(message, span, Severity::Error, source)
    }

    /// A warning.
    pub fn warning(message: String, span: Span, source: DiagnosticSource) -> (d: Self)
        ensures
            is_fresh(d, message, span, Severity::Warning, source),
    {
        Self::fresh(message, span, Severity::Warning, source)
    }

    /// A hint.
    pub fn hint(message: String, span: Span, source: DiagnosticSource) -> (d: Self)
        ensures
            is_fresh(d, message, span, Severity::Hint, source),
    {
        Self::fresh(message, span, Severity::Hint, source)
    }

    /// An informational message.
    pub fn info(message: String, span: Span, source: DiagnosticSource) -> (d: Self)
        ensures
            is_fresh(d, message, span, Severity::Information, source),
    {
        Self::fresh(message, span, Severity::Information, source)
    }

    /// Sets the error code.
    pub fn with_code(self, code: String) -> (d: Self)
        ensures
            d == (AriaDiagnostic { code: Some(code), ..self }),
    {
        AriaDiagnostic { code: Some(code), ..self }
    }

    /// Adds related information.
    pub fn with_related(self, info: RelatedInformation) -> (d: Self)
        ensures
            d.related@ == self.related@.push(info),
            d.message == self.message,
            d.span == self.span,
            d.severity == self.severity,
            d.source == self.source,
            d.code == self.code,
            d.tags == self.tags,
            d.fix_suggestion == self.fix_suggestion,
    {
        let mut d = self;
        d.related.push(info);
        d
    }

    /// Adds a tag.
    pub fn with_tag(self, tag: DiagnosticTag) -> (d: Self)
        ensures
            d.tags@ == self.tags@.push(tag),
            d.message == self.message,
            d.span == self.span,
            d.severity == self.severity,
            d.source == self.source,
            d.code == self.code,
            d.related == self.related,
            d.fix_suggestion == self.fix_suggestion,
    {
        let mut d = self;
        d.tags.push(tag);
        d
    }

    /// Sets the suggested fix.
    pub fn with_fix(self, fix: FixSuggestion) -> (d: Self)
        ensures
            d == (AriaDiagnostic { fix_suggestion: Some(fix), ..self }),
    {
        AriaDiagnostic { fix_suggestion: Some(fix), ..self }
    }

    /// Tags the diagnostic as about deprecated code.
    pub fn deprecated(self) -> (d: Self)
        ensures
            d.tags@ == self.tags@.push(DiagnosticTag::Deprecated),
            d.message == self.message,
            d.span == self.span,
            d.severity == self.severity,
            d.source == self.source,
            d.code == self.code,
            d.related == self.related,
            d.fix_suggestion == self.fix_suggestion,
    {
        self.with_tag(DiagnosticTag::Deprecated)
    }

    /// Tags the diagnostic as about unnecessary code.
    pub fn unnecessary(self) -> (d: Self)
        ensures
            d.tags@ == self.tags@.push(DiagnosticTag::Unnecessary),
            d.message == self.message,
            d.span == self.span,
            d.severity == self.severity,
            d.source == self.source,
            d.code == self.code,
            d.related == self.related,
            d.fix_suggestion == self.fix_suggestion,
    {
        self.with_tag(DiagnosticTag::Unnecessary)
    }
}

// ============================================================================
// Common diagnostics
// ============================================================================

fn join(parts: &[&str]) -> (s: String)
    ensures
        s@ == concat_views(parts@),
{
    let mut out: Vec<char> = Vec::new();
    let mut i: usize = 0;
    while i < parts.len()
        invariant
            0 <= i <= parts@.len(),
            out@ == concat_views(parts@.take(i as int)),
        decreases parts@.len() - i,
    {
        let c = str_chars(parts[i]);
        push_all(&mut out, c.as_slice());
        assert(parts@.take(i + 1).drop_last() =~= parts@.take(i as int));
        i = i + 1;
    }
    assert(parts@.take(parts@.len() as int) =~= parts@);
    string_from_chars(out.as_slice())
}

/// The characters of a list of strings, one after another.
pub open spec fn concat_views(parts: Seq<&str>) -> Seq<char>
    decreases parts.len(),
{
    if parts.len() == 0 {
        Seq::empty()
    } else {
        concat_views(parts.drop_last()) + parts.last()@
    }
}

fn owned(s: &str) -> (r: String)
    ensures
        r@ == s@,
{
    s.to_owned()
}

/// Builds the diagnostics that the compiler phases report.
pub struct DiagnosticBuilder {
    source: DiagnosticSource,
}

/// `d` is a diagnostic of the builder's source with this severity, message
/// and code.
pub open spec fn built_diag(
    d: AriaDiagnostic,
    severity: Severity,
    source: DiagnosticSource,
    span: Span,
    message: Seq<char>,
    code: Seq<char>,
) -> bool {
    &&& d.severity == severity
    &&& d.source == source
    &&& d.span == span
    &&& d.message@ == message
    &&& opt_chars(d.code) == Some(code)
    &&& d.related@.len() == 0
    &&& d.fix_suggestion is None
}

/// The characters of an optional string.
pub open spec fn opt_chars(s: Option<String>) -> Option<Seq<char>> {
    match s {
        Some(s) => Some(s@),
        None => None,
    }
}

impl DiagnosticBuilder {
    /// The phase the builder reports for.
    pub closed spec fn source_spec(&self) -> DiagnosticSource {
        self.source
    }

    /// A builder for `source`.
    pub fn new(source: DiagnosticSource) -> (b: Self)
        ensures
            b.source_spec() == source,
    {
        Self { source }
    }

    /// "undefined name `name`" (E0001).
    pub fn undefined_name(&self, name: &str, span: Span) -> (d: AriaDiagnostic)
        ensures
            built_diag(d, Severity::Error, self.source_spec(), span, "undefined name `"@ + name@ + "`"@, "E0001"@),
            d.tags@.len() == 0,
    {
        let parts = ["undefined name `", name, "`"];
        let m = join(&parts);
        proof { reveal_with_fuel(concat_views, 4); }
        assert(m@ =~= "undefined name `"@ + name@ + "`"@);
        AriaDiagnostic::error(m, span, self.source).with_code(owned("E0001"))
    }

    /// "type mismatch: expected `expected`, found `found`" (E0002).
    pub fn type_mismatch(&self, expected: &str, found: &str, span: Span) -> (d: AriaDiagnostic)
        ensures
            built_diag(d, Severity::Error, self.source_spec(), span, "type mismatch: expected `"@ + expected@ + "`, found `"@ + found@ + "`"@, "E0002"@),
            d.tags@.len() == 0,
    {
        let parts = ["type mismatch: expected `", expected, "`, found `", found, "`"];
        let m = join(&parts);
        proof { reveal_with_fuel(concat_views, 6); }
        assert(m@ =~= "type mismatch: expected `"@ + expected@ + "`, found `"@ + found@ + "`"@);
        AriaDiagnostic::error(m, span, self.source).with_code(owned("E0002"))
    }

    /// "effect `effect` is not handled in this scope" (E0003).
    pub fn missing_handler(&self, effect: &str, span: Span) -> (d: AriaDiagnostic)
        ensures
            built_diag(d, Severity::Error, self.source_spec(), span, "effect `"@ + effect@ + "` is not handled in this scope"@, "E0003"@),
            d.tags@.len() == 0,
    {
        let parts = ["effect `", effect, "` is not handled in this scope"];
        let m = join(&parts);
        proof { reveal_with_fuel(concat_views, 4); }
        assert(m@ =~= "effect `"@ + effect@ + "` is not handled in this scope"@);
        AriaDiagnostic::error(m, span, self.source).with_code(owned("E0003"))
    }

    /// "<kind> contract violated: <condition>" (E0004).
    pub fn contract_violation(&self, contract_type: &str, condition: &str, span: Span) -> (d: AriaDiagnostic)
        ensures
            built_diag(d, Severity::Error, self.source_spec(), span, contract_type@ + " contract violated: "@ + condition@, "E0004"@),
            d.tags@.len() == 0,
    {
        let parts = [contract_type, " contract violated: ", condition];
        let m = join(&parts);
        proof { reveal_with_fuel(concat_views, 4); }
        assert(m@ =~= contract_type@ + " contract violated: "@ + condition@);
        AriaDiagnostic::error(m, span, self.source).with_code(owned("E0004"))
    }

    /// "unused variable: `name`" (W0001), tagged unnecessary.
    pub fn unused_variable(&self, name: &str, span: Span) -> (d: AriaDiagnostic)
        ensures
            built_diag(d, Severity::Warning, self.source_spec(), span, "unused variable: `"@ + name@ + "`"@, "W0001"@),
            d.tags@ == seq![DiagnosticTag::Unnecessary],
    {
        let parts = ["unused variable: `", name, "`"];
        let m = join(&parts);
        proof { reveal_with_fuel(concat_views, 4); }
        assert(m@ =~= "unused variable: `"@ + name@ + "`"@);
        let d = AriaDiagnostic::warning(m, span, self.source).with_code(owned("W0001")).unnecessary();
        assert(d.tags@ =~= seq![DiagnosticTag::Unnecessary]);
        d
    }

    /// "unreachable code" (W0002), tagged unnecessary.
    pub fn unreachable_code(&self, span: Span) -> (d: AriaDiagnostic)
        ensures
            built_diag(d, Severity::Warning, self.source_spec(), span, "unreachable code"@, "W0002"@),
            d.tags@ == seq![DiagnosticTag::Unnecessary],
    {
        let d = AriaDiagnostic::warning(owned("unreachable code"), span, self.source).with_code(owned("W0002")).unnecessary();
        assert(d.tags@ =~= seq![DiagnosticTag::Unnecessary]);
        d
    }

    /// "`name` is deprecated[, use `replacement` instead]" (W0003), tagged
    /// deprecated.
    pub fn deprecated(&self, name: &str, span: Span, replacement: Option<&str>) -> (d: AriaDiagnostic)
        ensures
            built_diag(d, Severity::Warning, self.source_spec(), span, match replacement {
                Some(r) => "`"@ + name@ + "` is deprecated, use `"@ + r@ + "` instead"@,
                None => "`"@ + name@ + "` is deprecated"@,
            }, "W0003"@),
            d.tags@ == seq![DiagnosticTag::Deprecated],
    {
        let m = match replacement {
            Some(repl) => {
                let parts = ["`", name, "` is deprecated, use `", repl, "` instead"];
                let m = join(&parts);
                proof { reveal_with_fuel(concat_views, 6); }
                assert(m@ =~= "`"@ + name@ + "` is deprecated, use `"@ + repl@ + "` instead"@);
                m
            },
            None => {
                let parts = ["`", name, "` is deprecated"];
                let m = join(&parts);
                proof { reveal_with_fuel(concat_views, 4); }
                assert(m@ =~= "`"@ + name@ + "` is deprecated"@);
                m
            },
        };
        let d = AriaDiagnostic::warning(m, span, self.source).with_code(owned("W0003")).deprecated();
        assert(d.tags@ =~= seq![DiagnosticTag::Deprecated]);
        d
    }

    /// A syntax error with the given message (E0100).
    pub fn syntax_error(&self, message: &str, span: Span) -> (d: AriaDiagnostic)
        ensures
            built_diag(d, Severity::Error, self.source_spec(), span, message@, "E0100"@),
            d.tags@.len() == 0,
    {
        AriaDiagnostic::error(owned(message), span, self.source).with_code(owned("E0100"))
    }

    /// "expected <expected>, found `found`" (E0101).
    pub fn unexpected_token(&self, expected: &str, found: &str, span: Span) -> (d: AriaDiagnostic)
        ensures
            built_diag(d, Severity::Error, self.source_spec(), span, "expected "@ + expected@ + ", found `"@ + found@ + "`"@, "E0101"@),
            d.tags@.len() == 0,
    {
        let parts = ["expected ", expected, ", found `", found, "`"];
        let m = join(&parts);
        proof { reveal_with_fuel(concat_views, 6); }
        assert(m@ =~= "expected "@ + expected@ + ", found `"@ + found@ + "`"@);
        AriaDiagnostic::error(m, span, self.source).with_code(owned("E0101"))
    }
}

// ============================================================================
// Conversion to positions
// ============================================================================

/// A diagnostic with its span converted to a range of positions, ready to be
/// sent to the client.
#[derive(Debug, Clone)]
pub struct ConvertedDiagnostic {
    /// The range of the diagnostic.
    pub range: TextRange,
    /// Its severity.
    pub severity: Severity,
    /// Its code.
    pub code: Option<String>,
    /// The name of its source.
    pub source: String,
    /// Its message.
    pub message: String,
    /// Related information; none when there is none.
    pub related_information: Option<Vec<RelatedInformation>>,
    /// Tags; none when there are none.
    pub tags: Option<Vec<DiagnosticTag>>,
}

fn clone_related(v: &Vec<RelatedInformation>) -> (r: Vec<RelatedInformation>)
    ensures
        r@ == v@,
{
    let mut r: Vec<RelatedInformation> = Vec::new();
    let mut i: usize = 0;
    while i < v.len()
        invariant
            0 <= i <= v@.len(),
            r@ == v@.take(i as int),
        decreases v@.len() - i,
    {
        let x = &v[i];
        r.push(RelatedInformation { uri: x.uri.clone(), range: x.range, message: x.message.clone() });
        i = i + 1;
        assert(r@ =~= v@.take(i as int));
    }
    assert(v@.take(v@.len() as int) =~= v@);
    r
}

/// Whether `r` is `diag` converted with the line index `idx`: the span
/// becomes a range of positions, related information and tags become
/// absent when there are none, and the source becomes its name.
pub open spec fn converts(idx: LineIndex, diag: AriaDiagnostic, r: ConvertedDiagnostic) -> bool {
    &&& r.range.start == idx.spec_offset_to_position(diag.span.start)
    &&& r.range.end == idx.spec_offset_to_position(diag.span.end)
    &&& r.severity == diag.severity
    &&& r.code == diag.code
    &&& r.source@ == source_name(diag.source)
    &&& r.message == diag.message
    &&& match r.related_information {
        Some(v) => diag.related@.len() > 0 && v@ == diag.related@,
        None => diag.related@.len() == 0,
    }
    &&& match r.tags {
        Some(v) => diag.tags@.len() > 0 && v@ == diag.tags@,
        None => diag.tags@.len() == 0,
    }
}

/// Converts diagnostics of one document to ranges of positions.
pub struct DiagnosticConverter {
    line_index: LineIndex,
    uri: String,
}

impl DiagnosticConverter {
    /// The index of the document.
    pub closed spec fn index(&self) -> LineIndex {
        self.line_index
    }

    /// The document URI.
    pub closed spec fn uri_spec(&self) -> String {
        self.uri
    }

    /// A converter for the document `text` at `uri`.
    pub fn new(uri: String, text: &str) -> (c: Self)
        ensures
            c.index().wf(),
            c.index().bytes() == text.spec_bytes(),
            c.index().starts() == crate::lsp_types::line_starts_of(text.spec_bytes()),
            c.index().text_len() == text.spec_bytes().len(),
            c.uri_spec() == uri,
    {
        Self { line_index: LineIndex::new(text), uri }
    }

    /// Converts one diagnostic.
    pub fn convert(&self, diag: &AriaDiagnostic) -> (r: ConvertedDiagnostic)
        requires
            self.index().wf(),
        ensures
            converts(self.index(), *diag, r),
    {
        let range = self.line_index.span_to_range(diag.span);
        let related_information = if diag.related.len() == 0 {
            None
        } else {
            Some(clone_related(&diag.related))
        };
        let tags = if diag.tags.len() == 0 {
            None
        } else {
            Some(diag.tags.clone())
        };
        ConvertedDiagnostic {
            range,
            severity: diag.severity,
            code: diag.code.clone(),
            source: owned(diag.source.as_str()),
            message: diag.message.clone(),
            related_information,
            tags,
        }
    }

    /// Converts each diagnostic, in order.
    pub fn convert_all(&self, diagnostics: &[AriaDiagnostic]) -> (r: Vec<ConvertedDiagnostic>)
        requires
            self.index().wf(),
        ensures
            r@.len() == diagnostics@.len(),
            forall|i: int| 0 <= i < diagnostics@.len() ==> converts(self.index(), diagnostics@[i], #[trigger] r@[i]),
    {
        let mut r: Vec<ConvertedDiagnostic> = Vec::new();
        let mut i: usize = 0;
        while i < diagnostics.len()
            invariant
                self.index().wf(),
                0 <= i <= diagnostics@.len(),
                r@.len() == i,
                forall|j: int| 0 <= j < i ==> converts(self.index(), diagnostics@[j], #[trigger] r@[j]),
            decreases diagnostics@.len() - i,
        {
            r.push(self.convert(&diagnostics[i]));
            i = i + 1;
        }
        r
    }
}


// ============================================================================
// The collection of all documents
// ============================================================================

/// How many diagnostics there are of each severity; a severity without
/// diagnostics has no count.
#[derive(Debug, Clone, Copy, PartialEq, Eq, Structural)]
pub struct SeverityCounts {
    pub errors: usize,
    pub warnings: usize,
    pub information: usize,
    pub hints: usize,
}

impl SeverityCounts {
    /// The count kept for `severity`.
    pub open spec fn count_of(&self, severity: Severity) -> usize {
        match severity {
            Severity::Error => self.errors,
            Severity::Warning => self.warnings,
            Severity::Information => self.information,
            Severity::Hint => self.hints,
        }
    }

    /// The count for `severity`, if there is any diagnostic of it.
    pub fn get(&self, severity: &Severity) -> (r: Option<&usize>)
        ensures
            self.count_of(*severity) == 0 ==> r is None,
            self.count_of(*severity) > 0 ==> r == Some(&self.count_of(*severity)),
    {
        let c = match severity {
            Severity::Error => &self.errors,
            Severity::Warning => &self.warnings,
            Severity::Information => &self.information,
            Severity::Hint => &self.hints,
        };
        if *c == 0 {
            None
        } else {
            Some(c)
        }
    }
}

/// The number of diagnostics of `severity`.
pub open spec fn severity_count(ds: Seq<AriaDiagnostic>, severity: Severity) -> nat
    decreases ds.len(),
{
    if ds.len() == 0 {
        0
    } else {
        severity_count(ds.drop_last(), severity) + if ds.last().severity == severity {
            1nat
        } else {
            0nat
        }
    }
}

/// The number of diagnostics of `severity` over all documents.
pub open spec fn severity_total(entries: Seq<(String, Vec<AriaDiagnostic>)>, severity: Severity) -> nat
    decreases entries.len(),
{
    if entries.len() == 0 {
        0
    } else {
        severity_total(entries.drop_last(), severity) + severity_count(entries.last().1@, severity)
    }
}

/// The number of diagnostics over all documents.
pub open spec fn diag_total(entries: Seq<(String, Vec<AriaDiagnostic>)>) -> nat
    decreases entries.len(),
{
    if entries.len() == 0 {
        0
    } else {
        diag_total(entries.drop_last()) + entries.last().1@.len()
    }
}

/// The diagnostics and the text of each document, by URI.
pub struct DiagnosticCollection {
    diagnostics: Vec<(String, Vec<AriaDiagnostic>)>,
    documents: Vec<(String, String)>,
}

/// The position of the entry for `uri`.
pub open spec fn uri_index<V>(entries: Seq<(String, V)>, uri: Seq<char>) -> Option<int> {
    if exists|i: int| 0 <= i < entries.len() && #[trigger] entries[i].0@ == uri {
        Some(choose|i: int| 0 <= i < entries.len() && #[trigger] entries[i].0@ == uri)
    } else {
        None
    }
}

/// No URI has two entries.
pub open spec fn uris_distinct<V>(entries: Seq<(String, V)>) -> bool {
    forall|i: int, j: int| 0 <= i < j < entries.len() ==> #[trigger] entries[i].0@ != #[trigger] entries[j].0@
}

fn find_uri<V>(entries: &Vec<(String, V)>, uri: &str) -> (r: Option<usize>)
    ensures
        r matches Some(i) ==> i < entries@.len() && entries@[i as int].0@ == uri@,
        r is None ==> forall|i: int| 0 <= i < entries@.len() ==> #[trigger] entries@[i].0@ != uri@,
{
    let mut i: usize = 0;
    while i < entries.len()
        invariant
            0 <= i <= entries@.len(),
            forall|j: int| 0 <= j < i ==> #[trigger] entries@[j].0@ != uri@,
        decreases entries@.len() - i,
    {
        if str_equal(entries[i].0.as_str(), uri) {
            return Some(i);
        }
        i = i + 1;
    }
    None
}

proof fn lemma_uri_index<V>(entries: Seq<(String, V)>, i: int)
    requires
        uris_distinct(entries),
        0 <= i < entries.len(),
    ensures
        uri_index(entries, entries[i].0@) == Some(i),
{
    let u = entries[i].0@;
    assert(exists|k: int| 0 <= k < entries.len() && #[trigger] entries[k].0@ == u);
    let k = choose|k: int| 0 <= k < entries.len() && #[trigger] entries[k].0@ == u;
    if k < i {
        assert(entries[k].0@ != entries[i].0@);
    } else if k > i {
        assert(entries[i].0@ != entries[k].0@);
    }
}

impl DiagnosticCollection {
    /// The diagnostics of each document with any, in order of first
    /// addition.
    pub closed spec fn diag_entries(&self) -> Seq<(String, Vec<AriaDiagnostic>)> {
        self.diagnostics@
    }

    /// The registered documents and their texts.
    pub closed spec fn doc_entries(&self) -> Seq<(String, String)> {
        self.documents@
    }

    /// The diagnostics of the document `uri`.
    pub open spec fn diags_of(&self, uri: Seq<char>) -> Option<Seq<AriaDiagnostic>> {
        match uri_index(self.diag_entries(), uri) {
            Some(i) => Some(self.diag_entries()[i].1@),
            None => None,
        }
    }

    /// The text of the document `uri`.
    pub open spec fn text_of(&self, uri: Seq<char>) -> Option<String> {
        match uri_index(self.doc_entries(), uri) {
            Some(i) => Some(self.doc_entries()[i].1),
            None => None,
        }
    }

    /// No URI is listed twice.
    pub open spec fn wf(&self) -> bool {
        &&& uris_distinct(self.diag_entries())
        &&& uris_distinct(self.doc_entries())
    }

    /// An empty collection.
    pub fn new() -> (c: Self)
        ensures
            c.wf(),
            c.diag_entries().len() == 0,
            c.doc_entries().len() == 0,
    {
        DiagnosticCollection { diagnostics: Vec::new(), documents: Vec::new() }
    }

    /// Registers the text of a document, replacing an earlier one.
    pub fn register_document(&mut self, uri: String, content: String)
        requires
            old(self).wf(),
        ensures
            final(self).wf(),
            final(self).diag_entries() == old(self).diag_entries(),
            final(self).text_of(uri@) == Some(content),
            forall|u: Seq<char>| u != uri@ ==> final(self).text_of(u) == old(self).text_of(u),
    {
        let ghost before = self.documents@;
        let ghost u = uri@;
        match find_uri(&self.documents, uri.as_str()) {
            Some(i) => {
                self.documents.set(i, (uri, content));
                proof {
                    let after = self.documents@;
                    assert forall|a: int, b: int| 0 <= a < b < after.len() implies #[trigger] after[a].0@ != #[trigger] after[b].0@ by {
                        assert(before[a].0@ != before[b].0@);
                    }
                    lemma_uri_index(after, i as int);
                    assert forall|x: Seq<char>| x != u implies #[trigger] uri_index(after, x) == uri_index(before, x) by {
                        if exists|k: int| 0 <= k < before.len() && #[trigger] before[k].0@ == x {
                            let k = choose|k: int| 0 <= k < before.len() && #[trigger] before[k].0@ == x;
                            lemma_uri_index(before, k);
                            lemma_uri_index(after, k);
                        }
                        if exists|k: int| 0 <= k < after.len() && #[trigger] after[k].0@ == x {
                            let k = choose|k: int| 0 <= k < after.len() && #[trigger] after[k].0@ == x;
                            assert(before[k].0@ == x);
                        }
                    }
                }
            },
            None => {
                self.documents.push((uri, content));
                proof {
                    let after = self.documents@;
                    let n = before.len() as int;
                    assert forall|a: int, b: int| 0 <= a < b < after.len() implies #[trigger] after[a].0@ != #[trigger] after[b].0@ by {
                        if b < n {
                            assert(before[a].0@ != before[b].0@);
                        } else {
                            assert(before[a].0@ != u);
                        }
                    }
                    lemma_uri_index(after, n);
                    assert forall|x: Seq<char>| x != u implies #[trigger] uri_index(after, x) == uri_index(before, x) by {
                        if exists|k: int| 0 <= k < before.len() && #[trigger] before[k].0@ == x {
                            let k = choose|k: int| 0 <= k < before.len() && #[trigger] before[k].0@ == x;
                            lemma_uri_index(before, k);
                            lemma_uri_index(after, k);
                        }
                        if exists|k: int| 0 <= k < after.len() && #[trigger] after[k].0@ == x {
                            let k = choose|k: int| 0 <= k < after.len() && #[trigger] after[k].0@ == x;
                            if k < n {
                                assert(before[k].0@ == x);
                            }
                        }
                    }
                }
            },
        }
    }

    /// Appends a diagnostic to those of the document `uri`.
    pub fn add(&mut self, uri: String, diagnostic: AriaDiagnostic)
        requires
            old(self).wf(),
        ensures
            final(self).wf(),
            final(self).doc_entries() == old(self).doc_entries(),
            final(self).diags_of(uri@) == Some(match old(self).diags_of(uri@) {
                Some(ds) => ds,
                None => Seq::empty(),
            }.push(diagnostic)),
            forall|u: Seq<char>| u != uri@ ==> final(self).diags_of(u) == old(self).diags_of(u),
    {
        let ghost before = self.diagnostics@;
        let ghost u = uri@;
        match find_uri(&self.diagnostics, uri.as_str()) {
            Some(i) => {
                proof {
                    lemma_uri_index(before, i as int);
                }
                let mut entry: (String, Vec<AriaDiagnostic>) = (String::new(), Vec::new());
                self.diagnostics.set_and_swap(i, &mut entry);
                entry.1.push(diagnostic);
                let ghost e = entry;
                self.diagnostics.set(i, entry);
                proof {
                    let after = self.diagnostics@;
                    assert(after =~= before.update(i as int, e));
                    assert forall|a: int, b: int| 0 <= a < b < after.len() implies #[trigger] after[a].0@ != #[trigger] after[b].0@ by {
                        assert(before[a].0@ != before[b].0@);
                    }
                    lemma_uri_index(after, i as int);
                    assert forall|x: Seq<char>| x != u implies #[trigger] uri_index(after, x) == uri_index(before, x) by {
                        if exists|k: int| 0 <= k < before.len() && #[trigger] before[k].0@ == x {
                            let k = choose|k: int| 0 <= k < before.len() && #[trigger] before[k].0@ == x;
                            lemma_uri_index(before, k);
                            lemma_uri_index(after, k);
                        }
                        if exists|k: int| 0 <= k < after.len() && #[trigger] after[k].0@ == x {
                            let k = choose|k: int| 0 <= k < after.len() && #[trigger] after[k].0@ == x;
                            assert(before[k].0@ == x);
                        }
                    }
                }
            },
            None => {
                let mut ds: Vec<AriaDiagnostic> = Vec::new();
                ds.push(diagnostic);
                self.diagnostics.push((uri, ds));
                proof {
                    let after = self.diagnostics@;
                    let n = before.len() as int;
                    assert(uri_index(before, u) is None);
                    assert forall|a: int, b: int| 0 <= a < b < after.len() implies #[trigger] after[a].0@ != #[trigger] after[b].0@ by {
                        if b < n {
                            assert(before[a].0@ != before[b].0@);
                        } else {
                            assert(before[a].0@ != u);
                        }
                    }
                    lemma_uri_index(after, n);
                    assert(after[n].1@ =~= Seq::<AriaDiagnostic>::empty().push(diagnostic));
                    assert forall|x: Seq<char>| x != u implies #[trigger] uri_index(after, x) == uri_index(before, x) by {
                        if exists|k: int| 0 <= k < before.len() && #[trigger] before[k].0@ == x {
                            let k = choose|k: int| 0 <= k < before.len() && #[trigger] before[k].0@ == x;
                            lemma_uri_index(before, k);
                            lemma_uri_index(after, k);
                        }
                        if exists|k: int| 0 <= k < after.len() && #[trigger] after[k].0@ == x {
                            let k = choose|k: int| 0 <= k < after.len() && #[trigger] after[k].0@ == x;
                            if k < n {
                                assert(before[k].0@ == x);
                            }
                        }
                    }
                }
            },
        }
    }

    /// Removes the diagnostics of the document `uri`.
    pub fn clear(&mut self, uri: &str)
        requires
            old(self).wf(),
        ensures
            final(self).wf(),
            final(self).doc_entries() == old(self).doc_entries(),
            final(self).diags_of(uri@) is None,
            forall|u: Seq<char>| u != uri@ ==> final(self).diags_of(u) == old(self).diags_of(u),
    {
        let ghost before = self.diagnostics@;
        match find_uri(&self.diagnostics, uri) {
            Some(i) => {
                let _ = self.diagnostics.remove(i);
                proof {
                    let after = self.diagnostics@;
                    assert(after =~= before.remove(i as int));
                    assert forall|a: int, b: int| 0 <= a < b < after.len() implies #[trigger] after[a].0@ != #[trigger] after[b].0@ by {
                        let a0 = if a < i { a } else { a + 1 };
                        let b0 = if b < i { b } else { b + 1 };
                        assert(after[a] == before[a0] && after[b] == before[b0]);
                        assert(before[a0].0@ != before[b0].0@);
                    }
                    assert forall|k: int| 0 <= k < after.len() implies #[trigger] after[k].0@ != uri@ by {
                        let k0 = if k < i { k } else { k + 1 };
                        assert(after[k] == before[k0]);
                        if k0 < i {
                            assert(before[k0].0@ != before[i as int].0@);
                        } else {
                            assert(before[i as int].0@ != before[k0].0@);
                        }
                    }
                    assert forall|x: Seq<char>| x != uri@ implies #[trigger] uri_index(after, x) matches Some(k)
                        ==> uri_index(before, x) matches Some(k0) && after[k] == before[k0] by {
                        if exists|k: int| 0 <= k < after.len() && #[trigger] after[k].0@ == x {
                            let k = choose|k: int| 0 <= k < after.len() && #[trigger] after[k].0@ == x;
                            let k0 = if k < i { k } else { k + 1 };
                            assert(after[k] == before[k0]);
                            lemma_uri_index(after, k);
                            lemma_uri_index(before, k0);
                        }
                    }
                    assert forall|x: Seq<char>| x != uri@ implies #[trigger] final(self).diags_of(x) == old(self).diags_of(x) by {
                        if exists|k: int| 0 <= k < before.len() && #[trigger] before[k].0@ == x {
                            let k0 = choose|k: int| 0 <= k < before.len() && #[trigger] before[k].0@ == x;
                            assert(k0 != i);
                            let k = if k0 < i { k0 } else { k0 - 1 };
                            assert(after[k] == before[k0]);
                            lemma_uri_index(after, k);
                            lemma_uri_index(before, k0);
                        }
                    }
                }
            },
            None => {},
        }
    }

    /// Removes all diagnostics.
    pub fn clear_all(&mut self)
        requires
            old(self).wf(),
        ensures
            final(self).wf(),
            final(self).doc_entries() == old(self).doc_entries(),
            forall|u: Seq<char>| final(self).diags_of(u) is None,
    {
        self.diagnostics = Vec::new();
    }

    /// The diagnostics of the document `uri`.
    pub fn get(&self, uri: &str) -> (r: Option<&[AriaDiagnostic]>)
        requires
            self.wf(),
        ensures
            match self.diags_of(uri@) {
                Some(ds) => r matches Some(s) && s@ == ds,
                None => r is None,
            },
    {
        match find_uri(&self.diagnostics, uri) {
            Some(i) => {
                proof {
                    lemma_uri_index(self.diagnostics@, i as int);
                }
                Some(self.diagnostics[i].1.as_slice())
            },
            None => None,
        }
    }

    /// The URIs of the documents with diagnostics, in order of first
    /// addition.
    pub fn uris(&self) -> (r: Vec<String>)
        ensures
            r@.len() == self.diag_entries().len(),
            forall|i: int| 0 <= i < r@.len() ==> #[trigger] r@[i]@ == self.diag_entries()[i].0@,
    {
        let mut r: Vec<String> = Vec::new();
        let mut i: usize = 0;
        while i < self.diagnostics.len()
            invariant
                0 <= i <= self.diagnostics@.len(),
                r@.len() == i,
                forall|j: int| 0 <= j < i ==> #[trigger] r@[j]@ == self.diagnostics@[j].0@,
            decreases self.diagnostics@.len() - i,
        {
            r.push(self.diagnostics[i].0.clone());
            i = i + 1;
        }
        r
    }

    /// The diagnostics of the document `uri` converted with its text; none
    /// unless the document has both diagnostics and a registered text.
    pub fn to_lsp(&self, uri: &str) -> (r: Option<Vec<ConvertedDiagnostic>>)
        requires
            self.wf(),
        ensures
            match (self.diags_of(uri@), self.text_of(uri@)) {
                (Some(ds), Some(text)) => r matches Some(v) && v@.len() == ds.len()
                    && exists|idx: LineIndex| {
                        &&& #[trigger] idx.bytes() == vstd::utf8::encode_utf8(text@)
                        &&& idx.starts() == crate::lsp_types::line_starts_of(vstd::utf8::encode_utf8(text@))
                        &&& idx.text_len() == vstd::utf8::encode_utf8(text@).len()
                        &&& idx.wf()
                        &&& forall|i: int| 0 <= i < ds.len() ==> #[trigger] converts(idx, ds[i], v@[i])
                    },
                _ => r is None,
            },
    {
        let di = match find_uri(&self.diagnostics, uri) {
            Some(i) => i,
            None => {
                return None;
            },
        };
        let ti = match find_uri(&self.documents, uri) {
            Some(i) => i,
            None => {
                proof {
                    assert(uri_index(self.documents@, uri@) is None);
                }
                return None;
            },
        };
        proof {
            lemma_uri_index(self.diagnostics@, di as int);
            lemma_uri_index(self.documents@, ti as int);
        }
        let converter = DiagnosticConverter::new(self.diagnostics[di].0.clone(), self.documents[ti].1.as_str());
        Some(converter.convert_all(self.diagnostics[di].1.as_slice()))
    }

    /// The number of diagnostics over all documents.
    pub fn total_count(&self) -> (n: usize)
        requires
            diag_total(self.diag_entries()) <= usize::MAX,
        ensures
            n == diag_total(self.diag_entries()),
    {
        let mut n: usize = 0;
        let mut i: usize = 0;
        while i < self.diagnostics.len()
            invariant
                0 <= i <= self.diagnostics@.len(),
                n == diag_total(self.diagnostics@.take(i as int)),
                diag_total(self.diagnostics@) <= usize::MAX,
            decreases self.diagnostics@.len() - i,
        {
            proof {
                assert(self.diagnostics@.take(i + 1).drop_last() =~= self.diagnostics@.take(i as int));
                lemma_diag_total_prefix(self.diagnostics@, i + 1);
            }
            n = n + self.diagnostics[i].1.len();
            i = i + 1;
        }
        assert(self.diagnostics@.take(i as int) =~= self.diagnostics@);
        n
    }

    /// The number of diagnostics of the document `uri`.
    pub fn count(&self, uri: &str) -> (n: usize)
        requires
            self.wf(),
        ensures
            n == match self.diags_of(uri@) {
                Some(ds) => ds.len(),
                None => 0,
            },
    {
        match self.get(uri) {
            Some(ds) => ds.len(),
            None => 0,
        }
    }

    /// How many diagnostics there are of each severity over all documents.
    pub fn counts_by_severity(&self) -> (c: SeverityCounts)
        requires
            diag_total(self.diag_entries()) <= usize::MAX,
        ensures
            forall|s: Severity| #[trigger] c.count_of(s) == severity_total(self.diag_entries(), s),
    {
        let mut c = SeverityCounts { errors: 0, warnings: 0, information: 0, hints: 0 };
        let mut i: usize = 0;
        while i < self.diagnostics.len()
            invariant
                0 <= i <= self.diagnostics@.len(),
                diag_total(self.diagnostics@) <= usize::MAX,
                forall|s: Severity| #[trigger] c.count_of(s) == severity_total(self.diagnostics@.take(i as int), s),
                c.errors + c.warnings + c.information + c.hints == diag_total(self.diagnostics@.take(i as int)),
            decreases self.diagnostics@.len() - i,
        {
            let ds = &self.diagnostics[i].1;
            let ghost c0 = c;
            proof {
                lemma_diag_total_prefix(self.diagnostics@, i + 1);
                assert(self.diagnostics@.take(i + 1).drop_last() =~= self.diagnostics@.take(i as int));
                assert(self.diagnostics@.take(i + 1).last() == self.diagnostics@[i as int]);
            }
            let mut j: usize = 0;
            while j < ds.len()
                invariant
                    0 <= j <= ds@.len(),
                    diag_total(self.diagnostics@.take(i as int)) + ds@.len() <= usize::MAX,
                    forall|s: Severity| #[trigger] c.count_of(s) == c0.count_of(s) + severity_count(ds@.take(j as int), s),
                    c.errors + c.warnings + c.information + c.hints == c0.errors + c0.warnings + c0.information + c0.hints + j,
                    c0.errors + c0.warnings + c0.information + c0.hints == diag_total(self.diagnostics@.take(i as int)),
                decreases ds@.len() - j,
            {
                assert(ds@.take(j + 1).drop_last() =~= ds@.take(j as int));
                assert(ds@.take(j + 1).last() == ds@[j as int]);
                let ghost cb = c;
                match ds[j].severity {
                    Severity::Error => {
                        c.errors = c.errors + 1;
                    },
                    Severity::Warning => {
                        c.warnings = c.warnings + 1;
                    },
                    Severity::Information => {
                        c.information = c.information + 1;
                    },
                    Severity::Hint => {
                        c.hints = c.hints + 1;
                    },
                }
                assert forall|s: Severity| #[trigger] c.count_of(s) == c0.count_of(s) + severity_count(ds@.take(j + 1), s) by {
                    assert(severity_count(ds@.take(j + 1), s) == severity_count(ds@.take(j as int), s)
                        + if ds@[j as int].severity == s { 1nat } else { 0nat });
                    assert(cb.count_of(s) == c0.count_of(s) + severity_count(ds@.take(j as int), s));
                }
                j = j + 1;
            }
            assert(ds@.take(j as int) =~= ds@);
            i = i + 1;
        }
        assert(self.diagnostics@.take(i as int) =~= self.diagnostics@);
        c
    }
}

proof fn lemma_diag_total_prefix(entries: Seq<(String, Vec<AriaDiagnostic>)>, k: int)
    requires
        0 <= k <= entries.len(),
    ensures
        diag_total(entries.take(k)) <= diag_total(entries),
    decreases entries.len(),
{
    if k < entries.len() {
        assert(entries.drop_last().take(k) =~= entries.take(k));
        lemma_diag_total_prefix(entries.drop_last(), k);
    } else {
        assert(entries.take(k) =~= entries);
    }
}

} // verus!
