use aria_lang::diagnostics::{
    AriaDiagnostic, DiagnosticBuilder, DiagnosticCollection, DiagnosticConverter, DiagnosticSource,
    DiagnosticTag, FixSuggestion, RelatedInformation, Severity,
};
use aria_lang::lsp_types::{Position, Span, TextRange};

fn uri() -> String {
    "file:///test.aria".to_string()
}

#[test]
fn test_diagnostic_builder() {
    let builder = DiagnosticBuilder::new(DiagnosticSource::TypeChecker);

    let diag = builder.undefined_name("foo", Span::new(0, 3));
    assert_eq!(diag.severity, Severity::Error);
    assert!(diag.message.contains("foo"));
    assert_eq!(diag.code, Some("E0001".to_string()));
}

#[test]
fn test_diagnostic_with_related() {
    let diag = AriaDiagnostic::error(
        "duplicate definition".to_string(),
        Span::new(10, 15),
        DiagnosticSource::NameResolution,
    )
    .with_related(RelatedInformation::new(
        uri(),
        TextRange::new(Position::new(0, 0), Position::new(0, 5)),
        "first defined here".to_string(),
    ));

    assert_eq!(diag.related.len(), 1);
    assert_eq!(diag.related[0].message, "first defined here");
}

#[test]
fn test_diagnostic_converter() {
    let text = "let x = 42;\nlet y = x + 1;";
    let converter = DiagnosticConverter::new(uri(), text);

    let diag = AriaDiagnostic::error("test error".to_string(), Span::new(4, 5), DiagnosticSource::TypeChecker);
    let converted = converter.convert(&diag);

    assert_eq!(converted.message, "test error");
    assert_eq!(converted.severity, Severity::Error);
    assert_eq!(converted.range.start.line, 0);
    assert_eq!(converted.range.start.character, 4);
}

#[test]
fn test_diagnostic_collection() {
    let mut collection = DiagnosticCollection::new();
    let content = "let x = 42;".to_string();

    collection.register_document(uri(), content);
    collection.add(
        uri(),
        AriaDiagnostic::error("error 1".to_string(), Span::new(0, 3), DiagnosticSource::Parser),
    );
    collection.add(
        uri(),
        AriaDiagnostic::warning("warning 1".to_string(), Span::new(4, 5), DiagnosticSource::TypeChecker),
    );

    assert_eq!(collection.count(&uri()), 2);
    assert_eq!(collection.total_count(), 2);

    let counts = collection.counts_by_severity();
    assert_eq!(counts.get(&Severity::Error), Some(&1));
    assert_eq!(counts.get(&Severity::Warning), Some(&1));

    let converted = collection.to_lsp(&uri()).unwrap();
    assert_eq!(converted.len(), 2);
}

#[test]
fn test_fix_suggestion() {
    let fix = FixSuggestion::new("Add missing semicolon".to_string()).with_edit(Span::new(10, 10), ";".to_string());

    assert_eq!(fix.message, "Add missing semicolon");
    assert_eq!(fix.edits.len(), 1);
    assert_eq!(fix.edits[0].new_text, ";");
}

#[test]
fn test_diagnostic_tags() {
    let diag = AriaDiagnostic::warning("unused".to_string(), Span::new(0, 5), DiagnosticSource::Compiler)
        .unnecessary()
        .deprecated();

    assert_eq!(diag.tags.len(), 2);
    assert!(diag.tags.contains(&DiagnosticTag::Unnecessary));
    assert!(diag.tags.contains(&DiagnosticTag::Deprecated));
}

#[test]
fn test_type_mismatch_diagnostic() {
    let builder = DiagnosticBuilder::new(DiagnosticSource::TypeChecker);
    let diag = builder.type_mismatch("Int", "String", Span::new(10, 20));

    assert!(diag.message.contains("Int"));
    assert!(diag.message.contains("String"));
    assert_eq!(diag.code, Some("E0002".to_string()));
}

#[test]
fn test_missing_handler_diagnostic() {
    let builder = DiagnosticBuilder::new(DiagnosticSource::EffectChecker);
    let diag = builder.missing_handler("Console", Span::new(5, 15));

    assert!(diag.message.contains("Console"));
    assert!(diag.message.contains("not handled"));
}

#[test]
fn builder_messages_are_exact() {
    let builder = DiagnosticBuilder::new(DiagnosticSource::Compiler);
    assert_eq!(builder.undefined_name("foo", Span::new(0, 3)).message, "undefined name `foo`");
    let unused = builder.unused_variable("x", Span::new(0, 1));
    assert_eq!(unused.severity, Severity::Warning);
    assert_eq!(unused.code, Some("W0001".to_string()));
    let syntax = builder.syntax_error("bad", Span::new(0, 1));
    assert_eq!(syntax.code, Some("E0100".to_string()));
    assert_eq!(DiagnosticSource::Compiler.as_str(), "aria");
    assert_eq!(DiagnosticSource::Parser.as_str(), "aria-parser");
}

#[test]
fn collection_clear_and_missing_documents() {
    let mut collection = DiagnosticCollection::new();
    collection.add(
        uri(),
        AriaDiagnostic::hint("h".to_string(), Span::new(0, 1), DiagnosticSource::Lexer),
    );
    assert!(collection.to_lsp(&uri()).is_none());
    assert_eq!(collection.uris(), vec![uri()]);
    collection.clear(&uri());
    assert_eq!(collection.count(&uri()), 0);
    assert!(collection.get(&uri()).is_none());
    assert_eq!(collection.counts_by_severity().get(&Severity::Hint), None);
}
