use aria_lang::completion::{
    determine_context, extract_receiver, get_prefix, merge_candidates, CompletionCandidate,
    CompletionContext, CompletionKind, CompletionTag, ContractProvider, EffectProvider,
    KeywordProvider, SnippetProvider, TypeProvider,
};
use aria_lang::completion::{context_in_line, prefix_in_line, BuiltinProvider, CompletionEngine};
use aria_lang::lsp_types::Position;
use aria_lang::state::Document;

fn test_doc(content: &str) -> Document {
    Document::new("file:///test.aria".to_string(), content.to_string(), 1, "aria".to_string())
}

#[test]
fn test_determine_context_effect() {
    let context = determine_context(&test_doc("fn foo() -> Int !"), Position::new(0, 17), Some("!"));
    assert_eq!(context, CompletionContext::EffectAnnotation);
}

#[test]
fn test_determine_context_member_access() {
    let context = determine_context(&test_doc("let x = foo."), Position::new(0, 12), Some("."));
    assert!(matches!(context, CompletionContext::MemberAccess { .. }));
}

#[test]
fn test_determine_context_type() {
    let context = determine_context(&test_doc("let x:"), Position::new(0, 6), Some(":"));
    assert_eq!(context, CompletionContext::TypePosition);
}

#[test]
fn test_determine_context_contract() {
    let context = determine_context(&test_doc("fn foo() requires "), Position::new(0, 18), None);
    assert_eq!(context, CompletionContext::Contract);
}

#[test]
fn test_get_prefix() {
    let prefix = get_prefix(&test_doc("let some_var"), Position::new(0, 12));
    assert_eq!(prefix, "some_var");

    let prefix = get_prefix(&test_doc("let som"), Position::new(0, 7));
    assert_eq!(prefix, "som");
}

#[test]
fn test_keyword_provider() {
    let provider = KeywordProvider;

    assert!(provider.can_handle(&CompletionContext::TopLevel));
    assert!(!provider.can_handle(&CompletionContext::EffectAnnotation));

    let items = provider.provide(&CompletionContext::TopLevel, "fn");
    assert!(!items.is_empty());
    assert!(items.iter().any(|i| i.label == "fn"));
}

#[test]
fn test_effect_provider() {
    let provider = EffectProvider;

    assert!(provider.can_handle(&CompletionContext::EffectAnnotation));
    assert!(!provider.can_handle(&CompletionContext::TopLevel));

    let items = provider.provide(&CompletionContext::EffectAnnotation, "");
    assert!(!items.is_empty());
    assert!(items.iter().any(|i| i.label == "IO"));
    assert!(items.iter().any(|i| i.label == "Console"));
}

#[test]
fn test_type_provider() {
    let provider = TypeProvider;

    let items = provider.provide(&CompletionContext::TypePosition, "Int");
    assert!(items.iter().any(|i| i.label == "Int"));
    assert!(items.iter().any(|i| i.label == "Int32"));
}

#[test]
fn test_extract_receiver() {
    assert_eq!(extract_receiver("foo."), Some("foo".to_string()));
    assert_eq!(extract_receiver("x.y."), Some("y".to_string()));
    assert_eq!(extract_receiver("func()."), Some("func()".to_string()));
    assert_eq!(extract_receiver("let a = b."), Some("b".to_string()));
}

#[test]
fn test_contract_provider() {
    let provider = ContractProvider;

    let items = provider.provide(&CompletionContext::Contract, "");
    assert!(items.iter().any(|i| i.label == "requires"));
    assert!(items.iter().any(|i| i.label == "ensures"));
    assert!(items.iter().any(|i| i.label == "old"));
}

#[test]
fn test_snippet_provider() {
    let provider = SnippetProvider;

    let items = provider.provide(&CompletionContext::TopLevel, "");
    assert!(items.iter().any(|i| i.label.contains("main")));
}

#[test]
fn test_completion_candidate_deprecated() {
    let candidate = CompletionCandidate::new("old_func".to_string(), CompletionKind::Function).deprecated();

    assert!(candidate.deprecated);
    assert!(candidate.tags.contains(&CompletionTag::Deprecated));
}

#[test]
fn test_completion_engine() {
    let engine = CompletionEngine::new();
    let doc = test_doc("");

    let candidates = engine.complete(CompletionContext::TopLevel, "", &doc, Position::new(0, 0));
    assert!(!candidates.is_empty());

    assert!(candidates.iter().any(|c| c.label == "fn"));
    assert!(candidates.iter().any(|c| c.label == "let"));
}

#[test]
fn engine_ranks_limits_and_skips_providers_that_do_not_handle_the_context() {
    let mut engine = CompletionEngine::new();
    let doc = test_doc("");
    let effects = engine.complete(CompletionContext::EffectAnnotation, "", &doc, Position::new(0, 0));
    assert!(effects.iter().all(|c| c.kind == CompletionKind::Effect));
    let top = engine.complete(CompletionContext::TopLevel, "", &doc, Position::new(0, 0));
    assert!(top.windows(2).all(|w| (w[0].priority, w[0].label.as_str()) <= (w[1].priority, w[1].label.as_str())));
    assert!(top.len() <= 50);
    engine.set_max_items(3);
    assert_eq!(engine.complete(CompletionContext::TopLevel, "", &doc, Position::new(0, 0)).len(), 3);
    let mut bare = CompletionEngine::new();
    bare.set_max_items(100);
    bare.register(BuiltinProvider::Keyword);
    let twice = bare.complete(CompletionContext::TopLevel, "fn", &doc, Position::new(0, 0));
    assert_eq!(twice.iter().filter(|c| c.label == "fn").count(), 1);
}

#[test]
fn candidate_builders_set_their_fields() {
    let c = CompletionCandidate::new("test".to_string(), CompletionKind::Function)
        .with_detail("A test function".to_string())
        .as_snippet("test($0)".to_string())
        .with_priority(10);
    assert_eq!(c.label, "test");
    assert_eq!(c.detail, Some("A test function".to_string()));
    assert_eq!(c.insert_text, Some("test($0)".to_string()));
    assert!(c.is_snippet);
    assert_eq!(c.priority, 10);
}

#[test]
fn merge_drops_duplicate_labels_and_sorts_by_priority() {
    let a = CompletionCandidate::new("b".to_string(), CompletionKind::Keyword).with_priority(5);
    let b = CompletionCandidate::new("a".to_string(), CompletionKind::Keyword).with_priority(5);
    let c = CompletionCandidate::new("b".to_string(), CompletionKind::Function).with_priority(1);
    let d = CompletionCandidate::new("z".to_string(), CompletionKind::Keyword).with_priority(1);
    let merged = merge_candidates(vec![a, b, c, d], 10);
    let labels: Vec<&str> = merged.iter().map(|c| c.label.as_str()).collect();
    assert_eq!(labels, vec!["z", "a", "b"]);
    let limited = merge_candidates(
        vec![
            CompletionCandidate::new("x".to_string(), CompletionKind::Keyword),
            CompletionCandidate::new("y".to_string(), CompletionKind::Keyword),
        ],
        1,
    );
    assert_eq!(limited.len(), 1);
}

#[test]
fn context_without_trigger_defaults() {
    assert_eq!(determine_context(&test_doc("x"), Position::new(3, 0), None), CompletionContext::Unknown);
    assert_eq!(get_prefix(&test_doc("x"), Position::new(4, 3)), "");
    assert_eq!(context_in_line(None, Position::new(3, 0), None), CompletionContext::Unknown);
    assert_eq!(prefix_in_line(Some("let ab"), Position::new(0, 6)), "ab");
    assert_eq!(extract_receiver("."), None);
}

struct Greeting;

impl aria_lang::completion::CompletionProvider for Greeting {
    fn name(&self) -> String {
        "greeting".to_string()
    }

    fn can_handle(&self, context: &CompletionContext) -> bool {
        matches!(context, CompletionContext::Expression)
    }

    fn provide(&self, _context: &CompletionContext, _prefix: &str, _document: &Document, _position: Position)
        -> Vec<aria_lang::completion::CompletionCandidate> {
        vec![aria_lang::completion::CompletionCandidate::new(
            "zz_hello".to_string(),
            aria_lang::completion::CompletionKind::Function,
        )]
    }
}

#[test]
fn a_provider_of_the_users_own_adds_its_candidates() {
    let doc = test_doc("");
    let engine = CompletionEngine::new();
    let extra = vec![Greeting];
    let with = engine.complete_with(CompletionContext::Expression, "", &doc, Position::new(0, 0), &extra);
    assert!(with.iter().any(|c| c.label == "zz_hello"));
    let without = engine.complete(CompletionContext::Expression, "", &doc, Position::new(0, 0));
    assert!(!without.iter().any(|c| c.label == "zz_hello"));
}

#[test]
fn a_provider_of_the_users_own_is_asked_only_where_it_handles_the_context() {
    let doc = test_doc("");
    let engine = CompletionEngine::new();
    let extra = vec![Greeting];
    let r = engine.complete_with(CompletionContext::TypePosition, "", &doc, Position::new(0, 0), &extra);
    assert!(!r.iter().any(|c| c.label == "zz_hello"));
}

#[test]
fn offers_of_other_providers_are_merged_by_label() {
    let engine = CompletionEngine::new();
    let offer = vec![vec![
        aria_lang::completion::CompletionCandidate::new("fn".to_string(), aria_lang::completion::CompletionKind::Function),
        aria_lang::completion::CompletionCandidate::new("zz_extra".to_string(), aria_lang::completion::CompletionKind::Function),
    ]];
    let r = engine.complete_with_offers(CompletionContext::TopLevel, "", offer);
    assert!(r.iter().any(|c| c.label == "zz_extra"));
    assert_eq!(r.iter().filter(|c| c.label == "fn").count(), 1);
}
