use aria_lang::handlers::{
    contract_completions, create_placeholder_hover, determine_completion_context, effect_completions,
    format_contract_info, format_effect_info, format_type_info, general_completions, get_word_at_position,
    is_word_char, keyword_completions, member_completions, type_completions, CompletionContext, InsertTextFormat,
    ItemKind, completion_context_in_line, general_completions_in_line,
};
use aria_lang::lsp_types::Position;
use aria_lang::state::Document;

fn test_doc(text: &str) -> Document {
    Document::new("file:///test.aria".to_string(), text.to_string(), 1, "aria".to_string())
}

#[test]
fn test_determine_completion_context_effect() {
    let doc = test_doc("fn foo() -> Int !");
    let context = determine_completion_context(&doc, Position { line: 0, character: 17 }, Some("!"));
    assert_eq!(context, CompletionContext::Effect);
}

#[test]
fn test_determine_completion_context_member() {
    let doc = test_doc("let x = foo.");
    let context = determine_completion_context(&doc, Position { line: 0, character: 12 }, Some("."));
    assert_eq!(context, CompletionContext::Member);
}

#[test]
fn test_determine_completion_context_type() {
    let doc = test_doc("let x:");
    let context = determine_completion_context(&doc, Position { line: 0, character: 6 }, Some(":"));
    assert_eq!(context, CompletionContext::Type);
}

#[test]
fn completion_context_without_trigger() {
    let ctx = |text: &str, c: u32| completion_context_in_line(Some(text), Position { line: 0, character: c }, None);
    assert_eq!(ctx("fn f() !", 8), CompletionContext::Effect);
    assert_eq!(ctx("x.", 2), CompletionContext::Member);
    assert_eq!(ctx("let y:  ", 8), CompletionContext::Type);
    assert_eq!(ctx("fn f() requires x", 17), CompletionContext::Contract);
    assert_eq!(ctx("    ", 4), CompletionContext::Keyword);
    assert_eq!(ctx("foo {", 5), CompletionContext::Keyword);
    assert_eq!(ctx("foo", 3), CompletionContext::General);
    // Only the text before the cursor counts.
    assert_eq!(ctx("foo.bar", 3), CompletionContext::General);
    assert_eq!(completion_context_in_line(None, Position { line: 4, character: 0 }, None), CompletionContext::General);
    assert_eq!(
        completion_context_in_line(Some("x."), Position { line: 0, character: 2 }, Some("?")),
        CompletionContext::Member
    );
}

#[test]
fn test_keyword_completions() {
    let completions = keyword_completions();

    assert!(!completions.is_empty());

    let labels: Vec<&str> = completions.iter().map(|c| c.label.as_str()).collect();
    assert!(labels.contains(&"fn"));
    assert!(labels.contains(&"let"));
    assert!(labels.contains(&"effect"));
    assert!(labels.contains(&"handle"));
}

#[test]
fn test_effect_completions() {
    let completions = effect_completions();

    assert!(!completions.is_empty());

    let labels: Vec<&str> = completions.iter().map(|c| c.label.as_str()).collect();
    assert!(labels.contains(&"IO"));
    assert!(labels.contains(&"Console"));
    assert!(labels.contains(&"Async"));
}

#[test]
fn test_type_completions() {
    let completions = type_completions();

    assert!(!completions.is_empty());

    let labels: Vec<&str> = completions.iter().map(|c| c.label.as_str()).collect();
    assert!(labels.contains(&"Int"));
    assert!(labels.contains(&"String"));
    assert!(labels.contains(&"Option"));
}

#[test]
fn test_contract_completions() {
    let completions = contract_completions();

    let labels: Vec<&str> = completions.iter().map(|c| c.label.as_str()).collect();
    assert!(labels.contains(&"requires"));
    assert!(labels.contains(&"ensures"));
    assert!(labels.contains(&"old"));
    assert!(labels.contains(&"result"));
}

#[test]
fn test_general_completions_with_prefix() {
    let doc = test_doc("fn foo() {\n    le\n}");
    let completions = general_completions(&doc, Position { line: 1, character: 6 });

    let labels: Vec<&str> = completions.iter().map(|c| c.label.as_str()).collect();
    assert!(labels.contains(&"let"));
}

#[test]
fn completion_items_carry_kinds_and_snippets() {
    let kws = keyword_completions();
    assert_eq!(kws.len(), 18);
    assert_eq!(kws[0].label, "fn");
    assert_eq!(kws[0].kind, Some(ItemKind::Keyword));
    assert_eq!(kws[0].insert_text.as_deref(), Some("fn ${1:name}($2) {\n\t$0\n}"));
    assert_eq!(kws[0].insert_text_format, Some(InsertTextFormat::Snippet));
    let effects = effect_completions();
    assert_eq!(effects.len(), 8);
    assert_eq!(effects[1].insert_text.as_deref(), Some("Console"));
    assert_eq!(effects[1].kind, Some(ItemKind::Interface));
    assert_eq!(type_completions().len(), 11);
    let members = member_completions();
    assert_eq!(members.iter().map(|m| m.label.as_str()).collect::<Vec<_>>(), vec!["map", "filter", "fold"]);
    let contracts = contract_completions();
    assert_eq!(contracts[3].insert_text, None);
    assert_eq!(contracts[3].kind, Some(ItemKind::Variable));
}

#[test]
fn general_completions_filter_by_prefix() {
    let items = general_completions_in_line(Some("    st"), Position { line: 0, character: 6 });
    let labels: Vec<&str> = items.iter().map(|c| c.label.as_str()).collect();
    // Keywords match case-sensitively, types ignoring case.
    assert_eq!(labels, vec!["struct", "String"]);
    let items = general_completions_in_line(Some("x = "), Position { line: 0, character: 4 });
    assert_eq!(items.len(), 18);
    assert!(general_completions_in_line(None, Position { line: 0, character: 0 }).is_empty());
    assert!(general_completions_in_line(Some("qqq"), Position { line: 0, character: 3 }).is_empty());
}

#[test]
fn hover_test_get_word_at_position() {
    let text = "fn hello_world() {\n    let x = 42;\n}";
    let doc = test_doc(text);
    let at = |l: u32, c: u32| get_word_at_position(&doc, Position { line: l, character: c });

    assert_eq!(at(0, 0), "fn");
    assert_eq!(at(0, 1), "fn");
    assert_eq!(at(0, 3), "hello_world");
    assert_eq!(at(0, 10), "hello_world");
    assert_eq!(at(1, 4), "let");
    assert_eq!(at(1, 8), "x");
    assert_eq!(at(1, 12), "42");
}

#[test]
fn hover_test_get_word_at_position_whitespace() {
    let doc = test_doc("fn foo() {}");
    assert_eq!(get_word_at_position(&doc, Position { line: 0, character: 2 }), "");
}

#[test]
fn test_is_word_char() {
    assert!(is_word_char('a'));
    assert!(is_word_char('Z'));
    assert!(is_word_char('_'));
    assert!(is_word_char('0'));
    assert!(is_word_char('9'));

    assert!(!is_word_char(' '));
    assert!(!is_word_char('('));
    assert!(!is_word_char(')'));
    assert!(!is_word_char('.'));
    assert!(!is_word_char(':'));
}

#[test]
fn test_placeholder_hover_keywords() {
    let hover = create_placeholder_hover("fn");
    assert!(hover.markdown.contains("function"));

    let hover = create_placeholder_hover("effect");
    assert!(hover.markdown.contains("algebraic effect"));
}

#[test]
fn placeholder_hover_for_other_words() {
    let hover = create_placeholder_hover("counter");
    assert!(hover.markdown.starts_with("**`counter`**\n\n_Type information not yet available._"));
    assert!(hover.range.is_none());
    assert_eq!(create_placeholder_hover("let").markdown, "**Keyword**: `let`\n\nDeclares an immutable variable binding.");
}

#[test]
fn test_format_effect_info() {
    let effects = vec!["Console".to_string(), "Async".to_string()];
    let formatted = format_effect_info(&effects);
    assert!(formatted.contains("Effects"));
    assert!(formatted.contains("Console, Async"));

    let empty: Vec<String> = vec![];
    assert!(format_effect_info(&empty).is_empty());
}

#[test]
fn format_effect_type_and_contract_info() {
    assert_eq!(format_effect_info(&["IO".to_string()]), "\n\n**Effects**: `!IO`");
    assert_eq!(format_type_info("Int"), "```aria\nInt\n```");
    let pre = vec!["x > 0".to_string()];
    let post = vec!["result > x".to_string(), "result < 10".to_string()];
    assert_eq!(
        format_contract_info(&pre, &post),
        "\n\n**Requires**:\n- `x > 0`\n\n\n**Ensures**:\n- `result > x`\n- `result < 10`\n"
    );
    assert_eq!(format_contract_info(&[], &[]), "");
}
