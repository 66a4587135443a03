use aria_lang::definition::{
    extract_effect_name, extract_enum_name, extract_fn_name, extract_fn_name_inner, extract_let_name,
    extract_struct_name, get_word_at_position, get_word_range_at_position, DefinitionResolver,
    DefinitionResult, Scope, SymbolDefinition, SymbolKind, SymbolReference,
};
use aria_lang::lsp_types::{Location, Position, TextRange};
use aria_lang::state::Document;

fn uri() -> String {
    "file:///test.aria".to_string()
}

fn test_doc(content: &str) -> Document {
    Document::new(uri(), content.to_string(), 1, "aria".to_string())
}

#[test]
fn definition_test_get_word_at_position() {
    let doc = test_doc("fn hello_world() {}");
    assert_eq!(get_word_at_position(&doc, Position::new(0, 0)), "fn");
    assert_eq!(get_word_at_position(&doc, Position::new(0, 3)), "hello_world");
    assert_eq!(get_word_at_position(&doc, Position::new(0, 10)), "hello_world");
}

#[test]
fn definition_test_get_word_at_position_whitespace() {
    let doc = test_doc("fn foo() {}");
    assert_eq!(get_word_at_position(&doc, Position::new(0, 2)), "");
}

#[test]
fn test_get_word_range() {
    let doc = test_doc("let variable = 42");
    let range = get_word_range_at_position(&doc, Position::new(0, 6)).unwrap();
    assert_eq!(range.start.character, 4);
    assert_eq!(range.end.character, 12);
}

#[test]
fn test_symbol_definition() {
    let symbol = SymbolDefinition::new(
        "foo".to_string(),
        SymbolKind::Function,
        uri(),
        TextRange::new(Position::new(0, 0), Position::new(2, 1)),
        TextRange::new(Position::new(0, 3), Position::new(0, 6)),
    )
    .with_documentation("A test function".to_string())
    .public();

    assert_eq!(symbol.name, "foo");
    assert!(symbol.is_public);
    assert!(symbol.documentation.is_some());
}

#[test]
fn test_scope_lookup() {
    let mut parent = Scope::new();
    parent.define(SymbolDefinition::new(
        "x".to_string(),
        SymbolKind::Variable,
        uri(),
        TextRange::default(),
        TextRange::default(),
    ));

    let mut child = Scope::child(parent);
    child.define(SymbolDefinition::new(
        "y".to_string(),
        SymbolKind::Variable,
        uri(),
        TextRange::default(),
        TextRange::default(),
    ));

    assert!(child.lookup("y").is_some());
    assert!(child.lookup("x").is_some());
    assert!(child.lookup("z").is_none());
}

#[test]
fn test_definition_resolver() {
    let mut resolver = DefinitionResolver::new();

    resolver.register_local(SymbolDefinition::new(
        "my_func".to_string(),
        SymbolKind::Function,
        uri(),
        TextRange::new(Position::new(5, 0), Position::new(10, 1)),
        TextRange::new(Position::new(5, 3), Position::new(5, 10)),
    ));

    let symbol = resolver.resolve("my_func").unwrap();
    assert_eq!(symbol.kind, SymbolKind::Function);
}

#[test]
fn test_extract_fn_name() {
    assert_eq!(extract_fn_name("pub fn hello() {}"), Some("hello".to_string()));
    assert_eq!(extract_fn_name_inner("fn world()"), Some("world".to_string()));
    assert_eq!(extract_fn_name_inner("let x = 1"), None);
}

#[test]
fn test_extract_struct_name() {
    assert_eq!(extract_struct_name("struct Point { x: Int }"), Some("Point".to_string()));
    assert_eq!(extract_struct_name("pub struct Vector {}"), Some("Vector".to_string()));
}

#[test]
fn test_extract_effect_name() {
    assert_eq!(extract_effect_name("effect Console { ... }"), Some("Console".to_string()));
}

#[test]
fn test_extract_let_name() {
    assert_eq!(extract_let_name("let x = 42"), Some("x".to_string()));
    assert_eq!(extract_let_name("let mut counter = 0"), Some("counter".to_string()));
    assert_eq!(extract_let_name("fn foo()"), None);
}

#[test]
fn test_definition_result() {
    assert!(DefinitionResult::NotFound.is_empty());

    let single = DefinitionResult::Single(Location::new(uri(), TextRange::default()));
    assert!(!single.is_empty());
    assert!(DefinitionResult::Multiple(Vec::new()).is_empty());
}

#[test]
fn test_symbol_reference() {
    let read_ref = SymbolReference::read(uri(), TextRange::default());
    assert!(!read_ref.is_write);
    assert!(!read_ref.is_definition);

    let write_ref = SymbolReference::write(uri(), TextRange::default());
    assert!(write_ref.is_write);

    let def_ref = SymbolReference::definition(uri(), TextRange::default());
    assert!(def_ref.is_definition);
}

#[test]
fn extract_names_edge_cases() {
    assert_eq!(extract_enum_name("pub enum Color { Red }"), Some("Color".to_string()));
    assert_eq!(extract_fn_name("fn"), None);
    assert_eq!(extract_let_name("let = 3"), None);
    assert_eq!(extract_struct_name("structure X"), None);
}

#[test]
fn later_definition_replaces_earlier_one() {
    let mut resolver = DefinitionResolver::new();
    resolver.register_local(SymbolDefinition::new(
        "f".to_string(),
        SymbolKind::Function,
        uri(),
        TextRange::default(),
        TextRange::default(),
    ));
    resolver.register_local(SymbolDefinition::new(
        "f".to_string(),
        SymbolKind::Variable,
        uri(),
        TextRange::default(),
        TextRange::default(),
    ));
    assert_eq!(resolver.resolve("f").unwrap().kind, SymbolKind::Variable);
    assert!(resolver.resolve("g").is_none());
}

#[test]
fn definition_at_finds_the_word_under_the_cursor() {
    let mut resolver = DefinitionResolver::new();
    resolver.register_local(SymbolDefinition::new(
        "value".to_string(),
        SymbolKind::Variable,
        uri(),
        TextRange::new(Position::new(0, 4), Position::new(0, 9)),
        TextRange::new(Position::new(0, 4), Position::new(0, 9)),
    ));
    let found = resolver.definition_at(&test_doc("print(value)"), Position::new(0, 7));
    assert!(!found.is_empty());
    let missing = resolver.definition_at(&test_doc("print(other)"), Position::new(0, 7));
    assert!(missing.is_empty());
    assert!(resolver.definition_at(&test_doc("x"), Position::new(3, 0)).is_empty());
}

#[test]
fn test_extract_symbols_for_definition() {
    let doc = test_doc(
        r#"
fn greet(name: String) -> String
    "Hello, " + name
end

struct Point
    x: Int
    y: Int
end
"#,
    );

    let symbols = aria_lang::definition::extract_symbols_placeholder(&doc);
    let names: Vec<&str> = symbols.iter().map(|s| s.name.as_str()).collect();

    assert!(names.contains(&"Point"));
}

#[test]
fn fn_names_are_found_with_and_without_pub() {
    assert_eq!(extract_fn_name("fn main() {"), Some("main".to_string()));
    assert_eq!(extract_fn_name("pub fn hello() {}"), Some("hello".to_string()));
    assert_eq!(extract_fn_name("let x = 1"), None);
}
