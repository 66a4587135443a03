use aria_lang::definition::{extract_symbols_placeholder, SymbolKind};
use aria_lang::state::Document;
use aria_lang::outline::{extract_document_symbols, split_lines, DocumentSymbolKind};

const URI: &str = "file:///test.aria";

#[test]
fn test_extract_function_symbols() {
    let content = r#"
fn simple()
    pass
end

pub fn public_fn(x: Int) -> Int
    x
end

async fn async_fn()
    pass
end
"#;

    let symbols = extract_document_symbols(content, URI);
    let names: Vec<&str> = symbols.iter().map(|s| s.name.as_str()).collect();

    assert!(names.contains(&"simple"));
    assert!(names.contains(&"public_fn"));
    assert!(names.contains(&"async_fn"));
}

#[test]
fn test_extract_struct_symbols() {
    let content = r#"
struct Point
    x: Int
    y: Int
end

pub struct Person
    name: String
    age: Int
end
"#;

    let symbols = extract_document_symbols(content, URI);

    let point = symbols.iter().find(|s| s.name == "Point");
    assert!(point.is_some());

    let point = point.unwrap();
    assert_eq!(point.kind, DocumentSymbolKind::Struct);

    let children = point.children.as_ref();
    assert!(children.is_some());
    let children = children.unwrap();
    assert!(children.iter().any(|c| c.name == "x"));
    assert!(children.iter().any(|c| c.name == "y"));
}

#[test]
fn test_extract_enum_symbols() {
    let content = r#"
enum Color
    Red
    Green
    Blue
end
"#;

    let symbols = extract_document_symbols(content, URI);

    let color = symbols.iter().find(|s| s.name == "Color");
    assert!(color.is_some());

    let color = color.unwrap();
    assert_eq!(color.kind, DocumentSymbolKind::Enum);

    let children = color.children.as_ref().unwrap();
    assert!(children.iter().any(|c| c.name == "Red"));
    assert!(children.iter().any(|c| c.name == "Green"));
    assert!(children.iter().any(|c| c.name == "Blue"));
}

#[test]
fn test_extract_effect_symbols() {
    let content = r#"
effect Console
    fn print(msg: String)
    fn read_line() -> String
end
"#;

    let symbols = extract_document_symbols(content, URI);

    let console = symbols.iter().find(|s| s.name == "Console");
    assert!(console.is_some());

    let console = console.unwrap();
    assert_eq!(console.kind, DocumentSymbolKind::Interface);

    let children = console.children.as_ref().unwrap();
    assert!(children.iter().any(|c| c.name == "print"));
    assert!(children.iter().any(|c| c.name == "read_line"));
}

#[test]
fn test_extract_trait_symbols() {
    let content = r#"
trait Drawable
    type Color
    fn draw(self)
end
"#;

    let symbols = extract_document_symbols(content, URI);

    let drawable = symbols.iter().find(|s| s.name == "Drawable");
    assert!(drawable.is_some());

    let drawable = drawable.unwrap();
    let children = drawable.children.as_ref().unwrap();
    assert!(children.iter().any(|c| c.name == "Color"));
    assert!(children.iter().any(|c| c.name == "draw"));
}

#[test]
fn test_extract_const_and_type_alias() {
    let content = r#"
const MAX_SIZE = 100
type StringList = List[String]
"#;

    let symbols = extract_document_symbols(content, URI);

    assert!(symbols.iter().any(|s| s.name == "MAX_SIZE" && s.kind == DocumentSymbolKind::Constant));
    assert!(symbols.iter().any(|s| s.name == "StringList" && s.kind == DocumentSymbolKind::TypeParameter));
}

#[test]
fn test_extract_symbols_placeholder() {
    let text = r#"
fn main() {
    let x = 42;
}

struct Point {
    x: Int,
    y: Int,
}

effect Console {
    fn print(s: String);
}
"#;

    let symbols = extract_symbols_placeholder(&Document::new(URI.to_string(), text.to_string(), 1, "aria".to_string()));

    // Should find main, Point, Console, and x
    let names: Vec<&str> = symbols.iter().map(|s| s.name.as_str()).collect();
    assert!(names.contains(&"main"));
    assert!(names.contains(&"x"));
    assert!(names.contains(&"Point"));
    assert!(names.contains(&"Console"));
}

#[test]
fn outline_ranges_and_details() {
    let content = "pub struct Point\n    x: Int\nend\nfn f()\n    let y = 1\nend\nlet top = 2\nuse std::io;\nmod util\n";
    let symbols = extract_document_symbols(content, URI);
    let names: Vec<&str> = symbols.iter().map(|s| s.name.as_str()).collect();
    assert_eq!(names, vec!["Point", "f", "top", "std::io", "util"]);

    let point = &symbols[0];
    assert_eq!(point.detail.as_deref(), Some("struct"));
    assert_eq!((point.range.start.line, point.range.start.character), (0, 0));
    assert_eq!((point.range.end.line, point.range.end.character), (2, 3));
    assert_eq!(point.selection_range.start.character, 4);
    assert_eq!(point.selection_range.end.character, 16);
    let fields = point.children.as_ref().unwrap();
    assert_eq!(fields.len(), 1);
    assert_eq!(fields[0].kind, DocumentSymbolKind::Field);
    assert_eq!(fields[0].range.start.line, 1);

    let f = &symbols[1];
    assert_eq!(f.kind, DocumentSymbolKind::Function);
    assert_eq!(f.detail.as_deref(), Some("function"));
    // The indented binding inside the function is not top level.
    assert!(!names.contains(&"y"));
    assert_eq!(symbols[2].kind, DocumentSymbolKind::Variable);
    assert_eq!(symbols[3].kind, DocumentSymbolKind::Namespace);
    assert_eq!(symbols[4].kind, DocumentSymbolKind::Module);
}

#[test]
fn outline_async_function_and_unclosed_block() {
    let content = "pub async fn run()\nenum E\n    A(Int)\n    b\n";
    let symbols = extract_document_symbols(content, URI);
    assert_eq!(symbols[0].name, "run");
    assert_eq!(symbols[0].detail.as_deref(), Some("async function"));
    let e = &symbols[1];
    // Without an `end` line the block runs to the last line.
    assert_eq!(e.range.end.line, 3);
    let variants = e.children.as_ref().unwrap();
    assert_eq!(variants.len(), 1);
    assert_eq!(variants[0].name, "A");
}

#[test]
fn outline_byte_positions() {
    // "é" takes two bytes.
    let content = "é fn ab()\n";
    let symbols = extract_document_symbols(content, URI);
    assert!(symbols.is_empty());
    let content = "fn é()\n";
    let symbols = extract_document_symbols(content, URI);
    assert_eq!(symbols[0].name, "é");
    assert_eq!(symbols[0].range.end.character, 7);
}

#[test]
fn lines_are_split_like_str_lines() {
    let lines = split_lines("a\r\nb\n\nc");
    let got: Vec<String> = lines.iter().map(|l| l.iter().collect()).collect();
    assert_eq!(got, vec!["a", "b", "", "c"]);
    assert!(split_lines("").is_empty());
    assert_eq!(split_lines("x\n").len(), 1);
}

#[test]
fn placeholder_positions_and_kinds() {
    let text = "pub fn go(x: Int)\nlet mut n = 1\nenum Dir\n";
    let symbols = extract_symbols_placeholder(&Document::new(URI.to_string(), text.to_string(), 1, "aria".to_string()));
    assert_eq!(symbols.len(), 3);
    assert_eq!(symbols[0].name, "go");
    assert_eq!(symbols[0].kind, SymbolKind::Function);
    assert_eq!((symbols[0].name_range.start.character, symbols[0].name_range.end.character), (7, 9));
    assert_eq!(symbols[0].full_range.end.character, u32::MAX);
    assert_eq!(symbols[1].name, "n");
    assert_eq!(symbols[1].kind, SymbolKind::Variable);
    assert_eq!((symbols[1].name_range.start.character, symbols[1].name_range.end.character), (8, 9));
    assert_eq!(symbols[2].kind, SymbolKind::Type);
    assert_eq!(symbols[2].uri, URI);
}
