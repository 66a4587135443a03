use aria_lang::lsp_types::{LineIndex, Location, Position, Span, Spanned, TextEdit, TextRange};

#[test]
fn test_position_comparison() {
    let pos1 = Position::new(0, 5);
    let pos2 = Position::new(0, 10);
    let pos3 = Position::new(1, 0);

    assert!(pos1.is_before(&pos2));
    assert!(pos2.is_after(&pos1));
    assert!(pos2.is_before(&pos3));
    assert!(!pos1.is_before(&pos1));
}

#[test]
fn test_position_display() {
    let pos = Position::new(0, 5);
    assert_eq!(pos.display_string(), "1:6");
}

#[test]
fn test_range_contains() {
    let range = TextRange::new(Position::new(0, 5), Position::new(0, 15));

    assert!(range.contains(Position::new(0, 5)));
    assert!(range.contains(Position::new(0, 10)));
    assert!(!range.contains(Position::new(0, 15)));
    assert!(!range.contains(Position::new(0, 4)));
    assert!(!range.contains(Position::new(1, 0)));
}

#[test]
fn test_range_overlaps() {
    let range1 = TextRange::new(Position::new(0, 0), Position::new(0, 10));
    let range2 = TextRange::new(Position::new(0, 5), Position::new(0, 15));
    let range3 = TextRange::new(Position::new(0, 10), Position::new(0, 20));

    assert!(range1.overlaps(&range2));
    assert!(range2.overlaps(&range1));
    assert!(!range1.overlaps(&range3));
    assert!(range2.overlaps(&range3));
}

#[test]
fn test_range_union() {
    let range1 = TextRange::new(Position::new(0, 0), Position::new(0, 10));
    let range2 = TextRange::new(Position::new(0, 5), Position::new(0, 15));

    let union = range1.union(&range2);
    assert_eq!(union.start, Position::new(0, 0));
    assert_eq!(union.end, Position::new(0, 15));
}

#[test]
fn test_span_operations() {
    let span1 = Span::new(0, 10);
    let span2 = Span::new(5, 15);

    assert_eq!(span1.len(), 10);
    assert!(span1.contains(5));
    assert!(!span1.contains(10));
    assert!(span1.overlaps(&span2));

    let union = span1.union(&span2);
    assert_eq!(union.start, 0);
    assert_eq!(union.end, 15);
}

#[test]
fn test_line_index_simple() {
    let text = "hello\nworld\n";
    let index = LineIndex::new(text);

    assert_eq!(index.line_count(), 3);
    assert_eq!(index.line_start(0), Some(0));
    assert_eq!(index.line_start(1), Some(6));
    assert_eq!(index.line_start(2), Some(12));
}

#[test]
fn test_line_index_offset_to_position() {
    let text = "abc\ndef\nghi";
    let index = LineIndex::new(text);

    assert_eq!(index.offset_to_position(0), Position::new(0, 0));
    assert_eq!(index.offset_to_position(1), Position::new(0, 1));
    assert_eq!(index.offset_to_position(3), Position::new(0, 3));
    assert_eq!(index.offset_to_position(4), Position::new(1, 0));
    assert_eq!(index.offset_to_position(8), Position::new(2, 0));
}

#[test]
fn test_line_index_position_to_offset() {
    let text = "abc\ndef\nghi";
    let index = LineIndex::new(text);

    assert_eq!(index.position_to_offset(Position::new(0, 0)), Some(0));
    assert_eq!(index.position_to_offset(Position::new(0, 2)), Some(2));
    assert_eq!(index.position_to_offset(Position::new(1, 0)), Some(4));
    assert_eq!(index.position_to_offset(Position::new(2, 2)), Some(10));
}

#[test]
fn test_line_index_roundtrip() {
    let text = "line one\nline two\nline three";
    let index = LineIndex::new(text);

    for offset in 0..text.len() {
        let pos = index.offset_to_position(offset);
        let back = index.position_to_offset(pos).unwrap();
        assert_eq!(back, offset, "Roundtrip failed at offset {}", offset);
    }
}

#[test]
fn test_text_edit_types() {
    let insert = TextEdit::insert(Position::new(0, 0), "hello".to_string());
    assert!(insert.range.is_empty());
    assert_eq!(insert.new_text, "hello");

    let delete = TextEdit::delete(TextRange::new(Position::new(0, 0), Position::new(0, 5)));
    assert!(delete.new_text.is_empty());

    let replace = TextEdit::replace(
        TextRange::new(Position::new(0, 0), Position::new(0, 5)),
        "world".to_string(),
    );
    assert_eq!(replace.new_text, "world");
}

#[test]
fn test_location_display() {
    let loc = Location::new(
        "file:///test.aria".to_string(),
        TextRange::new(Position::new(0, 5), Position::new(0, 10)),
    );
    assert!(loc.display_string().contains("test.aria"));
}

#[test]
fn test_spanned() {
    let spanned = Spanned::new("hello", Span::new(0, 5));
    assert_eq!(*spanned, "hello");
    assert_eq!(spanned.span.len(), 5);

    let mapped = spanned.map(|s| s.len());
    assert_eq!(*mapped, 5);
    assert_eq!(mapped.span, Span::new(0, 5));
}

#[test]
fn range_display_is_one_based() {
    let range = TextRange::new(Position::new(0, 5), Position::new(2, 0));
    assert_eq!(range.display_string(), "1:6-3:1");
    let loc = Location::new("file:///a.aria".to_string(), range);
    assert_eq!(loc.display_string(), "file:///a.aria:1:6-3:1");
}

#[test]
fn range_intersection_and_containment() {
    let a = TextRange::new(Position::new(0, 0), Position::new(0, 10));
    let b = TextRange::new(Position::new(0, 5), Position::new(0, 15));
    let i = a.intersection(&b).unwrap();
    assert_eq!(i.start, Position::new(0, 5));
    assert_eq!(i.end, Position::new(0, 10));
    let c = TextRange::new(Position::new(0, 10), Position::new(0, 20));
    assert!(a.intersection(&c).is_none());
    assert!(a.contains_range(&TextRange::new(Position::new(0, 2), Position::new(0, 3))));
    assert!(!a.contains_range(&b));
}

#[test]
fn span_display_and_conversions() {
    let s = Span::new(3, 7);
    assert_eq!(s.display_string(), "3..7");
    assert_eq!(s.as_range(), 3..7);
    assert_eq!(Span::from_range(2..9), Span::new(2, 9));
    assert!(Span::point(4).is_empty());
}

#[test]
fn line_index_out_of_range_positions() {
    let index = LineIndex::new("ab\ncd");
    assert_eq!(index.position_to_offset(Position::new(5, 0)), None);
    assert_eq!(index.line_start(7), None);
    let range = index.span_to_range(Span::new(1, 4));
    assert_eq!(range.start, Position::new(0, 1));
    assert_eq!(range.end, Position::new(1, 1));
    assert_eq!(index.range_to_span(range), Some(Span::new(1, 4)));
}

#[test]
fn line_index_counts_utf16_code_units() {
    // "é" is two UTF-8 bytes and one UTF-16 code unit.
    let index = LineIndex::new("é");
    assert_eq!(index.offset_to_position(2), Position::new(0, 1));
    assert_eq!(index.position_to_offset(Position::new(0, 1)), Some(2));

    // "𝄞" is four UTF-8 bytes and two UTF-16 code units.
    let index = LineIndex::new("a\n𝄞b");
    assert_eq!(index.offset_to_position(6), Position::new(1, 2));
    assert_eq!(index.offset_to_position(7), Position::new(1, 3));
    assert_eq!(index.position_to_offset(Position::new(1, 2)), Some(6));
    assert_eq!(index.position_to_offset(Position::new(1, 3)), Some(7));
    // A column past the end clamps to the end of the text.
    assert_eq!(index.position_to_offset(Position::new(1, 9)), Some(7));
}

#[test]
fn line_index_roundtrips_every_char_boundary() {
    let text = "héllo\nwörld\n𝄞!";
    let index = LineIndex::new(text);
    for (offset, _) in text.char_indices() {
        let pos = index.offset_to_position(offset);
        assert_eq!(index.position_to_offset(pos), Some(offset));
    }
    let end = index.offset_to_position(text.len());
    assert_eq!(index.position_to_offset(end), Some(text.len()));
}

#[test]
fn whitespace_agrees_with_std_on_every_char() {
    for code in 0u32..=0x10FFFF {
        if let Some(c) = char::from_u32(code) {
            assert_eq!(aria_lang::text::is_whitespace(c), c.is_whitespace(), "U+{:04X}", code);
        }
    }
}
