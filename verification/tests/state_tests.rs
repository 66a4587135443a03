use aria_lang::lsp_types::{Position, TextRange};
use aria_lang::state::{Document, ServerConfig, ServerState, TextDocumentContentChangeEvent};

fn test_uri() -> String {
    "file:///test.aria".to_string()
}

#[test]
fn test_document_creation() {
    let uri = test_uri();
    let content = "fn main() {\n    println(\"Hello\")\n}".to_string();
    let doc = Document::new(uri.clone(), content.clone(), 1, "aria".to_string());

    assert_eq!(doc.uri, uri);
    assert_eq!(doc.text(), content);
    assert_eq!(doc.version, 1);
    assert_eq!(doc.line_count(), 3);
}

#[test]
fn test_document_line_access() {
    let doc = Document::new(test_uri(), "line 0\nline 1\nline 2".to_string(), 1, "aria".to_string());

    assert_eq!(doc.line(0), Some("line 0\n".to_string()));
    assert_eq!(doc.line(1), Some("line 1\n".to_string()));
    assert_eq!(doc.line(2), Some("line 2".to_string()));
    assert_eq!(doc.line(3), None);
}

#[test]
fn test_position_to_offset() {
    let doc = Document::new(test_uri(), "abc\ndef\nghi".to_string(), 1, "aria".to_string());

    assert_eq!(doc.position_to_offset(Position { line: 0, character: 0 }), Some(0));
    assert_eq!(doc.position_to_offset(Position { line: 0, character: 1 }), Some(1));
    assert_eq!(doc.position_to_offset(Position { line: 1, character: 0 }), Some(4));
    assert_eq!(doc.position_to_offset(Position { line: 2, character: 0 }), Some(8));
}

#[test]
fn test_offset_to_position() {
    let doc = Document::new(test_uri(), "abc\ndef\nghi".to_string(), 1, "aria".to_string());

    assert_eq!(doc.offset_to_position(0), Some(Position { line: 0, character: 0 }));
    assert_eq!(doc.offset_to_position(1), Some(Position { line: 0, character: 1 }));
    assert_eq!(doc.offset_to_position(4), Some(Position { line: 1, character: 0 }));
}

#[test]
fn test_apply_incremental_changes() {
    let mut doc = Document::new(test_uri(), "hello world".to_string(), 1, "aria".to_string());

    let changes = vec![TextDocumentContentChangeEvent {
        range: Some(TextRange { start: Position { line: 0, character: 6 }, end: Position { line: 0, character: 11 } }),
        range_length: None,
        text: "aria".to_string(),
    }];

    doc.apply_changes(changes, 2);

    assert_eq!(doc.text(), "hello aria");
    assert_eq!(doc.version, 2);
}

#[test]
fn test_apply_full_document_change() {
    let mut doc = Document::new(test_uri(), "old content".to_string(), 1, "aria".to_string());

    let changes =
        vec![TextDocumentContentChangeEvent { range: None, range_length: None, text: "new content".to_string() }];

    doc.apply_changes(changes, 2);

    assert_eq!(doc.text(), "new content");
    assert_eq!(doc.version, 2);
}

#[test]
fn test_server_state_document_lifecycle() {
    let mut state = ServerState::new();
    let uri = test_uri();

    assert_eq!(state.document_count(), 0);
    assert!(state.get_document(&uri).is_none());

    state.open_document(uri.clone(), "content".to_string(), 1, "aria".to_string());
    assert_eq!(state.document_count(), 1);
    assert!(state.get_document(&uri).is_some());

    let changes =
        vec![TextDocumentContentChangeEvent { range: None, range_length: None, text: "new content".to_string() }];
    assert!(state.update_document(&uri, changes, 2));

    let doc = state.get_document(&uri).unwrap();
    assert_eq!(doc.text(), "new content");
    assert_eq!(doc.version, 2);

    let closed = state.close_document(&uri);
    assert!(closed.is_some());
    assert_eq!(state.document_count(), 0);
}

#[test]
fn test_server_state_initialization() {
    let mut state = ServerState::new();

    assert!(!state.is_initialized());

    state.set_initialized(true);
    assert!(state.is_initialized());

    state.set_initialized(false);
    assert!(!state.is_initialized());
}

#[test]
fn test_server_state_config() {
    let mut state = ServerState::new();

    let config = state.config();
    assert!(config.inlay_hints_enabled);
    assert_eq!(config.max_completion_items, 50);

    let new_config = ServerConfig { inlay_hints_enabled: false, max_completion_items: 100, ..Default::default() };

    state.update_config(new_config);

    let config = state.config();
    assert!(!config.inlay_hints_enabled);
    assert_eq!(config.max_completion_items, 100);
}

#[test]
fn test_document_open_and_change_flow() {
    let mut state = ServerState::new();
    let uri = test_uri();

    state.open_document(uri.clone(), "fn main() {}".to_string(), 1, "aria".to_string());

    assert!(state.get_document(&uri).is_some());
    assert_eq!(state.get_document(&uri).unwrap().text(), "fn main() {}");

    let changes = vec![TextDocumentContentChangeEvent {
        range: Some(TextRange { start: Position { line: 0, character: 10 }, end: Position { line: 0, character: 10 } }),
        range_length: None,
        text: "\n    println(\"hello\")\n".to_string(),
    }];

    state.update_document(&uri, changes, 2);

    let doc = state.get_document(&uri).unwrap();
    assert_eq!(doc.version, 2);
    assert!(doc.text().contains("println"));

    state.close_document(&uri);
    assert!(state.get_document(&uri).is_none());
}

// ---------------------------------------------------------------------------

#[test]
fn lines_break_at_cr_crlf_and_unicode_separators() {
    let doc = Document::new(test_uri(), "a\r\nb\rc\u{2028}d".to_string(), 1, "aria".to_string());
    assert_eq!(doc.line_count(), 4);
    assert_eq!(doc.line(0), Some("a\r\n".to_string()));
    assert_eq!(doc.line(1), Some("b\r".to_string()));
    assert_eq!(doc.line(2), Some("c\u{2028}".to_string()));
    assert_eq!(doc.line(3), Some("d".to_string()));
    assert_eq!(Document::new(test_uri(), "x\n".to_string(), 1, "aria".to_string()).line_count(), 2);
}

#[test]
fn offsets_count_utf8_bytes_and_clamp_to_line_end() {
    let doc = Document::new(test_uri(), "é\nab".to_string(), 1, "aria".to_string());
    // 'é' is two bytes; the position after it is byte 2.
    assert_eq!(doc.position_to_offset(Position { line: 0, character: 1 }), Some(2));
    // A character past the end of the line stops after its line break.
    assert_eq!(doc.position_to_offset(Position { line: 0, character: 40 }), Some(3));
    assert_eq!(doc.position_to_offset(Position { line: 5, character: 0 }), None);
    // A byte in the middle of 'é' belongs to it.
    assert_eq!(doc.offset_to_position(1), Some(Position { line: 0, character: 0 }));
    assert_eq!(doc.offset_to_position(5), Some(Position { line: 1, character: 2 }));
    assert_eq!(doc.offset_to_position(6), None);
}

#[test]
fn offset_and_position_round_trip() {
    let doc = Document::new(test_uri(), "let x = 1\nlet y = 2\n".to_string(), 1, "aria".to_string());
    for off in 0..=20usize {
        let pos = doc.offset_to_position(off).unwrap();
        assert_eq!(doc.position_to_offset(pos), Some(off));
    }
}

#[test]
fn changes_apply_in_order_and_out_of_range_changes_are_ignored() {
    let mut doc = Document::new(test_uri(), "abc".to_string(), 1, "aria".to_string());
    let changes = vec![
        TextDocumentContentChangeEvent {
            range: Some(TextRange { start: Position { line: 0, character: 1 }, end: Position { line: 0, character: 2 } }),
            range_length: None,
            text: "XY".to_string(),
        },
        TextDocumentContentChangeEvent {
            range: Some(TextRange { start: Position { line: 9, character: 0 }, end: Position { line: 9, character: 1 } }),
            range_length: None,
            text: "ignored".to_string(),
        },
        TextDocumentContentChangeEvent {
            range: Some(TextRange { start: Position { line: 0, character: 0 }, end: Position { line: 0, character: 0 } }),
            range_length: None,
            text: ">".to_string(),
        },
    ];
    doc.apply_changes(changes, 7);
    assert_eq!(doc.text(), ">aXYc");
    assert_eq!(doc.version, 7);
}

#[test]
fn reopening_replaces_and_unknown_documents_are_reported() {
    let mut state = ServerState::default();
    state.open_document("a".to_string(), "one".to_string(), 1, "aria".to_string());
    state.open_document("b".to_string(), "two".to_string(), 1, "aria".to_string());
    state.open_document("a".to_string(), "three".to_string(), 4, "aria".to_string());
    assert_eq!(state.document_count(), 2);
    assert_eq!(state.get_document("a").unwrap().text(), "three");
    assert_eq!(state.get_document("a").unwrap().version, 4);
    let mut uris = state.document_uris();
    uris.sort();
    assert_eq!(uris, vec!["a".to_string(), "b".to_string()]);
    assert!(!state.update_document("c", vec![], 2));
    assert!(state.close_document("c").is_none());
    assert_eq!(state.close_document("b").unwrap().text(), "two");
    assert_eq!(state.document_count(), 1);
}

#[test]
fn saving_syncs_only_changed_text() {
    let mut state = ServerState::new();
    state.open_document("u".to_string(), "same".to_string(), 3, "aria".to_string());
    assert!(!state.sync_saved_text("u", Some("same".to_string())));
    assert!(!state.sync_saved_text("u", None));
    assert!(!state.sync_saved_text("other", Some("x".to_string())));
    assert!(state.sync_saved_text("u", Some("fresh".to_string())));
    let doc = state.get_document("u").unwrap();
    assert_eq!(doc.text(), "fresh");
    assert_eq!(doc.version, 4);
}
