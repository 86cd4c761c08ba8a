use lite_xl::buffer::Position;
use lite_xl::document::selection::{Selection, Selections};
use lite_xl::document::Document;
use lite_xl::VERSION;

#[test]
fn test_version() {
    assert!(!VERSION.is_empty());
}

#[test]
fn test_basic_workflow() {
    let mut doc = Document::new();
    doc.insert("Hello");
    assert_eq!(doc.buffer().to_string(), "Hello");

    assert!(doc.undo());
    assert_eq!(doc.buffer().to_string(), "");

    assert!(doc.redo());
    assert_eq!(doc.buffer().to_string(), "Hello");
}

#[test]
fn test_multi_cursor_editing() {
    let mut doc = Document::from_str("a\nb\nc");

    let selections = Selections::from_vec(vec![
        Selection::cursor(Position::new(0, 0)),
        Selection::cursor(Position::new(1, 0)),
        Selection::cursor(Position::new(2, 0)),
    ]);
    doc.set_selections(selections);

    doc.insert(">");

    let buffer_text = doc.buffer().to_string();
    let lines: Vec<_> = buffer_text.lines().collect();
    assert_eq!(lines, vec![">a", ">b", ">c"]);
}
