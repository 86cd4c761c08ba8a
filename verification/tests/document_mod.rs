use lite_xl::buffer::{LineEnding, Position};
use lite_xl::document::selection::{Selection, Selections};
use lite_xl::document::{Document, Movement};

#[test]
fn test_document_creation() {
    let doc = Document::new();
    assert!(!doc.is_modified());
    assert_eq!(doc.buffer().line_count(), 1);
}

#[test]
fn test_document_from_string() {
    let doc = Document::from_str("Hello\nWorld");
    assert_eq!(doc.buffer().line_count(), 2);
    assert!(!doc.is_modified());
}

#[test]
fn test_insert() {
    let mut doc = Document::new();
    doc.insert("Hello");
    assert_eq!(doc.buffer().to_string(), "Hello");
    assert!(doc.can_undo());
}

#[test]
fn test_undo_redo() {
    let mut doc = Document::new();
    doc.insert("Hello");
    assert_eq!(doc.buffer().to_string(), "Hello");

    doc.undo();
    assert_eq!(doc.buffer().to_string(), "");

    doc.redo();
    assert_eq!(doc.buffer().to_string(), "Hello");
}

#[test]
fn test_delete_selection() {
    let mut doc = Document::from_str("Hello, world!");
    doc.set_selections(Selections::from_selection(Selection::new(Position::new(0, 0), Position::new(0, 5))));

    doc.delete();
    assert_eq!(doc.buffer().to_string(), ", world!");
}

#[test]
fn test_movement() {
    let mut doc = Document::from_str("Hello\nWorld");

    doc.move_cursor(Movement::Right);
    assert_eq!(doc.selections().primary().head(), Position::new(0, 1));

    doc.move_cursor(Movement::Down);
    assert_eq!(doc.selections().primary().head(), Position::new(1, 1));

    doc.move_cursor(Movement::LineStart);
    assert_eq!(doc.selections().primary().head(), Position::new(1, 0));
}

#[test]
fn test_select_all() {
    let mut doc = Document::from_str("Hello\nWorld");
    doc.select_all();

    let sel = doc.selections().primary();
    assert_eq!(sel.range().start, Position::zero());
    assert!(!sel.is_cursor());
}

#[test]
fn test_modification_tracking() {
    let mut doc = Document::new();
    assert!(!doc.is_modified());

    doc.insert("Hello");
    assert!(doc.is_modified());
}

#[test]
fn insert_undo_redo_restores_text_and_cursor() {
    let mut doc = Document::from_str("ab\ncd");
    doc.set_selections(Selections::single(Position::new(1, 1)));
    doc.insert("XY");
    assert_eq!(doc.buffer().to_string(), "ab\ncXYd");
    assert_eq!(doc.selections().primary().head(), Position::new(1, 3));
    assert!(doc.undo());
    assert_eq!(doc.buffer().to_string(), "ab\ncd");
    assert_eq!(doc.selections().primary().head(), Position::new(1, 1));
    assert!(doc.can_redo());
    assert!(doc.redo());
    assert_eq!(doc.buffer().to_string(), "ab\ncXYd");
    assert!(!doc.redo());
}

#[test]
fn delete_backward_joins_lines() {
    let mut doc = Document::from_str("ab\ncd");
    doc.set_selections(Selections::single(Position::new(1, 0)));
    doc.delete_backward();
    assert_eq!(doc.buffer().to_string(), "abcd");
    assert_eq!(doc.selections().primary().head(), Position::new(0, 2));
}

#[test]
fn save_content_applies_settings() {
    let mut doc = Document::from_str("a  \nb\t");
    assert_eq!(doc.save_content(), "a  \nb\t\n");
    doc.settings_mut().trim_trailing_whitespace = true;
    assert_eq!(doc.save_content(), "a\nb\n");
    doc.settings_mut().ensure_final_newline = false;
    assert_eq!(doc.save_content(), "a\nb");
    doc.set_line_ending(LineEnding::CrLf);
    doc.settings_mut().ensure_final_newline = true;
    assert_eq!(doc.save_content(), "a\r\nb\r\n");
}

#[test]
fn mark_saved_clears_modification() {
    let mut doc = Document::new();
    doc.insert("x");
    assert!(doc.is_modified());
    doc.mark_saved();
    assert!(!doc.is_modified());
    assert!(!doc.buffer().is_modified());
}

#[test]
fn line_and_document_end_stop_after_the_content() {
    let mut doc = Document::from_str("Hello\nWorld");
    doc.move_cursor(Movement::DocumentEnd);
    assert_eq!(doc.selections().primary().head(), Position::new(1, 5));
    doc.move_cursor(Movement::LineStart);
    doc.move_cursor(Movement::LineEnd);
    assert_eq!(doc.selections().primary().head(), Position::new(1, 5));
    doc.move_cursor(Movement::DocumentStart);
    doc.move_cursor(Movement::LineEnd);
    assert_eq!(doc.selections().primary().head(), Position::new(0, 5));
    let mut crlf = Document::from_str("ab\r\ncd");
    crlf.move_cursor(Movement::LineEnd);
    assert_eq!(crlf.selections().primary().head(), Position::new(0, 2));
}
