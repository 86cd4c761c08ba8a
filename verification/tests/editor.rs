use lite_xl::editor::{EditorState, Position};

fn lines_of(e: &EditorState) -> Vec<String> {
    e.lines().to_vec()
}

#[test]
fn test_editor_new_and_with_text() {
    let e = EditorState::new();
    assert_eq!(e.line_count(), 1);
    assert_eq!(e.line(0), Some(""));
    assert_eq!(e.cursor(), Position::zero());
    assert!(!e.is_modified());
    assert_eq!(e.file_path(), None);

    let e = EditorState::with_text("a\r\nb\n\nc\r");
    assert_eq!(lines_of(&e), vec!["a", "b", "", "c\r"]);
    let e = EditorState::with_text("x\n");
    assert_eq!(lines_of(&e), vec!["x"]);
    let e = EditorState::with_text("\n");
    assert_eq!(lines_of(&e), vec![""]);
    let e = EditorState::with_text("");
    assert_eq!(lines_of(&e), vec![""]);
    assert_eq!(e.line(1), None);
    assert_eq!(EditorState::with_text("one\ntwo").get_text(), "one\ntwo");
}

#[test]
fn test_editor_typing_and_backspace() {
    let mut e = EditorState::with_text("ac");
    e.move_right(false);
    e.insert_char('b');
    assert_eq!(e.line(0), Some("abc"));
    assert_eq!(e.cursor(), Position::new(0, 2));
    assert!(e.is_modified());
    e.delete_backward();
    assert_eq!(e.line(0), Some("ac"));
    assert_eq!(e.cursor(), Position::new(0, 1));

    // A character of two bytes: the column moves one byte, so the byte
    // before the cursor is inside it afterwards.
    let mut e = EditorState::with_text("");
    e.insert_char('é');
    assert_eq!(e.line(0), Some("é"));
    assert_eq!(e.cursor(), Position::new(0, 1));
    assert!(!e.cursor_editable());
    assert!(e.backspace_allowed());
    e.move_line_end(false);
    assert_eq!(e.cursor(), Position::new(0, 2));
    assert!(!e.backspace_allowed());
    assert!(e.cursor_editable());
    e.move_line_start(false);
    assert!(e.delete_allowed());
    e.delete_forward();
    assert_eq!(e.line(0), Some(""));
}

#[test]
fn test_editor_newline_and_joins() {
    let mut e = EditorState::with_text("hello");
    e.set_cursor(Position::new(0, 2));
    e.insert_newline();
    assert_eq!(lines_of(&e), vec!["he", "llo"]);
    assert_eq!(e.cursor(), Position::new(1, 0));
    e.delete_backward();
    assert_eq!(lines_of(&e), vec!["hello"]);
    assert_eq!(e.cursor(), Position::new(0, 2));

    let mut e = EditorState::with_text("ab\ncd");
    e.move_line_end(false);
    e.delete_forward();
    assert_eq!(lines_of(&e), vec!["abcd"]);
    assert_eq!(e.cursor(), Position::new(0, 2));
    e.move_line_end(false);
    e.delete_forward();
    assert_eq!(lines_of(&e), vec!["abcd"]);

    let mut e = EditorState::with_text("x");
    e.delete_backward();
    assert_eq!(lines_of(&e), vec!["x"]);
    assert!(!e.is_modified());
}

#[test]
fn test_editor_insert_string() {
    let mut e = EditorState::with_text("start end");
    e.set_cursor(Position::new(0, 6));
    e.insert_string("one\ntwo\nthree ");
    assert_eq!(lines_of(&e), vec!["start one", "two", "three end"]);
    assert_eq!(e.cursor(), Position::new(2, 6));

    let mut e = EditorState::with_text("ab");
    e.set_cursor(Position::new(0, 1));
    e.insert_string("xy");
    assert_eq!(e.line(0), Some("axyb"));
    assert_eq!(e.cursor(), Position::new(0, 3));
}

#[test]
fn test_editor_moves_and_selection() {
    let mut e = EditorState::with_text("abc\nde\nfghi");
    e.set_cursor(Position::new(0, 3));
    e.move_down(false);
    assert_eq!(e.cursor(), Position::new(1, 2));
    e.move_down(false);
    assert_eq!(e.cursor(), Position::new(2, 2));
    e.move_down(false);
    assert_eq!(e.cursor(), Position::new(2, 2));
    e.move_up(true);
    assert_eq!(e.selection(), Some((Position::new(2, 2), Position::new(1, 2))));
    assert_eq!(e.get_selected_text(), Some("\nfg".to_string()));
    e.move_left(true);
    assert_eq!(e.selection(), Some((Position::new(2, 2), Position::new(1, 1))));
    e.move_right(false);
    assert_eq!(e.selection(), None);
    assert_eq!(e.cursor(), Position::new(1, 2));
    e.move_right(false);
    assert_eq!(e.cursor(), Position::new(2, 0));
    e.move_left(false);
    assert_eq!(e.cursor(), Position::new(1, 2));
    e.set_cursor(Position::new(0, 0));
    e.move_left(false);
    e.move_up(false);
    assert_eq!(e.cursor(), Position::new(0, 0));
    e.set_cursor(Position::new(9, 9));
    assert_eq!(e.cursor(), Position::new(2, 4));
}

#[test]
fn test_editor_select_all_and_replace() {
    let mut e = EditorState::with_text("abc\ndef\nghi");
    e.select_all();
    assert_eq!(e.cursor(), Position::new(2, 3));
    assert_eq!(e.get_selected_text(), Some("abc\ndef\nghi".to_string()));
    e.insert_char('z');
    assert_eq!(lines_of(&e), vec!["z"]);
    assert_eq!(e.selection(), None);

    let mut e = EditorState::with_text("hello world");
    e.set_cursor(Position::new(0, 6));
    e.move_line_end(true);
    assert_eq!(e.get_selected_text(), Some("world".to_string()));
    e.delete_backward();
    assert_eq!(e.get_text(), "hello ");
    assert_eq!(e.cursor(), Position::new(0, 6));
    assert_eq!(e.get_selected_text(), None);
}
