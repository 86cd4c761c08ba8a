use lite_xl::commands::{Key, Modifiers};
use lite_xl::editor::Position;
use lite_xl::ui::terminal_canvas::key_to_terminal_bytes;
use lite_xl::ui::editor_view::{
    column_selected, cursor_column, display_text, editor_key_action, line_selection_columns, status_texts, terminal_shortcut,
    EditorKeyAction, TerminalShortcut,
};

fn pos(line: usize, col: usize) -> Position {
    Position { line, col }
}

#[test]
fn selection_columns_per_line() {
    let sel = Some((pos(3, 4), pos(1, 2)));
    assert_eq!(line_selection_columns(0, 10, sel), None);
    assert_eq!(line_selection_columns(1, 10, sel), Some((2, 10)));
    assert_eq!(line_selection_columns(2, 7, sel), Some((0, 7)));
    assert_eq!(line_selection_columns(3, 9, sel), Some((0, 4)));
    assert_eq!(line_selection_columns(4, 9, sel), None);
    assert_eq!(line_selection_columns(0, 5, Some((pos(0, 1), pos(0, 3)))), Some((1, 3)));
    assert_eq!(line_selection_columns(0, 5, None), None);
    assert!(column_selected(2, Some((1, 3))));
    assert!(!column_selected(3, Some((1, 3))));
    assert!(!column_selected(0, None));
    assert_eq!(cursor_column(2, pos(2, 5)), Some(5));
    assert_eq!(cursor_column(1, pos(2, 5)), None);
    assert_eq!(display_text(""), " ");
    assert_eq!(display_text("abc"), "abc");
}

#[test]
fn status_bar_texts() {
    let (file, position, lines, sel) = status_texts(Some("src/main.rs"), true, pos(0, 4), 12, Some(7));
    assert_eq!(file, "src/main.rs [+]");
    assert_eq!(position, "Ln 1, Col 5");
    assert_eq!(lines, "12 lines");
    assert_eq!(sel, "7 selected");
    let (file, _, _, sel) = status_texts(None, false, pos(9, 0), 1, None);
    assert_eq!(file, "untitled");
    assert_eq!(sel, "UTF-8");
}

#[test]
fn keys_to_terminal_bytes() {
    use_keys();
}

fn use_keys() {
    let none = Modifiers { ctrl: false, shift: false, alt: false, meta: false };
    let ctrl = Modifiers { ctrl: true, shift: false, alt: false, meta: false };
    assert_eq!(key_to_terminal_bytes(Key::Char('a'), ctrl), Some(vec![1]));
    assert_eq!(key_to_terminal_bytes(Key::Char('C'), ctrl), Some(vec![3]));
    assert_eq!(key_to_terminal_bytes(Key::Char('1'), ctrl), None);
    assert_eq!(key_to_terminal_bytes(Key::Char('é'), none), Some("é".as_bytes().to_vec()));
    assert_eq!(key_to_terminal_bytes(Key::Enter, none), Some(b"\r".to_vec()));
    assert_eq!(key_to_terminal_bytes(Key::Up, none), Some(b"\x1b[A".to_vec()));
    assert_eq!(key_to_terminal_bytes(Key::PageDown, none), Some(b"\x1b[6~".to_vec()));
    assert_eq!(key_to_terminal_bytes(Key::F1, none), None);
}

#[test]
fn editor_keys_and_terminal_shortcuts() {
    let none = Modifiers { ctrl: false, shift: false, alt: false, meta: false };
    let ctrl = Modifiers { ctrl: true, shift: false, alt: false, meta: false };
    let shift = Modifiers { ctrl: false, shift: true, alt: false, meta: false };
    let alt = Modifiers { ctrl: false, shift: false, alt: true, meta: false };
    assert_eq!(editor_key_action(Key::Char('a'), ctrl), Some(EditorKeyAction::SelectAll));
    assert_eq!(editor_key_action(Key::Char('v'), ctrl), Some(EditorKeyAction::Paste));
    assert_eq!(editor_key_action(Key::Char('q'), ctrl), None);
    assert_eq!(editor_key_action(Key::Char('q'), none), Some(EditorKeyAction::Insert('q')));
    assert_eq!(editor_key_action(Key::Char('q'), alt), None);
    assert_eq!(editor_key_action(Key::Left, shift), Some(EditorKeyAction::MoveLeft(true)));
    assert_eq!(editor_key_action(Key::Tab, shift), None);
    assert_eq!(editor_key_action(Key::Tab, none), Some(EditorKeyAction::Indent));
    assert_eq!(editor_key_action(Key::F5, none), None);
    assert_eq!(terminal_shortcut("`", true), Some(TerminalShortcut::Toggle));
    assert_eq!(terminal_shortcut("T", true), Some(TerminalShortcut::NewTab));
    assert_eq!(terminal_shortcut("Tab", true), Some(TerminalShortcut::NextTab));
    assert_eq!(terminal_shortcut("T", false), None);
    assert_eq!(terminal_shortcut("x", true), None);
}
