use lite_xl::terminal::clipboard::SelectionMode;
use lite_xl::terminal::manager::{Terminal, TerminalId, TerminalManager};
use lite_xl::terminal::parser::sequences::TerminalAction;

fn row_text(t: &Terminal, row: usize) -> String {
    t.grid.row(row).unwrap().iter().map(|c| c.c).collect::<String>().trim_end().to_string()
}

fn print(t: &mut Terminal, s: &str) {
    for ch in s.chars() {
        t.apply_action(TerminalAction::Print(ch));
    }
}

#[test]
fn test_terminal_manager_creation() {
    let manager = TerminalManager::new(24, 80, 10000);
    assert_eq!(manager.terminal_count(), 0);
}

#[test]
fn test_terminal_new() {
    let t = Terminal::new(TerminalId(7), 24, 80, 100);
    assert_eq!(t.id, TerminalId(7));
    assert_eq!(t.title, "Terminal 7");
    assert_eq!(t.grid.rows(), 24);
    assert_eq!(t.grid.cols(), 80);
    assert!(t.running);
    assert_eq!(t.scroll_offset(), 0);
    assert_eq!((t.cursor.row, t.cursor.col), (0, 0));
    assert!(t.scrollback.is_empty());
}

#[test]
fn test_terminal_print_and_controls() {
    let mut t = Terminal::new(TerminalId(1), 3, 5, 10);
    print(&mut t, "abcdefg");
    // The cursor stops at the last column, where later characters land.
    assert_eq!(row_text(&t, 0), "abcdg");
    assert_eq!(t.cursor.col, 4);
    t.apply_action(TerminalAction::CarriageReturn);
    assert_eq!(t.cursor.col, 0);
    t.apply_action(TerminalAction::Tab);
    assert_eq!(t.cursor.col, 4);
    t.apply_action(TerminalAction::Backspace);
    assert_eq!(t.cursor.col, 3);
    t.apply_action(TerminalAction::CursorGoTo { line: 2, col: 9 });
    assert_eq!((t.cursor.row, t.cursor.col), (1, 4));
    t.apply_action(TerminalAction::CursorGoTo { line: 0, col: 0 });
    assert_eq!((t.cursor.row, t.cursor.col), (0, 0));
    t.apply_action(TerminalAction::CursorForward(2));
    assert_eq!(t.cursor.col, 2);
    t.apply_action(TerminalAction::CursorBackward(5));
    assert_eq!(t.cursor.col, 0);
    t.apply_action(TerminalAction::CursorDown(2));
    t.apply_action(TerminalAction::CursorUp(1));
    assert_eq!(t.cursor.row, 1);
    t.apply_action(TerminalAction::SetTitle("shell".to_string()));
    assert_eq!(t.title, "shell");
    t.apply_action(TerminalAction::Bell);
    assert_eq!((t.cursor.row, t.cursor.col), (1, 0));
}

#[test]
fn test_terminal_line_feed_scrolls() {
    let mut t = Terminal::new(TerminalId(1), 2, 4, 10);
    print(&mut t, "one");
    t.apply_action(TerminalAction::CarriageReturn);
    t.apply_action(TerminalAction::LineFeed);
    print(&mut t, "two");
    assert_eq!((t.cursor.row, t.cursor.col), (1, 3));
    t.apply_action(TerminalAction::LineFeed);
    assert_eq!((t.cursor.row, t.cursor.col), (1, 0));
    assert_eq!(t.scrollback.len(), 1);
    assert_eq!(row_text(&t, 0), "two");
    assert_eq!(row_text(&t, 1), "");
    t.scroll_up_by(5);
    assert_eq!(t.scroll_offset(), 1);
    t.scroll_down_by(3);
    assert_eq!(t.scroll_offset(), 0);
    t.scroll_to_top();
    assert_eq!(t.scroll_offset(), 1);
    t.scroll_to_bottom();
    assert_eq!(t.scroll_offset(), 0);
    t.set_scroll_offset(9);
    assert_eq!(t.scroll_offset(), 1);
}

#[test]
fn test_terminal_clears() {
    let mut t = Terminal::new(TerminalId(1), 2, 5, 10);
    t.apply_actions(vec![
        TerminalAction::Print('a'),
        TerminalAction::Print('b'),
        TerminalAction::Print('c'),
        TerminalAction::Print('d'),
    ]);
    t.apply_action(TerminalAction::CursorBackward(2));
    t.apply_action(TerminalAction::ClearToEndOfLine);
    assert_eq!(row_text(&t, 0), "ab");
    print(&mut t, "xyz");
    t.apply_action(TerminalAction::CursorBackward(3));
    t.apply_action(TerminalAction::ClearToBeginningOfLine);
    assert_eq!(row_text(&t, 0), "  xyz");
    t.apply_action(TerminalAction::ClearLine);
    assert_eq!(row_text(&t, 0), "");
    print(&mut t, "q");
    t.apply_action(TerminalAction::ClearScreen);
    assert_eq!(row_text(&t, 0), "");
    assert_eq!((t.cursor.row, t.cursor.col), (0, 0));
    print(&mut t, "w");
    t.clear();
    assert_eq!(row_text(&t, 0), "");
    assert!(t.scrollback.is_empty());
}

#[test]
fn test_terminal_resize_and_selection() {
    let mut t = Terminal::new(TerminalId(1), 2, 5, 10);
    print(&mut t, "hello");
    // The first argument gives the number of rows.
    t.resize(4, 3);
    assert_eq!(t.grid.rows(), 4);
    assert_eq!(t.grid.cols(), 3);
    assert_eq!(row_text(&t, 0), "hel");
    t.start_selection(0, 0, SelectionMode::Normal);
    t.update_selection(0, 1);
    t.finalize_selection();
    assert!(t.clipboard().has_selection());
    assert_eq!(t.copy_selection(), "he");
    assert_eq!(t.clipboard().get_text(), "he");
    t.clear_selection();
    assert!(!t.clipboard().has_selection());
    t.kill();
    assert!(!t.running);
}

#[test]
fn test_terminal_manager_tabs() {
    let mut m = TerminalManager::new(24, 80, 100);
    assert!(m.current().is_none());
    assert!(!m.is_visible());
    m.create_terminal(TerminalId(1));
    m.create_terminal(TerminalId(2));
    m.create_terminal(TerminalId(3));
    assert_eq!(m.terminal_count(), 3);
    assert_eq!(m.current_index(), 2);
    assert!(m.is_visible());
    m.next_terminal();
    assert_eq!(m.current_index(), 0);
    m.previous_terminal();
    assert_eq!(m.current_index(), 2);
    m.switch_to(2);
    assert_eq!(m.current().unwrap().id, TerminalId(2));
    m.switch_to(9);
    assert_eq!(m.current_index(), 1);
    assert_eq!(m.get(TerminalId(3)).unwrap().title, "Terminal 3");
    assert!(m.get(TerminalId(4)).is_none());
    m.get_mut(TerminalId(3)).unwrap().title = "build".to_string();
    assert_eq!(m.terminals()[2].title, "build");
    m.current_mut().unwrap().apply_action(TerminalAction::Print('x'));
    assert_eq!(m.current().unwrap().cursor.col, 1);
    m.clear_current();
    assert_eq!(m.current().unwrap().cursor.col, 0);
    m.kill_current();
    assert!(!m.current().unwrap().running);
    m.close_current();
    assert_eq!(m.terminal_count(), 2);
    assert_eq!(m.current_index(), 1);
    assert_eq!(m.current().unwrap().id, TerminalId(3));
    m.close_current();
    assert_eq!(m.current_index(), 0);
    m.toggle_visibility();
    assert!(!m.is_visible());
    m.show();
    assert!(m.is_visible());
    m.hide_panel();
    assert!(!m.is_visible());
    m.show();
    m.close_current();
    assert_eq!(m.terminal_count(), 0);
    assert!(!m.is_visible());
    m.create_terminal(TerminalId(4));
    m.close_all();
    assert_eq!(m.terminal_count(), 0);
    assert_eq!(m.current_index(), 0);
}

use lite_xl::terminal::state::TerminalState;

fn state_with_defaults() -> TerminalState {
    // The default terminal settings: 24 rows, 80 columns, 10000 lines kept.
    TerminalState::new(1, 24, 80, 10000)
}

#[test]
fn test_terminal_state_creation() {
    let state = state_with_defaults();

    assert_eq!(state.id, 1);
    assert!(state.is_running());
    assert_eq!(state.scroll_offset(), 0);
    assert_eq!(state.title(), "Terminal 1");
}

#[test]
fn test_terminal_state_scroll() {
    let mut state = state_with_defaults();

    state.scroll_up_by(5);
    assert_eq!(state.scroll_offset(), 0); // No scrollback yet

    state.scroll_to_bottom();
    assert_eq!(state.scroll_offset(), 0);
}

#[test]
fn test_terminal_state_selection() {
    let mut state = state_with_defaults();

    state.start_selection(0, 0, SelectionMode::Normal);
    assert!(state.clipboard().has_selection());

    state.clear_selection();
    assert!(!state.clipboard().has_selection());
}

#[test]
fn test_terminal_state_clear() {
    let mut state = state_with_defaults();

    state.clear();
    assert_eq!(state.cursor().row, 0);
    assert_eq!(state.cursor().col, 0);
}

#[test]
fn terminal_state_applies_output() {
    let mut state = TerminalState::new(3, 2, 4, 10);
    // The grid has as many rows as the terminal has columns.
    assert_eq!(state.grid().rows(), 4);
    assert_eq!(state.grid().cols(), 2);
    state.apply_action(TerminalAction::Print('a'));
    assert_eq!(state.grid().get(0, 0).unwrap().c, 'a');
    assert_eq!(state.cursor().col, 0);
    state.apply_action(TerminalAction::CursorForward(1));
    assert_eq!(state.cursor().col, 0);
    state.apply_action(TerminalAction::ClearLine);
    assert_eq!(state.grid().get(0, 0).unwrap().c, ' ');
    state.set_title("t".to_string());
    assert_eq!(state.title(), "t");
    state.resize(3, 5);
    assert_eq!((state.grid().rows(), state.grid().cols()), (3, 5));
    state.kill();
    assert!(!state.is_running());
}

use lite_xl::terminal::commands::TerminalCommand;

#[test]
fn terminal_commands_run_on_the_manager() {
    let mut m = TerminalManager::new(24, 80, 100);
    assert_eq!(TerminalCommand::New.execute(&mut m, TerminalId(5)), Ok(()));
    assert_eq!(TerminalCommand::New.execute(&mut m, TerminalId(6)), Ok(()));
    assert_eq!(m.terminal_count(), 2);
    assert_eq!(m.current().unwrap().id, TerminalId(6));
    TerminalCommand::Next.execute(&mut m, TerminalId(0)).unwrap();
    assert_eq!(m.current_index(), 0);
    TerminalCommand::Previous.execute(&mut m, TerminalId(0)).unwrap();
    assert_eq!(m.current_index(), 1);
    TerminalCommand::SwitchTo(1).execute(&mut m, TerminalId(0)).unwrap();
    assert_eq!(m.current_index(), 0);
    TerminalCommand::Hide.execute(&mut m, TerminalId(0)).unwrap();
    assert!(!m.is_visible());
    TerminalCommand::Toggle.execute(&mut m, TerminalId(0)).unwrap();
    assert!(m.is_visible());
    TerminalCommand::Kill.execute(&mut m, TerminalId(0)).unwrap();
    assert!(!m.current().unwrap().running);
    TerminalCommand::SendInput("ls\n".to_string()).execute(&mut m, TerminalId(0)).unwrap();
    assert_eq!(m.terminal_count(), 2);
    TerminalCommand::Close.execute(&mut m, TerminalId(0)).unwrap();
    assert_eq!(m.terminal_count(), 1);
    TerminalCommand::CloseAll.execute(&mut m, TerminalId(0)).unwrap();
    assert_eq!(m.terminal_count(), 0);
    assert!(!m.is_visible());
}
