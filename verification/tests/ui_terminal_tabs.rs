use lite_xl::terminal::parser::sequences::Rgb;
use lite_xl::ui::terminal_canvas::{get_selected_text, TerminalCell, TerminalGrid};
use lite_xl::ui::terminal_tabs::{TabManager, TerminalTab};

#[test]
fn test_terminal_cell_creation() {
    let cell = TerminalCell::new('A');
    assert_eq!(cell.ch, 'A');
    assert!(!cell.bold);
    assert!(!cell.italic);
    assert_eq!(cell.fg, Rgb { r: 220, g: 220, b: 220 });
    assert_eq!(cell.bg, Rgb { r: 30, g: 30, b: 30 });
    assert_eq!(TerminalCell::default().ch, ' ');
}

#[test]
fn test_terminal_grid_creation() {
    let grid = TerminalGrid::new(80, 24);
    assert_eq!(grid.cols, 80);
    assert_eq!(grid.rows, 24);
    assert_eq!(grid.cells.len(), 24);
    assert_eq!(grid.cells[0].len(), 80);
}

#[test]
fn test_terminal_grid_set_get() {
    let mut grid = TerminalGrid::new(10, 10);
    let cell = TerminalCell::new('X');
    grid.set(5, 5, cell.clone());

    assert_eq!(grid.get(5, 5).unwrap().ch, 'X');
    assert!(grid.get(10, 0).is_none());
    grid.set(10, 10, cell);
    grid.get_mut(0, 1).unwrap().bold = true;
    assert!(grid.get(0, 1).unwrap().bold);
}

#[test]
fn test_selection() {
    let mut grid = TerminalGrid::new(10, 10);
    grid.selection = Some((0, 0, 0, 5));

    assert!(grid.is_selected(0, 2));
    assert!(!grid.is_selected(0, 6));
    assert!(!grid.is_selected(1, 0));

    grid.selection = Some((3, 4, 1, 2));
    assert!(grid.is_selected(2, 9));
    assert!(grid.is_selected(1, 2));
    assert!(!grid.is_selected(1, 1));
    assert!(grid.is_selected(3, 3));
    assert!(!grid.is_selected(3, 4));
}

#[test]
fn test_get_selected_text() {
    let mut grid = TerminalGrid::new(10, 10);

    // Set some text
    for (i, ch) in "Hello".chars().enumerate() {
        grid.set(0, i, TerminalCell::new(ch));
    }

    grid.selection = Some((0, 0, 0, 5));
    let text = get_selected_text(&grid).unwrap();
    assert_eq!(text, "Hello");
}

#[test]
fn terminal_grid_multi_row_selection_and_resize() {
    let mut grid = TerminalGrid::new(3, 3);
    for (r, row) in ["abc", "def", "ghi"].iter().enumerate() {
        for (c, ch) in row.chars().enumerate() {
            grid.set(r, c, TerminalCell::new(ch));
        }
    }
    grid.selection = Some((2, 1, 0, 1));
    assert_eq!(get_selected_text(&grid).unwrap(), "bc\ndef\ng");
    grid.selection = None;
    assert_eq!(get_selected_text(&grid), None);
    grid.resize(2, 4);
    assert_eq!((grid.cols, grid.rows), (2, 4));
    assert_eq!(grid.get(1, 1).unwrap().ch, 'e');
    assert!(grid.get(1, 2).is_none());
    assert_eq!(grid.get(3, 0).unwrap().ch, ' ');
    grid.selection = Some((1, 0, 9, 9));
    assert_eq!(get_selected_text(&grid).unwrap(), "de\ngh\n  \n");
}

#[test]
fn test_tab_manager_creation() {
    let manager = TabManager::new();
    assert_eq!(manager.tabs.len(), 1);
    assert_eq!(manager.active_index, 0);
}

#[test]
fn test_add_tab() {
    let mut manager = TabManager::new();
    manager.add_tab(None);
    assert_eq!(manager.tabs.len(), 2);
    assert_eq!(manager.active_index, 1);
}

#[test]
fn test_close_tab() {
    let mut manager = TabManager::new();
    manager.add_tab(None);
    manager.add_tab(None);
    assert_eq!(manager.tabs.len(), 3);

    manager.close_tab(1);
    assert_eq!(manager.tabs.len(), 2);
}

#[test]
fn test_switch_tab() {
    let mut manager = TabManager::new();
    manager.add_tab(None);
    manager.add_tab(None);

    manager.switch_to_tab(1);
    assert_eq!(manager.active_index, 1);

    manager.switch_to_tab(0);
    assert_eq!(manager.active_index, 0);
}

#[test]
fn tabs_next_and_previous_wrap_around() {
    let mut manager = TabManager::new();
    manager.add_tab(None);
    manager.add_tab(None);
    assert_eq!(manager.active_index, 2);

    manager.next_tab();
    assert_eq!(manager.active_index, 0); // Wraps around

    manager.next_tab();
    assert_eq!(manager.active_index, 1);

    manager.prev_tab();
    manager.prev_tab();
    assert_eq!(manager.active_index, 2);
}

#[test]
fn test_active_tab() {
    let mut manager = TabManager::new();
    assert!(manager.active_tab().is_some());

    let tab = manager.active_tab().unwrap();
    assert_eq!(tab.id, 0);
    manager.active_tab_mut().unwrap().is_busy = true;
    assert!(manager.tabs[0].is_busy);
}

#[test]
fn test_cannot_close_last_tab() {
    let mut manager = TabManager::new();
    assert_eq!(manager.tabs.len(), 1);

    manager.close_tab(0);
    assert_eq!(manager.tabs.len(), 1); // Should still have 1 tab
}

#[test]
fn test_tab_creation() {
    let tab = TerminalTab::new(0, "Test".to_string(), 80, 24);
    assert_eq!(tab.title, "Test");
    assert_eq!(tab.grid.cols, 80);
    assert_eq!(tab.grid.rows, 24);
}

#[test]
fn tab_titles_and_closing_before_active() {
    let mut manager = TabManager::new();
    assert_eq!(manager.tabs[0].title, "Terminal 1");
    assert_eq!(manager.tabs[0].working_dir, "~");
    manager.add_tab(Some("build".to_string()));
    manager.add_tab(None);
    assert_eq!(manager.tabs[1].title, "build");
    assert_eq!(manager.tabs[2].title, "Terminal 3");
    assert_eq!(manager.next_id, 3);
    manager.close_tab(0);
    assert_eq!(manager.active_index, 1);
    assert_eq!(manager.tabs[1].id, 2);
    manager.close_tab(7);
    assert_eq!(manager.tabs.len(), 2);
    manager.close_tab(1);
    assert_eq!(manager.active_index, 0);
}
