use lite_xl::terminal::buffer::cell::{Attributes, Cell, Color};
use lite_xl::terminal::buffer::cursor::{Cursor, CursorShape};

#[test]
fn test_cell_default() {
    let cell = Cell::default();
    assert_eq!(cell.c, ' ');
    assert_eq!(cell.fg, Color::Default);
    assert_eq!(cell.bg, Color::Default);
    assert!(cell.attrs.is_empty());
}

#[test]
fn test_cell_new() {
    let cell = Cell::new('a');
    assert_eq!(cell.c, 'a');
    assert_eq!(cell.fg, Color::Default);
    assert_eq!(cell.bg, Color::Default);
}

#[test]
fn test_cell_with_style() {
    let mut attrs = Attributes::new();
    attrs.bold = true;
    let cell = Cell::with_style('b', Color::Red, Color::Blue, attrs);
    assert_eq!(cell.c, 'b');
    assert_eq!(cell.fg, Color::Red);
    assert_eq!(cell.bg, Color::Blue);
    assert!(cell.attrs.bold);
}

#[test]
fn test_cell_reset() {
    let mut cell = Cell::with_style('x', Color::Green, Color::Yellow, Attributes::new());
    cell.reset();
    assert_eq!(cell, Cell::default());
}

#[test]
fn test_color_from_ansi() {
    assert_eq!(Color::from_ansi(0), Color::Black);
    assert_eq!(Color::from_ansi(1), Color::Red);
    assert_eq!(Color::from_ansi(9), Color::BrightRed);
    assert_eq!(Color::from_ansi(255), Color::Indexed(255));
}

#[test]
fn cell_test_attributes_reset() {
    let mut attrs = Attributes::new();
    attrs.bold = true;
    attrs.italic = true;
    attrs.reset();
    assert!(attrs.is_empty());
}

#[test]
fn test_cursor_default() {
    let cursor = Cursor::default();
    assert_eq!(cursor.row, 0);
    assert_eq!(cursor.col, 0);
    assert!(cursor.visible);
    assert_eq!(cursor.shape, CursorShape::Block);
}

#[test]
fn test_cursor_at() {
    let cursor = Cursor::at(5, 10);
    assert_eq!(cursor.row, 5);
    assert_eq!(cursor.col, 10);
}

#[test]
fn test_cursor_goto() {
    let mut cursor = Cursor::new();
    cursor.goto(3, 7);
    assert_eq!(cursor.row, 3);
    assert_eq!(cursor.col, 7);
}

#[test]
fn test_cursor_movement() {
    let mut cursor = Cursor::at(5, 5);

    cursor.move_up(2);
    assert_eq!(cursor.row, 3);

    cursor.move_down(4);
    assert_eq!(cursor.row, 7);

    cursor.move_left(3);
    assert_eq!(cursor.col, 2);

    cursor.move_right(6);
    assert_eq!(cursor.col, 8);
}

#[test]
fn test_cursor_saturating() {
    let mut cursor = Cursor::at(1, 1);
    cursor.move_up(5);
    assert_eq!(cursor.row, 0);
    cursor.move_left(5);
    assert_eq!(cursor.col, 0);
}

#[test]
fn test_cursor_newline() {
    let mut cursor = Cursor::at(2, 5);
    cursor.newline();
    assert_eq!(cursor.row, 3);
    assert_eq!(cursor.col, 0);
}

#[test]
fn test_cursor_carriage_return() {
    let mut cursor = Cursor::at(2, 5);
    cursor.carriage_return();
    assert_eq!(cursor.row, 2);
    assert_eq!(cursor.col, 0);
}

#[test]
fn test_cursor_clamp() {
    let mut cursor = Cursor::at(100, 100);
    cursor.clamp(24, 80);
    assert_eq!(cursor.row, 23);
    assert_eq!(cursor.col, 79);
}

#[test]
fn test_cursor_visibility() {
    let mut cursor = Cursor::new();
    assert!(cursor.visible);

    cursor.hide_cursor();
    assert!(!cursor.visible);

    cursor.show();
    assert!(cursor.visible);
}

#[test]
fn test_cursor_reset() {
    let mut cursor = Cursor::at(10, 20);
    cursor.hide_cursor();
    cursor.reset();

    assert_eq!(cursor.row, 0);
    assert_eq!(cursor.col, 0);
    assert!(cursor.visible);
}

#[test]
fn cursor_forward_stops_at_the_last_column() {
    let mut cursor = Cursor::at(0, 7);
    cursor.forward(5, 10);
    assert_eq!(cursor.col, 10);
    cursor.move_down(usize::MAX);
    assert_eq!(cursor.row, usize::MAX);
}
