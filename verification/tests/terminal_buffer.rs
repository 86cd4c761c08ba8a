use lite_xl::terminal::buffer::cell::{Cell, Color};
use lite_xl::terminal::buffer::scrollback::Scrollback;
use lite_xl::terminal::buffer::TerminalBuffer;

#[test]
fn test_terminal_buffer_new() {
    let buf = TerminalBuffer::new(24, 80, 1000);
    assert_eq!(buf.size(), (24, 80));
    assert_eq!(buf.cursor.row, 0);
    assert_eq!(buf.cursor.col, 0);
}

#[test]
fn test_write_char() {
    let mut buf = TerminalBuffer::new(3, 5, 10);
    buf.write_char('A');

    assert_eq!(buf.grid.get(0, 0).unwrap().c, 'A');
    assert_eq!(buf.cursor.col, 0);
}

#[test]
fn test_write_char_and_advance() {
    let mut buf = TerminalBuffer::new(3, 5, 10);
    buf.write_char_and_advance('A');
    buf.write_char_and_advance('B');

    assert_eq!(buf.grid.get(0, 0).unwrap().c, 'A');
    assert_eq!(buf.grid.get(0, 1).unwrap().c, 'B');
    assert_eq!(buf.cursor.col, 2);
}

#[test]
fn test_cursor_wrap() {
    let mut buf = TerminalBuffer::new(3, 3, 10);
    for _ in 0..3 {
        buf.advance_cursor();
    }

    assert_eq!(buf.cursor.row, 1);
    assert_eq!(buf.cursor.col, 0);
}

#[test]
fn test_scroll_up() {
    let mut buf = TerminalBuffer::new(3, 3, 10);
    buf.grid.set(0, 0, Cell::new('A'));
    buf.grid.set(1, 0, Cell::new('B'));
    buf.grid.set(2, 0, Cell::new('C'));

    buf.scroll_up();

    assert_eq!(buf.grid.get(0, 0).unwrap().c, 'B');
    assert_eq!(buf.grid.get(1, 0).unwrap().c, 'C');
    assert_eq!(buf.grid.get(2, 0).unwrap().c, ' ');
    assert_eq!(buf.scrollback.len(), 1);
}

#[test]
fn test_clear_screen() {
    let mut buf = TerminalBuffer::new(2, 2, 10);
    buf.grid.set(0, 0, Cell::new('A'));
    buf.grid.set(1, 1, Cell::new('B'));

    buf.clear_screen();

    assert_eq!(buf.grid.get(0, 0).unwrap().c, ' ');
    assert_eq!(buf.grid.get(1, 1).unwrap().c, ' ');
}

#[test]
fn test_resize() {
    let mut buf = TerminalBuffer::new(2, 2, 10);
    buf.grid.set(0, 0, Cell::new('A'));

    buf.resize(3, 3);

    assert_eq!(buf.size(), (3, 3));
    assert_eq!(buf.grid.get(0, 0).unwrap().c, 'A');
}

#[test]
fn test_set_colors() {
    let mut buf = TerminalBuffer::new(2, 2, 10);
    buf.set_fg(Color::Red);
    buf.set_bg(Color::Blue);
    buf.write_char('X');

    let cell = buf.grid.get(0, 0).unwrap();
    assert_eq!(cell.fg, Color::Red);
    assert_eq!(cell.bg, Color::Blue);
}

#[test]
fn test_total_lines() {
    let mut buf = TerminalBuffer::new(3, 3, 10);
    assert_eq!(buf.total_lines(), 3);

    buf.scroll_up();
    assert_eq!(buf.total_lines(), 4);
}

fn make_line(text: &str, cols: usize) -> Vec<Cell> {
    let mut line: Vec<Cell> = text.chars().map(Cell::new).collect();
    line.resize(cols, Cell::default());
    line
}

#[test]
fn test_scrollback_new() {
    let sb = Scrollback::new(100, 80);
    assert_eq!(sb.max_lines(), 100);
    assert_eq!(sb.cols(), 80);
    assert_eq!(sb.len(), 0);
    assert!(sb.is_empty());
    assert!(!sb.is_full());
}

#[test]
fn test_scrollback_push() {
    let mut sb = Scrollback::new(3, 5);
    sb.push(make_line("AAA", 5));
    sb.push(make_line("BBB", 5));

    assert_eq!(sb.len(), 2);
    assert!(!sb.is_full());
}

#[test]
fn test_scrollback_push_overflow() {
    let mut sb = Scrollback::new(3, 5);
    sb.push(make_line("AAA", 5));
    sb.push(make_line("BBB", 5));
    sb.push(make_line("CCC", 5));
    assert!(sb.is_full());

    sb.push(make_line("DDD", 5));

    assert_eq!(sb.len(), 3);
    assert_eq!(sb.line_to_string(0).unwrap().trim(), "BBB");
    assert_eq!(sb.line_to_string(2).unwrap().trim(), "DDD");
}

#[test]
fn test_scrollback_get() {
    let mut sb = Scrollback::new(10, 5);
    sb.push(make_line("AAA", 5));
    sb.push(make_line("BBB", 5));

    assert!(sb.get(0).is_some());
    assert!(sb.get(1).is_some());
    assert!(sb.get(2).is_none());
}

#[test]
fn test_scrollback_from_end() {
    let mut sb = Scrollback::new(10, 5);
    sb.push(make_line("AAA", 5));
    sb.push(make_line("BBB", 5));
    sb.push(make_line("CCC", 5));

    assert_eq!(sb.from_end(0).map(|l| &l[0].c), Some(&'C'));
    assert_eq!(sb.from_end(1).map(|l| &l[0].c), Some(&'B'));
    assert_eq!(sb.from_end(2).map(|l| &l[0].c), Some(&'A'));
    assert!(sb.from_end(3).is_none());
}

#[test]
fn test_scrollback_clear() {
    let mut sb = Scrollback::new(10, 5);
    sb.push(make_line("AAA", 5));
    sb.push(make_line("BBB", 5));

    sb.clear();

    assert_eq!(sb.len(), 0);
    assert!(sb.is_empty());
}

#[test]
fn test_scrollback_resize() {
    let mut sb = Scrollback::new(5, 5);
    sb.push(make_line("AAA", 5));
    sb.push(make_line("BBB", 5));
    sb.push(make_line("CCC", 5));
    sb.push(make_line("DDD", 5));

    sb.resize(2);

    assert_eq!(sb.max_lines(), 2);
    assert_eq!(sb.len(), 2);
    assert_eq!(sb.line_to_string(0).unwrap().trim(), "CCC");
    assert_eq!(sb.line_to_string(1).unwrap().trim(), "DDD");
}

#[test]
fn test_scrollback_resize_cols() {
    let mut sb = Scrollback::new(5, 3);
    sb.push(make_line("ABC", 3));

    sb.resize_cols(5);

    assert_eq!(sb.cols(), 5);
    let line = sb.get(0).unwrap();
    assert_eq!(line.len(), 5);
    assert_eq!(line[0].c, 'A');
    assert_eq!(line[4].c, ' ');
}

#[test]
fn test_scrollback_no_scrollback() {
    let mut sb = Scrollback::new(0, 5);
    sb.push(make_line("AAA", 5));

    assert_eq!(sb.len(), 0);
    assert!(sb.is_empty());
}

#[test]
fn test_scrollback_to_string() {
    let mut sb = Scrollback::new(10, 3);
    sb.push(make_line("AAA", 3));
    sb.push(make_line("BBB", 3));
    sb.push(make_line("CCC", 3));

    let result = sb.to_string();
    assert_eq!(result, "AAA\nBBB\nCCC");
}

#[test]
fn scrollback_pads_and_cuts_lines_to_width() {
    let mut sb = Scrollback::new(4, 3);
    sb.push(make_line("ABCDE", 5));
    sb.push(make_line("X", 1));
    assert_eq!(sb.line_to_string(0).unwrap(), "ABC");
    assert_eq!(sb.line_to_string(1).unwrap(), "X  ");
    assert!(sb.line_to_string(2).is_none());
}

#[test]
fn terminal_buffer_lines_and_clearing() {
    let mut buf = TerminalBuffer::new(2, 3, 5);
    buf.write_char_and_advance('a');
    buf.write_char_and_advance('b');
    buf.goto(1, 1);
    buf.write_char('z');
    assert_eq!(buf.to_string(), "ab \n z ");
    assert_eq!(buf.get_line(1).unwrap(), " z ");
    buf.goto(0, 1);
    buf.clear_to_end_of_line();
    assert_eq!(buf.get_line(0).unwrap(), "a  ");
    assert!(buf.get_line(9).is_none());
}
