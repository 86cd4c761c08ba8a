use lite_xl::commands::navigation::{
    execute_center_cursor, execute_go_to_line, execute_go_to_matching_bracket, execute_go_to_position, execute_move_cursor, execute_select, first_non_whitespace_column, is_blank,
    line_number_target, word_left_column, word_right_column, NavigationContext, Position,
};
use lite_xl::commands::Movement;

struct MockNavigationContext {
    cursor: Position,
    lines: Vec<String>,
    selection: Option<(Position, Position)>,
}

impl MockNavigationContext {
    fn new(lines: Vec<&str>) -> Self {
        Self { cursor: Position::zero(), lines: lines.iter().map(|s| s.to_string()).collect(), selection: None }
    }
}

impl NavigationContext for MockNavigationContext {
    fn cursor_position(&self) -> Position {
        self.cursor
    }

    fn set_cursor_position(&mut self, position: Position) {
        self.cursor = position;
    }

    fn line_count(&self) -> usize {
        self.lines.len()
    }

    fn line_length(&self, line: usize) -> usize {
        self.lines.get(line).map(|s| s.len()).unwrap_or(0)
    }

    fn line_text(&self, line: usize) -> Option<String> {
        self.lines.get(line).cloned()
    }

    fn visible_line_range(&self) -> (usize, usize) {
        (0, 20)
    }

    fn visible_line_count(&self) -> usize {
        20
    }

    fn scroll_to_position(&mut self, _position: Position) {}

    fn selection_range(&self) -> Option<(Position, Position)> {
        self.selection
    }

    fn set_selection_range(&mut self, start: Position, end: Position) {
        self.selection = Some((start, end));
    }

    fn clear_selection(&mut self) {
        self.selection = None;
    }

    fn find_matching_bracket(&self, _position: Position) -> Option<Position> {
        None
    }
}

#[test]
fn test_move_left() {
    let mut ctx = MockNavigationContext::new(vec!["hello", "world"]);
    ctx.cursor = Position::new(0, 3);
    execute_move_cursor(&mut ctx, Movement::Left);
    assert_eq!(ctx.cursor, Position::new(0, 2));
}

#[test]
fn test_move_right() {
    let mut ctx = MockNavigationContext::new(vec!["hello", "world"]);
    ctx.cursor = Position::new(0, 2);
    execute_move_cursor(&mut ctx, Movement::Right);
    assert_eq!(ctx.cursor, Position::new(0, 3));
}

#[test]
fn test_move_up() {
    let mut ctx = MockNavigationContext::new(vec!["hello", "world"]);
    ctx.cursor = Position::new(1, 2);
    execute_move_cursor(&mut ctx, Movement::Up);
    assert_eq!(ctx.cursor, Position::new(0, 2));
}

#[test]
fn test_move_down() {
    let mut ctx = MockNavigationContext::new(vec!["hello", "world"]);
    ctx.cursor = Position::new(0, 2);
    execute_move_cursor(&mut ctx, Movement::Down);
    assert_eq!(ctx.cursor, Position::new(1, 2));
}

#[test]
fn test_move_line_start() {
    let mut ctx = MockNavigationContext::new(vec!["hello"]);
    ctx.cursor = Position::new(0, 3);
    execute_move_cursor(&mut ctx, Movement::LineStart);
    assert_eq!(ctx.cursor, Position::new(0, 0));
}

#[test]
fn test_move_line_end() {
    let mut ctx = MockNavigationContext::new(vec!["hello"]);
    ctx.cursor = Position::new(0, 2);
    execute_move_cursor(&mut ctx, Movement::LineEnd);
    assert_eq!(ctx.cursor, Position::new(0, 5));
}

#[test]
fn test_go_to_line() {
    let mut ctx = MockNavigationContext::new(vec!["line1", "line2", "line3"]);
    execute_go_to_line(&mut ctx, 2);
    assert_eq!(ctx.cursor, Position::new(1, 0));
}

#[test]
fn test_select() {
    let mut ctx = MockNavigationContext::new(vec!["hello"]);
    ctx.cursor = Position::new(0, 2);
    execute_select(&mut ctx, Movement::Right);
    assert_eq!(ctx.cursor, Position::new(0, 3));
    assert!(ctx.selection.is_some());
}

#[test]
fn test_word_navigation() {
    let mut ctx = MockNavigationContext::new(vec!["hello world test"]);
    ctx.cursor = Position::new(0, 0);
    execute_move_cursor(&mut ctx, Movement::WordRight);
    assert_eq!(ctx.cursor.column, 6);
    execute_move_cursor(&mut ctx, Movement::WordLeft);
    assert_eq!(ctx.cursor.column, 0);
}

#[test]
fn navigation_helpers() {
    let chars: Vec<char> = "  foo bar".chars().collect();
    assert_eq!(first_non_whitespace_column(&chars), 2);
    assert_eq!(word_right_column(&chars, 2), 6);
    assert_eq!(word_left_column(&chars, 9), 6);
    assert!(is_blank("   \t"));
    assert!(!is_blank(" x "));
    assert_eq!(line_number_target(0, 3), Position::new(0, 0));
    assert_eq!(line_number_target(10, 3), Position::new(2, 0));
}

#[test]
fn paragraph_page_and_position_moves() {
    let mut ctx = MockNavigationContext::new(vec!["a", "b", "", "c", "d", "", "", "e"]);
    execute_move_cursor(&mut ctx, Movement::ParagraphNext);
    assert_eq!(ctx.cursor, Position::new(3, 0));
    execute_move_cursor(&mut ctx, Movement::ParagraphNext);
    assert_eq!(ctx.cursor, Position::new(7, 0));
    execute_move_cursor(&mut ctx, Movement::ParagraphPrevious);
    assert_eq!(ctx.cursor, Position::new(3, 0));
    execute_move_cursor(&mut ctx, Movement::PageUp);
    assert_eq!(ctx.cursor, Position::new(0, 0));
    execute_move_cursor(&mut ctx, Movement::PageDown);
    assert_eq!(ctx.cursor, Position::new(7, 0));
    execute_move_cursor(&mut ctx, Movement::DocumentEnd);
    assert_eq!(ctx.cursor, Position::new(7, 1));
    execute_move_cursor(&mut ctx, Movement::DocumentStart);
    assert_eq!(ctx.cursor, Position::new(0, 0));
    ctx.selection = Some((Position::new(0, 0), Position::new(1, 0)));
    execute_go_to_position(&mut ctx, 100, 100);
    assert_eq!(ctx.cursor, Position::new(7, 1));
    assert_eq!(ctx.selection, None);
    execute_go_to_matching_bracket(&mut ctx);
    assert_eq!(ctx.cursor, Position::new(7, 1));
    execute_move_cursor(&mut ctx, Movement::MatchingBracket);
    assert_eq!(ctx.cursor, Position::new(7, 1));
}

#[test]
fn center_cursor_keeps_cursor_and_selection() {
    let mut ctx = MockNavigationContext::new(vec!["hello", "world"]);
    ctx.cursor = Position::new(1, 2);
    ctx.selection = Some((Position::new(0, 1), Position::new(1, 2)));
    execute_center_cursor(&mut ctx);
    assert_eq!(ctx.cursor, Position::new(1, 2));
    assert_eq!(ctx.selection, Some((Position::new(0, 1), Position::new(1, 2))));
}
