use lite_xl::buffer::position::{Position, Range};

#[test]
fn test_position_creation() {
    let pos = Position::new(5, 10);
    assert_eq!(pos.line, 5);
    assert_eq!(pos.column, 10);

    let origin = Position::zero();
    assert_eq!(origin.line, 0);
    assert_eq!(origin.column, 0);
}

#[test]
fn test_position_ordering() {
    let p1 = Position::new(0, 0);
    let p2 = Position::new(0, 5);
    let p3 = Position::new(1, 0);

    assert!(p1 < p2);
    assert!(p2 < p3);
    assert!(p1 < p3);
    assert!(p1.precedes(&p2));
    assert!(p2.precedes(&p3));
    assert!(!p3.precedes(&p1));
}

#[test]
fn test_position_offset() {
    let pos = Position::new(5, 10);
    assert_eq!(pos.offset_column(5), Position::new(5, 15));
    assert_eq!(pos.offset_column(-5), Position::new(5, 5));
    assert_eq!(pos.offset_line(2), Position::new(7, 10));
    assert_eq!(pos.offset_line(-2), Position::new(3, 10));
}

#[test]
fn position_offset_saturates() {
    let pos = Position::new(1, 2);
    assert_eq!(pos.offset_column(-5), Position::new(1, 0));
    assert_eq!(pos.offset_line(-5), Position::new(0, 2));
    assert_eq!(Position::new(0, usize::MAX).offset_column(3).column, usize::MAX);
}

#[test]
fn test_range_creation() {
    let range = Range::new(Position::new(0, 0), Position::new(0, 5));
    assert_eq!(range.start, Position::new(0, 0));
    assert_eq!(range.end, Position::new(0, 5));
}

#[test]
fn test_range_normalization() {
    let range = Range::new(Position::new(0, 10), Position::new(0, 5));
    assert_eq!(range.start, Position::new(0, 5));
    assert_eq!(range.end, Position::new(0, 10));
}

#[test]
fn test_range_is_empty() {
    let cursor = Range::cursor(Position::new(5, 10));
    assert!(cursor.is_empty());

    let selection = Range::new(Position::new(0, 0), Position::new(0, 5));
    assert!(!selection.is_empty());
}

#[test]
fn test_range_contains() {
    let range = Range::new(Position::new(0, 0), Position::new(0, 10));
    assert!(range.contains(Position::new(0, 0)));
    assert!(range.contains(Position::new(0, 5)));
    assert!(!range.contains(Position::new(0, 10)));
    assert!(!range.contains(Position::new(1, 0)));
}

#[test]
fn test_range_overlaps() {
    let r1 = Range::new(Position::new(0, 0), Position::new(0, 10));
    let r2 = Range::new(Position::new(0, 5), Position::new(0, 15));
    let r3 = Range::new(Position::new(0, 10), Position::new(0, 20));
    let r4 = Range::new(Position::new(1, 0), Position::new(1, 5));

    assert!(r1.overlaps(r2));
    assert!(!r1.overlaps(r3));
    assert!(!r1.overlaps(r4));
}

#[test]
fn test_range_union() {
    let r1 = Range::new(Position::new(0, 0), Position::new(0, 5));
    let r2 = Range::new(Position::new(0, 10), Position::new(0, 15));
    let merged = r1.union(r2);
    assert_eq!(merged.start, Position::new(0, 0));
    assert_eq!(merged.end, Position::new(0, 15));
}

#[test]
fn test_range_single_line() {
    let single = Range::new(Position::new(5, 0), Position::new(5, 10));
    assert!(single.is_single_line());

    let multi = Range::new(Position::new(5, 0), Position::new(6, 0));
    assert!(!multi.is_single_line());
}

#[test]
fn range_extend_to_grows_to_include_position() {
    let range = Range::new(Position::new(0, 0), Position::new(0, 5));
    assert_eq!(range.extend_to(Position::new(0, 10)).end, Position::new(0, 10));
    let wide = Range::new(Position::new(0, 0), Position::new(0, 10));
    let kept = wide.extend_to(Position::new(0, 5));
    assert_eq!(kept.start, Position::new(0, 0));
    assert_eq!(kept.end, Position::new(0, 10));
    let before = Range::new(Position::new(1, 2), Position::new(1, 4)).extend_to(Position::new(0, 7));
    assert_eq!(before.start, Position::new(0, 7));
    assert_eq!(before.end, Position::new(1, 4));
}
