use lite_xl::buffer::Position;
use lite_xl::document::selection::{Selection, Selections};

#[test]
fn test_selection_creation() {
    let cursor = Selection::cursor(Position::new(5, 10));
    assert!(cursor.is_cursor());
    assert_eq!(cursor.anchor(), Position::new(5, 10));
    assert_eq!(cursor.head(), Position::new(5, 10));

    let sel = Selection::new(Position::new(0, 0), Position::new(0, 10));
    assert!(!sel.is_cursor());
}

#[test]
fn test_selection_range() {
    let sel = Selection::new(Position::new(0, 10), Position::new(0, 0));
    let range = sel.range();
    assert_eq!(range.start, Position::new(0, 0));
    assert_eq!(range.end, Position::new(0, 10));
}

#[test]
fn test_selection_extend() {
    let mut sel = Selection::cursor(Position::new(0, 0));
    sel.extend_to(Position::new(0, 10));
    assert!(!sel.is_cursor());
    assert_eq!(sel.anchor(), Position::new(0, 0));
    assert_eq!(sel.head(), Position::new(0, 10));
}

#[test]
fn test_selection_move() {
    let mut sel = Selection::new(Position::new(0, 0), Position::new(0, 10));
    sel.move_to(Position::new(5, 5));
    assert!(sel.is_cursor());
    assert_eq!(sel.head(), Position::new(5, 5));
}

#[test]
fn test_selections_single() {
    let selections = Selections::single(Position::new(0, 0));
    assert_eq!(selections.len(), 1);
    assert_eq!(selections.primary().head(), Position::new(0, 0));
}

#[test]
fn test_selections_add() {
    let mut selections = Selections::single(Position::new(0, 0));
    selections.add_cursor(Position::new(1, 0));
    selections.add_cursor(Position::new(2, 0));
    assert_eq!(selections.len(), 3);
}

#[test]
fn test_selections_sort() {
    let mut selections = Selections::from_vec(vec![
        Selection::cursor(Position::new(2, 0)),
        Selection::cursor(Position::new(0, 0)),
        Selection::cursor(Position::new(1, 0)),
    ]);
    selections.sort();
    assert_eq!(selections.get(0).unwrap().head(), Position::new(0, 0));
    assert_eq!(selections.get(1).unwrap().head(), Position::new(1, 0));
    assert_eq!(selections.get(2).unwrap().head(), Position::new(2, 0));
}

#[test]
fn test_selections_merge() {
    let mut selections = Selections::from_vec(vec![
        Selection::new(Position::new(0, 0), Position::new(0, 5)),
        Selection::new(Position::new(0, 3), Position::new(0, 8)),
    ]);
    selections.normalize();
    assert_eq!(selections.len(), 1);
    assert_eq!(selections.primary().range().start, Position::new(0, 0));
    assert_eq!(selections.primary().range().end, Position::new(0, 8));
}

#[test]
fn test_selections_no_merge_non_overlapping() {
    let mut selections = Selections::from_vec(vec![
        Selection::new(Position::new(0, 0), Position::new(0, 5)),
        Selection::new(Position::new(1, 0), Position::new(1, 5)),
    ]);
    selections.normalize();
    assert_eq!(selections.len(), 2);
}

#[test]
fn test_selections_transform() {
    let mut selections = Selections::single(Position::new(0, 0));
    selections.add_cursor(Position::new(1, 0));

    selections.transform(|sel| {
        let mut new_sel = sel.clone();
        new_sel.extend_to(sel.head().offset_column(5));
        new_sel
    });

    assert!(!selections.get(0).unwrap().is_cursor());
    assert!(!selections.get(1).unwrap().is_cursor());
}

#[test]
fn selections_never_become_empty() {
    let mut selections = Selections::single(Position::new(3, 1));
    selections.remove(0);
    assert_eq!(selections.len(), 1);
    let empty = Selections::from_vec(Vec::new());
    assert_eq!(empty.len(), 1);
    assert_eq!(empty.primary().head(), Position::new(0, 0));
    assert!(selections.get(5).is_none());
}

#[test]
fn normalize_merges_a_selection_holding_a_cursor() {
    let mut selections = Selections::from_vec(vec![
        Selection::new(Position::new(0, 0), Position::new(0, 5)),
        Selection::cursor(Position::new(0, 0)),
        Selection::new(Position::new(0, 3), Position::new(0, 8)),
    ]);
    selections.normalize();
    assert_eq!(selections.len(), 1);
    assert_eq!(selections.primary().range().start, Position::new(0, 0));
    assert_eq!(selections.primary().range().end, Position::new(0, 8));
    let mut apart = Selections::from_vec(vec![
        Selection::new(Position::new(0, 0), Position::new(0, 2)),
        Selection::new(Position::new(0, 4), Position::new(0, 6)),
    ]);
    apart.normalize();
    assert_eq!(apart.len(), 2);
}
