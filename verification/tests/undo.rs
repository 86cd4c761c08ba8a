use lite_xl::buffer::{Buffer, Position, Range};
use lite_xl::document::selection::Selections;
use lite_xl::undo::{Edit, UndoConfig, UndoStack};

#[test]
fn test_edit_apply() {
    let mut buffer = Buffer::new();
    let edit = Edit::Insert { position: Position::zero(), text: "Hello".to_string() };
    edit.apply(&mut buffer).unwrap();
    assert_eq!(buffer.to_string(), "Hello");
}

#[test]
fn test_edit_inverse() {
    let insert = Edit::Insert { position: Position::zero(), text: "Hello".to_string() };
    let delete = insert.inverse();

    match delete {
        Edit::Delete { deleted_text, .. } => {
            assert_eq!(deleted_text, "Hello");
        }
        _ => panic!("Expected Delete edit"),
    }
}

#[test]
fn test_undo_stack_push() {
    let mut stack = UndoStack::new(UndoConfig::default());
    let selections = Selections::single(Position::zero());

    let edit = Edit::Insert { position: Position::zero(), text: "Hello".to_string() };
    stack.push(edit, selections);

    assert!(stack.can_undo());
    assert!(!stack.can_redo());
}

#[test]
fn mod_test_undo_redo() {
    let mut stack = UndoStack::new(UndoConfig::default());
    let mut buffer = Buffer::new();
    let selections = Selections::single(Position::zero());

    let edit = Edit::Insert { position: Position::zero(), text: "Hello".to_string() };
    edit.apply(&mut buffer).unwrap();
    stack.push(edit, selections.clone());

    assert_eq!(buffer.to_string(), "Hello");

    stack.undo(&mut buffer);
    assert_eq!(buffer.to_string(), "");
    assert!(stack.can_redo());

    stack.redo(&mut buffer);
    assert_eq!(buffer.to_string(), "Hello");
}

#[test]
fn test_multiple_edits() {
    let mut stack = UndoStack::new(UndoConfig::default());
    let mut buffer = Buffer::new();
    let mut selections = Selections::single(Position::zero());

    let edit1 = Edit::Insert { position: Position::zero(), text: "Hello".to_string() };
    edit1.apply(&mut buffer).unwrap();
    stack.push(edit1, selections.clone());

    selections.primary_mut().move_to(Position::new(0, 5));
    let edit2 = Edit::Insert { position: Position::new(0, 5), text: " World".to_string() };
    edit2.apply(&mut buffer).unwrap();
    stack.push(edit2, selections.clone());

    assert_eq!(buffer.to_string(), "Hello World");

    stack.undo(&mut buffer);
    assert_eq!(buffer.to_string(), "");
}

#[test]
fn test_redo_cleared_on_new_edit() {
    let mut stack = UndoStack::new(UndoConfig::default());
    let mut buffer = Buffer::new();
    let selections = Selections::single(Position::zero());

    let edit = Edit::Insert { position: Position::zero(), text: "Hello".to_string() };
    edit.apply(&mut buffer).unwrap();
    stack.push(edit, selections.clone());
    stack.undo(&mut buffer);

    assert!(stack.can_redo());

    let edit2 = Edit::Insert { position: Position::zero(), text: "World".to_string() };
    edit2.apply(&mut buffer).unwrap();
    stack.push(edit2, selections);

    assert!(!stack.can_redo());
}

#[test]
fn test_begin_end_group() {
    let mut stack = UndoStack::new(UndoConfig::default());
    let selections = Selections::single(Position::zero());

    stack.begin_group(selections.clone());
    stack.push(Edit::Insert { position: Position::zero(), text: "A".to_string() }, selections.clone());

    stack.end_group();
    stack.begin_group(selections.clone());
    stack.push(Edit::Insert { position: Position::new(0, 1), text: "B".to_string() }, selections);
    stack.end_group();

    assert_eq!(stack.undo_count(), 2);
}

#[test]
fn delete_edit_round_trip() {
    let mut buffer = Buffer::from_str("abcdef");
    let range = Range::new(Position::new(0, 1), Position::new(0, 4));
    let edit = Edit::Delete { range, deleted_text: "bcd".to_string() };
    edit.apply(&mut buffer).unwrap();
    assert_eq!(buffer.to_string(), "aef");
    edit.inverse().apply(&mut buffer).unwrap();
    assert_eq!(buffer.to_string(), "abcdef");
    assert_eq!(edit.position(), Position::new(0, 1));
}

#[test]
fn undo_on_an_empty_history_does_nothing() {
    let mut stack = UndoStack::default();
    let mut buffer = Buffer::from_str("x");
    assert!(stack.undo(&mut buffer).is_none());
    assert!(stack.redo(&mut buffer).is_none());
    assert_eq!(buffer.to_string(), "x");
    assert_eq!(stack.undo_count(), 0);
    assert_eq!(stack.redo_count(), 0);
    assert_eq!(stack.config().max_groups, 10000);
}

#[test]
fn insert_inverse_ends_after_the_inserted_text() {
    let insert = Edit::Insert { position: Position::new(2, 3), text: "a\nbc".to_string() };
    match insert.inverse() {
        Edit::Delete { range, deleted_text } => {
            assert_eq!(range.start, Position::new(2, 3));
            assert_eq!(range.end, Position::new(3, 2));
            assert_eq!(deleted_text, "a\nbc");
        }
        _ => panic!("Expected Delete edit"),
    }
    let single = Edit::Insert { position: Position::new(0, 1), text: "héllo".to_string() };
    match single.inverse() {
        Edit::Delete { range, .. } => assert_eq!(range.end, Position::new(0, 6)),
        _ => panic!("Expected Delete edit"),
    }
    let mut buffer = Buffer::from_str("xy");
    let ins = Edit::Insert { position: Position::new(0, 1), text: "1\n2".to_string() };
    ins.apply(&mut buffer).unwrap();
    assert_eq!(buffer.to_string(), "x1\n2y");
    ins.inverse().apply(&mut buffer).unwrap();
    assert_eq!(buffer.to_string(), "xy");
    match ins.inverse().inverse() {
        Edit::Insert { position, text } => {
            assert_eq!(position, Position::new(0, 1));
            assert_eq!(text, "1\n2");
        }
        _ => panic!("Expected Insert edit"),
    }
}

#[test]
fn an_open_group_without_edits_is_not_counted() {
    let mut stack = UndoStack::new(UndoConfig::default());
    let selections = Selections::single(Position::zero());
    stack.begin_group(selections.clone());
    assert_eq!(stack.undo_count(), 0);
    assert!(!stack.can_undo());
    stack.push(Edit::Insert { position: Position::zero(), text: "A".to_string() }, selections);
    assert_eq!(stack.undo_count(), 1);
    assert!(stack.can_undo());
}

#[test]
fn grouping_decision() {
    assert!(lite_xl::undo::joins_group(100, 300_000_000));
    assert!(!lite_xl::undo::joins_group(300_000_000, 300_000_000));
    let mut stack = UndoStack::new(UndoConfig::default());
    let selections = Selections::single(Position::zero());
    stack.push(Edit::Insert { position: Position::zero(), text: "A".to_string() }, selections.clone());
    stack.push(Edit::Insert { position: Position::new(0, 1), text: "B".to_string() }, selections);
    assert!(stack.can_undo());
    assert!(!stack.can_redo());
    assert_eq!(stack.redo_count(), 0);
}
