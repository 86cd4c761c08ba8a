use lite_xl::commands::{Command, Key, KeyBinding, KeyMap, Modifiers, Movement};

#[test]
fn test_command_properties() {
    assert!(Command::Insert("test".to_string()).modifies_document());
    assert!(Command::Delete.modifies_document());
    assert!(!Command::MoveCursor(Movement::Left).modifies_document());
    assert!(!Command::Copy.modifies_document());
}

#[test]
fn test_keymap_bind_unbind() {
    let mut keymap = KeyMap::new();

    keymap.bind(Key::Char('s'), Modifiers::ctrl(), Command::Save);
    assert_eq!(keymap.lookup(Key::Char('s'), Modifiers::ctrl()), Some(&Command::Save));

    keymap.unbind(Key::Char('s'), Modifiers::ctrl());
    assert_eq!(keymap.lookup(Key::Char('s'), Modifiers::ctrl()), None);
}

#[test]
fn test_keymap_reverse_lookup() {
    let mut keymap = KeyMap::new();

    keymap.bind(Key::Char('s'), Modifiers::ctrl(), Command::Save);
    keymap.bind(Key::F2, Modifiers::none(), Command::Save);

    let bindings = keymap.bindings_for_command(&Command::Save);
    assert_eq!(bindings.len(), 2);
}

#[test]
fn test_default_keymap() {
    let keymap = KeyMap::default();

    assert_eq!(keymap.lookup(Key::Char('s'), Modifiers::ctrl()), Some(&Command::Save));
    assert_eq!(keymap.lookup(Key::Char('c'), Modifiers::ctrl()), Some(&Command::Copy));
    assert_eq!(keymap.lookup(Key::Char('v'), Modifiers::ctrl()), Some(&Command::Paste));
}

#[test]
fn rebinding_a_key_replaces_its_command() {
    let mut keymap = KeyMap::new();
    keymap.bind(Key::Char('s'), Modifiers::ctrl(), Command::Save);
    keymap.bind(Key::Char('s'), Modifiers::ctrl(), Command::SaveAs);
    assert_eq!(keymap.lookup(Key::Char('s'), Modifiers::ctrl()), Some(&Command::SaveAs));
    assert_eq!(keymap.all_bindings().len(), 1);
    assert_eq!(keymap.unbind(Key::Char('s'), Modifiers::ctrl()), Some(Command::SaveAs));
    assert_eq!(keymap.unbind(Key::Char('s'), Modifiers::ctrl()), None);
    assert_eq!(
        keymap.bindings_for_command(&Command::Save),
        Vec::<KeyBinding>::new()
    );
}

#[test]
fn command_descriptions_and_undoability() {
    assert_eq!(Command::Save.description(), "Save");
    assert_eq!(Command::Insert("x".to_string()).description(), "Insert Text");
    assert!(Command::Delete.is_undoable());
    assert!(!Command::Undo.is_undoable());
    assert!(Command::Insert("a".to_string()).same_as(&Command::Insert("a".to_string())));
    assert!(!Command::Insert("a".to_string()).same_as(&Command::Insert("b".to_string())));
}

#[test]
fn bind_and_unbind_keep_lookups_and_lists_agreeing() {
    let mut km = KeyMap::default_keymap();
    km.bind(Key::Char('s'), Modifiers::ctrl(), Command::SaveAll);
    assert_eq!(km.lookup(Key::Char('s'), Modifiers::ctrl()), Some(&Command::SaveAll));
    let kb = KeyBinding::new(Key::Char('s'), Modifiers::ctrl());
    assert!(km.bindings_for_command(&Command::SaveAll).contains(&kb));
    assert!(!km.bindings_for_command(&Command::Save).contains(&kb));
    assert_eq!(km.unbind(Key::Char('s'), Modifiers::ctrl()), Some(Command::SaveAll));
    assert_eq!(km.lookup(Key::Char('s'), Modifiers::ctrl()), None);
    assert!(!km.bindings_for_command(&Command::SaveAll).contains(&kb));
}
