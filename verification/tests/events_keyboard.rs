use lite_xl::commands::{Key, KeyBinding, Modifiers};
use lite_xl::events::keyboard::{
    format_keybinding, parse_keybinding, ConflictDetector, ImeState, KeybindingError, KeyboardLayout,
    KeyboardRecorder, QwertyLayout,
};

#[test]
fn test_parse_keybinding_simple() {
    let binding = parse_keybinding("Ctrl+S").unwrap();
    assert_eq!(binding.key, Key::Char('S'));
    assert!(binding.modifiers.ctrl);
    assert!(!binding.modifiers.shift);
}

#[test]
fn test_parse_keybinding_multiple_modifiers() {
    let binding = parse_keybinding("Ctrl+Shift+F").unwrap();
    assert_eq!(binding.key, Key::Char('F'));
    assert!(binding.modifiers.ctrl);
    assert!(binding.modifiers.shift);
}

#[test]
fn test_parse_keybinding_special_key() {
    let binding = parse_keybinding("Alt+Delete").unwrap();
    assert_eq!(binding.key, Key::Delete);
    assert!(binding.modifiers.alt);
}

#[test]
fn test_parse_keybinding_function_key() {
    let binding = parse_keybinding("F5").unwrap();
    assert_eq!(binding.key, Key::F5);
    assert!(!binding.modifiers.ctrl);
}

#[test]
fn test_parse_keybinding_invalid() {
    assert!(parse_keybinding("").is_err());
    assert!(parse_keybinding("Ctrl+InvalidKey").is_err());
}

#[test]
fn test_format_keybinding() {
    let binding = KeyBinding::new(Key::Char('s'), Modifiers::ctrl());
    assert_eq!(format_keybinding(&binding), "Ctrl+S");

    let binding = KeyBinding::new(Key::F5, Modifiers::none());
    assert_eq!(format_keybinding(&binding), "F5");
}

#[test]
fn test_qwerty_layout() {
    let layout = QwertyLayout;
    assert_eq!(layout.get_char(Key::Char('a'), Modifiers::none()), Some('a'));
    assert_eq!(layout.get_char(Key::Char('a'), Modifiers::shift()), Some('A'));
}

#[test]
fn test_ime_state() {
    let mut ime = ImeState::new();
    assert!(!ime.active);

    ime.start_composition();
    assert!(ime.active);

    ime.update_composition("你好".to_string(), 3);
    assert_eq!(ime.composition, "你好");

    let result = ime.end_composition();
    assert_eq!(result, "你好");
    assert!(!ime.active);
}

#[test]
fn test_keyboard_recorder() {
    let mut recorder = KeyboardRecorder::new();
    assert!(!recorder.is_recording());

    recorder.start_recording();
    assert!(recorder.is_recording());

    recorder.record_key(Key::Char('a'), Modifiers::none());
    recorder.record_key(Key::Char('b'), Modifiers::ctrl());

    assert_eq!(recorder.event_count(), 2);

    let events = recorder.stop_recording();
    assert_eq!(events.len(), 2);
    assert!(!recorder.is_recording());
}

#[test]
fn test_conflict_detector() {
    let mut detector = ConflictDetector::new();

    assert!(detector.add_binding("Ctrl+S", "Save").is_ok());
    assert!(detector.add_binding("Ctrl+S", "Save").is_ok());

    let result = detector.add_binding("Ctrl+S", "Different Command");
    assert!(result.is_err());
}

#[test]
fn parse_format_round_trip_and_errors() {
    for text in ["Ctrl+Shift+F5", "Alt+Delete", "Ctrl+Alt+Home", "F12"] {
        let b = parse_keybinding(text).unwrap();
        assert_eq!(format_keybinding(&b), text);
    }
    assert!(matches!(parse_keybinding(""), Err(KeybindingError::EmptyBinding)));
    assert!(matches!(parse_keybinding("Ctrl+Nope"), Err(KeybindingError::InvalidKey(_))));
    assert_eq!(KeybindingError::EmptyBinding.to_display_string(), "Empty keybinding");
}

#[test]
fn test_format_then_parse_gives_binding_back() {
    let all = Modifiers { ctrl: true, shift: true, alt: true, meta: true };
    let named = KeyBinding::new(Key::PageDown, all);
    assert_eq!(format_keybinding(&named), "Ctrl+Shift+Alt+Cmd+PageDown");
    assert_eq!(parse_keybinding(&format_keybinding(&named)).unwrap(), named);

    let f10 = KeyBinding::new(Key::F10, Modifiers::none());
    assert_eq!(parse_keybinding(&format_keybinding(&f10)).unwrap(), f10);

    let lower = KeyBinding::new(Key::Char('s'), Modifiers::ctrl());
    assert_eq!(format_keybinding(&lower), "Ctrl+S");
    assert_eq!(
        parse_keybinding(&format_keybinding(&lower)).unwrap(),
        KeyBinding::new(Key::Char('S'), Modifiers::ctrl())
    );

    let digit = KeyBinding::new(Key::Char('1'), Modifiers::alt());
    assert_eq!(parse_keybinding(&format_keybinding(&digit)).unwrap(), digit);
}
