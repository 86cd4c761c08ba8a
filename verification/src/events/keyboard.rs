//! Key binding text: parsing and formatting, keyboard layouts, conflict
//! detection, input method composition and key recording.

use vstd::prelude::*;
use crate::commands::{
    Command, Key, KeyBinding, KeyMap, Modifiers, binding, none, spec_description,
};
use crate::text::{
    all_ws, ascii_lower, chars_to_string, concat, is_ascii_text, leading_ws_count, split_chars,
    split_on, str_eq, str_lower, str_to_chars, string_to_lower, trim, trim_chars, upper_of, lower_of,
    char_to_upper, lemma_leading_ws_bound, joined, is_ws, ascii_upper_char, lemma_split_joined,
    lemma_trim_unchanged,
};

verus! {

/// Errors of key binding parsing and conflict checks.
#[derive(Debug, Clone, PartialEq, Eq)]
pub enum KeybindingError {
    /// An unknown key name
    InvalidKey(String),
    /// An empty key binding
    EmptyBinding,
    /// A malformed key binding
    InvalidFormat(String),
    /// Two commands bound to one key binding
    ConflictingBinding {
        /// The key binding
        binding: String,
        /// The command it is bound to
        existing_command: String,
        /// The other command
        new_command: String,
    },
}

impl KeybindingError {
    /// The error's message.
    pub fn to_display_string(&self) -> (s: String)
        ensures
            s@ == (match *self {
                KeybindingError::InvalidKey(k) => "Invalid key: "@ + k@,
                KeybindingError::EmptyBinding => "Empty keybinding"@,
                KeybindingError::InvalidFormat(m) => "Invalid format: "@ + m@,
                KeybindingError::ConflictingBinding { binding, existing_command, new_command } =>
                    "Keybinding '"@ + binding@ + "' conflicts: '"@ + existing_command@ + "' vs '"@
                    + new_command@ + "'"@,
            }),
    {
        match self {
            KeybindingError::InvalidKey(key) => concat("Invalid key: ", key.as_str()),
            KeybindingError::EmptyBinding => "Empty keybinding".to_owned(),
            KeybindingError::InvalidFormat(msg) => concat("Invalid format: ", msg.as_str()),
            KeybindingError::ConflictingBinding { binding, existing_command, new_command } => {
                let s1 = concat("Keybinding '", binding.as_str());
                let s2 = concat(s1.as_str(), "' conflicts: '");
                let s3 = concat(s2.as_str(), existing_command.as_str());
                let s4 = concat(s3.as_str(), "' vs '");
                let s5 = concat(s4.as_str(), new_command.as_str());
                concat(s5.as_str(), "'")
            },
        }
    }
}

fn lower(v: &[char]) -> (r: Vec<char>)
    ensures
        r@ == lower_of(v@),
{
    let s = chars_to_string(v);
    let l = string_to_lower(s.as_str());
    str_to_chars(l.as_str())
}

/// The key a lower-case key name stands for.
pub open spec fn named_key(l: Seq<char>) -> Option<Key> {
    if l == "backspace"@ {
        Some(Key::Backspace)
    } else if l == "delete"@ {
        Some(Key::Delete)
    } else if l == "del"@ {
        Some(Key::Delete)
    } else if l == "enter"@ {
        Some(Key::Enter)
    } else if l == "return"@ {
        Some(Key::Enter)
    } else if l == "tab"@ {
        Some(Key::Tab)
    } else if l == "escape"@ {
        Some(Key::Escape)
    } else if l == "esc"@ {
        Some(Key::Escape)
    } else if l == "space"@ {
        Some(Key::Space)
    } else if l == "left"@ {
        Some(Key::Left)
    } else if l == "right"@ {
        Some(Key::Right)
    } else if l == "up"@ {
        Some(Key::Up)
    } else if l == "down"@ {
        Some(Key::Down)
    } else if l == "home"@ {
        Some(Key::Home)
    } else if l == "end"@ {
        Some(Key::End)
    } else if l == "pageup"@ {
        Some(Key::PageUp)
    } else if l == "pgup"@ {
        Some(Key::PageUp)
    } else if l == "pagedown"@ {
        Some(Key::PageDown)
    } else if l == "pgdn"@ {
        Some(Key::PageDown)
    } else if l == "insert"@ {
        Some(Key::Insert)
    } else if l == "ins"@ {
        Some(Key::Insert)
    } else if l == "f1"@ {
        Some(Key::F1)
    } else if l == "f2"@ {
        Some(Key::F2)
    } else if l == "f3"@ {
        Some(Key::F3)
    } else if l == "f4"@ {
        Some(Key::F4)
    } else if l == "f5"@ {
        Some(Key::F5)
    } else if l == "f6"@ {
        Some(Key::F6)
    } else if l == "f7"@ {
        Some(Key::F7)
    } else if l == "f8"@ {
        Some(Key::F8)
    } else if l == "f9"@ {
        Some(Key::F9)
    } else if l == "f10"@ {
        Some(Key::F10)
    } else if l == "f11"@ {
        Some(Key::F11)
    } else if l == "f12"@ {
        Some(Key::F12)
    } else {
        None
    }
}

fn named_key_exec(l: &str) -> (k: Option<Key>)
    ensures
        k == named_key(l@),
{
    if str_eq(l, "backspace") {
        Some(Key::Backspace)
    } else if str_eq(l, "delete") {
        Some(Key::Delete)
    } else if str_eq(l, "del") {
        Some(Key::Delete)
    } else if str_eq(l, "enter") {
        Some(Key::Enter)
    } else if str_eq(l, "return") {
        Some(Key::Enter)
    } else if str_eq(l, "tab") {
        Some(Key::Tab)
    } else if str_eq(l, "escape") {
        Some(Key::Escape)
    } else if str_eq(l, "esc") {
        Some(Key::Escape)
    } else if str_eq(l, "space") {
        Some(Key::Space)
    } else if str_eq(l, "left") {
        Some(Key::Left)
    } else if str_eq(l, "right") {
        Some(Key::Right)
    } else if str_eq(l, "up") {
        Some(Key::Up)
    } else if str_eq(l, "down") {
        Some(Key::Down)
    } else if str_eq(l, "home") {
        Some(Key::Home)
    } else if str_eq(l, "end") {
        Some(Key::End)
    } else if str_eq(l, "pageup") {
        Some(Key::PageUp)
    } else if str_eq(l, "pgup") {
        Some(Key::PageUp)
    } else if str_eq(l, "pagedown") {
        Some(Key::PageDown)
    } else if str_eq(l, "pgdn") {
        Some(Key::PageDown)
    } else if str_eq(l, "insert") {
        Some(Key::Insert)
    } else if str_eq(l, "ins") {
        Some(Key::Insert)
    } else if str_eq(l, "f1") {
        Some(Key::F1)
    } else if str_eq(l, "f2") {
        Some(Key::F2)
    } else if str_eq(l, "f3") {
        Some(Key::F3)
    } else if str_eq(l, "f4") {
        Some(Key::F4)
    } else if str_eq(l, "f5") {
        Some(Key::F5)
    } else if str_eq(l, "f6") {
        Some(Key::F6)
    } else if str_eq(l, "f7") {
        Some(Key::F7)
    } else if str_eq(l, "f8") {
        Some(Key::F8)
    } else if str_eq(l, "f9") {
        Some(Key::F9)
    } else if str_eq(l, "f10") {
        Some(Key::F10)
    } else if str_eq(l, "f11") {
        Some(Key::F11)
    } else if str_eq(l, "f12") {
        Some(Key::F12)
    } else {
        None
    }
}

/// The key a key name stands for: a named key (in any case), else the
/// single character of a one-byte name; `None` otherwise.
pub open spec fn parsed_key(s: Seq<char>) -> Option<Key> {
    match named_key(lower_of(s)) {
        Some(k) => Some(k),
        None => if (vstd::utf8::encode_utf8(s).len() as usize) == 1 {
            Some(Key::Char(s[0]))
        } else {
            None
        },
    }
}

/// The modifiers with the one a lower-case modifier name stands for
/// added.
pub open spec fn with_modifier(m: Modifiers, l: Seq<char>) -> Option<Modifiers> {
    if l == "ctrl"@ || l == "control"@ {
        Some(Modifiers { ctrl: true, ..m })
    } else if l == "shift"@ {
        Some(Modifiers { shift: true, ..m })
    } else if l == "alt"@ || l == "option"@ {
        Some(Modifiers { alt: true, ..m })
    } else if l == "meta"@ || l == "cmd"@ || l == "command"@ || l == "super"@ || l == "win"@ {
        Some(Modifiers { meta: true, ..m })
    } else {
        None
    }
}

/// The modifiers named by `parts` in turn, added to `m`; or the first
/// part that names no modifier.
pub open spec fn parsed_modifiers(m: Modifiers, parts: Seq<Seq<char>>) -> Result<Modifiers, Seq<char>>
    decreases parts.len(),
{
    if parts.len() == 0 {
        Ok(m)
    } else {
        match with_modifier(m, lower_of(parts[0])) {
            Some(m2) => parsed_modifiers(m2, parts.drop_first()),
            None => Err(parts[0]),
        }
    }
}

/// The parts of a key binding text: the pieces between `+` signs, trimmed.
pub open spec fn binding_parts(s: Seq<char>) -> Seq<Seq<char>> {
    split_on(s, '+').map_values(|p: Seq<char>| trim(p))
}

/// What parsing a key binding text gives: an empty-binding error for a
/// blank text; else the modifiers named by all parts but the last (an
/// unknown-modifier format error at the first that names none) and the key
/// named by the last part (an invalid-key error when it names none).
pub open spec fn parse_result(s: Seq<char>, r: Result<KeyBinding, KeybindingError>) -> bool {
    if all_ws(s) {
        r matches Err(KeybindingError::EmptyBinding)
    } else {
        let parts = binding_parts(s);
        match parsed_modifiers(none(), parts.drop_last()) {
            Err(p) => match r {
                Err(KeybindingError::InvalidFormat(msg)) => msg@ == "Unknown modifier: "@ + p,
                _ => false,
            },
            Ok(m) => match parsed_key(parts.last()) {
                Some(k) => r == Ok::<KeyBinding, KeybindingError>(binding(k, m)),
                None => match r {
                    Err(KeybindingError::InvalidKey(x)) => x@ == parts.last(),
                    _ => false,
                },
            },
        }
    }
}

fn apply_modifier(m: Modifiers, l: &str) -> (r: Option<Modifiers>)
    ensures
        r == with_modifier(m, l@),
{
    if str_eq(l, "ctrl") || str_eq(l, "control") {
        Some(Modifiers { ctrl: true, ..m })
    } else if str_eq(l, "shift") {
        Some(Modifiers { shift: true, ..m })
    } else if str_eq(l, "alt") || str_eq(l, "option") {
        Some(Modifiers { alt: true, ..m })
    } else if str_eq(l, "meta") || str_eq(l, "cmd") || str_eq(l, "command") || str_eq(l, "super")
        || str_eq(l, "win") {
        Some(Modifiers { meta: true, ..m })
    } else {
        None
    }
}

fn parse_key(s: &[char]) -> (r: Result<Key, KeybindingError>)
    ensures
        parsed_key(s@) is Some ==> r == Ok::<Key, KeybindingError>(parsed_key(s@)->0),
        parsed_key(s@) is None ==> (match r {
            Err(KeybindingError::InvalidKey(x)) => x@ == s@,
            _ => false,
        }),
{
    let l = lower(s);
    let ls = chars_to_string(l.as_slice());
    match named_key_exec(ls.as_str()) {
        Some(k) => Ok(k),
        None => {
            let text = chars_to_string(s);
            if text.as_str().len() == 1 {
                proof {
                    assert(s@.len() > 0) by {
                        if s@.len() == 0 {
                            assert(s@ =~= Seq::<char>::empty());
                            assert(vstd::utf8::encode_utf8(s@).len() == 0);
                        }
                    }
                }
                Ok(Key::Char(s[0]))
            } else {
                Err(KeybindingError::InvalidKey(text))
            }
        },
    }
}

/// Parses a key binding such as `Ctrl+S`, `Alt+Shift+F`, `F5` or
/// `Backspace` (see [`parse_result`]).
pub fn parse_keybinding(s: &str) -> (r: Result<KeyBinding, KeybindingError>)
    ensures
        parse_result(s@, r),
{
    let cs = str_to_chars(s);
    let lead = leading_ws_count(cs.as_slice());
    proof {
        lemma_leading_ws_bound(cs@);
        assert(all_ws(cs@) == (lead == cs@.len())) by {
            if lead < cs@.len() {
                assert(!crate::text::is_ws(cs@[lead as int]));
            }
        }
    }
    if lead == cs.len() {
        return Err(KeybindingError::EmptyBinding);
    }
    let pieces = split_chars(cs.as_slice(), '+');
    let ghost parts = binding_parts(s@);
    let n = pieces.len();
    let mut modifiers = Modifiers::none();
    let mut i: usize = 0;
    proof {
        assert(parts.drop_last().skip(0) =~= parts.drop_last());
    }
    while i < n - 1
        invariant
            !all_ws(s@),
            parts == binding_parts(s@),
            1 <= n,
            n == pieces@.len(),
            parts.len() == n,
            forall|j: int| 0 <= j < n ==> #[trigger] parts[j] == trim(pieces@[j]@),
            i <= n - 1,
            parsed_modifiers(none(), parts.drop_last()) == parsed_modifiers(modifiers, parts.drop_last().skip(i as int)),
        decreases n - 1 - i,
    {
        let part = trim_chars(pieces[i].as_slice());
        let l = lower(part.as_slice());
        let ls = chars_to_string(l.as_slice());
        proof {
            assert(parts.drop_last().skip(i as int)[0] == parts[i as int]);
            assert(parts.drop_last().skip(i as int).drop_first() =~= parts.drop_last().skip(i + 1));
        }
        match apply_modifier(modifiers, ls.as_str()) {
            Some(m) => {
                modifiers = m;
            },
            None => {
                let text = chars_to_string(part.as_slice());
                return Err(KeybindingError::InvalidFormat(concat("Unknown modifier: ", text.as_str())));
            },
        }
        i = i + 1;
    }
    proof {
        assert(parts.drop_last().skip(i as int).len() == 0);
    }
    let key_part = trim_chars(pieces[n - 1].as_slice());
    proof {
        assert(key_part@ == parts.last());
    }
    match parse_key(key_part.as_slice()) {
        Ok(key) => Ok(KeyBinding::new(key, modifiers)),
        Err(e) => Err(e),
    }
}

/// The name of a key in a formatted key binding: a character in upper
/// case (ASCII upper case for an ASCII character), else the key's name.
pub open spec fn key_name(k: Key) -> Seq<char> {
    match k {
        Key::Char(c) => upper_of(c),
        Key::Backspace => "Backspace"@,
        Key::Delete => "Delete"@,
        Key::Enter => "Enter"@,
        Key::Tab => "Tab"@,
        Key::Escape => "Escape"@,
        Key::Space => "Space"@,
        Key::Left => "Left"@,
        Key::Right => "Right"@,
        Key::Up => "Up"@,
        Key::Down => "Down"@,
        Key::Home => "Home"@,
        Key::End => "End"@,
        Key::PageUp => "PageUp"@,
        Key::PageDown => "PageDown"@,
        Key::Insert => "Insert"@,
        Key::F1 => "F1"@,
        Key::F2 => "F2"@,
        Key::F3 => "F3"@,
        Key::F4 => "F4"@,
        Key::F5 => "F5"@,
        Key::F6 => "F6"@,
        Key::F7 => "F7"@,
        Key::F8 => "F8"@,
        Key::F9 => "F9"@,
        Key::F10 => "F10"@,
        Key::F11 => "F11"@,
        Key::F12 => "F12"@,
    }
}

/// The name of a key other than a character is ASCII, at least two
/// characters long, without `+` or whitespace at its ends, and names that
/// key again in any case.
proof fn lemma_named_key_name(k: Key)
    requires
        !(k is Char),
    ensures
        is_ascii_text(key_name(k)),
        key_name(k).len() >= 2,
        !is_ws(key_name(k)[0]),
        !is_ws(key_name(k).last()),
        forall|i: int| 0 <= i < key_name(k).len() ==> key_name(k)[i] != '+',
        named_key(lower_of(key_name(k))) == Some(k),
{
    reveal_strlit("backspace");
    reveal_strlit("delete");
    reveal_strlit("del");
    reveal_strlit("enter");
    reveal_strlit("return");
    reveal_strlit("tab");
    reveal_strlit("escape");
    reveal_strlit("esc");
    reveal_strlit("space");
    reveal_strlit("left");
    reveal_strlit("right");
    reveal_strlit("up");
    reveal_strlit("down");
    reveal_strlit("home");
    reveal_strlit("end");
    reveal_strlit("pageup");
    reveal_strlit("pgup");
    reveal_strlit("pagedown");
    reveal_strlit("pgdn");
    reveal_strlit("insert");
    reveal_strlit("ins");
    reveal_strlit("f1");
    reveal_strlit("f2");
    reveal_strlit("f3");
    reveal_strlit("f4");
    reveal_strlit("f5");
    reveal_strlit("f6");
    reveal_strlit("f7");
    reveal_strlit("f8");
    reveal_strlit("f9");
    reveal_strlit("f10");
    reveal_strlit("f11");
    reveal_strlit("f12");
    match k {
        Key::Backspace => {
            reveal_strlit("Backspace");
            assert(ascii_lower("Backspace"@) =~= "backspace"@);
        },
        Key::Delete => {
            reveal_strlit("Delete");
            assert(ascii_lower("Delete"@) =~= "delete"@);
        },
        Key::Enter => {
            reveal_strlit("Enter");
            assert(ascii_lower("Enter"@) =~= "enter"@);
        },
        Key::Tab => {
            reveal_strlit("Tab");
            assert(ascii_lower("Tab"@) =~= "tab"@);
            assert("tab"@[0] != "del"@[0]);
        },
        Key::Escape => {
            reveal_strlit("Escape");
            assert(ascii_lower("Escape"@) =~= "escape"@);
            assert("escape"@[0] != "delete"@[0]);
            assert("escape"@[0] != "return"@[0]);
        },
        Key::Space => {
            reveal_strlit("Space");
            assert(ascii_lower("Space"@) =~= "space"@);
            assert("space"@[0] != "enter"@[0]);
        },
        Key::Left => {
            reveal_strlit("Left");
            assert(ascii_lower("Left"@) =~= "left"@);
        },
        Key::Right => {
            reveal_strlit("Right");
            assert(ascii_lower("Right"@) =~= "right"@);
            assert("right"@[0] != "enter"@[0]);
            assert("right"@[0] != "space"@[0]);
        },
        Key::Up => {
            reveal_strlit("Up");
            assert(ascii_lower("Up"@) =~= "up"@);
        },
        Key::Down => {
            reveal_strlit("Down");
            assert(ascii_lower("Down"@) =~= "down"@);
            assert("down"@[0] != "left"@[0]);
        },
        Key::Home => {
            reveal_strlit("Home");
            assert(ascii_lower("Home"@) =~= "home"@);
            assert("home"@[0] != "left"@[0]);
            assert("home"@[0] != "down"@[0]);
        },
        Key::End => {
            reveal_strlit("End");
            assert(ascii_lower("End"@) =~= "end"@);
            assert("end"@[0] != "del"@[0]);
            assert("end"@[0] != "tab"@[0]);
            assert("end"@[1] != "esc"@[1]);
        },
        Key::PageUp => {
            reveal_strlit("PageUp");
            assert(ascii_lower("PageUp"@) =~= "pageup"@);
            assert("pageup"@[0] != "delete"@[0]);
            assert("pageup"@[0] != "return"@[0]);
            assert("pageup"@[0] != "escape"@[0]);
        },
        Key::PageDown => {
            reveal_strlit("PageDown");
            assert(ascii_lower("PageDown"@) =~= "pagedown"@);
        },
        Key::Insert => {
            reveal_strlit("Insert");
            assert(ascii_lower("Insert"@) =~= "insert"@);
            assert("insert"@[0] != "delete"@[0]);
            assert("insert"@[0] != "return"@[0]);
            assert("insert"@[0] != "escape"@[0]);
            assert("insert"@[0] != "pageup"@[0]);
        },
        Key::F1 => {
            reveal_strlit("F1");
            assert(ascii_lower("F1"@) =~= "f1"@);
            assert("f1"@[0] != "up"@[0]);
        },
        Key::F2 => {
            reveal_strlit("F2");
            assert(ascii_lower("F2"@) =~= "f2"@);
            assert("f2"@[0] != "up"@[0]);
            assert("f2"@[1] != "f1"@[1]);
        },
        Key::F3 => {
            reveal_strlit("F3");
            assert(ascii_lower("F3"@) =~= "f3"@);
            assert("f3"@[0] != "up"@[0]);
            assert("f3"@[1] != "f1"@[1]);
            assert("f3"@[1] != "f2"@[1]);
        },
        Key::F4 => {
            reveal_strlit("F4");
            assert(ascii_lower("F4"@) =~= "f4"@);
            assert("f4"@[0] != "up"@[0]);
            assert("f4"@[1] != "f1"@[1]);
            assert("f4"@[1] != "f2"@[1]);
            assert("f4"@[1] != "f3"@[1]);
        },
        Key::F5 => {
            reveal_strlit("F5");
            assert(ascii_lower("F5"@) =~= "f5"@);
            assert("f5"@[0] != "up"@[0]);
            assert("f5"@[1] != "f1"@[1]);
            assert("f5"@[1] != "f2"@[1]);
            assert("f5"@[1] != "f3"@[1]);
            assert("f5"@[1] != "f4"@[1]);
        },
        Key::F6 => {
            reveal_strlit("F6");
            assert(ascii_lower("F6"@) =~= "f6"@);
            assert("f6"@[0] != "up"@[0]);
            assert("f6"@[1] != "f1"@[1]);
            assert("f6"@[1] != "f2"@[1]);
            assert("f6"@[1] != "f3"@[1]);
            assert("f6"@[1] != "f4"@[1]);
            assert("f6"@[1] != "f5"@[1]);
        },
        Key::F7 => {
            reveal_strlit("F7");
            assert(ascii_lower("F7"@) =~= "f7"@);
            assert("f7"@[0] != "up"@[0]);
            assert("f7"@[1] != "f1"@[1]);
            assert("f7"@[1] != "f2"@[1]);
            assert("f7"@[1] != "f3"@[1]);
            assert("f7"@[1] != "f4"@[1]);
            assert("f7"@[1] != "f5"@[1]);
            assert("f7"@[1] != "f6"@[1]);
        },
        Key::F8 => {
            reveal_strlit("F8");
            assert(ascii_lower("F8"@) =~= "f8"@);
            assert("f8"@[0] != "up"@[0]);
            assert("f8"@[1] != "f1"@[1]);
            assert("f8"@[1] != "f2"@[1]);
            assert("f8"@[1] != "f3"@[1]);
            assert("f8"@[1] != "f4"@[1]);
            assert("f8"@[1] != "f5"@[1]);
            assert("f8"@[1] != "f6"@[1]);
            assert("f8"@[1] != "f7"@[1]);
        },
        Key::F9 => {
            reveal_strlit("F9");
            assert(ascii_lower("F9"@) =~= "f9"@);
            assert("f9"@[0] != "up"@[0]);
            assert("f9"@[1] != "f1"@[1]);
            assert("f9"@[1] != "f2"@[1]);
            assert("f9"@[1] != "f3"@[1]);
            assert("f9"@[1] != "f4"@[1]);
            assert("f9"@[1] != "f5"@[1]);
            assert("f9"@[1] != "f6"@[1]);
            assert("f9"@[1] != "f7"@[1]);
            assert("f9"@[1] != "f8"@[1]);
        },
        Key::F10 => {
            reveal_strlit("F10");
            assert(ascii_lower("F10"@) =~= "f10"@);
            assert("f10"@[0] != "del"@[0]);
            assert("f10"@[0] != "tab"@[0]);
            assert("f10"@[0] != "esc"@[0]);
            assert("f10"@[0] != "end"@[0]);
            assert("f10"@[0] != "ins"@[0]);
        },
        Key::F11 => {
            reveal_strlit("F11");
            assert(ascii_lower("F11"@) =~= "f11"@);
            assert("f11"@[0] != "del"@[0]);
            assert("f11"@[0] != "tab"@[0]);
            assert("f11"@[0] != "esc"@[0]);
            assert("f11"@[0] != "end"@[0]);
            assert("f11"@[0] != "ins"@[0]);
            assert("f11"@[2] != "f10"@[2]);
        },
        Key::F12 => {
            reveal_strlit("F12");
            assert(ascii_lower("F12"@) =~= "f12"@);
            assert("f12"@[0] != "del"@[0]);
            assert("f12"@[0] != "tab"@[0]);
            assert("f12"@[0] != "esc"@[0]);
            assert("f12"@[0] != "end"@[0]);
            assert("f12"@[0] != "ins"@[0]);
            assert("f12"@[2] != "f10"@[2]);
            assert("f12"@[2] != "f11"@[2]);
        },
        Key::Char(_) => {},
    }
}

/// The names of the modifiers held, in the order Ctrl, Shift, Alt, Cmd.
pub open spec fn modifier_names(m: Modifiers) -> Seq<Seq<char>> {
    (if m.ctrl { seq!["Ctrl"@] } else { Seq::empty() }) + (if m.shift { seq!["Shift"@] } else {
        Seq::empty()
    }) + (if m.alt { seq!["Alt"@] } else { Seq::empty() }) + (if m.meta { seq!["Cmd"@] } else {
        Seq::empty()
    })
}

/// Reading modifier names in two runs is reading them in one.
proof fn lemma_parsed_modifiers_append(m: Modifiers, a: Seq<Seq<char>>, b: Seq<Seq<char>>)
    ensures
        parsed_modifiers(m, a + b) == (match parsed_modifiers(m, a) {
            Ok(m2) => parsed_modifiers(m2, b),
            Err(p) => Err(p),
        }),
    decreases a.len(),
{
    if a.len() == 0 {
        assert(a + b =~= b);
    } else {
        assert((a + b)[0] == a[0]);
        assert((a + b).drop_first() =~= a.drop_first() + b);
        if let Some(m2) = with_modifier(m, lower_of(a[0])) {
            lemma_parsed_modifiers_append(m2, a.drop_first(), b);
        }
    }
}

/// The modifier names of a formatted binding read back as its modifiers,
/// and each is ASCII, without `+` and whitespace.
#[verifier::spinoff_prover]
proof fn lemma_modifier_names_read_back(m: Modifiers)
    ensures
        parsed_modifiers(none(), modifier_names(m)) == Ok::<Modifiers, Seq<char>>(m),
        forall|k: int, i: int| 0 <= k < modifier_names(m).len() && 0 <= i < modifier_names(m)[k].len()
            ==> #[trigger] modifier_names(m)[k][i] != '+' && !is_ws(modifier_names(m)[k][i]),
{
    reveal_strlit("Ctrl");
    reveal_strlit("Shift");
    reveal_strlit("Alt");
    reveal_strlit("Cmd");
    reveal_strlit("ctrl");
    reveal_strlit("control");
    reveal_strlit("shift");
    reveal_strlit("alt");
    reveal_strlit("option");
    reveal_strlit("meta");
    reveal_strlit("cmd");
    assert(ascii_lower("Ctrl"@) =~= "ctrl"@);
    assert(ascii_lower("Shift"@) =~= "shift"@);
    assert(ascii_lower("Alt"@) =~= "alt"@);
    assert(ascii_lower("Cmd"@) =~= "cmd"@);
    assert("alt"@[0] != "cmd"@[0]);
    let c: Seq<Seq<char>> = if m.ctrl { seq!["Ctrl"@] } else { Seq::empty() };
    let sh: Seq<Seq<char>> = if m.shift { seq!["Shift"@] } else { Seq::empty() };
    let a: Seq<Seq<char>> = if m.alt { seq!["Alt"@] } else { Seq::empty() };
    let me: Seq<Seq<char>> = if m.meta { seq!["Cmd"@] } else { Seq::empty() };
    assert(modifier_names(m) == c + sh + a + me);
    let m1 = Modifiers { ctrl: m.ctrl, ..none() };
    let m2 = Modifiers { shift: m.shift, ..m1 };
    let m3 = Modifiers { alt: m.alt, ..m2 };
    assert(parsed_modifiers(none(), c) == Ok::<Modifiers, Seq<char>>(m1)) by {
        if m.ctrl {
            assert(c.drop_first() =~= Seq::<Seq<char>>::empty());
            assert(lower_of("Ctrl"@) == "ctrl"@);
            assert(with_modifier(none(), "ctrl"@) == Some(m1));
            assert(parsed_modifiers(m1, c.drop_first()) == Ok::<Modifiers, Seq<char>>(m1));
        }
    }
    assert(parsed_modifiers(m1, sh) == Ok::<Modifiers, Seq<char>>(m2)) by {
        if m.shift {
            assert(sh.drop_first() =~= Seq::<Seq<char>>::empty());
            assert(lower_of("Shift"@) == "shift"@);
            assert(with_modifier(m1, "shift"@) == Some(m2));
            assert(parsed_modifiers(m2, sh.drop_first()) == Ok::<Modifiers, Seq<char>>(m2));
        }
    }
    assert(parsed_modifiers(m2, a) == Ok::<Modifiers, Seq<char>>(m3)) by {
        if m.alt {
            assert(a.drop_first() =~= Seq::<Seq<char>>::empty());
            assert(lower_of("Alt"@) == "alt"@);
            assert(with_modifier(m2, "alt"@) == Some(m3));
            assert(parsed_modifiers(m3, a.drop_first()) == Ok::<Modifiers, Seq<char>>(m3));
        }
    }
    assert(parsed_modifiers(m3, me) == Ok::<Modifiers, Seq<char>>(m)) by {
        if m.meta {
            assert(me.drop_first() =~= Seq::<Seq<char>>::empty());
            assert(lower_of("Cmd"@) == "cmd"@);
            assert("cmd"@[0] != "option"@[0]);
            assert(with_modifier(m3, "cmd"@) == Some(m));
            assert(parsed_modifiers(m, me.drop_first()) == Ok::<Modifiers, Seq<char>>(m));
        }
    }
    lemma_parsed_modifiers_append(none(), c, sh);
    lemma_parsed_modifiers_append(none(), c + sh, a);
    lemma_parsed_modifiers_append(none(), c + sh + a, me);
}

/// The text of a key binding: the modifier names and the key name,
/// joined with `+`.
pub open spec fn formatted(b: KeyBinding) -> Seq<char> {
    joined(modifier_names(b.modifiers).push(key_name(b.key)), '+')
}

/// Every key name is at least two characters long.
proof fn lemma_named_key_len(l: Seq<char>)
    ensures
        named_key(l) is Some ==> l.len() >= 2,
{
    reveal_strlit("backspace");
    reveal_strlit("delete");
    reveal_strlit("del");
    reveal_strlit("enter");
    reveal_strlit("return");
    reveal_strlit("tab");
    reveal_strlit("escape");
    reveal_strlit("esc");
    reveal_strlit("space");
    reveal_strlit("left");
    reveal_strlit("right");
    reveal_strlit("up");
    reveal_strlit("down");
    reveal_strlit("home");
    reveal_strlit("end");
    reveal_strlit("pageup");
    reveal_strlit("pgup");
    reveal_strlit("pagedown");
    reveal_strlit("pgdn");
    reveal_strlit("insert");
    reveal_strlit("ins");
    reveal_strlit("f1");
    reveal_strlit("f2");
    reveal_strlit("f3");
    reveal_strlit("f4");
    reveal_strlit("f5");
    reveal_strlit("f6");
    reveal_strlit("f7");
    reveal_strlit("f8");
    reveal_strlit("f9");
    reveal_strlit("f10");
    reveal_strlit("f11");
    reveal_strlit("f12");
}

/// Whether a key reads back from its name in a formatted binding: every
/// key but a character does, and an ASCII character other than `+` and
/// whitespace.
pub open spec fn reads_back(k: Key) -> bool {
    match k {
        Key::Char(c) => (c as u32) < 128 && c != '+' && !is_ws(c),
        _ => true,
    }
}

/// The key that the name of `k` reads back as: a character comes back in
/// ASCII upper case, any other key as itself.
pub open spec fn read_back(k: Key) -> Key {
    match k {
        Key::Char(c) => Key::Char(ascii_upper_char(c)),
        _ => k,
    }
}

/// Parsing the text of a key binding gives that binding back (a character
/// key in ASCII upper case), for every key that reads back.
pub proof fn lemma_parse_formatted(b: KeyBinding)
    requires
        reads_back(b.key),
    ensures
        forall|r: Result<KeyBinding, KeybindingError>|
            parse_result(formatted(b), r) <==> r == Ok::<KeyBinding, KeybindingError>(
                binding(read_back(b.key), b.modifiers),
            ),
{
    let k = b.key;
    let m = b.modifiers;
    let kn = key_name(k);
    let names = modifier_names(m).push(kn);
    let s = formatted(b);
    lemma_modifier_names_read_back(m);
    match k {
        Key::Char(c) => {
            let u = ascii_upper_char(c);
            assert(kn == seq![u]);
            assert((u as u32) < 128 && u != '+' && !is_ws(u));
        },
        _ => {
            lemma_named_key_name(k);
        },
    }
    assert(kn.len() >= 1 && !is_ws(kn[0]) && !is_ws(kn.last()));
    assert forall|j: int, i: int| 0 <= j < names.len() && 0 <= i < names[j].len()
        implies #[trigger] names[j][i] != '+' by {
        if j < names.len() - 1 {
            assert(names[j] == modifier_names(m)[j]);
        }
    }
    lemma_split_joined(names, '+');
    assert forall|j: int| 0 <= j < names.len() implies #[trigger] trim(names[j]) == names[j] by {
        if j < names.len() - 1 {
            let n = names[j];
            assert(n == modifier_names(m)[j]);
            assert(n.len() > 0 ==> n.last() == n[n.len() - 1]);
        }
        lemma_trim_unchanged(names[j]);
    }
    let parts = binding_parts(s);
    assert(parts =~= names);
    assert(s.len() > 0 && s[s.len() - 1] == kn.last()) by {
        if names.len() > 1 {
            assert(names.last() == kn);
        } else {
            assert(names[0] == kn);
        }
    }
    assert(!all_ws(s));
    assert(parts.drop_last() =~= modifier_names(m));
    assert(parts.last() == kn);
    match k {
        Key::Char(c) => {
            let u = ascii_upper_char(c);
            lemma_named_key_len(lower_of(kn));
            assert(is_ascii_text(kn));
            assert(lower_of(kn).len() == 1);
            vstd::utf8::is_ascii_chars_encode_utf8(kn);
            assert(parsed_key(kn) == Some(Key::Char(u)));
        },
        _ => {},
    }
}

fn format_key(key: &Key) -> (s: String)
    ensures
        s@ == key_name(*key),
{
    match key {
        Key::Char(c) => char_to_upper(*c),
        Key::Backspace => "Backspace".to_owned(),
        Key::Delete => "Delete".to_owned(),
        Key::Enter => "Enter".to_owned(),
        Key::Tab => "Tab".to_owned(),
        Key::Escape => "Escape".to_owned(),
        Key::Space => "Space".to_owned(),
        Key::Left => "Left".to_owned(),
        Key::Right => "Right".to_owned(),
        Key::Up => "Up".to_owned(),
        Key::Down => "Down".to_owned(),
        Key::Home => "Home".to_owned(),
        Key::End => "End".to_owned(),
        Key::PageUp => "PageUp".to_owned(),
        Key::PageDown => "PageDown".to_owned(),
        Key::Insert => "Insert".to_owned(),
        Key::F1 => "F1".to_owned(),
        Key::F2 => "F2".to_owned(),
        Key::F3 => "F3".to_owned(),
        Key::F4 => "F4".to_owned(),
        Key::F5 => "F5".to_owned(),
        Key::F6 => "F6".to_owned(),
        Key::F7 => "F7".to_owned(),
        Key::F8 => "F8".to_owned(),
        Key::F9 => "F9".to_owned(),
        Key::F10 => "F10".to_owned(),
        Key::F11 => "F11".to_owned(),
        Key::F12 => "F12".to_owned(),
    }
}

fn join_plus(parts: &Vec<String>) -> (r: String)
    ensures
        r@ == joined(parts@.map_values(|s: String| s@), '+'),
{
    let mut out: Vec<char> = Vec::new();
    let mut i: usize = 0;
    while i < parts.len()
        invariant
            i <= parts@.len(),
            out@ == joined(parts@.take(i as int).map_values(|s: String| s@), '+'),
        decreases parts@.len() - i,
    {
        proof {
            assert(parts@.take(i + 1).map_values(|s: String| s@).drop_last() =~= parts@.take(i as int).map_values(|s: String| s@));
            assert(parts@.take(i + 1).map_values(|s: String| s@).last() == parts@[i as int]@);
        }
        if i > 0 {
            out.push('+');
        }
        let cs = str_to_chars(parts[i].as_str());
        let ghost base = out@;
        let mut k: usize = 0;
        while k < cs.len()
            invariant
                k <= cs@.len(),
                out@ == base + cs@.take(k as int),
            decreases cs@.len() - k,
        {
            out.push(cs[k]);
            proof {
                assert(cs@.take(k + 1) =~= cs@.take(k as int).push(cs@[k as int]));
            }
            k = k + 1;
        }
        proof {
            assert(cs@.take(k as int) =~= cs@);
            if i == 0 {
                assert(parts@.take(1).map_values(|s: String| s@) =~= seq![parts@[0]@]);
            }
        }
        i = i + 1;
    }
    proof {
        assert(parts@.take(i as int) =~= parts@);
    }
    chars_to_string(out.as_slice())
}

/// The text of a key binding, such as `Ctrl+S` (see [`formatted`]).
pub fn format_keybinding(b: &KeyBinding) -> (s: String)
    ensures
        s@ == formatted(*b),
{
    let mut parts: Vec<String> = Vec::new();
    if b.modifiers.ctrl {
        parts.push("Ctrl".to_owned());
    }
    if b.modifiers.shift {
        parts.push("Shift".to_owned());
    }
    if b.modifiers.alt {
        parts.push("Alt".to_owned());
    }
    if b.modifiers.meta {
        parts.push("Cmd".to_owned());
    }
    parts.push(format_key(&b.key));
    proof {
        assert(parts@.map_values(|s: String| s@) =~= modifier_names(b.modifiers).push(key_name(b.key)));
    }
    join_plus(&parts)
}

/// A keyboard layout: which character a key produces.
pub trait KeyboardLayout {
    /// The character a key produces with the given modifiers.
    fn get_char(&self, key: Key, modifiers: Modifiers) -> Option<char>;

    /// The layout's name.
    fn name(&self) -> &str;
}

/// The US QWERTY layout.
pub struct QwertyLayout;

/// The character a key of the US QWERTY layout gives with Shift: a letter
/// in upper case, the symbol over a digit or punctuation key, else itself.
pub open spec fn shifted(c: char) -> char {
    if 'a' <= c && c <= 'z' {
        (((c as u32) - 32) as u8) as char
    } else if c == '1' {
        '!'
    } else if c == '2' {
        '@'
    } else if c == '3' {
        '#'
    } else if c == '4' {
        '$'
    } else if c == '5' {
        '%'
    } else if c == '6' {
        '^'
    } else if c == '7' {
        '&'
    } else if c == '8' {
        '*'
    } else if c == '9' {
        '('
    } else if c == '0' {
        ')'
    } else if c == '-' {
        '_'
    } else if c == '=' {
        '+'
    } else if c == '[' {
        '{'
    } else if c == ']' {
        '}'
    } else if c == '\\' {
        '|'
    } else if c == ';' {
        ':'
    } else if c == '\'' {
        '"'
    } else if c == ',' {
        '<'
    } else if c == '.' {
        '>'
    } else if c == '/' {
        '?'
    } else if c == '`' {
        '~'
    } else {
        c
    }
}

fn shift_char(c: char) -> (r: char)
    ensures
        r == shifted(c),
{
    if 'a' <= c && c <= 'z' {
        ((c as u8) - 32) as char
    } else if c == '1' {
        '!'
    } else if c == '2' {
        '@'
    } else if c == '3' {
        '#'
    } else if c == '4' {
        '$'
    } else if c == '5' {
        '%'
    } else if c == '6' {
        '^'
    } else if c == '7' {
        '&'
    } else if c == '8' {
        '*'
    } else if c == '9' {
        '('
    } else if c == '0' {
        ')'
    } else if c == '-' {
        '_'
    } else if c == '=' {
        '+'
    } else if c == '[' {
        '{'
    } else if c == ']' {
        '}'
    } else if c == '\\' {
        '|'
    } else if c == ';' {
        ':'
    } else if c == '\'' {
        '"'
    } else if c == ',' {
        '<'
    } else if c == '.' {
        '>'
    } else if c == '/' {
        '?'
    } else if c == '`' {
        '~'
    } else {
        c
    }
}

impl KeyboardLayout for QwertyLayout {
    fn get_char(&self, key: Key, modifiers: Modifiers) -> (r: Option<char>)
        ensures
            r == (match key {
                Key::Char(c) => Some(if modifiers.shift { shifted(c) } else { c }),
                _ => None,
            }),
    {
        match key {
            Key::Char(c) => if modifiers.shift {
                Some(shift_char(c))
            } else {
                Some(c)
            },
            _ => None,
        }
    }

    fn name(&self) -> (s: &str)
        ensures
            s@ == "US QWERTY"@,
    {
        "US QWERTY"
    }
}

/// The texts of a list of string pairs.
pub open spec fn pair_texts(v: Seq<(String, String)>) -> Seq<(Seq<char>, Seq<char>)> {
    v.map_values(|p: (String, String)| (p.0@, p.1@))
}

/// The value of the first entry for key `k`.
pub open spec fn first_text(es: Seq<(Seq<char>, Seq<char>)>, k: Seq<char>) -> Option<Seq<char>>
    decreases es.len(),
{
    if es.len() == 0 {
        None
    } else if es[0].0 == k {
        Some(es[0].1)
    } else {
        first_text(es.drop_first(), k)
    }
}

/// The entries with `k` mapped to `v`: the first entry for `k` gets the
/// value, or a new entry comes last.
pub open spec fn put_text(es: Seq<(Seq<char>, Seq<char>)>, k: Seq<char>, v: Seq<char>) -> Seq<(Seq<char>, Seq<char>)>
    decreases es.len(),
{
    if es.len() == 0 {
        seq![(k, v)]
    } else if es[0].0 == k {
        es.update(0, (k, v))
    } else {
        seq![es[0]] + put_text(es.drop_first(), k, v)
    }
}

/// The texts of a conflict error: binding, existing command, new command.
pub open spec fn conflict_texts(e: KeybindingError) -> (Seq<char>, Seq<char>, Seq<char>) {
    match e {
        KeybindingError::ConflictingBinding { binding, existing_command, new_command } =>
            (binding@, existing_command@, new_command@),
        _ => (Seq::empty(), Seq::empty(), Seq::empty()),
    }
}

/// Checking key map entries in turn: the bindings recorded (formatted
/// binding to command name) and the conflicts found (binding, recorded
/// command, other command). A binding already recorded with another
/// command is a conflict; one not yet recorded is recorded.
pub open spec fn check_all(list: Seq<(KeyBinding, Command)>) -> (Seq<(Seq<char>, Seq<char>)>, Seq<(Seq<char>, Seq<char>, Seq<char>)>)
    decreases list.len(),
{
    if list.len() == 0 {
        (Seq::empty(), Seq::empty())
    } else {
        let prev = check_all(list.drop_last());
        let b = formatted(list.last().0);
        let c = spec_description(list.last().1)@;
        match first_text(prev.0, b) {
            Some(e) => if e != c {
                (prev.0, prev.1.push((b, e, c)))
            } else {
                prev
            },
            None => (put_text(prev.0, b, c), prev.1),
        }
    }
}

/// Records key bindings with their commands to find conflicts.
pub struct ConflictDetector {
    bindings: Vec<(String, String)>,
}

impl View for ConflictDetector {
    type V = Seq<(Seq<char>, Seq<char>)>;

    closed spec fn view(&self) -> Seq<(Seq<char>, Seq<char>)> {
        pair_texts(self.bindings@)
    }
}

fn find_text(es: &Vec<(String, String)>, k: &str) -> (r: Option<usize>)
    ensures
        r is None ==> first_text(pair_texts(es@), k@) is None,
        r matches Some(i) ==> i < es@.len() && es@[i as int].0@ == k@ && first_text(pair_texts(es@), k@) == Some(es@[i as int].1@)
            && put_text(pair_texts(es@), k@, es@[i as int].1@) == pair_texts(es@),
{
    let mut i: usize = 0;
    proof {
        assert(pair_texts(es@).skip(0) =~= pair_texts(es@));
    }
    while i < es.len()
        invariant
            i <= es@.len(),
            first_text(pair_texts(es@), k@) == first_text(pair_texts(es@).skip(i as int), k@),
            forall|j: int| 0 <= j < i ==> es@[j].0@ != k@,
        decreases es@.len() - i,
    {
        proof {
            assert(pair_texts(es@).skip(i as int)[0] == (es@[i as int].0@, es@[i as int].1@));
            assert(pair_texts(es@).skip(i as int).drop_first() =~= pair_texts(es@).skip(i + 1));
        }
        if str_eq(es[i].0.as_str(), k) {
            proof {
                lemma_put_existing(pair_texts(es@), k@, i as int);
            }
            return Some(i);
        }
        i = i + 1;
    }
    None
}

proof fn lemma_put_existing(es: Seq<(Seq<char>, Seq<char>)>, k: Seq<char>, i: int)
    requires
        0 <= i < es.len(),
        es[i].0 == k,
        forall|j: int| 0 <= j < i ==> es[j].0 != k,
    ensures
        put_text(es, k, es[i].1) == es,
    decreases i,
{
    if i > 0 {
        assert(es.drop_first()[i - 1] == es[i]);
        lemma_put_existing(es.drop_first(), k, i - 1);
        assert(seq![es[0]] + es.drop_first() =~= es);
    } else {
        assert(es.update(0, (k, es[0].1)) =~= es);
    }
}

proof fn lemma_put_absent(es: Seq<(Seq<char>, Seq<char>)>, k: Seq<char>, v: Seq<char>)
    requires
        first_text(es, k) is None,
    ensures
        put_text(es, k, v) == es.push((k, v)),
    decreases es.len(),
{
    if es.len() > 0 {
        lemma_put_absent(es.drop_first(), k, v);
        assert(seq![es[0]] + es.drop_first().push((k, v)) =~= es.push((k, v)));
    }
}

/// Recording a binding maps it to its command and leaves the command of
/// every other binding as it was: so a binding added without conflict is
/// looked up to its command, and a later add of it with another command is
/// a conflict naming that command.
pub proof fn lemma_put_text_lookup(es: Seq<(Seq<char>, Seq<char>)>, k: Seq<char>, v: Seq<char>, k2: Seq<char>)
    ensures
        first_text(put_text(es, k, v), k2) == (if k2 == k { Some(v) } else { first_text(es, k2) }),
    decreases es.len(),
{
    let u = put_text(es, k, v);
    if es.len() == 0 {
        assert(u == seq![(k, v)]);
        assert(u.drop_first() =~= Seq::<(Seq<char>, Seq<char>)>::empty());
        assert(first_text(u.drop_first(), k2) is None);
        assert(first_text(es, k2) is None);
    } else if es[0].0 == k {
        assert(u == es.update(0, (k, v)));
        assert(u[0] == (k, v));
        assert(u.drop_first() =~= es.drop_first());
    } else {
        lemma_put_text_lookup(es.drop_first(), k, v, k2);
        assert(u == seq![es[0]] + put_text(es.drop_first(), k, v));
        assert(u[0] == es[0]);
        assert(u.drop_first() =~= put_text(es.drop_first(), k, v));
    }
}

impl ConflictDetector {
    /// An empty detector.
    pub fn new() -> (d: Self)
        ensures
            d@ == Seq::<(Seq<char>, Seq<char>)>::empty(),
    {
        Self { bindings: Vec::new() }
    }

    /// Checks all bindings of a key map (see [`check_all`]), starting from
    /// no recorded binding; returns the conflicts found, in order.
    pub fn check_keymap(&mut self, keymap: &KeyMap) -> (r: Vec<KeybindingError>)
        ensures
            final(self)@ == check_all(keymap@).0,
            r@.map_values(|e: KeybindingError| conflict_texts(e)) == check_all(keymap@).1,
    {
        let mut conflicts: Vec<KeybindingError> = Vec::new();
        self.bindings.clear();
        let all = keymap.all_bindings();
        let mut i: usize = 0;
        proof {
            assert(all@.take(0) =~= Seq::<(KeyBinding, Command)>::empty());
            assert(pair_texts(self.bindings@) =~= Seq::<(Seq<char>, Seq<char>)>::empty());
        }
        while i < all.len()
            invariant
                i <= all@.len(),
                all@ == keymap@,
                pair_texts(self.bindings@) == check_all(all@.take(i as int)).0,
                conflicts@.map_values(|e: KeybindingError| conflict_texts(e)) == check_all(all@.take(i as int)).1,
            decreases all@.len() - i,
        {
            proof {
                assert(all@.take(i + 1).drop_last() =~= all@.take(i as int));
                assert(all@.take(i + 1).last() == all@[i as int]);
            }
            let binding_str = format_keybinding(&all[i].0);
            let command_str = all[i].1.description().to_owned();
            match find_text(&self.bindings, binding_str.as_str()) {
                Some(j) => {
                    if self.bindings[j].1 != command_str {
                        let e = KeybindingError::ConflictingBinding {
                            binding: binding_str.clone(),
                            existing_command: self.bindings[j].1.clone(),
                            new_command: command_str.clone(),
                        };
                        let ghost before = conflicts@;
                        conflicts.push(e);
                        proof {
                            assert(conflicts@.map_values(|e: KeybindingError| conflict_texts(e)) =~= before.map_values(|e: KeybindingError| conflict_texts(e)).push(conflict_texts(e)));
                        }
                    }
                },
                None => {
                    let ghost before = self.bindings@;
                    self.bindings.push((binding_str, command_str));
                    proof {
                        lemma_put_absent(pair_texts(before), formatted(all@[i as int].0), spec_description(all@[i as int].1)@);
                        assert(pair_texts(self.bindings@) =~= pair_texts(before).push((formatted(all@[i as int].0), spec_description(all@[i as int].1)@)));
                    }
                },
            }
            i = i + 1;
        }
        proof {
            assert(all@.take(i as int) =~= all@);
        }
        conflicts
    }

    /// Records a binding of a command; an error when the binding is
    /// already recorded with another command (nothing is recorded then).
    pub fn add_binding(&mut self, binding: &str, command: &str) -> (r: Result<(), KeybindingError>)
        ensures
            ({
                let e = first_text(old(self)@, binding@);
                &&& (e is Some && e->0 != command@) ==> final(self)@ == old(self)@ && r is Err
                    && conflict_texts(r->Err_0) == (binding@, e->0, command@)
                    && r->Err_0 is ConflictingBinding
                &&& !(e is Some && e->0 != command@) ==> r is Ok && final(self)@ == put_text(old(self)@, binding@, command@)
            }),
    {
        match find_text(&self.bindings, binding) {
            Some(j) => {
                if !str_eq(self.bindings[j].1.as_str(), command) {
                    return Err(KeybindingError::ConflictingBinding {
                        binding: binding.to_owned(),
                        existing_command: self.bindings[j].1.clone(),
                        new_command: command.to_owned(),
                    });
                }
                let ghost before = self.bindings@;
                self.bindings.set(j, (binding.to_owned(), command.to_owned()));
                proof {
                    assert(pair_texts(self.bindings@) =~= pair_texts(before));
                }
                Ok(())
            },
            None => {
                let ghost before = self.bindings@;
                self.bindings.push((binding.to_owned(), command.to_owned()));
                proof {
                    lemma_put_absent(pair_texts(before), binding@, command@);
                    assert(pair_texts(self.bindings@) =~= pair_texts(before).push((binding@, command@)));
                }
                Ok(())
            },
        }
    }
}

impl Default for ConflictDetector {
    fn default() -> (d: Self)
        ensures
            d@ == Seq::<(Seq<char>, Seq<char>)>::empty(),
    {
        Self::new()
    }
}

/// Input method composition state.
#[derive(Debug, Clone)]
pub struct ImeState {
    /// Whether a composition is in progress
    pub active: bool,
    /// The text being composed
    pub composition: String,
    /// The cursor in the composition (byte offset)
    pub cursor_pos: usize,
    /// The selection in the composition
    pub selection_range: Option<(usize, usize)>,
}

impl Default for ImeState {
    fn default() -> (s: Self)
        ensures
            !s.active,
            s.composition@ == Seq::<char>::empty(),
            s.cursor_pos == 0,
            s.selection_range is None,
    {
        Self { active: false, composition: String::new(), cursor_pos: 0, selection_range: None }
    }
}

impl ImeState {
    /// No composition.
    pub fn new() -> (s: Self)
        ensures
            !s.active,
            s.composition@ == Seq::<char>::empty(),
            s.cursor_pos == 0,
            s.selection_range is None,
    {
        Self::default()
    }

    /// Starts a composition.
    pub fn start_composition(&mut self)
        ensures
            final(self).active,
            final(self).composition@ == Seq::<char>::empty(),
            final(self).cursor_pos == 0,
            final(self).selection_range is None,
    {
        self.active = true;
        self.composition = String::new();
        self.cursor_pos = 0;
        self.selection_range = None;
    }

    /// Replaces the composed text and its cursor.
    pub fn update_composition(&mut self, text: String, cursor_pos: usize)
        ensures
            final(self).composition@ == text@,
            final(self).cursor_pos == cursor_pos,
            final(self).active == old(self).active,
            final(self).selection_range == old(self).selection_range,
    {
        self.composition = text;
        self.cursor_pos = cursor_pos;
    }

    /// Ends the composition; returns the composed text.
    pub fn end_composition(&mut self) -> (r: String)
        ensures
            r@ == old(self).composition@,
            !final(self).active,
            final(self).composition@ == Seq::<char>::empty(),
            final(self).cursor_pos == 0,
            final(self).selection_range is None,
    {
        self.active = false;
        let result = self.composition.clone();
        self.composition = String::new();
        self.cursor_pos = 0;
        self.selection_range = None;
        result
    }

    /// Drops the composition.
    pub fn cancel_composition(&mut self)
        ensures
            !final(self).active,
            final(self).composition@ == Seq::<char>::empty(),
            final(self).cursor_pos == 0,
            final(self).selection_range is None,
    {
        self.active = false;
        self.composition = String::new();
        self.cursor_pos = 0;
        self.selection_range = None;
    }
}

/// Records key events for keyboard macros.
#[derive(Debug, Clone)]
pub struct KeyboardRecorder {
    recording: bool,
    events: Vec<(Key, Modifiers)>,
    max_events: usize,
}

impl KeyboardRecorder {
    /// Whether recording is on.
    pub closed spec fn spec_recording(&self) -> bool {
        self.recording
    }

    /// The events recorded.
    pub closed spec fn spec_events(&self) -> Seq<(Key, Modifiers)> {
        self.events@
    }

    /// The most events kept.
    pub closed spec fn spec_max_events(&self) -> usize {
        self.max_events
    }

    /// A recorder that is not recording, keeping up to 10000 events.
    pub fn new() -> (r: Self)
        ensures
            !r.spec_recording(),
            r.spec_events().len() == 0,
            r.spec_max_events() == 10000,
    {
        Self { recording: false, events: Vec::new(), max_events: 10000 }
    }

    /// Starts recording afresh.
    pub fn start_recording(&mut self)
        ensures
            final(self).spec_recording(),
            final(self).spec_events().len() == 0,
            final(self).spec_max_events() == old(self).spec_max_events(),
    {
        self.recording = true;
        self.events.clear();
    }

    /// Stops recording; returns the events recorded.
    pub fn stop_recording(&mut self) -> (r: Vec<(Key, Modifiers)>)
        ensures
            r@ == old(self).spec_events(),
            !final(self).spec_recording(),
            final(self).spec_events() == old(self).spec_events(),
            final(self).spec_max_events() == old(self).spec_max_events(),
    {
        self.recording = false;
        let mut r: Vec<(Key, Modifiers)> = Vec::new();
        let mut i: usize = 0;
        while i < self.events.len()
            invariant
                i <= self.events@.len(),
                r@ == self.events@.take(i as int),
                self.events@ == old(self).spec_events(),
            decreases self.events@.len() - i,
        {
            r.push(self.events[i]);
            proof {
                assert(self.events@.take(i + 1) =~= self.events@.take(i as int).push(self.events@[i as int]));
            }
            i = i + 1;
        }
        proof {
            assert(self.events@.take(i as int) =~= self.events@);
        }
        r
    }

    /// Records a key event, while recording and below the limit.
    pub fn record_key(&mut self, key: Key, modifiers: Modifiers)
        ensures
            final(self).spec_recording() == old(self).spec_recording(),
            final(self).spec_max_events() == old(self).spec_max_events(),
            final(self).spec_events() == (if old(self).spec_recording() && old(self).spec_events().len() < old(self).spec_max_events() {
                old(self).spec_events().push((key, modifiers))
            } else {
                old(self).spec_events()
            }),
    {
        if self.recording && self.events.len() < self.max_events {
            self.events.push((key, modifiers));
        }
    }

    /// Whether recording is on.
    pub fn is_recording(&self) -> (b: bool)
        ensures
            b == self.spec_recording(),
    {
        self.recording
    }

    /// The number of events recorded.
    pub fn event_count(&self) -> (n: usize)
        ensures
            n == self.spec_events().len(),
    {
        self.events.len()
    }

    /// Forgets the events recorded.
    pub fn clear(&mut self)
        ensures
            final(self).spec_events().len() == 0,
            final(self).spec_recording() == old(self).spec_recording(),
            final(self).spec_max_events() == old(self).spec_max_events(),
    {
        self.events.clear();
    }
}

impl Default for KeyboardRecorder {
    fn default() -> (r: Self)
        ensures
            !r.spec_recording(),
            r.spec_events().len() == 0,
            r.spec_max_events() == 10000,
    {
        Self::new()
    }
}

} // verus!
