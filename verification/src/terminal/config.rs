//! The terminal's color scheme and cursor style.

use vstd::prelude::*;
use crate::text::{is_ascii_text, str_to_chars};

verus! {

/// Cursor styles.
#[derive(Debug, Clone, Copy, PartialEq, Eq, Structural)]
pub enum CursorStyle {
    /// A block
    Block,
    /// An underline
    Underline,
    /// A vertical bar
    Bar,
}

impl Default for CursorStyle {
    fn default() -> (s: Self)
        ensures
            s == CursorStyle::Block,
    {
        CursorStyle::Block
    }
}

/// The terminal's color scheme, colors written as `#rrggbb`.
#[derive(Debug, Clone, PartialEq, Eq)]
pub struct TerminalColors {
    /// Foreground color
    pub foreground: String,
    /// Background color
    pub background: String,
    /// Cursor color
    pub cursor: String,
    /// Selection background color
    pub selection_background: String,
    /// Selection foreground color (none: the normal foreground)
    pub selection_foreground: Option<String>,
    /// The standard colors (0-15)
    pub ansi_colors: Vec<String>,
    /// An extended palette, possibly empty
    pub palette: Vec<String>,
}

/// The sixteen standard colors of the default scheme: eight normal, then
/// eight bright.
pub open spec fn default_ansi_table() -> Seq<Seq<char>> {
    seq![
        "#000000"@, "#cd3131"@, "#0dbc79"@, "#e5e510"@, "#2472c8"@, "#bc3fbc"@, "#11a8cd"@, "#e5e5e5"@,
        "#666666"@, "#f14c4c"@, "#23d18b"@, "#f5f543"@, "#3b8eea"@, "#d670d6"@, "#29b8db"@, "#ffffff"@,
    ]
}

/// The views of a list of strings.
pub open spec fn string_views(v: Seq<String>) -> Seq<Seq<char>> {
    v.map_values(|s: String| s@)
}

/// `s` without the `#` characters it begins with.
pub open spec fn strip_hashes(s: Seq<char>) -> Seq<char>
    decreases s.len(),
{
    if s.len() > 0 && s[0] == '#' {
        strip_hashes(s.drop_first())
    } else {
        s
    }
}

/// The value of a hexadecimal digit.
pub open spec fn hex_digit_value(c: char) -> Option<u8> {
    if '0' <= c <= '9' {
        Some((c as u32 - '0' as u32) as u8)
    } else if 'a' <= c <= 'f' {
        Some((c as u32 - 'a' as u32 + 10) as u8)
    } else if 'A' <= c <= 'F' {
        Some((c as u32 - 'A' as u32 + 10) as u8)
    } else {
        None
    }
}

/// The byte that two characters write in base 16, as `u8::from_str_radix`
/// reads them: two digits, or a `+` sign and one digit.
pub open spec fn hex_pair(a: char, b: char) -> Option<u8> {
    if a == '+' {
        hex_digit_value(b)
    } else {
        match (hex_digit_value(a), hex_digit_value(b)) {
            (Some(x), Some(y)) => Some((16 * x + y) as u8),
            _ => None,
        }
    }
}

/// The color that a text writes as `#rrggbb` (any number of leading `#`,
/// then six ASCII characters, two per component).
pub open spec fn hex_color(s: Seq<char>) -> Option<(u8, u8, u8)> {
    let t = strip_hashes(s);
    if t.len() != 6 || !is_ascii_text(t) {
        None
    } else {
        match (hex_pair(t[0], t[1]), hex_pair(t[2], t[3]), hex_pair(t[4], t[5])) {
            (Some(r), Some(g), Some(b)) => Some((r, g, b)),
            _ => None,
        }
    }
}

fn hex_digit(c: char) -> (r: Option<u8>)
    ensures
        r == hex_digit_value(c),
{
    if '0' <= c && c <= '9' {
        Some((c as u32 - '0' as u32) as u8)
    } else if 'a' <= c && c <= 'f' {
        Some((c as u32 - 'a' as u32 + 10) as u8)
    } else if 'A' <= c && c <= 'F' {
        Some((c as u32 - 'A' as u32 + 10) as u8)
    } else {
        None
    }
}

fn hex_byte(a: char, b: char) -> (r: Option<u8>)
    ensures
        r == hex_pair(a, b),
{
    if a == '+' {
        return hex_digit(b);
    }
    match (hex_digit(a), hex_digit(b)) {
        (Some(x), Some(y)) => Some(16 * x + y),
        _ => None,
    }
}

impl Default for TerminalColors {
    fn default() -> (c: Self)
        ensures
            c.foreground@ == "#e0e0e0"@,
            c.background@ == "#1e1e1e"@,
            c.cursor@ == "#ffffff"@,
            c.selection_background@ == "#264f78"@,
            c.selection_foreground is None,
            string_views(c.ansi_colors@) == default_ansi_table(),
            c.palette@.len() == 0,
    {
        let mut ansi: Vec<String> = Vec::new();
        ansi.push("#000000".to_owned());
        ansi.push("#cd3131".to_owned());
        ansi.push("#0dbc79".to_owned());
        ansi.push("#e5e510".to_owned());
        ansi.push("#2472c8".to_owned());
        ansi.push("#bc3fbc".to_owned());
        ansi.push("#11a8cd".to_owned());
        ansi.push("#e5e5e5".to_owned());
        ansi.push("#666666".to_owned());
        ansi.push("#f14c4c".to_owned());
        ansi.push("#23d18b".to_owned());
        ansi.push("#f5f543".to_owned());
        ansi.push("#3b8eea".to_owned());
        ansi.push("#d670d6".to_owned());
        ansi.push("#29b8db".to_owned());
        ansi.push("#ffffff".to_owned());
        proof {
            assert(string_views(ansi@) =~= default_ansi_table());
        }
        TerminalColors {
            foreground: "#e0e0e0".to_owned(),
            background: "#1e1e1e".to_owned(),
            cursor: "#ffffff".to_owned(),
            selection_background: "#264f78".to_owned(),
            selection_foreground: None,
            ansi_colors: ansi,
            palette: Vec::new(),
        }
    }
}

impl TerminalColors {
    /// The color that a `#rrggbb` text writes (see [`hex_color`]).
    pub fn parse_hex_color(hex: &str) -> (r: Option<(u8, u8, u8)>)
        ensures
            r == hex_color(hex@),
    {
        let v = str_to_chars(hex);
        let mut k: usize = 0;
        proof {
            assert(v@.skip(0) =~= v@);
        }
        while k < v.len() && v[k] == '#'
            invariant
                k <= v@.len(),
                strip_hashes(v@.skip(k as int)) == strip_hashes(hex@),
                v@ == hex@,
            decreases v@.len() - k,
        {
            proof {
                assert(v@.skip(k as int).drop_first() =~= v@.skip(k + 1));
            }
            k = k + 1;
        }
        proof {
            assert(strip_hashes(v@.skip(k as int)) == v@.skip(k as int));
        }
        if v.len() - k != 6 {
            return None;
        }
        let mut j: usize = k;
        while j < v.len()
            invariant
                k <= j <= v@.len(),
                forall|i: int| k <= i < j ==> (#[trigger] v@[i] as u32) < 128,
                v@ == hex@,
                strip_hashes(v@.skip(k as int)) == strip_hashes(hex@),
                strip_hashes(v@.skip(k as int)) == v@.skip(k as int),
                v@.len() - k == 6,
            decreases v@.len() - j,
        {
            if v[j] as u32 >= 128 {
                proof {
                    assert(v@.skip(k as int)[j - k] == v@[j as int]);
                    assert(!is_ascii_text(v@.skip(k as int)));
                }
                return None;
            }
            j = j + 1;
        }
        let ghost t = v@.skip(k as int);
        proof {
            assert forall|i: int| 0 <= i < t.len() implies (#[trigger] t[i] as u32) < 128 by {
                assert(t[i] == v@[k + i]);
            }
        }
        let r = hex_byte(v[k], v[k + 1]);
        let g = hex_byte(v[k + 2], v[k + 3]);
        let b = hex_byte(v[k + 4], v[k + 5]);
        proof {
            assert(t[0] == v@[k as int] && t[1] == v@[k + 1] && t[2] == v@[k + 2]);
            assert(t[3] == v@[k + 3] && t[4] == v@[k + 4] && t[5] == v@[k + 5]);
        }
        match (r, g, b) {
            (Some(r), Some(g), Some(b)) => Some((r, g, b)),
            _ => None,
        }
    }

    /// The color of an index: a standard color where the index has one,
    /// else the palette's entry, if the palette is not empty.
    pub fn get_color(&self, index: u8) -> (r: Option<String>)
        ensures
            (index as int) < self.ansi_colors@.len() ==> (r matches Some(s) && s@ == self.ansi_colors@[index as int]@),
            (index as int) >= self.ansi_colors@.len() && (index as int) < self.palette@.len()
                ==> (r matches Some(s) && s@ == self.palette@[index as int]@),
            (index as int) >= self.ansi_colors@.len() && (index as int) >= self.palette@.len() ==> r is None,
    {
        let i = index as usize;
        if i < self.ansi_colors.len() {
            Some(self.ansi_colors[i].clone())
        } else if !self.palette.is_empty() && i < self.palette.len() {
            Some(self.palette[i].clone())
        } else {
            None
        }
    }
}

/// The problem with a scrollback length, if any: it must be at least 1
/// and at most 1,000,000 lines.
pub fn check_scrollback_lines(lines: usize) -> (r: Option<String>)
    ensures
        lines == 0 ==> (r matches Some(m) && m@ == "scrollback_lines must be greater than 0"@),
        lines > 1_000_000 ==> (r matches Some(m) && m@ == "scrollback_lines must be less than 1,000,000"@),
        1 <= lines <= 1_000_000 ==> r is None,
{
    if lines == 0 {
        return Some("scrollback_lines must be greater than 0".to_owned());
    }
    if lines > 1_000_000 {
        return Some("scrollback_lines must be less than 1,000,000".to_owned());
    }
    None
}

/// The problem with a terminal's size, if any: it needs a column and a
/// row at least.
pub fn check_grid_size(cols: u16, rows: u16) -> (r: Option<String>)
    ensures
        (cols == 0 || rows == 0) ==> (r matches Some(m) && m@ == "cols and rows must be greater than 0"@),
        cols > 0 && rows > 0 ==> r is None,
{
    if cols == 0 || rows == 0 {
        return Some("cols and rows must be greater than 0".to_owned());
    }
    None
}

} // verus!
