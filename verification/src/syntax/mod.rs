//! Syntax highlighting: languages, highlighted spans, the highlighter
//! interface and the plain-text highlighter.

pub mod languages;

use vstd::prelude::*;
use crate::text::concat;
use crate::syntax::languages::{LanguageDetector, language_name, path_language};
use syntect::easy::HighlightLines;
use syntect::highlighting::ThemeSet;
use syntect::parsing::SyntaxSet;
use std::collections::HashMap;
use vstd::std_specs::iter::IteratorSpec;

verus! {

/// Errors of syntax highlighting.
#[derive(Debug, Clone, PartialEq, Eq)]
pub enum SyntaxError {
    UnknownLanguage(String),
    ThemeNotFound(String),
    SyntaxSetLoad(String),
    HighlightError(String),
}

impl SyntaxError {
    /// The message of the error.
    pub fn to_display_string(&self) -> (s: String)
        ensures
            s@ == (match *self {
                SyntaxError::UnknownLanguage(m) => "Unknown language: "@ + m@,
                SyntaxError::ThemeNotFound(m) => "Theme not found: "@ + m@,
                SyntaxError::SyntaxSetLoad(m) => "Failed to load syntax set: "@ + m@,
                SyntaxError::HighlightError(m) => "Highlighting error: "@ + m@,
            }),
    {
        match self {
            SyntaxError::UnknownLanguage(m) => concat("Unknown language: ", m.as_str()),
            SyntaxError::ThemeNotFound(m) => concat("Theme not found: ", m.as_str()),
            SyntaxError::SyntaxSetLoad(m) => concat("Failed to load syntax set: ", m.as_str()),
            SyntaxError::HighlightError(m) => concat("Highlighting error: ", m.as_str()),
        }
    }
}

/// Font style flags.
#[derive(Debug, Clone, Copy, PartialEq, Eq, Structural)]
pub struct HighlightStyle {
    pub bold: bool,
    pub italic: bool,
    pub underline: bool,
}

/// A piece of text with its colors and style.
#[derive(Debug, PartialEq)]
pub struct HighlightedSpan {
    /// The text
    pub text: String,
    /// Foreground color (RGB)
    pub fg_color: (u8, u8, u8),
    /// Background color (RGB), if any
    pub bg_color: Option<(u8, u8, u8)>,
    /// Font style
    pub style: HighlightStyle,
}

impl HighlightedSpan {
    /// A span in one color, with no background and no style.
    pub fn plain(text: String, fg: (u8, u8, u8)) -> (s: Self)
        ensures
            s.text@ == text@,
            s.fg_color == fg,
            s.bg_color is None,
            s.style == (HighlightStyle { bold: false, italic: false, underline: false }),
    {
        Self {
            text,
            fg_color: fg,
            bg_color: None,
            style: HighlightStyle { bold: false, italic: false, underline: false },
        }
    }
}

impl Clone for HighlightedSpan {
    fn clone(&self) -> (s: Self)
        ensures
            s.text@ == self.text@,
            s.fg_color == self.fg_color,
            s.bg_color == self.bg_color,
            s.style == self.style,
    {
        HighlightedSpan {
            text: self.text.clone(),
            fg_color: self.fg_color,
            bg_color: self.bg_color,
            style: self.style,
        }
    }
}

/// What a highlighter does: highlight a line, forget what it cached from
/// a line on, forget all it cached. A highlighter owns its cache, so these
/// take it mutably.
pub trait Highlighter {
    fn highlight_line(&mut self, line_idx: usize, line_text: &str) -> Vec<HighlightedSpan>;

    fn invalidate_from_line(&mut self, line_idx: usize);

    fn clear_cache(&mut self);
}

/// A highlighter that gives each line one span in one color.
#[derive(Debug)]
pub struct PlainTextHighlighter {
    fg_color: (u8, u8, u8),
}

impl PlainTextHighlighter {
    /// The color of the text.
    pub closed spec fn spec_color(&self) -> (u8, u8, u8) {
        self.fg_color
    }

    /// A highlighter in white.
    pub fn new() -> (h: Self)
        ensures
            h.spec_color() == (255u8, 255u8, 255u8),
    {
        Self { fg_color: (255, 255, 255) }
    }

    /// A highlighter in the given color.
    pub fn with_color(fg_color: (u8, u8, u8)) -> (h: Self)
        ensures
            h.spec_color() == fg_color,
    {
        Self { fg_color }
    }

    /// One plain span holding the whole line.
    pub fn highlight_line(&self, line_text: &str) -> (r: Vec<HighlightedSpan>)
        ensures
            r@.len() == 1,
            r@[0].text@ == line_text@,
            r@[0].fg_color == self.spec_color(),
            r@[0].bg_color is None,
            r@[0].style == (HighlightStyle { bold: false, italic: false, underline: false }),
    {
        let mut r = Vec::new();
        r.push(HighlightedSpan::plain(line_text.to_owned(), self.fg_color));
        r
    }
}

impl Default for PlainTextHighlighter {
    fn default() -> (h: Self)
        ensures
            h.spec_color() == (255u8, 255u8, 255u8),
    {
        Self::new()
    }
}

impl Highlighter for PlainTextHighlighter {
    fn highlight_line(&mut self, line_idx: usize, line_text: &str) -> Vec<HighlightedSpan> {
        PlainTextHighlighter::highlight_line(self, line_text)
    }

    fn invalidate_from_line(&mut self, line_idx: usize) {
    }

    fn clear_cache(&mut self) {
    }
}


/// Whether syntect's default syntaxes hold one with this name
/// (`SyntaxSet::find_syntax_by_name`).
pub uninterp spec fn syntax_named(language: Seq<char>) -> bool;

/// Whether syntect's default syntaxes hold one for this file extension
/// (`SyntaxSet::find_syntax_by_extension`).
pub uninterp spec fn syntax_with_extension(extension: Seq<char>) -> bool;

/// Whether a language is known: by its name, or else by a file extension.
pub open spec fn syntax_known(language: Seq<char>) -> bool {
    syntax_named(language) || syntax_with_extension(language)
}

/// Whether syntect's default themes hold one with this name.
pub uninterp spec fn theme_known(theme: Seq<char>) -> bool;

/// The foreground, background and selection colors that a default theme
/// sets (all `None` for an unknown theme).
pub uninterp spec fn theme_palette(theme: Seq<char>) -> (Option<(u8, u8, u8)>, Option<(u8, u8, u8)>, Option<(u8, u8, u8)>);

/// What syntect makes of a line, from a fresh parse state, in the default
/// syntax with this name and a default theme: its pieces with their
/// foreground color and font style bits, or `None` when syntax or theme is
/// unknown or highlighting fails.
pub uninterp spec fn highlight_by_name(language: Seq<char>, theme: Seq<char>, line: Seq<char>) -> Option<Seq<(Seq<char>, (u8, u8, u8), u8)>>;

/// The same, in the default syntax for this file extension.
pub uninterp spec fn highlight_by_extension(extension: Seq<char>, theme: Seq<char>, line: Seq<char>) -> Option<Seq<(Seq<char>, (u8, u8, u8), u8)>>;

/// What syntect makes of a line in a language: through the syntax with
/// that name when there is one, else through the syntax for that
/// extension.
pub open spec fn syntect_highlight(language: Seq<char>, theme: Seq<char>, line: Seq<char>) -> Option<Seq<(Seq<char>, (u8, u8, u8), u8)>> {
    if syntax_named(language) {
        highlight_by_name(language, theme, line)
    } else {
        highlight_by_extension(language, theme, line)
    }
}

/// The texts of syntect's pieces, put together.
pub open spec fn pieces_text(ps: Seq<(Seq<char>, (u8, u8, u8), u8)>) -> Seq<char> {
    ps.map_values(|p: (Seq<char>, (u8, u8, u8), u8)| p.0).flatten()
}

/// The pieces as plain values.
pub open spec fn pieces_view(v: Seq<(String, (u8, u8, u8), u8)>) -> Seq<(Seq<char>, (u8, u8, u8), u8)> {
    v.map_values(|p: (String, (u8, u8, u8), u8)| (p.0@, p.1, p.2))
}

/// `SyntaxSet::find_syntax_by_name` on syntect's default syntaxes: whether
/// it finds one. The result is the name [`syntax_named`] of the text.
#[verifier::external_body]
fn find_syntax_by_name(language: &str) -> (b: bool)
    ensures
        b == syntax_named(language@),
{
    SyntaxSet::load_defaults_newlines().find_syntax_by_name(language).is_some()
}

/// `SyntaxSet::find_syntax_by_extension` on syntect's default syntaxes:
/// whether it finds one. The result is the name [`syntax_with_extension`]
/// of the text.
#[verifier::external_body]
fn find_syntax_by_extension(extension: &str) -> (b: bool)
    ensures
        b == syntax_with_extension(extension@),
{
    SyntaxSet::load_defaults_newlines().find_syntax_by_extension(extension).is_some()
}

/// Whether a language is known: by its name, else by a file extension.
fn find_syntax(language: &str) -> (b: bool)
    ensures
        b == syntax_known(language@),
{
    find_syntax_by_name(language) || find_syntax_by_extension(language)
}

/// `ThemeSet::load_defaults`, then a lookup of the name among its themes.
/// The result is the name [`theme_known`] of the text.
#[verifier::external_body]
fn find_theme(theme: &str) -> (b: bool)
    ensures
        b == theme_known(theme@),
{
    ThemeSet::load_defaults().themes.contains_key(theme)
}

/// The foreground, background and selection colors in the settings of a
/// default theme. The result is the name [`theme_palette`] of the text.
#[verifier::external_body]
fn palette_of(theme: &str) -> (r: (Option<(u8, u8, u8)>, Option<(u8, u8, u8)>, Option<(u8, u8, u8)>))
    ensures
        r == theme_palette(theme@),
{
    match ThemeSet::load_defaults().themes.get(theme) {
        Some(t) => (
            t.settings.foreground.map(|c| (c.r, c.g, c.b)),
            t.settings.background.map(|c| (c.r, c.g, c.b)),
            t.settings.selection.map(|c| (c.r, c.g, c.b)),
        ),
        None => (None, None, None),
    }
}

/// `HighlightLines::highlight_line` with a fresh highlighter for the
/// default syntax with this name and a default theme: each piece of the
/// line with its foreground color and font style bits. The result is the
/// name [`highlight_by_name`] of the three texts; as syntect documents, the
/// pieces put together make the line.
#[verifier::external_body]
fn spans_by_name(language: &str, theme: &str, line: &str) -> (r: Option<Vec<(String, (u8, u8, u8), u8)>>)
    ensures
        r.is_some() == highlight_by_name(language@, theme@, line@).is_some(),
        r.is_some() ==> pieces_view(r.unwrap()@) == highlight_by_name(language@, theme@, line@).unwrap(),
        r.is_some() ==> pieces_text(pieces_view(r.unwrap()@)) == line@,
{
    let set = SyntaxSet::load_defaults_newlines();
    let themes = ThemeSet::load_defaults();
    let syntax = set.find_syntax_by_name(language)?;
    let mut h = HighlightLines::new(syntax, themes.themes.get(theme)?);
    match h.highlight_line(line, &set) {
        Ok(v) => Some(v.into_iter().map(|(s, t)| (t.to_string(), (s.foreground.r, s.foreground.g, s.foreground.b), s.font_style.bits())).collect()),
        Err(_) => None,
    }
}

/// The same as [`spans_by_name`], through the default syntax for this file
/// extension. The result is the name [`highlight_by_extension`] of the
/// three texts; the pieces put together make the line.
#[verifier::external_body]
fn spans_by_extension(extension: &str, theme: &str, line: &str) -> (r: Option<Vec<(String, (u8, u8, u8), u8)>>)
    ensures
        r.is_some() == highlight_by_extension(extension@, theme@, line@).is_some(),
        r.is_some() ==> pieces_view(r.unwrap()@) == highlight_by_extension(extension@, theme@, line@).unwrap(),
        r.is_some() ==> pieces_text(pieces_view(r.unwrap()@)) == line@,
{
    let set = SyntaxSet::load_defaults_newlines();
    let themes = ThemeSet::load_defaults();
    let syntax = set.find_syntax_by_extension(extension)?;
    let mut h = HighlightLines::new(syntax, themes.themes.get(theme)?);
    match h.highlight_line(line, &set) {
        Ok(v) => Some(v.into_iter().map(|(s, t)| (t.to_string(), (s.foreground.r, s.foreground.g, s.foreground.b), s.font_style.bits())).collect()),
        Err(_) => None,
    }
}

/// syntect's pieces of a line in a language (see [`syntect_highlight`]).
fn syntect_spans(language: &str, theme: &str, line: &str) -> (r: Option<Vec<(String, (u8, u8, u8), u8)>>)
    ensures
        r.is_some() == syntect_highlight(language@, theme@, line@).is_some(),
        r.is_some() ==> pieces_view(r.unwrap()@) == syntect_highlight(language@, theme@, line@).unwrap(),
        r.is_some() ==> pieces_text(pieces_view(r.unwrap()@)) == line@,
{
    if find_syntax_by_name(language) {
        spans_by_name(language, theme, line)
    } else {
        spans_by_extension(language, theme, line)
    }
}

/// The names of the themes that syntect documents for its defaults.
pub open spec fn documented_themes() -> Seq<Seq<char>> {
    seq![
        "base16-ocean.dark"@,
        "base16-eighties.dark"@,
        "base16-mocha.dark"@,
        "base16-ocean.light"@,
        "InspiredGitHub"@,
        "Solarized (dark)"@,
        "Solarized (light)"@,
    ]
}

/// The keys of `ThemeSet::load_defaults`'s themes. As syntect documents,
/// they include its seven default themes, and each is a known theme.
#[verifier::external_body]
fn default_theme_names() -> (r: Vec<String>)
    ensures
        forall|i: int| 0 <= i < documented_themes().len() ==> r@.map_values(|s: String| s@).contains(#[trigger] documented_themes()[i]),
        forall|i: int| 0 <= i < r@.len() ==> theme_known(#[trigger] r@[i]@),
{
    ThemeSet::load_defaults().themes.keys().map(|k| k.to_string()).collect()
}

/// The names of the syntaxes of `SyntaxSet::load_defaults_newlines`: each
/// is found by name, and (as syntect's bundled syntaxes hold them) "Rust"
/// and "Python" are among them.
#[verifier::external_body]
fn default_syntax_names() -> (r: Vec<String>)
    ensures
        forall|i: int| 0 <= i < r@.len() ==> syntax_named(#[trigger] r@[i]@),
        r@.map_values(|s: String| s@).contains("Rust"@),
        r@.map_values(|s: String| s@).contains("Python"@),
{
    SyntaxSet::load_defaults_newlines().syntaxes().iter().map(|s| s.name.clone()).collect()
}

#[verifier::external_type_specification]
#[verifier::external_body]
pub struct ExStyle(syntect::highlighting::Style);

/// The foreground color and the font style bits of a syntect style.
pub uninterp spec fn style_fields(style: syntect::highlighting::Style) -> ((u8, u8, u8), u8);

/// The foreground color and the font style bits of a syntect style (its
/// fields, read as they are). The result is the name [`style_fields`] of
/// the style.
#[verifier::external_body]
fn style_parts(style: &syntect::highlighting::Style) -> (r: ((u8, u8, u8), u8))
    ensures
        r == style_fields(*style),
{
    ((style.foreground.r, style.foreground.g, style.foreground.b), style.font_style.bits())
}

impl HighlightedSpan {
    /// A span in the foreground color and font style of a syntect style,
    /// with no background.
    pub fn from_syntect(text: String, style: syntect::highlighting::Style) -> (s: Self)
        ensures
            s.text@ == text@,
            s.fg_color == style_fields(style).0,
            s.bg_color is None,
            s.style == style_of_bits(style_fields(style).1),
    {
        let (fg, bits) = style_parts(&style);
        Self::from_style_parts(text, fg, bits)
    }

    /// A span in a foreground color and the font style that syntect's
    /// style bits stand for, with no background.
    pub fn from_style_parts(text: String, fg_color: (u8, u8, u8), font_bits: u8) -> (s: Self)
        ensures
            s.text@ == text@,
            s.fg_color == fg_color,
            s.bg_color is None,
            s.style == style_of_bits(font_bits),
    {
        HighlightedSpan { text, fg_color, bg_color: None, style: style_from_bits(font_bits) }
    }
}

/// The texts of spans, put together.
pub open spec fn spans_text(v: Seq<(Seq<char>, (u8, u8, u8), Option<(u8, u8, u8)>, HighlightStyle)>) -> Seq<char> {
    v.map_values(|s: (Seq<char>, (u8, u8, u8), Option<(u8, u8, u8)>, HighlightStyle)| s.0).flatten()
}

/// A span as plain values: text, foreground, background and style.
pub open spec fn span_view(s: HighlightedSpan) -> (Seq<char>, (u8, u8, u8), Option<(u8, u8, u8)>, HighlightStyle) {
    (s.text@, s.fg_color, s.bg_color, s.style)
}

/// The spans of a list as plain values.
pub open spec fn spans_view(v: Seq<HighlightedSpan>) -> Seq<(Seq<char>, (u8, u8, u8), Option<(u8, u8, u8)>, HighlightStyle)> {
    v.map_values(|s: HighlightedSpan| span_view(s))
}

/// The font style that syntect's style bits stand for (bold 1, underline
/// 2, italic 4).
pub open spec fn style_of_bits(b: u8) -> HighlightStyle {
    HighlightStyle { bold: b & 1u8 != 0, italic: b & 4u8 != 0, underline: b & 2u8 != 0 }
}

/// The font style that syntect's style bits stand for.
pub fn style_from_bits(b: u8) -> (s: HighlightStyle)
    ensures
        s == style_of_bits(b),
{
    HighlightStyle { bold: b & 1u8 != 0, italic: b & 4u8 != 0, underline: b & 2u8 != 0 }
}

/// The color that stands for an optional theme color.
pub open spec fn color_or(c: Option<(u8, u8, u8)>, d: (u8, u8, u8)) -> (u8, u8, u8) {
    match c {
        Some(x) => x,
        None => d,
    }
}

/// The text color of a theme: its foreground, else white.
pub open spec fn theme_foreground(theme: Seq<char>) -> (u8, u8, u8) {
    color_or(theme_palette(theme).0, (255u8, 255u8, 255u8))
}

/// The spans of a line highlighted afresh: syntect's pieces, each in its
/// color and style with no background; when syntect gives nothing, the
/// whole line as one plain span in the theme's text color.
pub open spec fn fresh_spans(language: Seq<char>, theme: Seq<char>, line: Seq<char>) -> Seq<(Seq<char>, (u8, u8, u8), Option<(u8, u8, u8)>, HighlightStyle)> {
    match syntect_highlight(language, theme, line) {
        Some(ps) => ps.map_values(|p: (Seq<char>, (u8, u8, u8), u8)| (p.0, p.1, None::<(u8, u8, u8)>, style_of_bits(p.2))),
        None => seq![(line, theme_foreground(theme), None::<(u8, u8, u8)>, HighlightStyle { bold: false, italic: false, underline: false })],
    }
}

/// The spans cached for a line, if any.
pub open spec fn cached_at(c: Map<usize, Seq<(Seq<char>, (u8, u8, u8), Option<(u8, u8, u8)>, HighlightStyle)>>, idx: usize) -> Option<Seq<(Seq<char>, (u8, u8, u8), Option<(u8, u8, u8)>, HighlightStyle)>> {
    if c.contains_key(idx) {
        Some(c[idx])
    } else {
        None
    }
}

/// The cache entries for lines before `k`.
pub open spec fn entries_below(c: Map<usize, Seq<(Seq<char>, (u8, u8, u8), Option<(u8, u8, u8)>, HighlightStyle)>>, k: usize) -> Map<usize, Seq<(Seq<char>, (u8, u8, u8), Option<(u8, u8, u8)>, HighlightStyle)>> {
    c.restrict(Set::new(|i: usize| i < k))
}

/// Once a line's spans are added to a cache that lacked them, the cache
/// gives them back for that line, and the other lines' spans stay.
pub proof fn lemma_cache_insert(c: Map<usize, Seq<(Seq<char>, (u8, u8, u8), Option<(u8, u8, u8)>, HighlightStyle)>>, idx: usize, v: Seq<(Seq<char>, (u8, u8, u8), Option<(u8, u8, u8)>, HighlightStyle)>, other: usize)
    requires
        cached_at(c, idx) is None,
    ensures
        cached_at(c.insert(idx, v), idx) == Some(v),
        other != idx ==> cached_at(c.insert(idx, v), other) == cached_at(c, other),
{
}

/// After invalidating from line `k`, the lines before `k` keep their cached
/// spans and no line from `k` on has any.
pub proof fn lemma_entries_below(c: Map<usize, Seq<(Seq<char>, (u8, u8, u8), Option<(u8, u8, u8)>, HighlightStyle)>>, k: usize, idx: usize)
    ensures
        cached_at(entries_below(c, k), idx) == (if idx < k { cached_at(c, idx) } else { None }),
{
}

/// The lines of a cache from `k` on.
fn lines_from(m: &HashMap<usize, Vec<HighlightedSpan>>, k: usize) -> (r: Vec<usize>)
    ensures
        forall|x: usize| r@.contains(x) <==> (m@.contains_key(x) && x >= k),
{
    let mut r: Vec<usize> = Vec::new();
    let ghost s = vstd::std_specs::hash::spec_keys_iter(m).remaining();
    for key in it: m.keys()
        invariant
            it.seq() == s,
            forall|x: usize| r@.contains(x) <==> (exists|j: int| 0 <= j < it.index() && *s[j] == x) && x >= k,
    {
        let ghost i = it.index() as int;
        let ghost r0 = r@;
        assert(*key == *s[i]);
        if *key >= k {
            r.push(*key);
        }
        proof {
            broadcast use vstd::seq_lib::group_seq_properties;
            assert forall|x: usize| r@.contains(x) <==> (exists|j: int| 0 <= j < i + 1 && *s[j] == x) && x >= k by {
                if r@.contains(x) && x != *key {
                    assert(r0.contains(x));
                    let j = choose|j: int| 0 <= j < i && *s[j] == x;
                    assert(0 <= j < i + 1 && *s[j] == x);
                }
                if r@.contains(x) && x == *key {
                    assert(0 <= i < i + 1 && *s[i] == x);
                }
                if (exists|j: int| 0 <= j < i + 1 && *s[j] == x) && x >= k {
                    let j = choose|j: int| 0 <= j < i + 1 && *s[j] == x;
                    if j < i {
                        assert(r0.contains(x));
                    }
                }
            }
        }
    }
    proof {
        assert(s.unref().to_set() == m@.dom());
        assert forall|x: usize| (exists|j: int| 0 <= j < s.len() && *s[j] == x) <==> m@.contains_key(x) by {
            if exists|j: int| 0 <= j < s.len() && *s[j] == x {
                let j = choose|j: int| 0 <= j < s.len() && *s[j] == x;
                assert(s.unref()[j] == x);
                assert(s.unref().to_set().contains(x));
            }
            if m@.contains_key(x) {
                assert(s.unref().to_set().contains(x));
                assert(s.unref().contains(x));
                let j = choose|j: int| 0 <= j < s.unref().len() && s.unref()[j] == x;
                assert(*s[j] == x);
            }
        }
    }
    r
}

/// A highlighter for one language and theme of syntect's defaults, which
/// caches the spans of each line it highlights.
pub struct SyntaxHighlighter {
    language: String,
    theme: String,
    cache: HashMap<usize, Vec<HighlightedSpan>>,
}

/// The theme a highlighter starts with.
pub open spec fn default_theme_name() -> Seq<char> {
    "base16-ocean.dark"@
}

/// A copy of a list of spans.
fn clone_spans(v: &Vec<HighlightedSpan>) -> (r: Vec<HighlightedSpan>)
    ensures
        spans_view(r@) == spans_view(v@),
{
    let mut r: Vec<HighlightedSpan> = Vec::new();
    let mut i: usize = 0;
    while i < v.len()
        invariant
            i <= v@.len(),
            spans_view(r@) == spans_view(v@.take(i as int)),
        decreases v@.len() - i,
    {
        let s = v[i].clone();
        proof {
            assert(span_view(s) == span_view(v@[i as int]));
        }
        let ghost before = r@;
        r.push(s);
        proof {
            assert(v@.take(i + 1) =~= v@.take(i as int).push(v@[i as int]));
            assert(spans_view(before.push(s)) =~= spans_view(before).push(span_view(s)));
            assert(spans_view(v@.take(i as int).push(v@[i as int])) =~= spans_view(v@.take(i as int)).push(
                span_view(v@[i as int]),
            ));
        }
        i = i + 1;
    }
    proof {
        assert(v@.take(i as int) =~= v@);
    }
    r
}

impl SyntaxHighlighter {
    /// The language's name.
    pub closed spec fn spec_language(&self) -> Seq<char> {
        self.language@
    }

    /// The theme's name.
    pub closed spec fn spec_theme(&self) -> Seq<char> {
        self.theme@
    }

    /// The cache: the spans of each highlighted line, by its index.
    pub closed spec fn spec_cache(&self) -> Map<usize, Seq<(Seq<char>, (u8, u8, u8), Option<(u8, u8, u8)>, HighlightStyle)>> {
        self.cache@.map_values(|v: Vec<HighlightedSpan>| spans_view(v@))
    }

    /// A highlighter for a language known to syntect (by name or by file
    /// extension), in the default theme, with an empty cache.
    pub fn new(language: &str) -> (r: Result<Self, SyntaxError>)
        ensures
            syntax_known(language@) ==> r is Ok && r->Ok_0.spec_language() == language@
                && r->Ok_0.spec_theme() == default_theme_name() && r->Ok_0.spec_cache() == Map::<usize, Seq<(Seq<char>, (u8, u8, u8), Option<(u8, u8, u8)>, HighlightStyle)>>::empty(),
            !syntax_known(language@) ==> (r matches Err(SyntaxError::UnknownLanguage(m)) && m@ == language@),
    {
        if !find_syntax(language) {
            return Err(SyntaxError::UnknownLanguage(language.to_owned()));
        }
        let h = SyntaxHighlighter { language: language.to_owned(), theme: "base16-ocean.dark".to_owned(), cache: HashMap::new() };
        proof {
            assert(h.spec_cache() =~= Map::empty());
        }
        Ok(h)
    }

    /// A highlighter for the language of a path (see
    /// [`LanguageDetector::detect_from_path`]).
    pub fn from_path(path: &str) -> (r: Result<Self, SyntaxError>)
        ensures
            path_language(path@) is None ==> (r matches Err(SyntaxError::UnknownLanguage(m)) && m@ == "unknown"@),
            path_language(path@) is Some && syntax_known(language_name(path_language(path@)->0)@) ==> r is Ok
                && r->Ok_0.spec_language() == language_name(path_language(path@)->0)@
                && r->Ok_0.spec_theme() == default_theme_name() && r->Ok_0.spec_cache() == Map::<usize, Seq<(Seq<char>, (u8, u8, u8), Option<(u8, u8, u8)>, HighlightStyle)>>::empty(),
            path_language(path@) is Some && !syntax_known(language_name(path_language(path@)->0)@) ==> r is Err,
    {
        match LanguageDetector::detect_from_path(path) {
            Some(l) => Self::new(l.name()),
            None => Err(SyntaxError::UnknownLanguage("unknown".to_owned())),
        }
    }

    /// A highlighter for a language and a theme, both known to syntect.
    pub fn with_theme(language: &str, theme_name: &str) -> (r: Result<Self, SyntaxError>)
        ensures
            !syntax_known(language@) ==> (r matches Err(SyntaxError::UnknownLanguage(m)) && m@ == language@),
            syntax_known(language@) && !theme_known(theme_name@) ==> (r matches Err(SyntaxError::ThemeNotFound(m)) && m@ == theme_name@),
            syntax_known(language@) && theme_known(theme_name@) ==> r is Ok && r->Ok_0.spec_language() == language@
                && r->Ok_0.spec_theme() == theme_name@ && r->Ok_0.spec_cache() == Map::<usize, Seq<(Seq<char>, (u8, u8, u8), Option<(u8, u8, u8)>, HighlightStyle)>>::empty(),
    {
        if !find_syntax(language) {
            return Err(SyntaxError::UnknownLanguage(language.to_owned()));
        }
        if !find_theme(theme_name) {
            return Err(SyntaxError::ThemeNotFound(theme_name.to_owned()));
        }
        let h = SyntaxHighlighter { language: language.to_owned(), theme: theme_name.to_owned(), cache: HashMap::new() };
        proof {
            assert(h.spec_cache() =~= Map::empty());
        }
        Ok(h)
    }

    /// Highlights a line afresh (see [`fresh_spans`]).
    fn highlight_fresh(&self, line_text: &str) -> (r: Vec<HighlightedSpan>)
        ensures
            spans_view(r@) == fresh_spans(self.spec_language(), self.spec_theme(), line_text@),
            spans_text(spans_view(r@)) == line_text@,
    {
        match syntect_spans(self.language.as_str(), self.theme.as_str(), line_text) {
            Some(parts) => {
                let ghost ps = syntect_highlight(self.language@, self.theme@, line_text@).unwrap();
                let mut r: Vec<HighlightedSpan> = Vec::new();
                let mut i: usize = 0;
                while i < parts.len()
                    invariant
                        i <= parts@.len(),
                        ps.len() == parts@.len(),
                        forall|j: int| 0 <= j < parts@.len() ==> #[trigger] ps[j] == (parts@[j].0@, parts@[j].1, parts@[j].2),
                        r@.len() == i,
                        forall|j: int| 0 <= j < i ==> #[trigger] span_view(r@[j]) == (ps[j].0, ps[j].1, None::<(u8, u8, u8)>, style_of_bits(ps[j].2)),
                    decreases parts@.len() - i,
                {
                    let text = parts[i].0.clone();
                    r.push(HighlightedSpan { text, fg_color: parts[i].1, bg_color: None, style: style_from_bits(parts[i].2) });
                    i = i + 1;
                }
                proof {
                    assert(spans_view(r@) =~= fresh_spans(self.spec_language(), self.spec_theme(), line_text@));
                    assert(spans_view(r@).map_values(|v: (Seq<char>, (u8, u8, u8), Option<(u8, u8, u8)>, HighlightStyle)| v.0)
                        =~= ps.map_values(|p: (Seq<char>, (u8, u8, u8), u8)| p.0));
                }
                r
            },
            None => {
                let mut r: Vec<HighlightedSpan> = Vec::new();
                r.push(HighlightedSpan::plain(line_text.to_owned(), self.foreground_color()));
                proof {
                    assert(spans_view(r@) =~= fresh_spans(self.spec_language(), self.spec_theme(), line_text@));
                    let ts = spans_view(r@).map_values(|v: (Seq<char>, (u8, u8, u8), Option<(u8, u8, u8)>, HighlightStyle)| v.0);
                    assert(ts =~= seq![line_text@]);
                    assert(ts.drop_first() =~= Seq::<Seq<char>>::empty());
                    assert(ts.drop_first().flatten() =~= Seq::<char>::empty());
                    assert(ts.first() == line_text@);
                    assert(ts.flatten() == ts.first() + ts.drop_first().flatten());
                    assert(ts.flatten() =~= line_text@);
                }
                r
            },
        }
    }

    /// Highlights a line: a line in the cache gets its cached spans and the
    /// cache stays; another is highlighted afresh (see [`fresh_spans`]) and
    /// its spans are added to the cache.
    pub fn highlight_line(&mut self, line_idx: usize, line_text: &str) -> (r: Vec<HighlightedSpan>)
        ensures
            final(self).spec_language() == old(self).spec_language(),
            final(self).spec_theme() == old(self).spec_theme(),
            match cached_at(old(self).spec_cache(), line_idx) {
                Some(v) => spans_view(r@) == v && final(self).spec_cache() == old(self).spec_cache(),
                None => {
                    &&& spans_view(r@) == fresh_spans(old(self).spec_language(), old(self).spec_theme(), line_text@)
                    &&& spans_text(spans_view(r@)) == line_text@
                    &&& final(self).spec_cache() == old(self).spec_cache().insert(line_idx, spans_view(r@))
                },
            },
    {
        match self.cache.get(&line_idx) {
            Some(v) => clone_spans(v),
            None => {
                let spans = self.highlight_fresh(line_text);
                let kept = clone_spans(&spans);
                self.cache.insert(line_idx, kept);
                proof {
                    assert(self.spec_cache() =~= old(self).spec_cache().insert(line_idx, spans_view(spans@)));
                }
                spans
            },
        }
    }

    /// Highlights lines numbered from `start_line` on, one after the other
    /// (see [`highlight_run`]).
    pub fn highlight_lines(&mut self, start_line: usize, lines: &[String]) -> (r: Vec<Vec<HighlightedSpan>>)
        requires
            start_line + lines@.len() <= usize::MAX,
        ensures
            final(self).spec_language() == old(self).spec_language(),
            final(self).spec_theme() == old(self).spec_theme(),
            ({
                let run = highlight_run(old(self).spec_cache(), old(self).spec_language(), old(self).spec_theme(), start_line, lines@.map_values(|l: String| l@));
                &&& final(self).spec_cache() == run.0
                &&& r@.map_values(|v: Vec<HighlightedSpan>| spans_view(v@)) == run.1
            }),
    {
        let ghost texts = lines@.map_values(|l: String| l@);
        let mut r: Vec<Vec<HighlightedSpan>> = Vec::new();
        let mut i: usize = 0;
        while i < lines.len()
            invariant
                i <= lines@.len(),
                start_line + lines@.len() <= usize::MAX,
                texts == lines@.map_values(|l: String| l@),
                self.spec_language() == old(self).spec_language(),
                self.spec_theme() == old(self).spec_theme(),
                ({
                    let run = highlight_run(old(self).spec_cache(), old(self).spec_language(), old(self).spec_theme(), start_line, texts.take(i as int));
                    &&& self.spec_cache() == run.0
                    &&& r@.map_values(|v: Vec<HighlightedSpan>| spans_view(v@)) == run.1
                }),
            decreases lines@.len() - i,
        {
            proof {
                assert(texts.take(i + 1).drop_last() =~= texts.take(i as int));
                assert(texts.take(i + 1).last() == lines@[i as int]@);
            }
            let spans = self.highlight_line(start_line + i, lines[i].as_str());
            r.push(spans);
            proof {
                let run = highlight_run(old(self).spec_cache(), old(self).spec_language(), old(self).spec_theme(), start_line, texts.take(i + 1));
                assert(r@.map_values(|v: Vec<HighlightedSpan>| spans_view(v@)) =~= run.1);
            }
            i = i + 1;
        }
        proof {
            assert(texts.take(i as int) =~= texts);
        }
        r
    }

    /// Forgets the cached spans of line `line_idx` and the lines after it.
    pub fn invalidate_from_line(&mut self, line_idx: usize)
        ensures
            final(self).spec_language() == old(self).spec_language(),
            final(self).spec_theme() == old(self).spec_theme(),
            final(self).spec_cache() == entries_below(old(self).spec_cache(), line_idx),
    {
        let ghost c0 = self.spec_cache();
        let doomed = lines_from(&self.cache, line_idx);
        let mut i: usize = 0;
        while i < doomed.len()
            invariant
                i <= doomed@.len(),
                forall|x: usize| doomed@.contains(x) <==> (c0.contains_key(x) && x >= line_idx),
                self.spec_language() == old(self).spec_language(),
                self.spec_theme() == old(self).spec_theme(),
                self.spec_cache() == c0.remove_keys(doomed@.take(i as int).to_set()),
            decreases doomed@.len() - i,
        {
            let ghost before = self.spec_cache();
            let ghost raw = self.cache@;
            let k = doomed[i];
            self.cache.remove(&k);
            proof {
                assert(self.cache@ == raw.remove(k));
                assert(self.spec_cache() =~= before.remove(k));
                assert(doomed@.take(i + 1) =~= doomed@.take(i as int).push(doomed@[i as int]));
                assert(doomed@.take(i + 1).to_set() =~= doomed@.take(i as int).to_set().insert(doomed@[i as int])) by {
                    broadcast use vstd::seq_lib::group_seq_properties;
                }
                assert(self.spec_cache() =~= c0.remove_keys(doomed@.take(i + 1).to_set()));
            }
            i = i + 1;
        }
        proof {
            assert(doomed@.take(i as int) =~= doomed@);
            assert(self.spec_cache() =~= entries_below(c0, line_idx)) by {
                assert forall|x: usize| doomed@.to_set().contains(x) <==> (c0.contains_key(x) && x >= line_idx) by {
                    broadcast use vstd::seq_lib::group_seq_properties;
                }
            }
        }
    }

    /// Whether the spans of a line are cached.
    pub fn is_cached(&self, line_idx: usize) -> (b: bool)
        ensures
            b == (cached_at(self.spec_cache(), line_idx) is Some),
    {
        self.cache.contains_key(&line_idx)
    }

    /// Forgets all cached spans.
    pub fn clear_cache(&mut self)
        ensures
            final(self).spec_language() == old(self).spec_language(),
            final(self).spec_theme() == old(self).spec_theme(),
            final(self).spec_cache() == Map::<usize, Seq<(Seq<char>, (u8, u8, u8), Option<(u8, u8, u8)>, HighlightStyle)>>::empty(),
    {
        self.cache.clear();
        proof {
            assert(self.spec_cache() =~= Map::empty());
        }
    }

    /// The language's name.
    pub fn language(&self) -> (s: &str)
        ensures
            s@ == self.spec_language(),
    {
        self.language.as_str()
    }

    /// Changes the theme to one known to syntect, forgetting the cache; an
    /// unknown theme is refused and nothing changes.
    pub fn set_theme(&mut self, theme_name: &str) -> (r: Result<(), SyntaxError>)
        ensures
            theme_known(theme_name@) ==> r is Ok && final(self).spec_theme() == theme_name@
                && final(self).spec_language() == old(self).spec_language() && final(self).spec_cache() == Map::<usize, Seq<(Seq<char>, (u8, u8, u8), Option<(u8, u8, u8)>, HighlightStyle)>>::empty(),
            !theme_known(theme_name@) ==> (r matches Err(SyntaxError::ThemeNotFound(m)) && m@ == theme_name@)
                && final(self).spec_theme() == old(self).spec_theme() && final(self).spec_language() == old(self).spec_language()
                && final(self).spec_cache() == old(self).spec_cache(),
    {
        if !find_theme(theme_name) {
            return Err(SyntaxError::ThemeNotFound(theme_name.to_owned()));
        }
        self.theme = theme_name.to_owned();
        self.clear_cache();
        Ok(())
    }

    /// The names of syntect's default themes: they include the seven that
    /// syntect documents, and each is a known theme.
    pub fn available_themes() -> (r: Vec<String>)
        ensures
            forall|i: int| 0 <= i < documented_themes().len() ==> r@.map_values(|s: String| s@).contains(#[trigger] documented_themes()[i]),
            forall|i: int| 0 <= i < r@.len() ==> theme_known(#[trigger] r@[i]@),
    {
        default_theme_names()
    }

    /// The names of syntect's default languages: each is known by name,
    /// and "Rust" and "Python" are among them.
    pub fn available_languages() -> (r: Vec<String>)
        ensures
            forall|i: int| 0 <= i < r@.len() ==> syntax_known(#[trigger] r@[i]@),
            r@.map_values(|s: String| s@).contains("Rust"@),
            r@.map_values(|s: String| s@).contains("Python"@),
    {
        default_syntax_names()
    }

    /// The theme's background color, else black.
    pub fn background_color(&self) -> (c: (u8, u8, u8))
        ensures
            c == color_or(theme_palette(self.spec_theme()).1, (0u8, 0u8, 0u8)),
    {
        match palette_of(self.theme.as_str()).1 {
            Some(c) => c,
            None => (0, 0, 0),
        }
    }

    /// The theme's text color, else white.
    pub fn foreground_color(&self) -> (c: (u8, u8, u8))
        ensures
            c == theme_foreground(self.spec_theme()),
    {
        match palette_of(self.theme.as_str()).0 {
            Some(c) => c,
            None => (255, 255, 255),
        }
    }

    /// The theme's selection color, else dark grey.
    pub fn selection_color(&self) -> (c: (u8, u8, u8))
        ensures
            c == color_or(theme_palette(self.spec_theme()).2, (64u8, 64u8, 64u8)),
    {
        match palette_of(self.theme.as_str()).2 {
            Some(c) => c,
            None => (64, 64, 64),
        }
    }
}

/// Highlighting lines numbered from `start` on, one after the other,
/// from cache `c`: the cache after, and the spans of each line.
pub open spec fn highlight_run(
    c: Map<usize, Seq<(Seq<char>, (u8, u8, u8), Option<(u8, u8, u8)>, HighlightStyle)>>,
    language: Seq<char>,
    theme: Seq<char>,
    start: usize,
    lines: Seq<Seq<char>>,
) -> (Map<usize, Seq<(Seq<char>, (u8, u8, u8), Option<(u8, u8, u8)>, HighlightStyle)>>, Seq<Seq<(Seq<char>, (u8, u8, u8), Option<(u8, u8, u8)>, HighlightStyle)>>)
    decreases lines.len(),
{
    if lines.len() == 0 {
        (c, Seq::empty())
    } else {
        let prev = highlight_run(c, language, theme, start, lines.drop_last());
        let idx = (start + lines.len() - 1) as usize;
        match cached_at(prev.0, idx) {
            Some(v) => (prev.0, prev.1.push(v)),
            None => {
                let fresh = fresh_spans(language, theme, lines.last());
                (prev.0.insert(idx, fresh), prev.1.push(fresh))
            },
        }
    }
}

impl Highlighter for SyntaxHighlighter {
    fn highlight_line(&mut self, line_idx: usize, line_text: &str) -> Vec<HighlightedSpan> {
        SyntaxHighlighter::highlight_line(self, line_idx, line_text)
    }

    fn invalidate_from_line(&mut self, line_idx: usize) {
        SyntaxHighlighter::invalidate_from_line(self, line_idx);
    }

    fn clear_cache(&mut self) {
        SyntaxHighlighter::clear_cache(self);
    }
}

/// The highlighter chosen for a file or a language: a syntax highlighter
/// where syntect knows the language, else a plain-text one.
pub enum ChosenHighlighter {
    Syntax(SyntaxHighlighter),
    PlainText(PlainTextHighlighter),
}

impl Highlighter for ChosenHighlighter {
    fn highlight_line(&mut self, line_idx: usize, line_text: &str) -> Vec<HighlightedSpan> {
        match self {
            ChosenHighlighter::Syntax(h) => SyntaxHighlighter::highlight_line(h, line_idx, line_text),
            ChosenHighlighter::PlainText(h) => PlainTextHighlighter::highlight_line(h, line_text),
        }
    }

    fn invalidate_from_line(&mut self, line_idx: usize) {
        match self {
            ChosenHighlighter::Syntax(h) => SyntaxHighlighter::invalidate_from_line(h, line_idx),
            ChosenHighlighter::PlainText(_) => {},
        }
    }

    fn clear_cache(&mut self) {
        match self {
            ChosenHighlighter::Syntax(h) => SyntaxHighlighter::clear_cache(h),
            ChosenHighlighter::PlainText(_) => {},
        }
    }
}

/// A fresh highlighter for `language` in the default theme, when syntect
/// knows the language; else a plain-text one in white.
pub open spec fn chosen_for(r: ChosenHighlighter, language: Seq<char>) -> bool {
    if syntax_known(language) {
        r matches ChosenHighlighter::Syntax(h) && h.spec_language() == language
            && h.spec_theme() == default_theme_name() && h.spec_cache() == Map::<usize, Seq<(Seq<char>, (u8, u8, u8), Option<(u8, u8, u8)>, HighlightStyle)>>::empty()
    } else {
        r matches ChosenHighlighter::PlainText(p) && p.spec_color() == (255u8, 255u8, 255u8)
    }
}

/// Makes the highlighter that fits a file or a language.
pub struct HighlighterFactory;

impl HighlighterFactory {
    /// The highlighter for a language: a syntax highlighter exactly when
    /// syntect knows the language.
    pub fn choose_for_language(language: &str) -> (r: ChosenHighlighter)
        ensures
            chosen_for(r, language@),
    {
        match SyntaxHighlighter::new(language) {
            Ok(h) => ChosenHighlighter::Syntax(h),
            Err(_) => ChosenHighlighter::PlainText(PlainTextHighlighter::new()),
        }
    }

    /// The highlighter for the language of a path: a syntax highlighter
    /// exactly when the path's language is detected and syntect knows it.
    pub fn choose_for_file(path: &str) -> (r: ChosenHighlighter)
        ensures
            match path_language(path@) {
                Some(l) => chosen_for(r, language_name(l)@),
                None => r matches ChosenHighlighter::PlainText(p) && p.spec_color() == (255u8, 255u8, 255u8),
            },
    {
        match SyntaxHighlighter::from_path(path) {
            Ok(h) => ChosenHighlighter::Syntax(h),
            Err(_) => ChosenHighlighter::PlainText(PlainTextHighlighter::new()),
        }
    }

    /// A syntax highlighter for the language of a path, else a plain-text
    /// one (the choice of [`HighlighterFactory::choose_for_file`]).
    pub fn create_for_file(path: &str) -> Box<dyn Highlighter> {
        Box::new(Self::choose_for_file(path))
    }

    /// A syntax highlighter for a language, else a plain-text one (the
    /// choice of [`HighlighterFactory::choose_for_language`]).
    pub fn create_for_language(language: &str) -> Box<dyn Highlighter> {
        Box::new(Self::choose_for_language(language))
    }
}

} // verus!
