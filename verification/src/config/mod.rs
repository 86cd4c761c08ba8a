//! Editor settings: the editor section, the keymap section and the
//! per-language overrides, their defaults, merging and validation.

use vstd::prelude::*;
use crate::text::{concat, str_eq};

verus! {

/// Errors of configuration handling.
#[derive(Debug)]
pub enum ConfigError {
    ReadError(String),
    ParseError(String),
    WriteError(String),
    ValidationError(String),
    Io(std::io::Error),
}

/// The text of an I/O error (`Display` of `std::io::Error`). Nothing is
/// stated of it: it comes from the operating system.
#[verifier::external_body]
pub(crate) fn io_error_text(e: &std::io::Error) -> String {
    e.to_string()
}

impl ConfigError {
    /// The message of the error: a fixed text, then what it is about.
    pub fn to_display_string(&self) -> (s: String)
        ensures
            match *self {
                ConfigError::ReadError(m) => s@ == "Failed to read config file: "@ + m@,
                ConfigError::ParseError(m) => s@ == "Failed to parse config: "@ + m@,
                ConfigError::WriteError(m) => s@ == "Failed to write config: "@ + m@,
                ConfigError::ValidationError(m) => s@ == "Invalid configuration: "@ + m@,
                ConfigError::Io(_) => s@.len() >= "IO error: "@.len() && s@.subrange(0, "IO error: "@.len() as int) == "IO error: "@,
            },
    {
        match self {
            ConfigError::ReadError(m) => concat("Failed to read config file: ", m.as_str()),
            ConfigError::ParseError(m) => concat("Failed to parse config: ", m.as_str()),
            ConfigError::WriteError(m) => concat("Failed to write config: ", m.as_str()),
            ConfigError::ValidationError(m) => concat("Invalid configuration: ", m.as_str()),
            ConfigError::Io(e) => {
                let t = io_error_text(e);
                let r = concat("IO error: ", t.as_str());
                proof {
                    assert(r@.subrange(0, "IO error: "@.len() as int) =~= "IO error: "@);
                }
                r
            },
        }
    }
}

/// The editor section.
#[derive(Debug, Clone, PartialEq, Eq)]
pub struct EditorConfig {
    /// Tab width
    pub tab_width: usize,
    /// Spaces in place of tabs
    pub use_spaces: bool,
    /// Detect the indentation of a file
    pub auto_detect_indentation: bool,
    /// `lf`, `crlf` or `cr`
    pub line_ending: String,
    /// Auto-save interval in seconds (0: off)
    pub auto_save_interval: u64,
    /// Largest file to open, in MB
    pub max_file_size_mb: usize,
    /// Largest undo history
    pub max_undo_history: usize,
    /// Undo grouping timeout in milliseconds
    pub undo_group_timeout_ms: u64,
    /// Trim trailing whitespace on save
    pub trim_trailing_whitespace: bool,
    /// Insert a final newline on save
    pub insert_final_newline: bool,
}

/// Whether an editor section holds the default values.
pub open spec fn is_default_editor(c: EditorConfig) -> bool {
    &&& c.tab_width == 4
    &&& c.use_spaces
    &&& c.auto_detect_indentation
    &&& c.line_ending@ == "lf"@
    &&& c.auto_save_interval == 0
    &&& c.max_file_size_mb == 100
    &&& c.max_undo_history == 10000
    &&& c.undo_group_timeout_ms == 300
    &&& !c.trim_trailing_whitespace
    &&& c.insert_final_newline
}

/// The first rule of the editor section that `c` breaks, with its message.
pub open spec fn editor_violation(c: EditorConfig) -> Option<Seq<char>> {
    if c.tab_width == 0 || c.tab_width > 16 {
        Some("tab_width must be between 1 and 16"@)
    } else if !(c.line_ending@ == "lf"@ || c.line_ending@ == "crlf"@ || c.line_ending@ == "cr"@) {
        Some("line_ending must be 'lf', 'crlf', or 'cr'"@)
    } else if c.max_file_size_mb == 0 || c.max_file_size_mb > 1000 {
        Some("max_file_size_mb must be between 1 and 1000"@)
    } else {
        None
    }
}

impl Default for EditorConfig {
    fn default() -> (c: Self)
        ensures
            is_default_editor(c),
    {
        Self {
            tab_width: 4,
            use_spaces: true,
            auto_detect_indentation: true,
            line_ending: "lf".to_owned(),
            auto_save_interval: 0,
            max_file_size_mb: 100,
            max_undo_history: 10000,
            undo_group_timeout_ms: 300,
            trim_trailing_whitespace: false,
            insert_final_newline: true,
        }
    }
}

impl EditorConfig {
    /// Merging takes the other section whole.
    pub fn merge(&mut self, other: EditorConfig)
        ensures
            *final(self) == other,
    {
        *self = other;
    }

    /// Checks the section: a tab width from 1 to 16, a known line ending,
    /// a file size limit from 1 to 1000 MB; the first rule broken is
    /// reported.
    pub fn validate(&self) -> (r: Result<(), ConfigError>)
        ensures
            editor_violation(*self) is None ==> r is Ok,
            editor_violation(*self) matches Some(m) ==> (r matches Err(ConfigError::ValidationError(t)) && t@ == m),
    {
        if self.tab_width == 0 || self.tab_width > 16 {
            return Err(ConfigError::ValidationError("tab_width must be between 1 and 16".to_owned()));
        }
        let le = self.line_ending.as_str();
        if !(str_eq(le, "lf") || str_eq(le, "crlf") || str_eq(le, "cr")) {
            return Err(ConfigError::ValidationError("line_ending must be 'lf', 'crlf', or 'cr'".to_owned()));
        }
        if self.max_file_size_mb == 0 || self.max_file_size_mb > 1000 {
            return Err(ConfigError::ValidationError("max_file_size_mb must be between 1 and 1000".to_owned()));
        }
        Ok(())
    }
}

/// The keymap section: a preset and custom bindings from key texts to
/// command names (each key at most once).
#[derive(Debug, Clone, PartialEq, Eq)]
pub struct KeymapConfig {
    /// The preset
    pub preset: String,
    /// Custom bindings, key text then command name
    pub custom: Vec<(String, String)>,
}

/// The views of a list of text pairs.
pub open spec fn pair_views(v: Seq<(String, String)>) -> Seq<(Seq<char>, Seq<char>)> {
    v.map_values(|p: (String, String)| (p.0@, p.1@))
}

/// The bindings of an association list as a map.
pub open spec fn pairs_map(v: Seq<(Seq<char>, Seq<char>)>) -> Map<Seq<char>, Seq<char>>
    decreases v.len(),
{
    if v.len() == 0 {
        Map::empty()
    } else {
        pairs_map(v.drop_last()).insert(v.last().0, v.last().1)
    }
}

/// No key occurs twice in an association list.
pub open spec fn keys_unique(v: Seq<(Seq<char>, Seq<char>)>) -> bool {
    forall|i: int, j: int| 0 <= i < j < v.len() ==> #[trigger] v[i].0 != #[trigger] v[j].0
}

/// Sets a key in an association list: replaces its value where the key is
/// there, else appends the pair.
fn put_pair(v: &mut Vec<(String, String)>, key: String, value: String)
    requires
        keys_unique(pair_views(old(v)@)),
    ensures
        keys_unique(pair_views(final(v)@)),
        pairs_map(pair_views(final(v)@)) == pairs_map(pair_views(old(v)@)).insert(key@, value@),
{
    let mut i: usize = 0;
    while i < v.len()
        invariant
            i <= v@.len(),
            v@ == old(v)@,
            keys_unique(pair_views(v@)),
            forall|j: int| 0 <= j < i ==> #[trigger] v@[j].0@ != key@,
        decreases v@.len() - i,
    {
        if str_eq(v[i].0.as_str(), key.as_str()) {
            let ghost before = pair_views(v@);
            let k = v[i].0.clone();
            v.set(i, (k, value));
            proof {
                lemma_pairs_map_update(before, i as int, value@);
                assert(pair_views(v@) =~= before.update(i as int, (before[i as int].0, value@)));
            }
            return;
        }
        i = i + 1;
    }
    let ghost before = pair_views(v@);
    v.push((key, value));
    proof {
        assert(pair_views(v@) =~= before.push((key@, value@)));
        assert(pair_views(v@).drop_last() =~= before);
        assert forall|a: int, b: int| 0 <= a < b < pair_views(v@).len() implies
            #[trigger] pair_views(v@)[a].0 != #[trigger] pair_views(v@)[b].0 by {
            if b == before.len() {
                assert(before[a].0 == v@[a].0@);
            } else {
                assert(pair_views(v@)[a] == before[a]);
                assert(pair_views(v@)[b] == before[b]);
            }
        }
    }
}

/// Setting the value at a key that occurs once in an association list
/// sets it in the map.
proof fn lemma_pairs_map_update(v: Seq<(Seq<char>, Seq<char>)>, i: int, val: Seq<char>)
    requires
        0 <= i < v.len(),
        keys_unique(v),
    ensures
        keys_unique(v.update(i, (v[i].0, val))),
        pairs_map(v.update(i, (v[i].0, val))) == pairs_map(v).insert(v[i].0, val),
    decreases v.len(),
{
    let w = v.update(i, (v[i].0, val));
    assert forall|a: int, b: int| 0 <= a < b < w.len() implies #[trigger] w[a].0 != #[trigger] w[b].0 by {
        assert(w[a].0 == v[a].0 && w[b].0 == v[b].0);
    }
    if i == v.len() - 1 {
        assert(w.drop_last() =~= v.drop_last());
        lemma_pairs_map_absent(v.drop_last(), v[i].0);
        assert(pairs_map(w) =~= pairs_map(v).insert(v[i].0, val));
    } else {
        assert(w.drop_last() =~= v.drop_last().update(i, (v[i].0, val)));
        assert forall|a: int, b: int| 0 <= a < b < v.drop_last().len() implies
            #[trigger] v.drop_last()[a].0 != #[trigger] v.drop_last()[b].0 by {
            assert(v.drop_last()[a] == v[a] && v.drop_last()[b] == v[b]);
        }
        lemma_pairs_map_update(v.drop_last(), i, val);
        assert(v.last().0 != v[i].0);
        assert(pairs_map(w) =~= pairs_map(v).insert(v[i].0, val));
    }
}

/// A key that no pair has is not in the map.
proof fn lemma_pairs_map_absent(v: Seq<(Seq<char>, Seq<char>)>, k: Seq<char>)
    requires
        forall|j: int| 0 <= j < v.len() ==> #[trigger] v[j].0 != k,
    ensures
        !pairs_map(v).contains_key(k),
    decreases v.len(),
{
    if v.len() > 0 {
        assert forall|j: int| 0 <= j < v.drop_last().len() implies #[trigger] v.drop_last()[j].0 != k by {
            assert(v.drop_last()[j] == v[j]);
        }
        lemma_pairs_map_absent(v.drop_last(), k);
    }
}

impl Default for KeymapConfig {
    fn default() -> (c: Self)
        ensures
            c.preset@ == "default"@,
            c.custom@.len() == 0,
    {
        Self { preset: "default".to_owned(), custom: Vec::new() }
    }
}

impl KeymapConfig {
    /// The custom bindings as a map from key text to command name.
    pub open spec fn custom_map(&self) -> Map<Seq<char>, Seq<char>> {
        pairs_map(pair_views(self.custom@))
    }

    /// Each key is bound at most once.
    pub open spec fn wf(&self) -> bool {
        keys_unique(pair_views(self.custom@))
    }

    /// Merging takes the other preset, and adds the other's custom bindings
    /// over the own ones.
    pub fn merge(&mut self, other: KeymapConfig)
        requires
            old(self).wf(),
        ensures
            final(self).wf(),
            final(self).preset@ == other.preset@,
            final(self).custom_map() == old(self).custom_map().union_prefer_right(other.custom_map()),
    {
        self.preset = other.preset;
        let ghost start = self.custom_map();
        let custom = other.custom;
        let mut i: usize = 0;
        proof {
            assert(pair_views(custom@.take(0)) =~= Seq::empty());
            assert(start.union_prefer_right(Map::empty()) =~= start);
        }
        while i < custom.len()
            invariant
                i <= custom@.len(),
                self.wf(),
                self.preset@ == other.preset@,
                self.custom_map() == start.union_prefer_right(pairs_map(pair_views(custom@.take(i as int)))),
            decreases custom@.len() - i,
        {
            let k = custom[i].0.clone();
            let v = custom[i].1.clone();
            let ghost before = pairs_map(pair_views(custom@.take(i as int)));
            put_pair(&mut self.custom, k, v);
            proof {
                assert(pair_views(custom@.take(i + 1)).drop_last() =~= pair_views(custom@.take(i as int)));
                assert(pair_views(custom@.take(i + 1)).last() == (custom@[i as int].0@, custom@[i as int].1@));
                assert(start.union_prefer_right(before).insert(k@, v@) =~= start.union_prefer_right(before.insert(k@, v@)));
            }
            i = i + 1;
        }
        proof {
            assert(custom@.take(i as int) =~= custom@);
        }
    }
}

/// Settings that override the editor's for one language.
#[derive(Debug, Clone, Copy, PartialEq, Eq)]
pub struct LanguageConfig {
    pub tab_width: Option<usize>,
    pub use_spaces: Option<bool>,
    pub auto_indent: Option<bool>,
    pub line_length_guide: Option<usize>,
}

/// The language overrides that the editor comes with, by language name:
/// rust, python, javascript and markdown.
pub open spec fn default_language_table() -> Seq<(Seq<char>, LanguageConfig)> {
    seq![
        ("rust"@, LanguageConfig { tab_width: Some(4), use_spaces: Some(true), auto_indent: Some(true), line_length_guide: Some(100) }),
        ("python"@, LanguageConfig { tab_width: Some(4), use_spaces: Some(true), auto_indent: Some(true), line_length_guide: Some(88) }),
        ("javascript"@, LanguageConfig { tab_width: Some(2), use_spaces: Some(true), auto_indent: Some(true), line_length_guide: Some(80) }),
        ("markdown"@, LanguageConfig { tab_width: Some(2), use_spaces: Some(true), auto_indent: Some(false), line_length_guide: None }),
    ]
}

/// The language overrides that the editor comes with (see
/// [`default_language_table`]).
pub fn default_languages() -> (r: Vec<(String, LanguageConfig)>)
    ensures
        r@.len() == default_language_table().len(),
        forall|i: int| 0 <= i < r@.len() ==> (#[trigger] r@[i]).0@ == default_language_table()[i].0
            && r@[i].1 == default_language_table()[i].1,
{
    let mut languages: Vec<(String, LanguageConfig)> = Vec::new();
    languages.push((
        "rust".to_owned(),
        LanguageConfig { tab_width: Some(4), use_spaces: Some(true), auto_indent: Some(true), line_length_guide: Some(100) },
    ));
    languages.push((
        "python".to_owned(),
        LanguageConfig { tab_width: Some(4), use_spaces: Some(true), auto_indent: Some(true), line_length_guide: Some(88) },
    ));
    languages.push((
        "javascript".to_owned(),
        LanguageConfig { tab_width: Some(2), use_spaces: Some(true), auto_indent: Some(true), line_length_guide: Some(80) },
    ));
    languages.push((
        "markdown".to_owned(),
        LanguageConfig { tab_width: Some(2), use_spaces: Some(true), auto_indent: Some(false), line_length_guide: None },
    ));
    languages
}

} // verus!
