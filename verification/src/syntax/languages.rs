//! Languages: their names, file extensions, special file names, shebang
//! patterns and comment styles, and detection of a file's language from
//! its path or its content.

use vstd::prelude::*;
use crate::text::{
    after_last, after_last_start, lemma_find_from_occurs, occurs_at, chars_contain, contains_sub, find_chars, find_sub,
    leading_ws_count, starts_with, str_eq, lower_of, str_to_chars, string_to_lower,
    subrange_string, trim_start,
};

verus! {

/// The supported languages.
#[derive(Debug, Clone, Copy, PartialEq, Eq, Hash, Structural)]
pub enum Language {
    Rust,
    Python,
    JavaScript,
    TypeScript,
    Markdown,
    Json,
    Toml,
    Yaml,
    Html,
    Css,
    PlainText,
}

/// Comment styles.
#[derive(Debug, Clone, Copy, PartialEq, Eq, Structural)]
pub enum CommentStyle {
    /// `//` line comments, `/* */` block comments
    CStyle,
    /// `#` line comments
    Hash,
    /// `<!-- -->` comments
    Html,
}

/// Every language, in the order in which detection tries them.
pub open spec fn all_languages_seq() -> Seq<Language> {
    seq![
        Language::Rust,
        Language::Python,
        Language::JavaScript,
        Language::TypeScript,
        Language::Markdown,
        Language::Json,
        Language::Toml,
        Language::Yaml,
        Language::Html,
        Language::Css,
        Language::PlainText,
    ]
}

/// A language's display name.
pub open spec fn language_name(l: Language) -> &'static str {
    match l {
        Language::Rust => "Rust",
        Language::Python => "Python",
        Language::JavaScript => "JavaScript",
        Language::TypeScript => "TypeScript",
        Language::Markdown => "Markdown",
        Language::Json => "JSON",
        Language::Toml => "TOML",
        Language::Yaml => "YAML",
        Language::Html => "HTML",
        Language::Css => "CSS",
        Language::PlainText => "Plain Text",
    }
}

/// A language's typical file extensions.
pub open spec fn language_extensions(l: Language) -> Seq<&'static str> {
    match l {
        Language::Rust => seq!["rs"],
        Language::Python => seq!["py", "pyw", "pyi"],
        Language::JavaScript => seq!["js", "jsx", "mjs", "cjs"],
        Language::TypeScript => seq!["ts", "tsx"],
        Language::Markdown => seq!["md", "markdown", "mdown", "mkd"],
        Language::Json => seq!["json"],
        Language::Toml => seq!["toml"],
        Language::Yaml => seq!["yaml", "yml"],
        Language::Html => seq!["html", "htm"],
        Language::Css => seq!["css"],
        Language::PlainText => seq!["txt", "text"],
    }
}

/// The special file names of a language.
pub open spec fn language_filenames(l: Language) -> Seq<&'static str> {
    match l {
        Language::Rust => seq!["Cargo.toml"],
        Language::Python => seq!["requirements.txt", "setup.py", "pyproject.toml"],
        Language::JavaScript => seq!["package.json"],
        Language::TypeScript => seq!["tsconfig.json"],
        Language::Markdown => seq!["README.md", "CHANGELOG.md"],
        Language::Toml => seq!["Cargo.toml", "pyproject.toml"],
        _ => Seq::empty(),
    }
}

/// The shebang patterns of a language.
pub open spec fn language_shebangs(l: Language) -> Seq<&'static str> {
    match l {
        Language::Python => seq!["python", "python3", "python2"],
        Language::JavaScript => seq!["node", "nodejs"],
        _ => Seq::empty(),
    }
}

/// A language's comment style, if it has comments.
pub open spec fn language_comments(l: Language) -> Option<CommentStyle> {
    match l {
        Language::Rust | Language::JavaScript | Language::TypeScript | Language::Css => Some(CommentStyle::CStyle),
        Language::Python | Language::Toml | Language::Yaml => Some(CommentStyle::Hash),
        Language::Html => Some(CommentStyle::Html),
        _ => None,
    }
}

impl Language {
    /// The display name.
    pub fn name(&self) -> (s: &'static str)
        ensures
            s == language_name(*self),
    {
        match self {
            Language::Rust => "Rust",
            Language::Python => "Python",
            Language::JavaScript => "JavaScript",
            Language::TypeScript => "TypeScript",
            Language::Markdown => "Markdown",
            Language::Json => "JSON",
            Language::Toml => "TOML",
            Language::Yaml => "YAML",
            Language::Html => "HTML",
            Language::Css => "CSS",
            Language::PlainText => "Plain Text",
        }
    }

    /// The name of the syntax definition for the highlighter, which is the
    /// display name.
    pub fn syntect_name(&self) -> (s: &'static str)
        ensures
            s == language_name(*self),
    {
        self.name()
    }

    /// The typical file extensions.
    pub fn extensions(&self) -> (r: &'static [&'static str])
        ensures
            r@ == language_extensions(*self),
    {
        match self {
            Language::Rust => &["rs"],
            Language::Python => &["py", "pyw", "pyi"],
            Language::JavaScript => &["js", "jsx", "mjs", "cjs"],
            Language::TypeScript => &["ts", "tsx"],
            Language::Markdown => &["md", "markdown", "mdown", "mkd"],
            Language::Json => &["json"],
            Language::Toml => &["toml"],
            Language::Yaml => &["yaml", "yml"],
            Language::Html => &["html", "htm"],
            Language::Css => &["css"],
            Language::PlainText => &["txt", "text"],
        }
    }

    /// The special file names.
    pub fn special_filenames(&self) -> (r: &'static [&'static str])
        ensures
            r@ == language_filenames(*self),
    {
        match self {
            Language::Rust => &["Cargo.toml"],
            Language::Python => &["requirements.txt", "setup.py", "pyproject.toml"],
            Language::JavaScript => &["package.json"],
            Language::TypeScript => &["tsconfig.json"],
            Language::Markdown => &["README.md", "CHANGELOG.md"],
            Language::Toml => &["Cargo.toml", "pyproject.toml"],
            _ => &[],
        }
    }

    /// The shebang patterns.
    pub fn shebang_patterns(&self) -> (r: &'static [&'static str])
        ensures
            r@ == language_shebangs(*self),
    {
        match self {
            Language::Python => &["python", "python3", "python2"],
            Language::JavaScript => &["node", "nodejs"],
            _ => &[],
        }
    }

    /// The comment style, if the language has comments.
    pub fn comment_style(&self) -> (r: Option<CommentStyle>)
        ensures
            r == language_comments(*self),
    {
        match self {
            Language::Rust | Language::JavaScript | Language::TypeScript | Language::Css => Some(CommentStyle::CStyle),
            Language::Python | Language::Toml | Language::Yaml => Some(CommentStyle::Hash),
            Language::Html => Some(CommentStyle::Html),
            _ => None,
        }
    }
}

impl CommentStyle {
    /// The line comment prefix.
    pub fn line_prefix(&self) -> (s: &'static str)
        ensures
            s == (match *self {
                CommentStyle::CStyle => "//",
                CommentStyle::Hash => "#",
                CommentStyle::Html => "<!--",
            }),
    {
        match self {
            CommentStyle::CStyle => "//",
            CommentStyle::Hash => "#",
            CommentStyle::Html => "<!--",
        }
    }

    /// The block comment delimiters, if the style has block comments.
    pub fn block_delimiters(&self) -> (r: Option<(&'static str, &'static str)>)
        ensures
            r == (match *self {
                CommentStyle::CStyle => Some(("/*", "*/")),
                CommentStyle::Html => Some(("<!--", "-->")),
                CommentStyle::Hash => None,
            }),
    {
        match self {
            CommentStyle::CStyle => Some(("/*", "*/")),
            CommentStyle::Html => Some(("<!--", "-->")),
            CommentStyle::Hash => None,
        }
    }
}


/// The first language of `langs` for which `pred` holds.
pub open spec fn first_language(langs: Seq<Language>, pred: spec_fn(Language) -> bool) -> Option<Language>
    decreases langs.len(),
{
    if langs.len() == 0 {
        None
    } else if pred(langs[0]) {
        Some(langs[0])
    } else {
        first_language(langs.drop_first(), pred)
    }
}

/// One step of the search for the first language.
pub proof fn lemma_first_language_step(langs: Seq<Language>, pred: spec_fn(Language) -> bool, i: int)
    requires
        0 <= i < langs.len(),
    ensures
        pred(langs[i]) ==> first_language(langs.subrange(i, langs.len() as int), pred) == Some(langs[i]),
        !pred(langs[i]) ==> first_language(langs.subrange(i, langs.len() as int), pred)
            == first_language(langs.subrange(i + 1, langs.len() as int), pred),
{
    let t = langs.subrange(i, langs.len() as int);
    assert(t[0] == langs[i]);
    assert(t.drop_first() =~= langs.subrange(i + 1, langs.len() as int));
}

/// The lower-cased name of a language: its length, and its first
/// character.
proof fn lemma_lower_name(l: Language)
    ensures
        lower_of(language_name(l)@).len() == language_name(l)@.len(),
        lower_of(language_name(l)@).len() > 0,
        lower_of(language_name(l)@)[0] == crate::text::ascii_lower_char(language_name(l)@[0]),
        lower_of(language_name(l)@) == crate::text::ascii_lower(language_name(l)@),
{
    reveal_strlit("Rust");
    reveal_strlit("Python");
    reveal_strlit("JavaScript");
    reveal_strlit("TypeScript");
    reveal_strlit("Markdown");
    reveal_strlit("JSON");
    reveal_strlit("TOML");
    reveal_strlit("YAML");
    reveal_strlit("HTML");
    reveal_strlit("CSS");
    reveal_strlit("Plain Text");
    let n = language_name(l)@;
    assert(crate::text::is_ascii_text(n));
}

/// Every language is found by its name, whatever the case of the name's
/// ASCII letters: for a text whose ASCII lower-case form is that of the
/// language's name, the first language whose lower-cased name matches is
/// that language.
pub proof fn lemma_name_finds_language(l: Language, name: Seq<char>)
    requires
        crate::text::is_ascii_text(name),
        crate::text::ascii_lower(name) == crate::text::ascii_lower(language_name(l)@),
    ensures
        first_language(all_languages_seq(), name_pred(lower_of(name))) == Some(l),
{
    lemma_lower_name(Language::Rust);
    lemma_lower_name(Language::Python);
    lemma_lower_name(Language::JavaScript);
    lemma_lower_name(Language::TypeScript);
    lemma_lower_name(Language::Markdown);
    lemma_lower_name(Language::Json);
    lemma_lower_name(Language::Toml);
    lemma_lower_name(Language::Yaml);
    lemma_lower_name(Language::Html);
    lemma_lower_name(Language::Css);
    lemma_lower_name(Language::PlainText);
    reveal_strlit("Rust");
    reveal_strlit("Python");
    reveal_strlit("JavaScript");
    reveal_strlit("TypeScript");
    reveal_strlit("Markdown");
    reveal_strlit("JSON");
    reveal_strlit("TOML");
    reveal_strlit("YAML");
    reveal_strlit("HTML");
    reveal_strlit("CSS");
    reveal_strlit("Plain Text");
    reveal_with_fuel(first_language, 12);
    assert(lower_of(name) == lower_of(language_name(l)@));
}

/// Whether `x` differs from each of `names` in its length or in one of
/// its first two characters.
spec fn apart_from_all(names: Seq<&'static str>, x: Seq<char>) -> bool {
    forall|j: int| 0 <= j < names.len() ==> #[trigger] names[j]@.len() != x.len()
        || (x.len() > 0 && names[j]@[0] != x[0]) || (x.len() > 1 && names[j]@[1] != x[1])
}

proof fn lemma_apart_not_named(names: Seq<&'static str>, x: Seq<char>)
    requires
        apart_from_all(names, x),
    ensures
        !has_name(names, x),
{
    if has_name(names, x) {
        let j = choose|j: int| 0 <= j < names.len() && #[trigger] names[j]@ == x;
        assert(names[j]@.len() == x.len());
    }
}

/// Every extension that a language lists detects that language, whatever
/// the case of its ASCII letters: no language tried before it lists the
/// same extension.
#[verifier::rlimit(50)]
pub proof fn lemma_extension_finds_language(l: Language, i: int, e: Seq<char>)
    requires
        0 <= i < language_extensions(l).len(),
        crate::text::is_ascii_text(e),
        crate::text::ascii_lower(e) == language_extensions(l)[i]@,
    ensures
        first_language(all_languages_seq(), extension_pred(lower_of(e))) == Some(l),
{
    reveal_strlit("rs");
    reveal_strlit("py");
    reveal_strlit("pyw");
    reveal_strlit("pyi");
    reveal_strlit("js");
    reveal_strlit("jsx");
    reveal_strlit("mjs");
    reveal_strlit("cjs");
    reveal_strlit("ts");
    reveal_strlit("tsx");
    reveal_strlit("md");
    reveal_strlit("markdown");
    reveal_strlit("mdown");
    reveal_strlit("mkd");
    reveal_strlit("json");
    reveal_strlit("toml");
    reveal_strlit("yaml");
    reveal_strlit("yml");
    reveal_strlit("html");
    reveal_strlit("htm");
    reveal_strlit("css");
    reveal_strlit("txt");
    reveal_strlit("text");
    let x = lower_of(e);
    assert(x == language_extensions(l)[i]@);
    assert(has_name(language_extensions(l), x));
    let langs = all_languages_seq();
    assert forall|k: int| 0 <= k < langs.len() && langs[k] != l implies apart_from_all(language_extensions(#[trigger] langs[k]), x) by {
        let names = language_extensions(langs[k]);
        assert forall|j: int| 0 <= j < names.len() implies #[trigger] names[j]@.len() != x.len()
            || (x.len() > 0 && names[j]@[0] != x[0]) || (x.len() > 1 && names[j]@[1] != x[1]) by {
        }
    }
    reveal_with_fuel(first_language, 12);
    assert forall|k: int| 0 <= k < langs.len() && langs[k] != l implies !has_name(language_extensions(#[trigger] langs[k]), x) by {
        lemma_apart_not_named(language_extensions(langs[k]), x);
    }
}

/// A path whose file name no language lists as a special file name, and
/// whose extension is one that a language lists (in any ASCII case), is
/// detected as that language.
pub proof fn lemma_path_extension_detects(p: Seq<char>, n: Seq<char>, e: Seq<char>, l: Language, i: int)
    requires
        path_file_name(p) == Some(n),
        first_language(all_languages_seq(), filename_pred(n)) is None,
        name_extension(n) == Some(e),
        0 <= i < language_extensions(l).len(),
        crate::text::is_ascii_text(e),
        crate::text::ascii_lower(e) == language_extensions(l)[i]@,
    ensures
        path_language(p) == Some(l),
{
    lemma_extension_finds_language(l, i, e);
}

/// `n` is one of `names`.
pub open spec fn has_name(names: Seq<&'static str>, n: Seq<char>) -> bool {
    exists|i: int| 0 <= i < names.len() && #[trigger] names[i]@ == n
}

/// Some pattern of `pats` occurs in `line`.
pub open spec fn has_pattern_in(pats: Seq<&'static str>, line: Seq<char>) -> bool {
    exists|i: int| 0 <= i < pats.len() && contains_sub(line, #[trigger] pats[i]@)
}

/// A language whose special file names include `n`.
pub open spec fn filename_pred(n: Seq<char>) -> spec_fn(Language) -> bool {
    |l: Language| has_name(language_filenames(l), n)
}

/// A language whose extensions include `e`.
pub open spec fn extension_pred(e: Seq<char>) -> spec_fn(Language) -> bool {
    |l: Language| has_name(language_extensions(l), e)
}

/// A language one of whose shebang patterns occurs in `line`.
pub open spec fn shebang_pred(line: Seq<char>) -> spec_fn(Language) -> bool {
    |l: Language| has_pattern_in(language_shebangs(l), line)
}

/// A language whose lower-cased name is `lower`.
pub open spec fn name_pred(lower: Seq<char>) -> spec_fn(Language) -> bool {
    |l: Language| lower_of(language_name(l)@) == lower
}

/// `s` without the `/` characters at its end.
pub open spec fn strip_trailing_slashes(s: Seq<char>) -> Seq<char>
    decreases s.len(),
{
    if s.len() > 0 && s.last() == '/' {
        strip_trailing_slashes(s.drop_last())
    } else {
        s
    }
}

/// The file name of a `/`-separated path: its last component, unless that
/// is empty, `.` or `..`.
pub open spec fn path_file_name(p: Seq<char>) -> Option<Seq<char>> {
    let n = after_last(strip_trailing_slashes(p), '/');
    if n.len() == 0 || n == seq!['.'] || n == seq!['.', '.'] {
        None
    } else {
        Some(n)
    }
}

/// The extension of a file name: what follows its last `.`, unless there
/// is none or the only one begins the name.
pub open spec fn name_extension(n: Seq<char>) -> Option<Seq<char>> {
    let e = after_last(n, '.');
    if e.len() + 1 >= n.len() {
        None
    } else {
        Some(e)
    }
}

/// The language of a path: by its file name first, then by its extension
/// (lower-cased).
pub open spec fn path_language(p: Seq<char>) -> Option<Language> {
    match path_file_name(p) {
        None => None,
        Some(n) => match first_language(all_languages_seq(), filename_pred(n)) {
            Some(l) => Some(l),
            None => match name_extension(n) {
                Some(e) => first_language(all_languages_seq(), extension_pred(lower_of(e))),
                None => None,
            },
        },
    }
}

/// The first line of a text, as `str::lines` gives it (none for an empty
/// text).
pub open spec fn first_line(s: Seq<char>) -> Option<Seq<char>> {
    if s.len() == 0 {
        None
    } else {
        match find_sub(s, seq!['\n']) {
            Some(k) => Some(
                if k > 0 && s[k - 1] == '\r' {
                    s.subrange(0, k - 1)
                } else {
                    s.subrange(0, k)
                },
            ),
            None => Some(s),
        }
    }
}

/// The language named by a text's shebang line, found in the lower-cased
/// line.
pub open spec fn shebang_language(s: Seq<char>) -> Option<Language> {
    match first_line(s) {
        Some(line) => if starts_with(line, seq!['#', '!']) {
            first_language(all_languages_seq(), shebang_pred(lower_of(line)))
        } else {
            None
        },
        None => None,
    }
}

/// The language that a text's content suggests, by the patterns it holds.
pub open spec fn pattern_language(s: Seq<char>) -> Option<Language> {
    if contains_sub(s, "fn main()"@) || contains_sub(s, "impl "@) || contains_sub(s, "pub struct "@) {
        Some(Language::Rust)
    } else if (contains_sub(s, "def "@) && contains_sub(s, ":"@)) || contains_sub(s, "import "@) {
        Some(Language::Python)
    } else if contains_sub(s, "function "@) || contains_sub(s, "const "@) || contains_sub(s, "=>"@) {
        Some(Language::JavaScript)
    } else if contains_sub(s, "interface "@) || contains_sub(s, ": string"@) || contains_sub(s, ": number"@) {
        Some(Language::TypeScript)
    } else if contains_sub(s, "# "@) && contains_sub(s, "\n## "@) {
        Some(Language::Markdown)
    } else if starts_with(trim_start(s), seq!['{']) && contains_sub(s, "\":"@) {
        Some(Language::Json)
    } else if contains_sub(s, "["@) && contains_sub(s, "]"@) && contains_sub(s, " = "@) {
        Some(Language::Toml)
    } else if contains_sub(s, "<!DOCTYPE"@) || contains_sub(s, "<html"@) {
        Some(Language::Html)
    } else {
        None
    }
}

/// The language of a text: by its shebang line first, then by its
/// patterns.
pub open spec fn content_language(s: Seq<char>) -> Option<Language> {
    match shebang_language(s) {
        Some(l) => Some(l),
        None => pattern_language(s),
    }
}

/// Whether `n` is one of `names`.
fn has_name_exec(names: &[&'static str], n: &str) -> (b: bool)
    ensures
        b == has_name(names@, n@),
{
    let mut i: usize = 0;
    while i < names.len()
        invariant
            i <= names@.len(),
            forall|j: int| 0 <= j < i ==> #[trigger] names@[j]@ != n@,
        decreases names@.len() - i,
    {
        if str_eq(names[i], n) {
            return true;
        }
        i = i + 1;
    }
    false
}

/// Whether some pattern of `pats` occurs in `line`.
fn has_pattern_exec(pats: &[&'static str], line: &[char]) -> (b: bool)
    ensures
        b == has_pattern_in(pats@, line@),
{
    let mut i: usize = 0;
    while i < pats.len()
        invariant
            i <= pats@.len(),
            forall|j: int| 0 <= j < i ==> !contains_sub(line@, #[trigger] pats@[j]@),
        decreases pats@.len() - i,
    {
        if chars_contain(line, pats[i]) {
            return true;
        }
        i = i + 1;
    }
    false
}

/// The file name of a `/`-separated path (see [`path_file_name`]).
pub fn file_name_of(path: &str) -> (r: Option<String>)
    ensures
        r matches Some(n) ==> path_file_name(path@) == Some(n@),
        r is None ==> path_file_name(path@) is None,
{
    let v = str_to_chars(path);
    let mut end: usize = v.len();
    proof {
        assert(v@.take(end as int) =~= v@);
    }
    while end > 0 && v[end - 1] == '/'
        invariant
            end <= v@.len(),
            strip_trailing_slashes(v@.take(end as int)) == strip_trailing_slashes(v@),
        decreases end,
    {
        proof {
            assert(v@.take(end as int).drop_last() =~= v@.take(end - 1));
        }
        end = end - 1;
    }
    let t = str_to_chars(&subrange_string(v.as_slice(), 0, end));
    proof {
        assert(v@.subrange(0, end as int) =~= v@.take(end as int));
    }
    let k = after_last_start(t.as_slice(), '/');
    let n = subrange_string(t.as_slice(), k, t.len());
    let nc = str_to_chars(&n);
    if nc.len() == 0 || (nc.len() == 1 && nc[0] == '.') || (nc.len() == 2 && nc[0] == '.' && nc[1] == '.') {
        proof {
            if nc@.len() == 1 {
                assert(nc@ =~= seq!['.']);
            }
            if nc@.len() == 2 {
                assert(nc@ =~= seq!['.', '.']);
            }
        }
        None
    } else {
        proof {
            if nc@ == seq!['.'] {
                assert(nc@[0] == '.');
            }
            if nc@ == seq!['.', '.'] {
                assert(nc@[0] == '.' && nc@[1] == '.');
            }
        }
        Some(n)
    }
}

/// The extension of a file name (see [`name_extension`]).
pub fn extension_of(name: &str) -> (r: Option<String>)
    ensures
        r matches Some(e) ==> name_extension(name@) == Some(e@),
        r is None ==> name_extension(name@) is None,
{
    let v = str_to_chars(name);
    let k = after_last_start(v.as_slice(), '.');
    if k <= 1 {
        None
    } else {
        Some(subrange_string(v.as_slice(), k, v.len()))
    }
}

/// Language detection.
pub struct LanguageDetector;

impl LanguageDetector {
    /// Every language, in the order in which detection tries them.
    pub fn all_languages() -> (r: &'static [Language])
        ensures
            r@ == all_languages_seq(),
    {
        &[
            Language::Rust,
            Language::Python,
            Language::JavaScript,
            Language::TypeScript,
            Language::Markdown,
            Language::Json,
            Language::Toml,
            Language::Yaml,
            Language::Html,
            Language::Css,
            Language::PlainText,
        ]
    }

    /// The first language that lists `name` among its special file names.
    pub fn language_for_filename(name: &str) -> (r: Option<Language>)
        ensures
            r == first_language(all_languages_seq(), filename_pred(name@)),
    {
        let langs = Self::all_languages();
        let mut i: usize = 0;
        proof {
            assert(langs@.subrange(0, langs@.len() as int) =~= langs@);
        }
        while i < langs.len()
            invariant
                i <= langs@.len(),
                langs@ == all_languages_seq(),
                first_language(all_languages_seq(), filename_pred(name@))
                    == first_language(langs@.subrange(i as int, langs@.len() as int), filename_pred(name@)),
            decreases langs@.len() - i,
        {
            proof {
                lemma_first_language_step(langs@, filename_pred(name@), i as int);
            }
            if has_name_exec(langs[i].special_filenames(), name) {
                return Some(langs[i]);
            }
            i = i + 1;
        }
        None
    }

    /// The first language that lists `ext` among its extensions.
    pub fn language_for_extension(ext: &str) -> (r: Option<Language>)
        ensures
            r == first_language(all_languages_seq(), extension_pred(ext@)),
    {
        let langs = Self::all_languages();
        let mut i: usize = 0;
        proof {
            assert(langs@.subrange(0, langs@.len() as int) =~= langs@);
        }
        while i < langs.len()
            invariant
                i <= langs@.len(),
                langs@ == all_languages_seq(),
                first_language(all_languages_seq(), extension_pred(ext@))
                    == first_language(langs@.subrange(i as int, langs@.len() as int), extension_pred(ext@)),
            decreases langs@.len() - i,
        {
            proof {
                lemma_first_language_step(langs@, extension_pred(ext@), i as int);
            }
            if has_name_exec(langs[i].extensions(), ext) {
                return Some(langs[i]);
            }
            i = i + 1;
        }
        None
    }

    /// The first language one of whose shebang patterns occurs in the
    /// (lower-cased) shebang line.
    pub fn language_for_shebang(line: &str) -> (r: Option<Language>)
        ensures
            r == first_language(all_languages_seq(), shebang_pred(line@)),
    {
        let lc = str_to_chars(line);
        let langs = Self::all_languages();
        let mut i: usize = 0;
        proof {
            assert(langs@.subrange(0, langs@.len() as int) =~= langs@);
        }
        while i < langs.len()
            invariant
                i <= langs@.len(),
                langs@ == all_languages_seq(),
                lc@ == line@,
                first_language(all_languages_seq(), shebang_pred(line@))
                    == first_language(langs@.subrange(i as int, langs@.len() as int), shebang_pred(line@)),
            decreases langs@.len() - i,
        {
            proof {
                lemma_first_language_step(langs@, shebang_pred(line@), i as int);
            }
            if has_pattern_exec(langs[i].shebang_patterns(), lc.as_slice()) {
                return Some(langs[i]);
            }
            i = i + 1;
        }
        None
    }

    /// The first language whose lower-cased name is `lower`.
    pub fn language_for_lower_name(lower: &str) -> (r: Option<Language>)
        ensures
            r == first_language(all_languages_seq(), name_pred(lower@)),
    {
        let langs = Self::all_languages();
        let mut i: usize = 0;
        proof {
            assert(langs@.subrange(0, langs@.len() as int) =~= langs@);
        }
        while i < langs.len()
            invariant
                i <= langs@.len(),
                langs@ == all_languages_seq(),
                first_language(all_languages_seq(), name_pred(lower@))
                    == first_language(langs@.subrange(i as int, langs@.len() as int), name_pred(lower@)),
            decreases langs@.len() - i,
        {
            proof {
                lemma_first_language_step(langs@, name_pred(lower@), i as int);
            }
            let n = string_to_lower(langs[i].name());
            if str_eq(&n, lower) {
                return Some(langs[i]);
            }
            i = i + 1;
        }
        None
    }

    /// The language of a path (see [`path_language`]): the file name is
    /// looked up first, then the lower-cased extension.
    pub fn detect_from_path(path: &str) -> (r: Option<Language>)
        ensures
            r == path_language(path@),
    {
        match file_name_of(path) {
            None => None,
            Some(n) => match Self::language_for_filename(&n) {
                Some(l) => Some(l),
                None => match extension_of(&n) {
                    Some(e) => {
                        let lower = string_to_lower(&e);
                        Self::language_for_extension(&lower)
                    },
                    None => None,
                },
            },
        }
    }

    /// The language named by the shebang line of a text (see
    /// [`shebang_language`]).
    fn detect_from_shebang(content: &str) -> (r: Option<Language>)
        ensures
            r == shebang_language(content@),
    {
        let v = str_to_chars(content);
        if v.len() == 0 {
            return None;
        }
        let nl = vec!['\n'];
        proof {
            assert(nl@ =~= seq!['\n']);
            lemma_find_from_occurs(v@, nl@, 0);
        }
        let end = match find_chars(v.as_slice(), nl.as_slice()) {
            Some(k) => if k > 0 && v[k - 1] == '\r' { k - 1 } else { k },
            None => v.len(),
        };
        let line = subrange_string(v.as_slice(), 0, end);
        proof {
            assert(v@ =~= content@);
            if end == v@.len() {
                assert(v@.subrange(0, end as int) =~= v@);
            }
        }
        let lc = str_to_chars(&line);
        if lc.len() < 2 || lc[0] != '#' || lc[1] != '!' {
            proof {
                if starts_with(lc@, seq!['#', '!']) {
                    assert(lc@.subrange(0, 2)[0] == '#');
                    assert(lc@.subrange(0, 2)[1] == '!');
                }
            }
            return None;
        }
        proof {
            assert(lc@.subrange(0, 2) =~= seq!['#', '!']);
        }
        let lower = string_to_lower(&line);
        Self::language_for_shebang(&lower)
    }

    /// The language that a text's patterns suggest (see
    /// [`pattern_language`]).
    fn detect_from_patterns(content: &str) -> (r: Option<Language>)
        ensures
            r == pattern_language(content@),
    {
        let v = str_to_chars(content);
        let s = v.as_slice();
        if chars_contain(s, "fn main()") || chars_contain(s, "impl ") || chars_contain(s, "pub struct ") {
            return Some(Language::Rust);
        }
        if (chars_contain(s, "def ") && chars_contain(s, ":")) || chars_contain(s, "import ") {
            return Some(Language::Python);
        }
        if chars_contain(s, "function ") || chars_contain(s, "const ") || chars_contain(s, "=>") {
            return Some(Language::JavaScript);
        }
        if chars_contain(s, "interface ") || chars_contain(s, ": string") || chars_contain(s, ": number") {
            return Some(Language::TypeScript);
        }
        if chars_contain(s, "# ") && chars_contain(s, "\n## ") {
            return Some(Language::Markdown);
        }
        let k = leading_ws_count(s);
        let brace = k < v.len() && v[k] == '{';
        proof {
            let t = trim_start(v@);
            if brace {
                assert(t.subrange(0, 1) =~= seq!['{']);
            }
            if starts_with(t, seq!['{']) {
                assert(t.subrange(0, 1)[0] == '{');
                assert(t[0] == v@[k as int]);
            }
        }
        if brace && chars_contain(s, "\":") {
            return Some(Language::Json);
        }
        if chars_contain(s, "[") && chars_contain(s, "]") && chars_contain(s, " = ") {
            return Some(Language::Toml);
        }
        if chars_contain(s, "<!DOCTYPE") || chars_contain(s, "<html") {
            return Some(Language::Html);
        }
        None
    }

    /// The language of a text (see [`content_language`]): by its shebang
    /// line first, then by its patterns.
    pub fn detect_from_content(content: &str) -> (r: Option<Language>)
        ensures
            r == content_language(content@),
    {
        match Self::detect_from_shebang(content) {
            Some(l) => Some(l),
            None => Self::detect_from_patterns(content),
        }
    }

    /// The language whose name is `name`, ignoring case.
    pub fn get_by_name(name: &str) -> (r: Option<Language>)
        ensures
            r == first_language(all_languages_seq(), name_pred(lower_of(name@))),
    {
        let lower = string_to_lower(name);
        Self::language_for_lower_name(&lower)
    }
}

/// The default editing settings of a language.
#[derive(Debug, Clone, Copy, PartialEq, Eq)]
pub struct LanguageConfig {
    pub language: Language,
    pub tab_width: usize,
    pub use_spaces: bool,
    pub auto_indent: bool,
}

/// The default tab width of a language.
pub open spec fn default_tab_width(l: Language) -> usize {
    match l {
        Language::Rust | Language::Python | Language::Markdown | Language::PlainText => 4,
        _ => 2,
    }
}

impl LanguageConfig {
    /// The default settings for a language: spaces always; a tab width of
    /// 4 for Rust, Python, Markdown and plain text and 2 otherwise;
    /// auto-indent but for Markdown and plain text.
    pub fn default_for(language: Language) -> (c: Self)
        ensures
            c.language == language,
            c.tab_width == default_tab_width(language),
            c.use_spaces,
            c.auto_indent == !(language == Language::Markdown || language == Language::PlainText),
    {
        match language {
            Language::Rust => Self { language, tab_width: 4, use_spaces: true, auto_indent: true },
            Language::Python => Self { language, tab_width: 4, use_spaces: true, auto_indent: true },
            Language::JavaScript | Language::TypeScript => Self {
                language,
                tab_width: 2,
                use_spaces: true,
                auto_indent: true,
            },
            Language::Json | Language::Html | Language::Css => Self {
                language,
                tab_width: 2,
                use_spaces: true,
                auto_indent: true,
            },
            Language::Markdown | Language::PlainText => Self {
                language,
                tab_width: 4,
                use_spaces: true,
                auto_indent: false,
            },
            Language::Toml | Language::Yaml => Self {
                language,
                tab_width: 2,
                use_spaces: true,
                auto_indent: true,
            },
        }
    }
}

/// Content without a shebang line is recognized by its patterns, checked
/// in turn: Rust ("fn main()", "impl ", "pub struct "), then Python ("def "
/// with ":", or "import "), then JavaScript ("function ", "const ", "=>"),
/// then TypeScript ("interface ", ": string", ": number"), then Markdown
/// ("# " with a "## " heading line), JSON (an opening brace first and
/// `":`), TOML (brackets and " = ") and HTML (a doctype or `<html`);
/// content that holds the patterns of one of these and of none before it
/// is detected as that language, and content that holds none of them is
/// not recognized.
pub proof fn lemma_content_patterns(s: Seq<char>)
    requires
        shebang_language(s) is None,
    ensures
        ({
            let rust = contains_sub(s, "fn main()"@) || contains_sub(s, "impl "@) || contains_sub(s, "pub struct "@);
            let python = (contains_sub(s, "def "@) && contains_sub(s, ":"@)) || contains_sub(s, "import "@);
            let javascript = contains_sub(s, "function "@) || contains_sub(s, "const "@) || contains_sub(s, "=>"@);
            let typescript = contains_sub(s, "interface "@) || contains_sub(s, ": string"@) || contains_sub(s, ": number"@);
            &&& rust ==> content_language(s) == Some(Language::Rust)
            &&& !rust && python ==> content_language(s) == Some(Language::Python)
            &&& !rust && !python && javascript ==> content_language(s) == Some(Language::JavaScript)
            &&& !rust && !python && !javascript && typescript ==> content_language(s) == Some(Language::TypeScript)
        }),
        ({
            let earlier = contains_sub(s, "fn main()"@) || contains_sub(s, "impl "@) || contains_sub(s, "pub struct "@)
                || (contains_sub(s, "def "@) && contains_sub(s, ":"@)) || contains_sub(s, "import "@)
                || contains_sub(s, "function "@) || contains_sub(s, "const "@) || contains_sub(s, "=>"@)
                || contains_sub(s, "interface "@) || contains_sub(s, ": string"@) || contains_sub(s, ": number"@);
            let markdown = contains_sub(s, "# "@) && contains_sub(s, "\n## "@);
            let json = starts_with(trim_start(s), seq!['{']) && contains_sub(s, "\":"@);
            let toml = contains_sub(s, "["@) && contains_sub(s, "]"@) && contains_sub(s, " = "@);
            let html = contains_sub(s, "<!DOCTYPE"@) || contains_sub(s, "<html"@);
            &&& !earlier && markdown ==> content_language(s) == Some(Language::Markdown)
            &&& !earlier && !markdown && json ==> content_language(s) == Some(Language::Json)
            &&& !earlier && !markdown && !json && toml ==> content_language(s) == Some(Language::Toml)
            &&& !earlier && !markdown && !json && !toml && html ==> content_language(s) == Some(Language::Html)
            &&& !earlier && !markdown && !json && !toml && !html ==> content_language(s) is None
        }),
{
}

/// A shebang line decides the language of content, whatever patterns the
/// rest holds; the patterns count only without one.
pub proof fn lemma_shebang_first(s: Seq<char>)
    ensures
        shebang_language(s) is Some ==> content_language(s) == shebang_language(s),
        shebang_language(s) is None ==> content_language(s) == pattern_language(s),
{
}

} // verus!
