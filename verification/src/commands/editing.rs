//! Editing commands: insertion, deletion, line operations, indentation,
//! comments and case conversion, over an editing context.

use vstd::prelude::*;
use crate::editor::byte_len;
use crate::text::{
    all_ws, chars_to_string, find_chars, find_sub, is_whitespace, is_ws, leading_ws,
    leading_ws_count, starts_with, ends_with, str_to_chars, trim_start, lemma_leading_ws,
    occurs_at, occurs_at_exec, subrange_string, find_from, char_upper, char_lower, str_upper,
    str_lower, char_to_upper, char_to_lower, string_to_upper, string_to_lower, upper_of, lower_char_of,
    upper_text_of, lower_of,
};

verus! {

/// What an editor offers the editing commands.
///
/// The contract is stated over the views declared first: each query
/// returns its view, and the context after each change is the one that
/// change names, applied to the context before and to the change's
/// argument.
///
/// An implementation gives each view its meaning; left to the default, a
/// view is some value that nothing here can know.
pub trait EditContext: Sized {
    /// The selected text.
    closed spec fn selection_text(&self) -> Seq<char> {
        arbitrary()
    }

    /// The text of the current line.
    closed spec fn current_line_text(&self) -> Seq<char> {
        arbitrary()
    }

    /// The texts of the selected lines.
    closed spec fn selected_line_texts(&self) -> Seq<Seq<char>> {
        arbitrary()
    }

    /// Whether there is a selection.
    closed spec fn selection_present(&self) -> bool {
        arbitrary()
    }

    /// One level of indentation.
    closed spec fn indent_text(&self) -> Seq<char> {
        arbitrary()
    }

    /// The line comment marker of the current syntax.
    closed spec fn line_comment(&self) -> Option<Seq<char>> {
        arbitrary()
    }

    /// The block comment markers of the current syntax.
    closed spec fn block_comments(&self) -> Option<(Seq<char>, Seq<char>)> {
        arbitrary()
    }

    /// The context once `text` is inserted at the cursor(s).
    closed spec fn with_inserted(&self, text: Seq<char>) -> Self {
        arbitrary()
    }

    /// The context once the selection (or the character at the cursor) is
    /// deleted.
    closed spec fn with_selection_deleted(&self) -> Self {
        arbitrary()
    }

    /// The context once the character before the cursor is deleted.
    closed spec fn with_backward_deleted(&self) -> Self {
        arbitrary()
    }

    /// The context once the selected text is replaced by `text`.
    closed spec fn with_selection_replaced(&self, text: Seq<char>) -> Self {
        arbitrary()
    }

    /// The context once the current line is replaced by `text`.
    closed spec fn with_current_line(&self, text: Seq<char>) -> Self {
        arbitrary()
    }

    /// The context once the selected lines are replaced by `lines`.
    closed spec fn with_selected_lines(&self, lines: Seq<Seq<char>>) -> Self {
        arbitrary()
    }

    /// The context once the current line(s) are deleted.
    closed spec fn with_line_deleted(&self) -> Self {
        arbitrary()
    }

    /// The context once the rest of the line after the cursor is deleted.
    closed spec fn with_line_end_deleted(&self) -> Self {
        arbitrary()
    }

    /// The context once the line before the cursor is deleted.
    closed spec fn with_line_start_deleted(&self) -> Self {
        arbitrary()
    }

    /// The context once the word after the cursor is deleted.
    closed spec fn with_word_forward_deleted(&self) -> Self {
        arbitrary()
    }

    /// The context once the word before the cursor is deleted.
    closed spec fn with_word_backward_deleted(&self) -> Self {
        arbitrary()
    }

    /// Inserts text at the cursor(s).
    fn insert_text(&mut self, text: &str)
        ensures
            *final(self) == old(self).with_inserted(text@),
    ;

    /// Deletes the selection, or the character at the cursor.
    fn delete_selection(&mut self)
        ensures
            *final(self) == old(self).with_selection_deleted(),
    ;

    /// Deletes the character before the cursor.
    fn delete_backward(&mut self)
        ensures
            *final(self) == old(self).with_backward_deleted(),
    ;

    /// The selected text.
    fn get_selection(&self) -> (s: String)
        ensures
            s@ == self.selection_text(),
    ;

    /// Replaces the selected text.
    fn set_selection(&mut self, text: &str)
        ensures
            *final(self) == old(self).with_selection_replaced(text@),
    ;

    /// The text of the current line.
    fn get_current_line(&self) -> (s: String)
        ensures
            s@ == self.current_line_text(),
    ;

    /// Replaces the text of the current line.
    fn set_current_line(&mut self, text: &str)
        ensures
            *final(self) == old(self).with_current_line(text@),
    ;

    /// The selected lines.
    fn get_selected_lines(&self) -> (lines: Vec<String>)
        ensures
            texts(lines@) == self.selected_line_texts(),
    ;

    /// Replaces the selected lines.
    fn set_selected_lines(&mut self, lines: Vec<String>)
        ensures
            *final(self) == old(self).with_selected_lines(texts(lines@)),
    ;

    /// Deletes the current line(s).
    fn delete_line(&mut self)
        ensures
            *final(self) == old(self).with_line_deleted(),
    ;

    /// Deletes from the cursor to the end of the line.
    fn delete_to_end_of_line(&mut self)
        ensures
            *final(self) == old(self).with_line_end_deleted(),
    ;

    /// Deletes from the cursor to the start of the line.
    fn delete_to_start_of_line(&mut self)
        ensures
            *final(self) == old(self).with_line_start_deleted(),
    ;

    /// Deletes the word after the cursor.
    fn delete_word_forward(&mut self)
        ensures
            *final(self) == old(self).with_word_forward_deleted(),
    ;

    /// Deletes the word before the cursor.
    fn delete_word_backward(&mut self)
        ensures
            *final(self) == old(self).with_word_backward_deleted(),
    ;

    /// Whether there is a selection.
    fn has_selection(&self) -> (b: bool)
        ensures
            b == self.selection_present(),
    ;

    /// One level of indentation (tabs or spaces).
    fn get_indent_string(&self) -> (s: String)
        ensures
            s@ == self.indent_text(),
    ;

    /// The line comment marker of the current syntax.
    fn get_line_comment_string(&self) -> (c: Option<String>)
        ensures
            c.is_some() == self.line_comment().is_some(),
            c.is_some() ==> c.unwrap()@ == self.line_comment().unwrap(),
    ;

    /// The block comment markers of the current syntax.
    fn get_block_comment_strings(&self) -> (m: Option<(String, String)>)
        ensures
            m.is_some() == self.block_comments().is_some(),
            m.is_some() ==> (m.unwrap().0@, m.unwrap().1@) == self.block_comments().unwrap(),
    ;
}

/// The texts of a list of strings.
pub open spec fn texts(v: Seq<String>) -> Seq<Seq<char>> {
    v.map_values(|s: String| s@)
}

/// Inserts text at the cursor(s).
pub fn execute_insert(ctx: &mut impl EditContext, text: &str)
    ensures
        *final(ctx) == old(ctx).with_inserted(text@),
{
    ctx.insert_text(text);
}

/// Deletes the selection, or the character at the cursor when there is
/// none.
pub fn execute_delete(ctx: &mut impl EditContext)
    ensures
        *final(ctx) == old(ctx).with_selection_deleted(),
{
    if ctx.has_selection() {
        ctx.delete_selection();
    } else {
        ctx.delete_selection();
    }
}

/// Deletes the selection, or the character before the cursor when there
/// is none.
pub fn execute_delete_backward(ctx: &mut impl EditContext)
    ensures
        *final(ctx) == (if old(ctx).selection_present() {
            old(ctx).with_selection_deleted()
        } else {
            old(ctx).with_backward_deleted()
        }),
{
    if ctx.has_selection() {
        ctx.delete_selection();
    } else {
        ctx.delete_backward();
    }
}

/// Deletes the current line(s).
pub fn execute_delete_line(ctx: &mut impl EditContext)
    ensures
        *final(ctx) == old(ctx).with_line_deleted(),
{
    ctx.delete_line();
}

/// Deletes from the cursor to the end of the line.
pub fn execute_delete_to_end_of_line(ctx: &mut impl EditContext)
    ensures
        *final(ctx) == old(ctx).with_line_end_deleted(),
{
    ctx.delete_to_end_of_line();
}

/// Deletes from the cursor to the start of the line.
pub fn execute_delete_to_start_of_line(ctx: &mut impl EditContext)
    ensures
        *final(ctx) == old(ctx).with_line_start_deleted(),
{
    ctx.delete_to_start_of_line();
}

/// Deletes the word after the cursor.
pub fn execute_delete_word_forward(ctx: &mut impl EditContext)
    ensures
        *final(ctx) == old(ctx).with_word_forward_deleted(),
{
    ctx.delete_word_forward();
}

/// Deletes the word before the cursor.
pub fn execute_delete_word_backward(ctx: &mut impl EditContext)
    ensures
        *final(ctx) == old(ctx).with_word_backward_deleted(),
{
    ctx.delete_word_backward();
}

/// Each line twice in a row.
pub open spec fn doubled(ls: Seq<Seq<char>>) -> Seq<Seq<char>>
    decreases ls.len(),
{
    if ls.len() == 0 {
        ls
    } else {
        doubled(ls.drop_last()).push(ls.last()).push(ls.last())
    }
}

/// The lines with each one repeated right after itself.
pub fn duplicate_lines(lines: &Vec<String>) -> (r: Vec<String>)
    ensures
        texts(r@) == doubled(texts(lines@)),
{
    let mut r: Vec<String> = Vec::new();
    let mut i: usize = 0;
    while i < lines.len()
        invariant
            i <= lines@.len(),
            texts(r@) == doubled(texts(lines@.take(i as int))),
        decreases lines@.len() - i,
    {
        proof {
            assert(texts(lines@.take(i + 1)).drop_last() =~= texts(lines@.take(i as int)));
            assert(texts(lines@.take(i + 1)).last() == lines@[i as int]@);
        }
        r.push(lines[i].clone());
        r.push(lines[i].clone());
        proof {
            assert(texts(r@) =~= doubled(texts(lines@.take(i as int))).push(lines@[i as int]@).push(lines@[i as int]@));
        }
        i = i + 1;
    }
    proof {
        assert(lines@.take(i as int) =~= lines@);
    }
    r
}

/// Duplicates the selected lines, each right after itself.
pub fn execute_duplicate_line(ctx: &mut impl EditContext)
    ensures
        *final(ctx) == old(ctx).with_selected_lines(doubled(old(ctx).selected_line_texts())),
{
    let lines = ctx.get_selected_lines();
    let duplicated = duplicate_lines(&lines);
    ctx.set_selected_lines(duplicated);
}

/// The lines joined, a space between each two.
pub open spec fn joined_with_space(ls: Seq<Seq<char>>) -> Seq<char>
    decreases ls.len(),
{
    if ls.len() == 0 {
        Seq::empty()
    } else if ls.len() == 1 {
        ls[0]
    } else {
        joined_with_space(ls.drop_last()) + seq![' '] + ls.last()
    }
}

/// The lines joined into one, a space between each two.
pub fn join_with_space(lines: &Vec<String>) -> (r: String)
    ensures
        r@ == joined_with_space(texts(lines@)),
{
    let mut out: Vec<char> = Vec::new();
    let mut i: usize = 0;
    while i < lines.len()
        invariant
            i <= lines@.len(),
            out@ == joined_with_space(texts(lines@.take(i as int))),
        decreases lines@.len() - i,
    {
        proof {
            assert(texts(lines@.take(i + 1)).drop_last() =~= texts(lines@.take(i as int)));
            assert(texts(lines@.take(i + 1)).last() == lines@[i as int]@);
        }
        if i > 0 {
            out.push(' ');
        }
        let cs = str_to_chars(lines[i].as_str());
        let mut k: usize = 0;
        let ghost base = out@;
        while k < cs.len()
            invariant
                k <= cs@.len(),
                out@ == base + cs@.take(k as int),
            decreases cs@.len() - k,
        {
            out.push(cs[k]);
            proof {
                assert(cs@.take(k + 1) =~= cs@.take(k as int).push(cs@[k as int]));
            }
            k = k + 1;
        }
        proof {
            assert(cs@.take(k as int) =~= cs@);
            if i == 0 {
                assert(texts(lines@.take(1)) =~= seq![lines@[0]@]);
                assert(out@ =~= lines@[0]@);
            } else {
                assert(out@ =~= joined_with_space(texts(lines@.take(i as int))) + seq![' '] + lines@[i as int]@);
            }
        }
        i = i + 1;
    }
    proof {
        assert(lines@.take(i as int) =~= lines@);
    }
    chars_to_string(out.as_slice())
}

/// Joins the selected lines into one, a space between each two, when at
/// least two are selected.
pub fn execute_join_lines(ctx: &mut impl EditContext)
    ensures
        *final(ctx) == (if old(ctx).selected_line_texts().len() >= 2 {
            old(ctx).with_selected_lines(seq![joined_with_space(old(ctx).selected_line_texts())])
        } else {
            *old(ctx)
        }),
{
    let lines = ctx.get_selected_lines();
    if lines.len() >= 2 {
        let joined = join_with_space(&lines);
        let mut v: Vec<String> = Vec::new();
        v.push(joined);
        proof {
            assert(texts(v@) =~= seq![joined_with_space(texts(lines@))]);
        }
        ctx.set_selected_lines(v);
    }
}

/// Splits the line at the cursor.
pub fn execute_split_line(ctx: &mut impl EditContext)
    ensures
        *final(ctx) == old(ctx).with_inserted(seq!['\n']),
{
    let newline = "\n";
    proof {
        reveal_strlit("\n");
        assert(newline@ =~= seq!['\n']);
    }
    ctx.insert_text(newline);
}

fn concat_strings(a: &str, b: &str) -> (r: String)
    ensures
        r@ == a@ + b@,
{
    let mut v = str_to_chars(a);
    let w = str_to_chars(b);
    let mut k: usize = 0;
    let ghost base = v@;
    while k < w.len()
        invariant
            k <= w@.len(),
            v@ == base + w@.take(k as int),
        decreases w@.len() - k,
    {
        v.push(w[k]);
        proof {
            assert(w@.take(k + 1) =~= w@.take(k as int).push(w@[k as int]));
        }
        k = k + 1;
    }
    proof {
        assert(w@.take(k as int) =~= w@);
    }
    chars_to_string(v.as_slice())
}

/// Each line with `indent` in front.
pub fn indent_lines(indent: &str, lines: &Vec<String>) -> (r: Vec<String>)
    ensures
        r@.len() == lines@.len(),
        forall|i: int| 0 <= i < lines@.len() ==> #[trigger] r@[i]@ == indent@ + lines@[i]@,
{
    let mut r: Vec<String> = Vec::new();
    let mut i: usize = 0;
    while i < lines.len()
        invariant
            i <= lines@.len(),
            r@.len() == i,
            forall|j: int| 0 <= j < i ==> #[trigger] r@[j]@ == indent@ + lines@[j]@,
        decreases lines@.len() - i,
    {
        r.push(concat_strings(indent, lines[i].as_str()));
        i = i + 1;
    }
    r
}

/// Indents the selected lines by one level.
pub fn execute_indent(ctx: &mut impl EditContext)
    ensures
        *final(ctx) == old(ctx).with_selected_lines(indented_all(old(ctx).selected_line_texts(), old(ctx).indent_text())),
{
    let indent_string = ctx.get_indent_string();
    let lines = ctx.get_selected_lines();
    let indented = indent_lines(indent_string.as_str(), &lines);
    proof {
        assert(texts(indented@) =~= indented_all(texts(lines@), indent_string@));
    }
    ctx.set_selected_lines(indented);
}

/// Each line with `indent` in front.
pub open spec fn indented_all(ls: Seq<Seq<char>>, indent: Seq<char>) -> Seq<Seq<char>> {
    ls.map_values(|l: Seq<char>| indent + l)
}

/// The number of spaces at the start of `s`.
pub open spec fn leading_spaces(s: Seq<char>) -> nat
    decreases s.len(),
{
    if s.len() > 0 && s[0] == ' ' {
        1 + leading_spaces(s.drop_first())
    } else {
        0
    }
}

/// A line with one level of indentation removed: the indentation itself
/// when the line starts with it; else, for a tab indentation, one leading
/// tab; else up to `ind_bytes` leading spaces (the indentation's length in
/// bytes).
pub open spec fn unindented(line: Seq<char>, ind: Seq<char>, ind_bytes: nat) -> Seq<char> {
    if starts_with(line, ind) {
        line.skip(ind.len() as int)
    } else if ind.len() > 0 && ind[0] == '\t' {
        if line.len() > 0 && line[0] == '\t' {
            line.skip(1)
        } else {
            line
        }
    } else {
        let n = if leading_spaces(line) < ind_bytes { leading_spaces(line) } else { ind_bytes };
        line.skip(n as int)
    }
}

proof fn lemma_leading_spaces(s: Seq<char>, k: int)
    requires
        0 <= k <= s.len(),
        forall|i: int| 0 <= i < k ==> #[trigger] s[i] == ' ',
        k < s.len() ==> s[k] != ' ',
    ensures
        leading_spaces(s) == k,
    decreases s.len(),
{
    if k > 0 {
        assert forall|i: int| 0 <= i < k - 1 implies #[trigger] s.drop_first()[i] == ' ' by {
            assert(s.drop_first()[i] == s[i + 1]);
        }
        if k < s.len() {
            assert(s.drop_first()[k - 1] == s[k]);
        }
        lemma_leading_spaces(s.drop_first(), k - 1);
    }
}

fn unindent_line(line: &str, ind: &Vec<char>, ind_bytes: usize) -> (r: String)
    ensures
        r@ == unindented(line@, ind@, ind_bytes as nat),
{
    let cs = str_to_chars(line);
    if ind.len() <= cs.len() && occurs_at_exec(cs.as_slice(), ind.as_slice(), 0) {
        return subrange_string(cs.as_slice(), ind.len(), cs.len());
    }
    proof {
        assert(!starts_with(line@, ind@)) by {
            if starts_with(line@, ind@) {
                assert(occurs_at(cs@, ind@, 0));
            }
        }
    }
    if ind.len() > 0 && ind[0] == '\t' {
        if cs.len() > 0 && cs[0] == '\t' {
            return subrange_string(cs.as_slice(), 1, cs.len());
        }
        return chars_to_string(cs.as_slice());
    }
    let mut k: usize = 0;
    while k < cs.len() && cs[k] == ' '
        invariant
            k <= cs@.len(),
            forall|j: int| 0 <= j < k ==> #[trigger] cs@[j] == ' ',
        decreases cs@.len() - k,
    {
        k = k + 1;
    }
    proof {
        lemma_leading_spaces(cs@, k as int);
    }
    let n = if k < ind_bytes { k } else { ind_bytes };
    subrange_string(cs.as_slice(), n, cs.len())
}

/// Each line with one level of indentation removed (see [`unindented`]).
pub fn unindent_lines(indent: &str, lines: &Vec<String>) -> (r: Vec<String>)
    ensures
        r@.len() == lines@.len(),
        forall|i: int| 0 <= i < lines@.len() ==> #[trigger] r@[i]@ == unindented(lines@[i]@, indent@, byte_len(indent@)),
{
    let ind = str_to_chars(indent);
    let ind_bytes = indent.as_bytes().len();
    let mut r: Vec<String> = Vec::new();
    let mut i: usize = 0;
    while i < lines.len()
        invariant
            i <= lines@.len(),
            r@.len() == i,
            ind@ == indent@,
            ind_bytes == byte_len(indent@),
            forall|j: int| 0 <= j < i ==> #[trigger] r@[j]@ == unindented(lines@[j]@, indent@, byte_len(indent@)),
        decreases lines@.len() - i,
    {
        r.push(unindent_line(lines[i].as_str(), &ind, ind_bytes));
        i = i + 1;
    }
    r
}

/// Removes one level of indentation from the selected lines.
pub fn execute_unindent(ctx: &mut impl EditContext)
    ensures
        *final(ctx) == old(ctx).with_selected_lines(unindented_all(old(ctx).selected_line_texts(), old(ctx).indent_text())),
{
    let indent_string = ctx.get_indent_string();
    let lines = ctx.get_selected_lines();
    let unindented_lines = unindent_lines(indent_string.as_str(), &lines);
    proof {
        assert(texts(unindented_lines@) =~= unindented_all(texts(lines@), indent_string@));
    }
    ctx.set_selected_lines(unindented_lines);
}

/// Removing one level of indentation from indented lines gives the lines
/// back.
pub proof fn lemma_unindent_indent(ls: Seq<Seq<char>>, indent: Seq<char>)
    ensures
        unindented_all(indented_all(ls, indent), indent) == ls,
{
    assert forall|i: int| 0 <= i < ls.len() implies #[trigger] unindented(indent + ls[i], indent, byte_len(indent)) == ls[i] by {
        assert((indent + ls[i]).subrange(0, indent.len() as int) =~= indent);
        assert((indent + ls[i]).skip(indent.len() as int) =~= ls[i]);
    }
    assert(unindented_all(indented_all(ls, indent), indent) =~= ls);
}

/// Each line with one level of indentation removed (see [`unindented`]).
pub open spec fn unindented_all(ls: Seq<Seq<char>>, indent: Seq<char>) -> Seq<Seq<char>> {
    ls.map_values(|l: Seq<char>| unindented(l, indent, byte_len(indent)))
}

/// A line with the comment marker `c` put after its indentation, followed
/// by a space; a blank line stays as it is.
pub open spec fn commented(line: Seq<char>, c: Seq<char>) -> Seq<char> {
    if all_ws(line) {
        line
    } else {
        let k = leading_ws(line) as int;
        line.take(k) + c + seq![' '] + line.skip(k)
    }
}

/// A line with its first comment marker `c` removed, along with the
/// whitespace after it; a line without the marker stays as it is.
pub open spec fn uncommented(line: Seq<char>, c: Seq<char>) -> Seq<char> {
    match find_sub(line, c) {
        Some(i) => line.take(i) + trim_start(line.skip(i + c.len())),
        None => line,
    }
}

/// Every line that is not blank starts with the comment marker once its
/// indentation is set aside.
pub open spec fn all_commented(ls: Seq<Seq<char>>, c: Seq<char>) -> bool {
    forall|i: int| 0 <= i < ls.len() && !all_ws(#[trigger] ls[i]) ==> starts_with(trim_start(ls[i]), c)
}

/// A line with its comment removed (see [`uncommented`]); a blank line
/// stays as it is.
pub open spec fn uncommented_line(line: Seq<char>, c: Seq<char>) -> Seq<char> {
    if all_ws(line) {
        line
    } else {
        uncommented(line, c)
    }
}

/// The lines with line comments toggled: uncommented when all lines that
/// are not blank are commented, else commented. Blank lines stay as they
/// are either way.
pub open spec fn toggled_comments(ls: Seq<Seq<char>>, c: Seq<char>) -> Seq<Seq<char>> {
    if all_commented(ls, c) {
        ls.map_values(|l: Seq<char>| uncommented_line(l, c))
    } else {
        ls.map_values(|l: Seq<char>| commented(l, c))
    }
}

fn append_chars(v: &mut Vec<char>, w: &[char], start: usize, end: usize)
    requires
        start <= end <= w@.len(),
    ensures
        final(v)@ == old(v)@ + w@.subrange(start as int, end as int),
{
    let mut k: usize = start;
    while k < end
        invariant
            start <= k <= end,
            end <= w@.len(),
            v@ == old(v)@ + w@.subrange(start as int, k as int),
        decreases end - k,
    {
        v.push(w[k]);
        proof {
            assert(w@.subrange(start as int, k + 1) =~= w@.subrange(start as int, k as int).push(w@[k as int]));
        }
        k = k + 1;
    }
}

fn is_all_whitespace(v: &[char]) -> (b: bool)
    ensures
        b == all_ws(v@),
{
    let mut i: usize = 0;
    while i < v.len()
        invariant
            i <= v@.len(),
            forall|j: int| 0 <= j < i ==> is_ws(#[trigger] v@[j]),
        decreases v@.len() - i,
    {
        if !is_whitespace(v[i]) {
            return false;
        }
        i = i + 1;
    }
    true
}

fn comment_line(line: &str, c: &[char]) -> (r: String)
    ensures
        r@ == commented(line@, c@),
{
    let cs = str_to_chars(line);
    if is_all_whitespace(cs.as_slice()) {
        return chars_to_string(cs.as_slice());
    }
    let k = leading_ws_count(cs.as_slice());
    let mut out: Vec<char> = Vec::new();
    append_chars(&mut out, cs.as_slice(), 0, k);
    append_chars(&mut out, c, 0, c.len());
    out.push(' ');
    append_chars(&mut out, cs.as_slice(), k, cs.len());
    proof {
        assert(cs@.subrange(0, k as int) =~= cs@.take(k as int));
        assert(cs@.subrange(k as int, cs@.len() as int) =~= cs@.skip(k as int));
        assert(c@.subrange(0, c@.len() as int) =~= c@);
        assert(out@ =~= cs@.take(k as int) + c@ + seq![' '] + cs@.skip(k as int));
    }
    chars_to_string(out.as_slice())
}

fn uncomment_line(line: &str, c: &[char]) -> (r: String)
    ensures
        r@ == uncommented(line@, c@),
{
    let cs = str_to_chars(line);
    match find_chars(cs.as_slice(), c) {
        Some(pos) => {
            proof {
                assert(occurs_at(cs@, c@, pos as int)) by {
                    lemma_find_from_occurs(cs@, c@, 0);
                }
                assert(pos + c@.len() <= cs@.len());
                assert(cs@.len() == cs.len());
            }
            let mut out: Vec<char> = Vec::new();
            append_chars(&mut out, cs.as_slice(), 0, pos);
            let rest_start = pos + c.len();
            let mut rest: Vec<char> = Vec::new();
            append_chars(&mut rest, cs.as_slice(), rest_start, cs.len());
            let skip = leading_ws_count(rest.as_slice());
            append_chars(&mut out, rest.as_slice(), skip, rest.len());
            proof {
                assert(cs@.subrange(0, pos as int) =~= cs@.take(pos as int));
                assert(rest@ =~= cs@.skip(rest_start as int));
                assert(rest@.subrange(skip as int, rest@.len() as int) =~= trim_start(rest@));
            }
            chars_to_string(out.as_slice())
        },
        None => chars_to_string(cs.as_slice()),
    }
}

proof fn lemma_find_from_occurs(s: Seq<char>, p: Seq<char>, i: int)
    requires
        find_from(s, p, i) is Some,
    ensures
        occurs_at(s, p, find_from(s, p, i)->0),
    decreases s.len() + 1 - i,
{
    if i >= 0 && i + p.len() <= s.len() && !occurs_at(s, p, i) {
        lemma_find_from_occurs(s, p, i + 1);
    }
}

/// The lines with line comments toggled (see [`toggled_comments`]).
pub fn toggle_comment_lines(comment: &str, lines: &Vec<String>) -> (r: Vec<String>)
    ensures
        texts(r@) == toggled_comments(texts(lines@), comment@),
{
    let c = str_to_chars(comment);
    let mut all = true;
    let mut i: usize = 0;
    while i < lines.len()
        invariant
            i <= lines@.len(),
            c@ == comment@,
            all == (forall|j: int| 0 <= j < i && !all_ws(#[trigger] lines@[j]@) ==> starts_with(trim_start(lines@[j]@), c@)),
        decreases lines@.len() - i,
    {
        let cs = str_to_chars(lines[i].as_str());
        let blank = is_all_whitespace(cs.as_slice());
        let k = leading_ws_count(cs.as_slice());
        let mut t: Vec<char> = Vec::new();
        append_chars(&mut t, cs.as_slice(), k, cs.len());
        let starts = c.len() <= t.len() && occurs_at_exec(t.as_slice(), c.as_slice(), 0);
        proof {
            assert(t@ =~= trim_start(lines@[i as int]@));
            assert(starts == starts_with(t@, c@));
        }
        if !starts && !blank {
            all = false;
        }
        i = i + 1;
    }
    proof {
        assert(all == all_commented(texts(lines@), comment@)) by {
            if all {
                assert forall|j: int| 0 <= j < texts(lines@).len() && !all_ws(#[trigger] texts(lines@)[j]) implies starts_with(trim_start(texts(lines@)[j]), comment@) by {
                    assert(texts(lines@)[j] == lines@[j]@);
                }
            } else {
                let j = choose|j: int| 0 <= j < i && !all_ws(#[trigger] lines@[j]@) && !starts_with(trim_start(lines@[j]@), c@);
                assert(texts(lines@)[j] == lines@[j]@);
            }
        }
    }
    let mut r: Vec<String> = Vec::new();
    let mut i: usize = 0;
    while i < lines.len()
        invariant
            i <= lines@.len(),
            c@ == comment@,
            r@.len() == i,
            forall|j: int| 0 <= j < i ==> #[trigger] r@[j]@ == (if all { uncommented_line(lines@[j]@, c@) } else { commented(lines@[j]@, c@) }),
        decreases lines@.len() - i,
    {
        if all {
            let cs = str_to_chars(lines[i].as_str());
            if is_all_whitespace(cs.as_slice()) {
                r.push(lines[i].clone());
            } else {
                r.push(uncomment_line(lines[i].as_str(), c.as_slice()));
            }
        } else {
            r.push(comment_line(lines[i].as_str(), c.as_slice()));
        }
        i = i + 1;
    }
    proof {
        assert(texts(r@) =~= toggled_comments(texts(lines@), comment@));
    }
    r
}

/// Toggles line comments on the selected lines, when the syntax has a
/// line comment marker.
pub fn execute_toggle_comment(ctx: &mut impl EditContext)
    ensures
        *final(ctx) == (match old(ctx).line_comment() {
            Some(c) => old(ctx).with_selected_lines(toggled_comments(old(ctx).selected_line_texts(), c)),
            None => *old(ctx),
        }),
{
    match ctx.get_line_comment_string() {
        Some(comment_str) => {
            let lines = ctx.get_selected_lines();
            let toggled = toggle_comment_lines(comment_str.as_str(), &lines);
            ctx.set_selected_lines(toggled);
        },
        None => {},
    }
}

proof fn lemma_find_first(s: Seq<char>, p: Seq<char>, i: int, k: int)
    requires
        0 <= i <= k,
        occurs_at(s, p, k),
        forall|j: int| i <= j < k ==> !occurs_at(s, p, j),
    ensures
        find_from(s, p, i) == Some(k),
    decreases k - i,
{
    if i < k {
        lemma_find_first(s, p, i + 1, k);
    }
}

/// Commenting and then uncommenting gives back a line that is not blank,
/// for a marker that does not start with whitespace.
proof fn lemma_uncomment_commented(l: Seq<char>, c: Seq<char>)
    requires
        c.len() > 0,
        !is_ws(c[0]),
        !all_ws(l),
    ensures
        starts_with(trim_start(commented(l, c)), c),
        uncommented(commented(l, c), c) == l,
{
    let k = leading_ws(l) as int;
    crate::text::lemma_leading_ws_bound(l);
    let t = commented(l, c);
    assert(k < l.len()) by {
        if k >= l.len() {
            assert forall|i: int| 0 <= i < l.len() implies is_ws(#[trigger] l[i]) by {}
        }
    }
    assert(t =~= l.take(k) + c + seq![' '] + l.skip(k));
    // the indentation of the commented line is that of the line
    assert(t[k] == c[0]);
    lemma_leading_ws(t, k);
    assert(trim_start(t) =~= c + seq![' '] + l.skip(k));
    assert(trim_start(t).subrange(0, c.len() as int) =~= c);
    // the marker is first found after the indentation
    assert(t.subrange(k, k + c.len()) =~= c);
    assert forall|j: int| 0 <= j < k implies !occurs_at(t, c, j) by {
        if occurs_at(t, c, j) {
            assert(t.subrange(j, j + c.len())[0] == t[j]);
            assert(t[j] == l[j]);
        }
    }
    lemma_find_first(t, c, 0, k);
    let rest = t.skip(k + c.len());
    assert(rest =~= seq![' '] + l.skip(k));
    assert(rest[1] == l[k]);
    lemma_leading_ws(rest, 1);
    assert(trim_start(rest) =~= l.skip(k));
    assert(t.take(k) =~= l.take(k));
    assert(l.take(k) + l.skip(k) =~= l);
}

/// Toggling line comments twice gives back the lines, when they are not
/// all commented already (blank lines aside), and the marker is not empty
/// and does not start with whitespace.
pub proof fn lemma_toggle_comment_twice(ls: Seq<Seq<char>>, c: Seq<char>)
    requires
        c.len() > 0,
        !is_ws(c[0]),
        !all_commented(ls, c),
    ensures
        toggled_comments(toggled_comments(ls, c), c) == ls,
{
    let t1 = toggled_comments(ls, c);
    assert(t1 == ls.map_values(|l: Seq<char>| commented(l, c)));
    assert forall|i: int| 0 <= i < ls.len() implies uncommented_line(#[trigger] t1[i], c) == ls[i]
        && (!all_ws(t1[i]) ==> starts_with(trim_start(t1[i]), c)) by {
        if all_ws(ls[i]) {
            assert(t1[i] == ls[i]);
        } else {
            lemma_uncomment_commented(ls[i], c);
            let k = leading_ws(ls[i]) as int;
            crate::text::lemma_leading_ws_bound(ls[i]);
            assert(t1[i] =~= ls[i].take(k) + c + seq![' '] + ls[i].skip(k));
            assert(t1[i][k] == c[0]);
            assert(!all_ws(t1[i]));
        }
    }
    assert(all_commented(t1, c));
    assert(toggled_comments(t1, c) =~= ls);
}

/// The selection with block comment markers toggled: without them when it
/// starts with `st` and ends with `en`, else wrapped in them.
pub open spec fn toggled_block(sel: Seq<char>, st: Seq<char>, en: Seq<char>) -> Seq<char> {
    if starts_with(sel, st) && ends_with(sel, en) {
        sel.subrange(st.len() as int, sel.len() - en.len())
    } else {
        st + sel + en
    }
}

/// The selection with block comment markers toggled (see
/// [`toggled_block`]). When it starts with the opening marker and ends
/// with the closing one, the two must not overlap.
pub fn toggle_block_comment_text(selection: &str, start: &str, end: &str) -> (r: String)
    requires
        starts_with(selection@, start@) && ends_with(selection@, end@) ==> start@.len() + end@.len() <= selection@.len(),
    ensures
        r@ == toggled_block(selection@, start@, end@),
{
    let s = str_to_chars(selection);
    let st = str_to_chars(start);
    let en = str_to_chars(end);
    let starts = st.len() <= s.len() && occurs_at_exec(s.as_slice(), st.as_slice(), 0);
    let ends = en.len() <= s.len() && occurs_at_exec(s.as_slice(), en.as_slice(), s.len() - en.len());
    proof {
        assert(starts == starts_with(s@, st@));
        assert(ends == ends_with(s@, en@));
    }
    let mut out: Vec<char> = Vec::new();
    if starts && ends {
        append_chars(&mut out, s.as_slice(), st.len(), s.len() - en.len());
    } else {
        append_chars(&mut out, st.as_slice(), 0, st.len());
        append_chars(&mut out, s.as_slice(), 0, s.len());
        append_chars(&mut out, en.as_slice(), 0, en.len());
        proof {
            assert(st@.subrange(0, st@.len() as int) =~= st@);
            assert(s@.subrange(0, s@.len() as int) =~= s@);
            assert(en@.subrange(0, en@.len() as int) =~= en@);
        }
    }
    chars_to_string(out.as_slice())
}

/// Toggles block comment markers around the selection, when the syntax
/// has them. A selection that starts with the opening marker and ends with
/// the closing one where the two overlap is left as it is.
pub fn execute_toggle_block_comment(ctx: &mut impl EditContext)
    ensures
        *final(ctx) == (match old(ctx).block_comments() {
            Some((st, en)) => if markers_overlap(old(ctx).selection_text(), st, en) {
                *old(ctx)
            } else {
                old(ctx).with_selection_replaced(toggled_block(old(ctx).selection_text(), st, en))
            },
            None => *old(ctx),
        }),
{
    match ctx.get_block_comment_strings() {
        Some((start_comment, end_comment)) => {
            let selection = ctx.get_selection();
            let s = str_to_chars(selection.as_str());
            let st = str_to_chars(start_comment.as_str());
            let en = str_to_chars(end_comment.as_str());
            let starts = st.len() <= s.len() && occurs_at_exec(s.as_slice(), st.as_slice(), 0);
            let ends = en.len() <= s.len() && occurs_at_exec(s.as_slice(), en.as_slice(), s.len() - en.len());
            if starts && ends && st.len() > s.len() - en.len() {
                return;
            }
            let toggled = toggle_block_comment_text(selection.as_str(), start_comment.as_str(), end_comment.as_str());
            ctx.set_selection(toggled.as_str());
        },
        None => {},
    }
}

/// Whether a selection starts with the opening marker and ends with the
/// closing one, the two overlapping.
pub open spec fn markers_overlap(sel: Seq<char>, st: Seq<char>, en: Seq<char>) -> bool {
    starts_with(sel, st) && ends_with(sel, en) && st.len() + en.len() > sel.len()
}

/// Converts the selection to upper case.
pub fn execute_to_uppercase(ctx: &mut impl EditContext)
    ensures
        *final(ctx) == old(ctx).with_selection_replaced(upper_text_of(old(ctx).selection_text())),
{
    let selection = ctx.get_selection();
    let uppercase = string_to_upper(selection.as_str());
    ctx.set_selection(uppercase.as_str());
}

/// Converts the selection to lower case.
pub fn execute_to_lowercase(ctx: &mut impl EditContext)
    ensures
        *final(ctx) == old(ctx).with_selection_replaced(lower_of(old(ctx).selection_text())),
{
    let selection = ctx.get_selection();
    let lowercase = string_to_lower(selection.as_str());
    ctx.set_selection(lowercase.as_str());
}

/// Converts the selection to title case.
pub fn execute_to_title_case(ctx: &mut impl EditContext)
    ensures
        *final(ctx) == old(ctx).with_selection_replaced(title_from(old(ctx).selection_text(), true)),
{
    let selection = ctx.get_selection();
    let title_case = to_title_case(selection.as_str());
    ctx.set_selection(title_case.as_str());
}

/// Title case of `s`: whitespace is kept and starts a new word; the first
/// character of a word is upper-cased, the others lower-cased. `cap`:
/// whether the first character starts a word.
pub open spec fn title_from(s: Seq<char>, cap: bool) -> Seq<char>
    decreases s.len(),
{
    if s.len() == 0 {
        s
    } else if is_ws(s[0]) {
        seq![s[0]] + title_from(s.drop_first(), true)
    } else if cap {
        upper_of(s[0]) + title_from(s.drop_first(), false)
    } else {
        lower_char_of(s[0]) + title_from(s.drop_first(), false)
    }
}

/// The title case of a string (see [`title_from`]).
pub fn to_title_case(s: &str) -> (r: String)
    ensures
        r@ == title_from(s@, true),
{
    let cs = str_to_chars(s);
    let mut out: Vec<char> = Vec::new();
    let mut cap = true;
    let mut i: usize = 0;
    proof {
        assert(cs@.skip(0) =~= cs@);
    }
    while i < cs.len()
        invariant
            i <= cs@.len(),
            out@ + title_from(cs@.skip(i as int), cap) == title_from(s@, true),
            cs@ == s@,
        decreases cs@.len() - i,
    {
        let c = cs[i];
        proof {
            assert(cs@.skip(i as int)[0] == c);
            assert(cs@.skip(i as int).drop_first() =~= cs@.skip(i + 1));
        }
        let ghost before = out@;
        if is_whitespace(c) {
            out.push(c);
            cap = true;
            proof {
                assert(out@ + title_from(cs@.skip(i + 1), cap) =~= before + (seq![c] + title_from(cs@.skip(i + 1), true)));
            }
        } else {
            let m = if cap { char_to_upper(c) } else { char_to_lower(c) };
            let mc = str_to_chars(m.as_str());
            append_chars(&mut out, mc.as_slice(), 0, mc.len());
            proof {
                assert(mc@.subrange(0, mc@.len() as int) =~= mc@);
                assert(out@ + title_from(cs@.skip(i + 1), false) =~= before + (mc@ + title_from(cs@.skip(i + 1), false)));
            }
            cap = false;
        }
        i = i + 1;
    }
    proof {
        assert(cs@.skip(i as int).len() == 0);
        assert(out@ =~= title_from(s@, true));
    }
    chars_to_string(out.as_slice())
}

/// Pastes text over the selection.
pub fn execute_paste(ctx: &mut impl EditContext, text: &str)
    ensures
        *final(ctx) == old(ctx).with_selection_replaced(text@),
{
    ctx.set_selection(text);
}

} // verus!
