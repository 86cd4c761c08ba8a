//! The scrollback: lines that scrolled off the top of the terminal, oldest
//! first, up to a maximum number.

use vstd::prelude::*;
use std::collections::VecDeque;
use vstd::std_specs::iter::IteratorSpec;
use crate::terminal::buffer::cell::{blank, Cell};
use crate::terminal::buffer::grid::{blank_row, row_chars};
use crate::text::{chars_to_string, joined};

verus! {

broadcast use vstd::std_specs::vecdeque::group_vec_dequeue_axioms;

/// A line cut or padded with blank cells to `n` cells.
pub open spec fn fitted(line: Seq<Cell>, n: nat) -> Seq<Cell> {
    if line.len() >= n {
        line.take(n as int)
    } else {
        line + blank_row((n - line.len()) as nat)
    }
}

/// A line cut or padded with blank cells to `n` cells.
fn fit_line(line: Vec<Cell>, n: usize) -> (v: Vec<Cell>)
    ensures
        v@ == fitted(line@, n as nat),
{
    let mut line = line;
    if line.len() >= n {
        line.truncate(n);
        return line;
    }
    let ghost base = line@;
    while line.len() < n
        invariant
            base.len() <= line@.len() <= n,
            line@ == base + blank_row((line@.len() - base.len()) as nat),
        decreases n - line@.len(),
    {
        line.push(Cell::default());
        proof {
            assert(line@ =~= base + blank_row((line@.len() - base.len()) as nat));
        }
    }
    line
}

/// The scrollback: lines that scrolled off the top, oldest first.
#[derive(Debug, Clone, PartialEq, Eq)]
pub struct Scrollback {
    lines: VecDeque<Vec<Cell>>,
    max_lines: usize,
    cols: usize,
}

impl Scrollback {
    /// The lines, oldest first.
    pub closed spec fn spec_lines(&self) -> Seq<Seq<Cell>> {
        self.lines@.map_values(|l: Vec<Cell>| l@)
    }

    /// The most lines kept (0: none).
    pub closed spec fn spec_max_lines(&self) -> usize {
        self.max_lines
    }

    /// The width of the lines.
    pub closed spec fn spec_cols(&self) -> usize {
        self.cols
    }

    /// An empty scrollback keeping up to `max_lines` lines of `cols` cells.
    pub fn new(max_lines: usize, cols: usize) -> (s: Self)
        ensures
            s.spec_lines().len() == 0,
            s.spec_max_lines() == max_lines,
            s.spec_cols() == cols,
    {
        let cap = if max_lines < 10000 { max_lines } else { 10000 };
        let s = Self { lines: VecDeque::with_capacity(cap), max_lines, cols };
        proof {
            assert(s.spec_lines() =~= Seq::<Seq<Cell>>::empty());
        }
        s
    }

    /// The most lines kept.
    pub fn max_lines(&self) -> (n: usize)
        ensures
            n == self.spec_max_lines(),
    {
        self.max_lines
    }

    /// The number of lines.
    pub fn len(&self) -> (n: usize)
        ensures
            n == self.spec_lines().len(),
    {
        self.lines.len()
    }

    /// Whether there is no line.
    pub fn is_empty(&self) -> (b: bool)
        ensures
            b == (self.spec_lines().len() == 0),
    {
        self.lines.len() == 0
    }

    /// Whether a limit is set and reached.
    pub fn is_full(&self) -> (b: bool)
        ensures
            b == (self.spec_max_lines() > 0 && self.spec_lines().len() >= self.spec_max_lines()),
    {
        self.max_lines > 0 && self.lines.len() >= self.max_lines
    }

    /// The width of the lines.
    pub fn cols(&self) -> (n: usize)
        ensures
            n == self.spec_cols(),
    {
        self.cols
    }

    /// Adds a line, cut or padded to the width, as the newest; when full,
    /// the oldest line goes first. Nothing is kept when the limit is 0.
    pub fn push(&mut self, line: Vec<Cell>)
        ensures
            final(self).spec_max_lines() == old(self).spec_max_lines(),
            final(self).spec_cols() == old(self).spec_cols(),
            final(self).spec_lines() == pushed(old(self).spec_lines(), old(self).spec_max_lines(), fitted(line@, old(self).spec_cols() as nat)),
    {
        let ghost orig = line@;
        let line = fit_line(line, self.cols);
        if self.max_lines == 0 {
            return;
        }
        let ghost l0 = self.lines@;
        if self.is_full() {
            let _ = self.lines.pop_front();
            proof {
                assert(self.lines@.map_values(|l: Vec<Cell>| l@) =~= l0.map_values(|l: Vec<Cell>| l@).drop_first());
            }
        }
        let ghost l1 = self.lines@;
        self.lines.push_back(line);
        proof {
            assert(self.lines@.map_values(|l: Vec<Cell>| l@) =~= l1.map_values(|l: Vec<Cell>| l@).push(fitted(orig, old(self).spec_cols() as nat)));
        }
    }

    /// Adds a line (as [`Scrollback::push`]).
    pub fn push_line(&mut self, line: Vec<Cell>)
        ensures
            final(self).spec_max_lines() == old(self).spec_max_lines(),
            final(self).spec_cols() == old(self).spec_cols(),
            final(self).spec_lines() == pushed(old(self).spec_lines(), old(self).spec_max_lines(), fitted(line@, old(self).spec_cols() as nat)),
    {
        self.push(line);
    }

    /// The line at an index (0 is the oldest).
    pub fn get(&self, index: usize) -> (r: Option<&Vec<Cell>>)
        ensures
            index < self.spec_lines().len() ==> r is Some && r->0@ == self.spec_lines()[index as int],
            index >= self.spec_lines().len() ==> r is None,
    {
        if index < self.lines.len() {
            Some(&self.lines[index])
        } else {
            None
        }
    }

    /// The line at an index counted from the newest (0 is the newest).
    pub fn from_end(&self, index: usize) -> (r: Option<&Vec<Cell>>)
        ensures
            index < self.spec_lines().len() ==> r is Some && r->0@ == self.spec_lines()[self.spec_lines().len() - 1 - index],
            index >= self.spec_lines().len() ==> r is None,
    {
        if index < self.lines.len() {
            self.get(self.lines.len() - 1 - index)
        } else {
            None
        }
    }

    /// Forgets all lines.
    pub fn clear(&mut self)
        ensures
            final(self).spec_lines().len() == 0,
            final(self).spec_max_lines() == old(self).spec_max_lines(),
            final(self).spec_cols() == old(self).spec_cols(),
    {
        self.lines.clear();
        proof {
            assert(self.spec_lines() =~= Seq::<Seq<Cell>>::empty());
        }
    }

    /// Sets the limit; the oldest lines beyond it go (all of them for a
    /// limit of 0).
    pub fn resize(&mut self, new_max_lines: usize)
        ensures
            final(self).spec_max_lines() == new_max_lines,
            final(self).spec_cols() == old(self).spec_cols(),
            final(self).spec_lines() == (if new_max_lines == 0 {
                Seq::empty()
            } else if old(self).spec_lines().len() > new_max_lines {
                old(self).spec_lines().skip(old(self).spec_lines().len() - new_max_lines)
            } else {
                old(self).spec_lines()
            }),
    {
        self.max_lines = new_max_lines;
        let ghost l0 = old(self).spec_lines();
        while self.lines.len() > self.max_lines && self.max_lines > 0
            invariant
                self.max_lines == new_max_lines,
                self.cols == old(self).spec_cols(),
                self.spec_lines().len() >= (if l0.len() > new_max_lines { new_max_lines as int } else { l0.len() as int }),
                self.lines@.len() == self.spec_lines().len(),
                self.lines@.len() <= l0.len(),
                self.spec_lines() == l0.skip(l0.len() - self.spec_lines().len()),
            decreases self.lines@.len(),
        {
            let ghost before = self.lines@;
            let _ = self.lines.pop_front();
            proof {
                assert(self.lines@.map_values(|l: Vec<Cell>| l@) =~= before.map_values(|l: Vec<Cell>| l@).drop_first());
                assert(l0.skip(l0.len() - before.len()).drop_first() =~= l0.skip(l0.len() - self.lines@.len()));
            }
        }
        if self.max_lines == 0 {
            self.lines.clear();
            proof {
                assert(self.spec_lines() =~= Seq::<Seq<Cell>>::empty());
            }
        }
        proof {
            if new_max_lines > 0 && l0.len() <= new_max_lines {
                assert(l0.skip(0) =~= l0);
            }
        }
    }

    /// Sets the width: every line is cut or padded to it.
    pub fn resize_cols(&mut self, new_cols: usize)
        ensures
            final(self).spec_cols() == new_cols,
            final(self).spec_max_lines() == old(self).spec_max_lines(),
            new_cols == old(self).spec_cols() ==> final(self).spec_lines() == old(self).spec_lines(),
            new_cols != old(self).spec_cols() ==> final(self).spec_lines() == old(self).spec_lines().map_values(|l: Seq<Cell>| fitted(l, new_cols as nat)),
    {
        if new_cols == self.cols {
            return;
        }
        let n = self.lines.len();
        let ghost l0 = old(self).spec_lines();
        let mut i: usize = 0;
        while i < n
            invariant
                i <= n,
                n == l0.len(),
                self.max_lines == old(self).spec_max_lines(),
                self.lines@.len() == n,
                self.spec_lines() == l0.skip(i as int) + l0.take(i as int).map_values(|l: Seq<Cell>| fitted(l, new_cols as nat)),
            decreases n - i,
        {
            let ghost before = self.lines@;
            let ghost bm = self.spec_lines();
            let line = self.lines.pop_front().unwrap();
            let ghost lv = line@;
            self.lines.push_back(fit_line(line, new_cols));
            proof {
                assert(l0.skip(i as int)[0] == l0[i as int]);
                assert(bm[0] == lv);
                assert(bm[0] == l0[i as int]);
                assert(self.spec_lines() =~= bm.drop_first().push(fitted(lv, new_cols as nat)));
                assert(bm.drop_first() =~= l0.skip(i + 1) + l0.take(i as int).map_values(|l: Seq<Cell>| fitted(l, new_cols as nat)));
                assert(l0.take(i + 1).map_values(|l: Seq<Cell>| fitted(l, new_cols as nat)) =~= l0.take(i as int).map_values(|l: Seq<Cell>| fitted(l, new_cols as nat)).push(fitted(lv, new_cols as nat)));
                assert(self.spec_lines() =~= l0.skip(i + 1) + l0.take(i + 1).map_values(|l: Seq<Cell>| fitted(l, new_cols as nat)));
            }
            i = i + 1;
        }
        proof {
            assert(self.spec_lines() =~= l0.map_values(|l: Seq<Cell>| fitted(l, new_cols as nat)));
        }
        self.cols = new_cols;
    }

    /// The lines, oldest first.
    pub fn iter(&self) -> (it: std::collections::vec_deque::Iter<'_, Vec<Cell>>)
        ensures
            it.remaining().map_values(|l: &Vec<Cell>| l@) == self.spec_lines(),
    {
        let it = self.lines.iter();
        proof {
            assert(it.remaining().map_values(|l: &Vec<Cell>| l@) =~= self.spec_lines());
        }
        it
    }

    /// The characters of a line, if it exists.
    pub fn line_to_string(&self, index: usize) -> (r: Option<String>)
        ensures
            index < self.spec_lines().len() ==> r is Some && r->0@ == row_chars(self.spec_lines()[index as int]),
            index >= self.spec_lines().len() ==> r is None,
    {
        match self.get(index) {
            Some(line) => Some(line_string(line)),
            None => None,
        }
    }

    /// The characters of all lines, oldest first, a line break between
    /// lines.
    pub fn to_string(&self) -> (s: String)
        ensures
            s@ == joined(self.spec_lines().map_values(|l: Seq<Cell>| row_chars(l)), '\n'),
    {
        let ghost rs = self.spec_lines().map_values(|l: Seq<Cell>| row_chars(l));
        let mut out: Vec<char> = Vec::new();
        let mut i: usize = 0;
        while i < self.lines.len()
            invariant
                i <= self.lines@.len(),
                rs == self.spec_lines().map_values(|l: Seq<Cell>| row_chars(l)),
                out@ == joined(rs.take(i as int), '\n'),
            decreases self.lines@.len() - i,
        {
            proof {
                assert(rs.take(i + 1).drop_last() =~= rs.take(i as int));
            }
            if i > 0 {
                out.push('\n');
            }
            let line = &self.lines[i];
            let ghost base = out@;
            let mut c: usize = 0;
            while c < line.len()
                invariant
                    c <= line@.len(),
                    out@ == base + row_chars(line@).take(c as int),
                decreases line@.len() - c,
            {
                out.push(line[c].c);
                proof {
                    assert(row_chars(line@).take(c + 1) =~= row_chars(line@).take(c as int).push(line@[c as int].c));
                }
                c = c + 1;
            }
            proof {
                assert(row_chars(line@).take(c as int) =~= rs[i as int]);
                if i == 0 {
                    assert(rs.take(1) =~= seq![rs[0]]);
                }
            }
            i = i + 1;
        }
        proof {
            assert(rs.take(i as int) =~= rs);
        }
        chars_to_string(out.as_slice())
    }

    /// An estimate of the memory held: lines times width times the size of
    /// a cell.
    pub fn memory_usage(&self) -> (n: usize)
        requires
            self.spec_lines().len() * self.spec_cols() <= usize::MAX,
            self.spec_lines().len() * self.spec_cols() * vstd::layout::size_of::<Cell>() <= usize::MAX,
        ensures
            n == self.spec_lines().len() * self.spec_cols() * vstd::layout::size_of::<Cell>(),
    {
        let sz = core::mem::size_of::<Cell>();
        let a = self.lines.len() * self.cols;
        a * sz
    }
}

/// The lines after `line` is added to `lines` under the limit `max`: none
/// added for a limit of 0; else the oldest goes when the limit is reached.
pub open spec fn pushed(lines: Seq<Seq<Cell>>, max: usize, line: Seq<Cell>) -> Seq<Seq<Cell>> {
    if max == 0 {
        lines
    } else if lines.len() >= max {
        lines.drop_first().push(line)
    } else {
        lines.push(line)
    }
}

fn line_string(line: &Vec<Cell>) -> (s: String)
    ensures
        s@ == row_chars(line@),
{
    let mut out: Vec<char> = Vec::new();
    let mut c: usize = 0;
    while c < line.len()
        invariant
            c <= line@.len(),
            out@ == row_chars(line@).take(c as int),
        decreases line@.len() - c,
    {
        out.push(line[c].c);
        proof {
            assert(row_chars(line@).take(c + 1) =~= row_chars(line@).take(c as int).push(line@[c as int].c));
        }
        c = c + 1;
    }
    proof {
        assert(row_chars(line@).take(c as int) =~= row_chars(line@));
    }
    chars_to_string(out.as_slice())
}

} // verus!
