//! Terminals: the screen model that parsed output acts on, and the
//! manager of several terminals.

use vstd::prelude::*;
use crate::terminal::buffer::{Cell, Cursor, Grid, Scrollback};
use crate::terminal::buffer::cell::blank;
use crate::terminal::buffer::cursor::{sat_add, sat_sub};
use crate::terminal::buffer::grid::blank_row;
use crate::terminal::buffer::scrollback::{fitted, pushed};
use crate::terminal::clipboard::{selection_text, Selection, SelectionMode, TerminalClipboard};
use crate::terminal::parser::sequences::TerminalAction;
use crate::text::{concat, usize_decimal, usize_to_string};

verus! {

/// The identifier of a terminal.
#[derive(Debug, Clone, Copy, PartialEq, Eq, Hash, Structural)]
pub struct TerminalId(pub usize);

impl TerminalId {
    /// The title a terminal gets by default: `Terminal ` and its number.
    pub fn default_title(&self) -> (s: String)
        ensures
            s@ == "Terminal "@ + usize_decimal(self.0 as nat),
    {
        let n = usize_to_string(self.0);
        concat("Terminal ", n.as_str())
    }
}

/// The cells with the cell at (`row`, `col`) replaced, when it lies in
/// them.
pub open spec fn set_cell(cells: Seq<Seq<Cell>>, row: int, col: int, cell: Cell) -> Seq<Seq<Cell>> {
    if 0 <= row < cells.len() && 0 <= col < cells[row].len() {
        cells.update(row, cells[row].update(col, cell))
    } else {
        cells
    }
}

/// The cells with row `row` blank from column `from` up to (not
/// including) column `to`, when the row lies in them.
pub open spec fn blanked(cells: Seq<Seq<Cell>>, row: int, from: int, to: int) -> Seq<Seq<Cell>> {
    if 0 <= row < cells.len() {
        cells.update(row, Seq::new(cells[row].len(), |c: int| if from <= c && c < to { blank() } else { cells[row][c] }))
    } else {
        cells
    }
}

/// The smaller of a number and a bound.
pub open spec fn at_most(a: int, b: usize) -> usize {
    if a < b {
        a as usize
    } else {
        b
    }
}

/// A terminal's screen as contracts see it: the grid's rows of cells, the
/// cursor, the scrolled-off lines (oldest first) and the title.
pub struct Screen {
    /// The grid's rows
    pub cells: Seq<Seq<Cell>>,
    /// The cursor
    pub cursor: Cursor,
    /// The scrolled-off lines
    pub history: Seq<Seq<Cell>>,
    /// The title
    pub title: Seq<char>,
}

/// Whether an action can be applied to a screen of `rows` by `cols`
/// cells with the cursor at `cur`: those that use the last row or column
/// need one, and moves to the right must not overflow.
pub open spec fn action_ok(rows: usize, cols: usize, cur: Cursor, a: TerminalAction) -> bool {
    match a {
        TerminalAction::Print(_) => rows > 0 && cols > 0 && cur.col < usize::MAX,
        TerminalAction::LineFeed => rows > 0,
        TerminalAction::Tab => cols > 0 && (cur.col / 8 + 1) * 8 <= usize::MAX,
        TerminalAction::CursorGoTo { .. } => rows > 0 && cols > 0,
        TerminalAction::CursorForward(n) => cols > 0 && cur.col + n <= usize::MAX,
        _ => true,
    }
}

/// The screen after an action, on a grid of `rows` by `cols` cells whose
/// scrolled-off lines are kept up to `max_lines`, each cut or padded to
/// `line_cols` cells:
/// - a printed character goes into the cell at the cursor (if it lies in
///   the grid), and the cursor moves right, stopping at the last column;
/// - a carriage return goes to column 0; a line feed goes to column 0 of
///   the next row, and past the last row the top row scrolls off into the
///   history, a blank row comes in at the bottom and the cursor stays on
///   the last row;
/// - a tab goes to the next multiple of 8, stopping at the last column;
/// - a backspace moves left, stopping at column 0;
/// - cursor moves go up, down, right (stopping at the last column) or
///   left; a go-to goes to the 1-based line and column, cut to the grid;
/// - clearing the screen blanks every cell and homes the cursor; clearing
///   the line blanks the cursor's row; clearing to its end or beginning
///   blanks that part of the row, the cursor's cell included;
/// - a title replaces the title;
/// - every other action changes nothing.
pub open spec fn after_action(s: Screen, rows: usize, cols: usize, max_lines: usize, line_cols: usize, a: TerminalAction) -> Screen {
    let cur = s.cursor;
    match a {
        TerminalAction::Print(ch) => Screen {
            cells: set_cell(s.cells, cur.row as int, cur.col as int, Cell { c: ch, ..blank() }),
            cursor: Cursor { col: at_most(cur.col + 1, (cols - 1) as usize), ..cur },
            ..s
        },
        TerminalAction::CarriageReturn => Screen { cursor: Cursor { col: 0, ..cur }, ..s },
        TerminalAction::LineFeed => if sat_add(cur.row, 1) >= rows {
            Screen {
                cells: s.cells.drop_first().push(blank_row(cols as nat)),
                cursor: Cursor { row: (rows - 1) as usize, col: 0, ..cur },
                history: pushed(s.history, max_lines, fitted(s.cells[0], line_cols as nat)),
                ..s
            }
        } else {
            Screen { cursor: Cursor { row: sat_add(cur.row, 1), col: 0, ..cur }, ..s }
        },
        TerminalAction::Tab => Screen { cursor: Cursor { col: at_most((cur.col / 8 + 1) * 8, (cols - 1) as usize), ..cur }, ..s },
        TerminalAction::Backspace => Screen { cursor: Cursor { col: sat_sub(cur.col, 1), ..cur }, ..s },
        TerminalAction::CursorGoTo { line, col } => Screen {
            cursor: Cursor {
                row: at_most(sat_sub(line, 1) as int, (rows - 1) as usize),
                col: at_most(sat_sub(col, 1) as int, (cols - 1) as usize),
                ..cur
            },
            ..s
        },
        TerminalAction::CursorUp(n) => Screen { cursor: Cursor { row: sat_sub(cur.row, n), ..cur }, ..s },
        TerminalAction::CursorDown(n) => Screen { cursor: Cursor { row: sat_add(cur.row, n), ..cur }, ..s },
        TerminalAction::CursorForward(n) => Screen { cursor: Cursor { col: at_most(cur.col + n, (cols - 1) as usize), ..cur }, ..s },
        TerminalAction::CursorBackward(n) => Screen { cursor: Cursor { col: sat_sub(cur.col, n), ..cur }, ..s },
        TerminalAction::ClearScreen => Screen {
            cells: Seq::new(rows as nat, |r: int| blank_row(cols as nat)),
            cursor: Cursor { row: 0, col: 0, ..cur },
            ..s
        },
        TerminalAction::ClearLine => Screen {
            cells: if cur.row < rows { s.cells.update(cur.row as int, blank_row(cols as nat)) } else { s.cells },
            ..s
        },
        TerminalAction::ClearToEndOfLine => Screen { cells: blanked(s.cells, cur.row as int, cur.col as int, cols as int), ..s },
        TerminalAction::ClearToBeginningOfLine => Screen { cells: blanked(s.cells, cur.row as int, 0, cur.col + 1), ..s },
        TerminalAction::SetTitle(t) => Screen { title: t@, ..s },
        _ => s,
    }
}

/// The screen after actions applied in order.
pub open spec fn after_actions(s: Screen, rows: usize, cols: usize, max_lines: usize, line_cols: usize, actions: Seq<TerminalAction>) -> Screen
    decreases actions.len(),
{
    if actions.len() == 0 {
        s
    } else {
        after_actions(after_action(s, rows, cols, max_lines, line_cols, actions[0]), rows, cols, max_lines, line_cols, actions.drop_first())
    }
}

/// Whether each of the actions, applied in order, can be applied.
pub open spec fn actions_ok_from(s: Screen, rows: usize, cols: usize, max_lines: usize, line_cols: usize, actions: Seq<TerminalAction>) -> bool
    decreases actions.len(),
{
    actions.len() == 0 || (action_ok(rows, cols, s.cursor, actions[0]) && actions_ok_from(
        after_action(s, rows, cols, max_lines, line_cols, actions[0]),
        rows,
        cols,
        max_lines,
        line_cols,
        actions.drop_first(),
    ))
}

/// The cells of a grid resized to `rows` by `cols`: cells within both the
/// old and the new dimensions are kept, the others are blank.
pub open spec fn resized(cells: Seq<Seq<Cell>>, old_rows: int, old_cols: int, rows: nat, cols: nat) -> Seq<Seq<Cell>> {
    Seq::new(rows, |r: int| Seq::new(cols, |c: int| if r < old_rows && c < old_cols { cells[r][c] } else { blank() }))
}

/// Whether each of the actions can be applied to the terminal in turn.
pub open spec fn actions_ok(t: &Terminal, actions: Seq<TerminalAction>) -> bool {
    actions_ok_from(t.screen(), t.spec_rows(), t.spec_cols(), t.spec_max_lines(), t.spec_line_cols(), actions)
}

/// A terminal: its grid, scrolled-off lines, cursor, title and clipboard.
pub struct Terminal {
    /// Its identifier
    pub id: TerminalId,
    /// Its title
    pub title: String,
    /// The visible cells
    pub grid: Grid,
    /// The lines scrolled off the top
    pub scrollback: Scrollback,
    /// The cursor
    pub cursor: Cursor,
    clipboard: TerminalClipboard,
    /// Whether its process still runs
    pub running: bool,
    scroll_offset: usize,
}

impl Terminal {
    /// The screen.
    pub closed spec fn screen(&self) -> Screen {
        Screen { cells: self.grid.spec_cells(), cursor: self.cursor, history: self.scrollback.spec_lines(), title: self.title@ }
    }

    /// The grid is well formed.
    pub closed spec fn wf(&self) -> bool {
        self.grid.wf()
    }

    /// The grid's number of rows.
    pub closed spec fn spec_rows(&self) -> usize {
        self.grid.spec_rows()
    }

    /// The grid's number of columns.
    pub closed spec fn spec_cols(&self) -> usize {
        self.grid.spec_cols()
    }

    /// The most scrolled-off lines kept.
    pub closed spec fn spec_max_lines(&self) -> usize {
        self.scrollback.spec_max_lines()
    }

    /// The width of the scrolled-off lines.
    pub closed spec fn spec_line_cols(&self) -> usize {
        self.scrollback.spec_cols()
    }

    /// The identifier.
    pub closed spec fn spec_id(&self) -> TerminalId {
        self.id
    }

    /// Whether its process runs.
    pub closed spec fn spec_running(&self) -> bool {
        self.running
    }

    /// The scroll offset (0: at the bottom).
    pub closed spec fn spec_scroll_offset(&self) -> usize {
        self.scroll_offset
    }

    /// The clipboard.
    pub closed spec fn spec_clipboard(&self) -> TerminalClipboard {
        self.clipboard
    }

    /// Scrolls the grid up one row: the top row goes into the scrolled-off
    /// lines and the cursor goes to the last row.
    fn scroll_up(&mut self)
        requires
            old(self).wf(),
            old(self).spec_rows() > 0,
        ensures
            final(self).wf(),
            final(self).screen() == (Screen {
                cells: old(self).screen().cells.drop_first().push(blank_row(old(self).spec_cols() as nat)),
                cursor: Cursor { row: (old(self).spec_rows() - 1) as usize, ..old(self).screen().cursor },
                history: pushed(old(self).screen().history, old(self).spec_max_lines(), fitted(old(self).screen().cells[0], old(self).spec_line_cols() as nat)),
                ..old(self).screen()
            }),
            final(self).spec_rows() == old(self).spec_rows(),
            final(self).spec_cols() == old(self).spec_cols(),
            final(self).spec_max_lines() == old(self).spec_max_lines(),
            final(self).spec_line_cols() == old(self).spec_line_cols(),
            final(self).id == old(self).id,
            final(self).running == old(self).running,
            final(self).scroll_offset == old(self).scroll_offset,
            final(self).clipboard == old(self).clipboard,
    {
        if let Some(line) = self.grid.row(0) {
            let v = vstd::slice::slice_to_vec(line);
            self.scrollback.push_line(v);
        }
        let _ = self.grid.scroll_up();
        self.cursor.row = self.grid.rows() - 1;
    }

    /// Blanks the cells of row `row` from column `from` up to (not
    /// including) column `to`.
    fn blank_span(&mut self, row: usize, from: usize, to: usize)
        requires
            old(self).wf(),
            to <= old(self).spec_cols(),
        ensures
            final(self).wf(),
            final(self).screen() == (Screen { cells: blanked(old(self).screen().cells, row as int, from as int, to as int), ..old(self).screen() }),
            final(self).spec_rows() == old(self).spec_rows(),
            final(self).spec_cols() == old(self).spec_cols(),
            final(self).spec_max_lines() == old(self).spec_max_lines(),
            final(self).spec_line_cols() == old(self).spec_line_cols(),
            final(self).id == old(self).id,
            final(self).running == old(self).running,
            final(self).scroll_offset == old(self).scroll_offset,
            final(self).clipboard == old(self).clipboard,
    {
        let ghost cells0 = self.grid.spec_cells();
        if row >= self.grid.rows() {
            return;
        }
        let mut c: usize = from;
        proof {
            assert(blanked(cells0, row as int, from as int, from as int) =~~= cells0);
        }
        while c < to
            invariant
                from <= c,
                c <= to || c == from,
                self.grid.wf(),
                self.grid.spec_rows() == old(self).spec_rows(),
                self.grid.spec_cols() == old(self).spec_cols(),
                row < self.grid.spec_rows(),
                to <= self.grid.spec_cols(),
                self.grid.spec_cells() == blanked(cells0, row as int, from as int, c as int),
                cells0 == old(self).grid.spec_cells(),
                self.cursor == old(self).cursor,
                self.title == old(self).title,
                self.scrollback == old(self).scrollback,
                self.id == old(self).id,
                self.running == old(self).running,
                self.scroll_offset == old(self).scroll_offset,
                self.clipboard == old(self).clipboard,
            decreases to - c,
        {
            self.grid.set(row, c, Cell::default());
            proof {
                assert(self.grid.spec_cells() =~~= blanked(cells0, row as int, from as int, c + 1));
            }
            c = c + 1;
        }
        proof {
            if to < from {
                assert(blanked(cells0, row as int, from as int, to as int) =~~= cells0);
                assert(blanked(cells0, row as int, from as int, from as int) =~~= cells0);
            }
        }
    }

    /// Applies one parsed action to the screen (see [`after_action`]).
    pub fn apply_action(&mut self, action: TerminalAction)
        requires
            old(self).wf(),
            action_ok(old(self).spec_rows(), old(self).spec_cols(), old(self).screen().cursor, action),
        ensures
            final(self).wf(),
            final(self).screen() == after_action(
                old(self).screen(),
                old(self).spec_rows(),
                old(self).spec_cols(),
                old(self).spec_max_lines(),
                old(self).spec_line_cols(),
                action,
            ),
            final(self).spec_rows() == old(self).spec_rows(),
            final(self).spec_cols() == old(self).spec_cols(),
            final(self).spec_max_lines() == old(self).spec_max_lines(),
            final(self).spec_line_cols() == old(self).spec_line_cols(),
            final(self).spec_id() == old(self).spec_id(),
            final(self).spec_running() == old(self).spec_running(),
            final(self).spec_scroll_offset() == old(self).spec_scroll_offset(),
            final(self).spec_clipboard() == old(self).spec_clipboard(),
    {
        match action {
            TerminalAction::Print(ch) => {
                let cell = Cell::new(ch);
                self.grid.set(self.cursor.row, self.cursor.col, cell);
                let last = self.grid.cols() - 1;
                self.cursor.forward(1, last);
            },
            TerminalAction::CarriageReturn => {
                self.cursor.carriage_return();
            },
            TerminalAction::LineFeed => {
                self.cursor.newline();
                if self.cursor.row >= self.grid.rows() {
                    self.scroll_up();
                }
            },
            TerminalAction::Tab => {
                let next = (self.cursor.col / 8 + 1) * 8;
                let last = self.grid.cols() - 1;
                self.cursor.col = if next < last { next } else { last };
            },
            TerminalAction::Backspace => {
                self.cursor.backward(1);
            },
            TerminalAction::CursorGoTo { line, col } => {
                let last_row = self.grid.rows() - 1;
                let last_col = self.grid.cols() - 1;
                let r = line.saturating_sub(1);
                let c = col.saturating_sub(1);
                self.cursor.move_to(if r < last_row { r } else { last_row }, if c < last_col { c } else { last_col });
            },
            TerminalAction::CursorUp(n) => {
                self.cursor.up(n);
            },
            TerminalAction::CursorDown(n) => {
                self.cursor.down(n);
            },
            TerminalAction::CursorForward(n) => {
                let last = self.grid.cols() - 1;
                self.cursor.forward(n, last);
            },
            TerminalAction::CursorBackward(n) => {
                self.cursor.backward(n);
            },
            TerminalAction::ClearScreen => {
                self.grid.clear();
                self.cursor.move_to(0, 0);
            },
            TerminalAction::ClearLine => {
                self.grid.clear_row(self.cursor.row);
            },
            TerminalAction::ClearToEndOfLine => {
                let cols = self.grid.cols();
                self.blank_span(self.cursor.row, self.cursor.col, cols);
            },
            TerminalAction::ClearToBeginningOfLine => {
                let cols = self.grid.cols();
                let end = if self.cursor.col < cols { self.cursor.col + 1 } else { cols };
                self.blank_span(self.cursor.row, 0, end);
                proof {
                    assert(blanked(old(self).screen().cells, old(self).cursor.row as int, 0, end as int) =~~= blanked(
                        old(self).screen().cells,
                        old(self).cursor.row as int,
                        0,
                        old(self).cursor.col + 1,
                    ));
                }
            },
            TerminalAction::SetTitle(title) => {
                self.title = title;
            },
            _ => {},
        }
    }

    /// Applies parsed actions in order.
    pub fn apply_actions(&mut self, actions: Vec<TerminalAction>)
        requires
            old(self).wf(),
            actions_ok(old(self), actions@),
        ensures
            final(self).wf(),
            final(self).screen() == after_actions(
                old(self).screen(),
                old(self).spec_rows(),
                old(self).spec_cols(),
                old(self).spec_max_lines(),
                old(self).spec_line_cols(),
                actions@,
            ),
            final(self).spec_rows() == old(self).spec_rows(),
            final(self).spec_cols() == old(self).spec_cols(),
            final(self).spec_max_lines() == old(self).spec_max_lines(),
            final(self).spec_line_cols() == old(self).spec_line_cols(),
            final(self).spec_id() == old(self).spec_id(),
            final(self).spec_running() == old(self).spec_running(),
            final(self).spec_scroll_offset() == old(self).spec_scroll_offset(),
            final(self).spec_clipboard() == old(self).spec_clipboard(),
    {
        let ghost s0 = self.screen();
        let ghost all = actions@;
        let mut rest = actions;
        proof {
            assert(rest@ == all);
        }
        while rest.len() > 0
            invariant
                self.wf(),
                self.spec_rows() == old(self).spec_rows(),
                self.spec_cols() == old(self).spec_cols(),
                self.spec_max_lines() == old(self).spec_max_lines(),
                self.spec_line_cols() == old(self).spec_line_cols(),
                self.spec_id() == old(self).spec_id(),
                self.spec_running() == old(self).spec_running(),
                self.spec_scroll_offset() == old(self).spec_scroll_offset(),
                self.spec_clipboard() == old(self).spec_clipboard(),
                actions_ok_from(self.screen(), self.spec_rows(), self.spec_cols(), self.spec_max_lines(), self.spec_line_cols(), rest@),
                after_actions(s0, self.spec_rows(), self.spec_cols(), self.spec_max_lines(), self.spec_line_cols(), all)
                    == after_actions(self.screen(), self.spec_rows(), self.spec_cols(), self.spec_max_lines(), self.spec_line_cols(), rest@),
            decreases rest@.len(),
        {
            let ghost r0 = rest@;
            let a = rest.remove(0);
            proof {
                assert(rest@ =~= r0.drop_first());
            }
            self.apply_action(a);
        }
    }

    /// Blanks the grid, forgets the scrolled-off lines and homes the
    /// cursor.
    pub fn clear(&mut self)
        requires
            old(self).wf(),
        ensures
            final(self).wf(),
            final(self).screen() == (Screen {
                cells: Seq::new(old(self).spec_rows() as nat, |r: int| blank_row(old(self).spec_cols() as nat)),
                cursor: Cursor { row: 0, col: 0, ..old(self).screen().cursor },
                history: Seq::empty(),
                title: old(self).screen().title,
            }),
            final(self).spec_rows() == old(self).spec_rows(),
            final(self).spec_cols() == old(self).spec_cols(),
            final(self).spec_max_lines() == old(self).spec_max_lines(),
            final(self).spec_line_cols() == old(self).spec_line_cols(),
            final(self).spec_id() == old(self).spec_id(),
            final(self).spec_running() == old(self).spec_running(),
            final(self).spec_scroll_offset() == old(self).spec_scroll_offset(),
            final(self).spec_clipboard() == old(self).spec_clipboard(),
    {
        self.grid.clear();
        self.scrollback.clear();
        self.cursor.move_to(0, 0);
        proof {
            assert(self.scrollback.spec_lines() =~= Seq::<Seq<Cell>>::empty());
        }
    }

    /// Resizes the grid, keeping the cells that lie within both sizes: the
    /// grid gets `cols` rows of `rows` cells (the first argument gives the
    /// number of rows, as [`Grid::resize`] takes it).
    pub fn resize(&mut self, cols: u16, rows: u16)
        requires
            old(self).wf(),
        ensures
            final(self).wf(),
            final(self).spec_rows() == cols,
            final(self).spec_cols() == rows,
            final(self).screen() == (Screen {
                cells: resized(old(self).screen().cells, old(self).spec_rows() as int, old(self).spec_cols() as int, cols as nat, rows as nat),
                ..old(self).screen()
            }),
            final(self).spec_max_lines() == old(self).spec_max_lines(),
            final(self).spec_line_cols() == old(self).spec_line_cols(),
            final(self).spec_id() == old(self).spec_id(),
            final(self).spec_running() == old(self).spec_running(),
            final(self).spec_scroll_offset() == old(self).spec_scroll_offset(),
            final(self).spec_clipboard() == old(self).spec_clipboard(),
    {
        proof {
            assert((rows as usize) * (cols as usize) <= usize::MAX) by (nonlinear_arith)
                requires
                    rows <= 0xffff,
                    cols <= 0xffff,
            ;
        }
        let ghost before = self.grid.spec_cells();
        self.grid.resize(cols as usize, rows as usize);
        proof {
            let want = resized(before, old(self).spec_rows() as int, old(self).spec_cols() as int, cols as nat, rows as nat);
            assert forall|r: int| 0 <= r < cols implies #[trigger] self.grid.spec_cells()[r] =~= want[r] by {
                assert forall|c: int| 0 <= c < rows implies self.grid.spec_cells()[r][c] == want[r][c] by {
                    assert(self.grid.cell_at(r, c) == self.grid.spec_cells()[r][c]);
                }
            }
            assert(self.grid.spec_cells() =~= want);
        }
    }

    /// Marks the terminal's process as ended.
    pub fn kill(&mut self)
        ensures
            !final(self).spec_running(),
            final(self).wf() == old(self).wf(),
            final(self).screen() == old(self).screen(),
            final(self).spec_rows() == old(self).spec_rows(),
            final(self).spec_cols() == old(self).spec_cols(),
            final(self).spec_max_lines() == old(self).spec_max_lines(),
            final(self).spec_line_cols() == old(self).spec_line_cols(),
            final(self).spec_id() == old(self).spec_id(),
            final(self).spec_scroll_offset() == old(self).spec_scroll_offset(),
            final(self).spec_clipboard() == old(self).spec_clipboard(),
    {
        self.running = false;
    }

    /// How far the view is scrolled up into the scrolled-off lines.
    pub fn scroll_offset(&self) -> (n: usize)
        ensures
            n == self.spec_scroll_offset(),
    {
        self.scroll_offset
    }

    /// Scrolls to `offset` lines up, at most to the oldest line.
    pub fn set_scroll_offset(&mut self, offset: usize)
        ensures
            final(self).spec_scroll_offset() == at_most(offset as int, old(self).screen().history.len() as usize),
            final(self).screen() == old(self).screen(),
            final(self).wf() == old(self).wf(),
            final(self).spec_clipboard() == old(self).spec_clipboard(),
            final(self).spec_running() == old(self).spec_running(),
    {
        let len = self.scrollback.len();
        self.scroll_offset = if offset < len { offset } else { len };
    }

    /// Scrolls up `n` lines, at most to the oldest line.
    pub fn scroll_up_by(&mut self, n: usize)
        requires
            old(self).spec_scroll_offset() + n <= usize::MAX,
        ensures
            final(self).spec_scroll_offset() == at_most(old(self).spec_scroll_offset() + n, old(self).screen().history.len() as usize),
            final(self).screen() == old(self).screen(),
            final(self).wf() == old(self).wf(),
            final(self).spec_clipboard() == old(self).spec_clipboard(),
            final(self).spec_running() == old(self).spec_running(),
    {
        let len = self.scrollback.len();
        let want = self.scroll_offset + n;
        self.scroll_offset = if want < len { want } else { len };
    }

    /// Scrolls down `n` lines, at most to the bottom.
    pub fn scroll_down_by(&mut self, n: usize)
        ensures
            final(self).spec_scroll_offset() == sat_sub(old(self).spec_scroll_offset(), n),
            final(self).screen() == old(self).screen(),
            final(self).wf() == old(self).wf(),
            final(self).spec_clipboard() == old(self).spec_clipboard(),
            final(self).spec_running() == old(self).spec_running(),
    {
        self.scroll_offset = self.scroll_offset.saturating_sub(n);
    }

    /// Scrolls up to the oldest line.
    pub fn scroll_to_top(&mut self)
        ensures
            final(self).spec_scroll_offset() == old(self).screen().history.len(),
            final(self).screen() == old(self).screen(),
            final(self).wf() == old(self).wf(),
            final(self).spec_clipboard() == old(self).spec_clipboard(),
            final(self).spec_running() == old(self).spec_running(),
    {
        self.scroll_offset = self.scrollback.len();
    }

    /// Scrolls down to the bottom.
    pub fn scroll_to_bottom(&mut self)
        ensures
            final(self).spec_scroll_offset() == 0,
            final(self).screen() == old(self).screen(),
            final(self).wf() == old(self).wf(),
            final(self).spec_clipboard() == old(self).spec_clipboard(),
            final(self).spec_running() == old(self).spec_running(),
    {
        self.scroll_offset = 0;
    }

    /// Starts a selection at a cell.
    pub fn start_selection(&mut self, row: usize, col: usize, mode: SelectionMode)
        ensures
            final(self).spec_clipboard().spec_selection() == (Selection { mode, start: (row, col), end: (row, col), active: true }),
            final(self).spec_clipboard().spec_text() == old(self).spec_clipboard().spec_text(),
            final(self).screen() == old(self).screen(),
            final(self).wf() == old(self).wf(),
    {
        self.clipboard.start_selection(row, col, mode);
    }

    /// Moves the end of the selection, if one is active.
    pub fn update_selection(&mut self, row: usize, col: usize)
        ensures
            final(self).spec_clipboard().spec_selection() == (if old(self).spec_clipboard().spec_selection().active {
                Selection { end: (row, col), ..old(self).spec_clipboard().spec_selection() }
            } else {
                old(self).spec_clipboard().spec_selection()
            }),
            final(self).spec_clipboard().spec_text() == old(self).spec_clipboard().spec_text(),
            final(self).screen() == old(self).screen(),
            final(self).wf() == old(self).wf(),
    {
        self.clipboard.update_selection(row, col);
    }

    /// Ends dragging the selection.
    pub fn finalize_selection(&mut self)
        ensures
            final(self).spec_clipboard().spec_selection() == old(self).spec_clipboard().spec_selection(),
            final(self).spec_clipboard().spec_text() == old(self).spec_clipboard().spec_text(),
            final(self).screen() == old(self).screen(),
            final(self).wf() == old(self).wf(),
    {
        self.clipboard.finalize_selection();
    }

    /// Copies the selected text of the grid to the clipboard and returns
    /// it (see [`TerminalClipboard::copy_selection`]).
    pub fn copy_selection(&mut self) -> (s: String)
        requires
            old(self).wf(),
        ensures
            s@ == selection_text(old(self).spec_clipboard().spec_selection(), old(self).screen().cells),
            old(self).spec_clipboard().spec_selection().active ==> final(self).spec_clipboard().spec_text() == s@,
            !old(self).spec_clipboard().spec_selection().active ==> final(self).spec_clipboard().spec_text()
                == old(self).spec_clipboard().spec_text(),
            final(self).spec_clipboard().spec_selection() == old(self).spec_clipboard().spec_selection(),
            final(self).screen() == old(self).screen(),
            final(self).wf(),
    {
        self.clipboard.copy_selection(&self.grid)
    }

    /// Deactivates the selection.
    pub fn clear_selection(&mut self)
        ensures
            final(self).spec_clipboard().spec_selection() == (Selection {
                active: false,
                start: (0, 0),
                end: (0, 0),
                ..old(self).spec_clipboard().spec_selection()
            }),
            final(self).spec_clipboard().spec_text() == old(self).spec_clipboard().spec_text(),
            final(self).screen() == old(self).screen(),
            final(self).wf() == old(self).wf(),
    {
        self.clipboard.clear_selection();
    }

    /// The clipboard.
    pub fn clipboard(&self) -> (c: &TerminalClipboard)
        ensures
            *c == self.spec_clipboard(),
    {
        &self.clipboard
    }

    /// The clipboard, to change.
    pub fn clipboard_mut(&mut self) -> (c: &mut TerminalClipboard)
        ensures
            *c == old(self).spec_clipboard(),
            final(self).spec_clipboard() == *final(c),
            final(self).screen() == old(self).screen(),
            final(self).wf() == old(self).wf(),
            final(self).spec_rows() == old(self).spec_rows(),
            final(self).spec_cols() == old(self).spec_cols(),
            final(self).spec_running() == old(self).spec_running(),
            final(self).spec_scroll_offset() == old(self).spec_scroll_offset(),
    {
        &mut self.clipboard
    }

    /// A terminal of `rows` by `cols` cells keeping up to
    /// `scrollback_lines` scrolled-off lines, titled `Terminal` and its
    /// number, running, with a blank screen, the cursor at the origin and
    /// no selection.
    pub fn new(id: TerminalId, rows: u16, cols: u16, scrollback_lines: usize) -> (t: Self)
        requires
            rows > 0,
            cols > 0,
        ensures
            fresh_terminal(t, id, rows, cols, scrollback_lines),
    {
        proof {
            assert((rows as usize) * (cols as usize) <= usize::MAX) by (nonlinear_arith)
                requires
                    rows <= 0xffff,
                    cols <= 0xffff,
            ;
        }
        let grid = Grid::new(rows as usize, cols as usize);
        let scrollback = Scrollback::new(scrollback_lines, cols as usize);
        proof {
            assert(scrollback.spec_lines() =~= Seq::<Seq<Cell>>::empty());
        }
        Self {
            id,
            title: id.default_title(),
            grid,
            scrollback,
            cursor: Cursor::new(),
            clipboard: TerminalClipboard::new(),
            running: true,
            scroll_offset: 0,
        }
    }
}

/// A terminal as [`Terminal::new`] makes it: well formed, with that
/// identifier and size, a blank screen, the cursor at the origin, no
/// scrolled-off lines, titled `Terminal` and its number, running, scrolled
/// to the bottom and with no selection.
pub open spec fn fresh_terminal(t: Terminal, id: TerminalId, rows: u16, cols: u16, scrollback_lines: usize) -> bool {
    &&& t.wf()
    &&& t.spec_id() == id
    &&& t.screen() == (Screen {
        cells: Seq::new(rows as nat, |r: int| blank_row(cols as nat)),
        cursor: crate::terminal::buffer::cursor::home_cursor(),
        history: Seq::empty(),
        title: "Terminal "@ + usize_decimal(id.0 as nat),
    })
    &&& t.spec_rows() == rows
    &&& t.spec_cols() == cols
    &&& t.spec_max_lines() == scrollback_lines
    &&& t.spec_line_cols() == cols
    &&& t.spec_running()
    &&& t.spec_scroll_offset() == 0
    &&& t.spec_clipboard().spec_selection() == crate::terminal::clipboard::no_selection()
}

/// The index of the first terminal with identifier `id`, if any.
pub open spec fn index_of(ts: Seq<Terminal>, id: TerminalId) -> Option<int>
    decreases ts.len(),
{
    if ts.len() == 0 {
        None
    } else if ts[0].spec_id() == id {
        Some(0)
    } else {
        match index_of(ts.drop_first(), id) {
            Some(i) => Some(i + 1),
            None => None,
        }
    }
}

/// The index after `c` among `n` terminals, the first after the last.
pub open spec fn next_index(c: usize, n: usize) -> usize {
    ((c + 1) % (n as int)) as usize
}

/// The index before `c` among `n` terminals, the last before the first.
pub open spec fn previous_index(c: usize, n: usize) -> usize {
    if c == 0 {
        (n - 1) as usize
    } else {
        (c - 1) as usize
    }
}

/// Going to the next terminal and back to the previous one returns to the
/// terminal one started from.
pub proof fn lemma_next_then_previous(c: usize, n: usize)
    requires
        c < n,
    ensures
        next_index(c, n) < n,
        previous_index(next_index(c, n), n) == c,
{
    if c + 1 == n {
        assert((c + 1) % (n as int) == 0) by (nonlinear_arith)
            requires
                c + 1 == n,
                n > 0,
        ;
    } else {
        assert((c + 1) % (n as int) == c + 1) by (nonlinear_arith)
            requires
                c + 1 < n,
        ;
    }
}

/// The index found is that of a terminal with the identifier.
proof fn lemma_index_of(ts: Seq<Terminal>, id: TerminalId)
    ensures
        index_of(ts, id) matches Some(i) ==> 0 <= i < ts.len() && ts[i].spec_id() == id,
    decreases ts.len(),
{
    if ts.len() > 0 && ts[0].spec_id() != id {
        lemma_index_of(ts.drop_first(), id);
    }
}

/// `b` is `a` with a new terminal with identifier `id` added after the
/// others (as [`Terminal::new`] makes it, of the manager's size), current,
/// and the panel shown.
pub open spec fn creates(a: TerminalManager, b: TerminalManager, id: TerminalId) -> bool {
    &&& b.wf()
    &&& b.spec_terminals().len() == a.spec_terminals().len() + 1
    &&& b.spec_terminals().drop_last() == a.spec_terminals()
    &&& fresh_terminal(b.spec_terminals().last(), id, a.spec_size().0, a.spec_size().1, a.spec_size().2)
    &&& b.spec_current() == a.spec_terminals().len()
    &&& b.spec_visible()
    &&& b.spec_size() == a.spec_size()
}

/// `b` is `a` with its current terminal, if any, closed: the one after it
/// (or, for the last, the one before) becomes current; with none left, the
/// panel hides.
pub open spec fn closes_current(a: TerminalManager, b: TerminalManager) -> bool {
    &&& b.wf()
    &&& a.spec_terminals().len() == 0 ==> b == a
    &&& a.spec_terminals().len() > 0 ==> {
        let i = a.spec_current();
        let n = (a.spec_terminals().len() - 1) as usize;
        &&& b.spec_terminals() == a.spec_terminals().remove(i as int)
        &&& b.spec_current() == (if i >= n && i > 0 { (i - 1) as usize } else { i })
        &&& b.spec_visible() == (a.spec_visible() && n > 0)
    }
    &&& b.spec_size() == a.spec_size()
}

/// `b` is `a` with every terminal closed and the panel hidden.
pub open spec fn closes_all(a: TerminalManager, b: TerminalManager) -> bool {
    &&& b.wf()
    &&& b.spec_terminals().len() == 0
    &&& b.spec_current() == 0
    &&& !b.spec_visible()
    &&& b.spec_size() == a.spec_size()
}

/// `b` is `a` with terminal `i` current.
pub open spec fn moves_to(a: TerminalManager, b: TerminalManager, i: usize) -> bool {
    &&& b.wf()
    &&& b.spec_terminals() == a.spec_terminals()
    &&& b.spec_current() == i
    &&& b.spec_visible() == a.spec_visible()
    &&& b.spec_size() == a.spec_size()
}

/// `b` is `a` with the panel shown or not.
pub open spec fn shows(a: TerminalManager, b: TerminalManager, visible: bool) -> bool {
    &&& b.spec_visible() == visible
    &&& b.spec_terminals() == a.spec_terminals()
    &&& b.spec_current() == a.spec_current()
    &&& b.spec_size() == a.spec_size()
}

/// `b` is `a` with only the current terminal (if any) changed, and that
/// one as `changed` says.
pub open spec fn changes_current(a: TerminalManager, b: TerminalManager, changed: spec_fn(Terminal, Terminal) -> bool) -> bool {
    &&& b.wf()
    &&& b.spec_terminals().len() == a.spec_terminals().len()
    &&& forall|j: int| 0 <= j < a.spec_terminals().len() && j != a.spec_current()
        ==> #[trigger] b.spec_terminals()[j] == a.spec_terminals()[j]
    &&& a.spec_terminals().len() > 0 ==> changed(a.spec_terminals()[a.spec_current() as int], b.spec_terminals()[a.spec_current() as int])
    &&& b.spec_current() == a.spec_current()
    &&& b.spec_visible() == a.spec_visible()
    &&& b.spec_size() == a.spec_size()
}

/// `t1` is `t0` cleared (see [`Terminal::clear`]).
pub open spec fn cleared(t0: Terminal, t1: Terminal) -> bool {
    &&& t1.screen() == (Screen {
        cells: Seq::new(t0.spec_rows() as nat, |r: int| blank_row(t0.spec_cols() as nat)),
        cursor: Cursor { row: 0, col: 0, ..t0.screen().cursor },
        history: Seq::empty(),
        title: t0.screen().title,
    })
    &&& t1.spec_rows() == t0.spec_rows()
    &&& t1.spec_cols() == t0.spec_cols()
    &&& t1.spec_id() == t0.spec_id()
    &&& t1.spec_running() == t0.spec_running()
}

/// `t1` is `t0` with its process marked as ended.
pub open spec fn killed(t0: Terminal, t1: Terminal) -> bool {
    &&& !t1.spec_running()
    &&& t1.screen() == t0.screen()
    &&& t1.spec_id() == t0.spec_id()
}

/// `b` is `a` with its current terminal, if any, cleared.
pub open spec fn clears_current(a: TerminalManager, b: TerminalManager) -> bool {
    changes_current(a, b, |t0: Terminal, t1: Terminal| cleared(t0, t1))
}

/// `b` is `a` with its current terminal's process, if any, marked as
/// ended.
pub open spec fn kills_current(a: TerminalManager, b: TerminalManager) -> bool {
    changes_current(a, b, |t0: Terminal, t1: Terminal| killed(t0, t1))
}

/// Several terminals, one of them current, shown in a panel that can be
/// hidden; new terminals get the size the manager was made with.
pub struct TerminalManager {
    rows: u16,
    cols: u16,
    scrollback_lines: usize,
    terminals: Vec<Terminal>,
    current_index: usize,
    visible: bool,
}

impl TerminalManager {
    /// The terminals, in the order they were made.
    pub closed spec fn spec_terminals(&self) -> Seq<Terminal> {
        self.terminals@
    }

    /// The index of the current terminal.
    pub closed spec fn spec_current(&self) -> usize {
        self.current_index
    }

    /// Whether the panel is shown.
    pub closed spec fn spec_visible(&self) -> bool {
        self.visible
    }

    /// The size of new terminals: rows, columns and scrolled-off lines kept.
    pub closed spec fn spec_size(&self) -> (u16, u16, usize) {
        (self.rows, self.cols, self.scrollback_lines)
    }

    /// Every terminal is well formed, and the current index is that of a
    /// terminal (0 when there is none).
    pub open spec fn wf(&self) -> bool {
        &&& forall|i: int| 0 <= i < self.spec_terminals().len() ==> (#[trigger] self.spec_terminals()[i]).wf()
        &&& (self.spec_current() < self.spec_terminals().len() || (self.spec_terminals().len() == 0
            && self.spec_current() == 0))
    }

    /// A manager without terminals, hidden, making terminals of `rows` by
    /// `cols` cells keeping up to `scrollback_lines` scrolled-off lines.
    pub fn new(rows: u16, cols: u16, scrollback_lines: usize) -> (m: Self)
        ensures
            m.wf(),
            m.spec_terminals().len() == 0,
            m.spec_current() == 0,
            !m.spec_visible(),
            m.spec_size() == (rows, cols, scrollback_lines),
    {
        Self { rows, cols, scrollback_lines, terminals: Vec::new(), current_index: 0, visible: false }
    }

    /// Adds a new terminal with identifier `id`, makes it current and shows
    /// the panel; returns the identifier.
    pub fn create_terminal(&mut self, id: TerminalId) -> (r: TerminalId)
        requires
            old(self).wf(),
            old(self).spec_size().0 > 0,
            old(self).spec_size().1 > 0,
        ensures
            r == id,
            creates(*old(self), *final(self), id),
    {
        let t = Terminal::new(id, self.rows, self.cols, self.scrollback_lines);
        self.terminals.push(t);
        self.current_index = self.terminals.len() - 1;
        self.visible = true;
        proof {
            assert(self.spec_terminals().drop_last() =~= old(self).spec_terminals());
        }
        id
    }

    /// The current terminal, if there is one.
    pub fn current(&self) -> (r: Option<&Terminal>)
        requires
            self.wf(),
        ensures
            self.spec_terminals().len() > 0 ==> (r matches Some(t) && *t == self.spec_terminals()[self.spec_current() as int]),
            self.spec_terminals().len() == 0 ==> r is None,
    {
        if self.current_index < self.terminals.len() {
            Some(&self.terminals[self.current_index])
        } else {
            None
        }
    }

    /// The current terminal, to change, if there is one.
    pub fn current_mut(&mut self) -> (r: Option<&mut Terminal>)
        requires
            old(self).wf(),
        ensures
            old(self).spec_terminals().len() == 0 ==> r is None && final(self).spec_terminals() == old(self).spec_terminals(),
            old(self).spec_terminals().len() > 0 ==> (r matches Some(t) && *t == old(self).spec_terminals()[old(self).spec_current() as int]
                && final(self).spec_terminals() == old(self).spec_terminals().update(old(self).spec_current() as int, *final(t))),
            final(self).spec_current() == old(self).spec_current(),
            final(self).spec_visible() == old(self).spec_visible(),
            final(self).spec_size() == old(self).spec_size(),
    {
        let i = self.current_index;
        if i < self.terminals.len() {
            Some(&mut self.terminals[i])
        } else {
            None
        }
    }

    /// The index of the first terminal with identifier `id`, if any.
    fn find(&self, id: TerminalId) -> (r: Option<usize>)
        ensures
            index_of(self.spec_terminals(), id) matches Some(i) ==> r == Some(i as usize),
            index_of(self.spec_terminals(), id) is None ==> r is None,
            r matches Some(i) ==> i < self.spec_terminals().len() && index_of(self.spec_terminals(), id) == Some(i as int),
    {
        proof {
            lemma_index_of(self.spec_terminals(), id);
        }
        let mut i: usize = 0;
        proof {
            assert(self.spec_terminals().skip(0) =~= self.spec_terminals());
        }
        while i < self.terminals.len()
            invariant
                i <= self.spec_terminals().len(),
                index_of(self.spec_terminals(), id) == (match index_of(self.spec_terminals().skip(i as int), id) {
                    Some(k) => Some(k + i),
                    None => None,
                }),
            decreases self.spec_terminals().len() - i,
        {
            proof {
                let rest = self.spec_terminals().skip(i as int);
                assert(rest[0] == self.spec_terminals()[i as int]);
                assert(rest.drop_first() =~= self.spec_terminals().skip(i + 1));
            }
            if self.terminals[i].id == id {
                return Some(i);
            }
            i = i + 1;
        }
        proof {
            assert(self.spec_terminals().skip(i as int).len() == 0);
        }
        None
    }

    /// The terminal with identifier `id` (the first, if several), if any.
    pub fn get(&self, id: TerminalId) -> (r: Option<&Terminal>)
        ensures
            index_of(self.spec_terminals(), id) matches Some(i) ==> (r matches Some(t) && *t == self.spec_terminals()[i]),
            index_of(self.spec_terminals(), id) is None ==> r is None,
    {
        proof {
            lemma_index_of(self.spec_terminals(), id);
        }
        match self.find(id) {
            Some(i) => {
                proof {
                    assert(index_of(self.spec_terminals(), id) == Some(i as int));
                }
                Some(&self.terminals[i])
            },
            None => None,
        }
    }

    /// The terminal with identifier `id` (the first, if several), to
    /// change, if any.
    pub fn get_mut(&mut self, id: TerminalId) -> (r: Option<&mut Terminal>)
        ensures
            index_of(old(self).spec_terminals(), id) matches Some(i) ==> (r matches Some(t) && *t
                == old(self).spec_terminals()[i] && final(self).spec_terminals() == old(self).spec_terminals().update(i, *final(t))),
            index_of(old(self).spec_terminals(), id) is None ==> r is None && final(self).spec_terminals() == old(self).spec_terminals(),
            final(self).spec_current() == old(self).spec_current(),
            final(self).spec_visible() == old(self).spec_visible(),
            final(self).spec_size() == old(self).spec_size(),
    {
        proof {
            lemma_index_of(self.spec_terminals(), id);
        }
        match self.find(id) {
            Some(i) => {
                proof {
                    assert(index_of(self.spec_terminals(), id) == Some(i as int));
                }
                Some(&mut self.terminals[i])
            },
            None => None,
        }
    }

    /// The terminals.
    pub fn terminals(&self) -> (r: &[Terminal])
        ensures
            r@ == self.spec_terminals(),
    {
        self.terminals.as_slice()
    }

    /// The number of terminals.
    pub fn terminal_count(&self) -> (n: usize)
        ensures
            n == self.spec_terminals().len(),
    {
        self.terminals.len()
    }

    /// Closes the current terminal, if any: the one after it (or, for the
    /// last, the one before) becomes current; with none left, the panel
    /// hides.
    pub fn close_current(&mut self)
        requires
            old(self).wf(),
        ensures
            closes_current(*old(self), *final(self)),
    {
        if !self.terminals.is_empty() {
            self.terminals.remove(self.current_index);
            if self.current_index >= self.terminals.len() && self.current_index > 0 {
                self.current_index = self.current_index - 1;
            }
            if self.terminals.is_empty() {
                self.visible = false;
            }
        }
    }

    /// Closes every terminal and hides the panel.
    pub fn close_all(&mut self)
        ensures
            closes_all(*old(self), *final(self)),
    {
        self.terminals.clear();
        self.current_index = 0;
        self.visible = false;
    }

    /// Makes the next terminal current, the first after the last.
    pub fn next_terminal(&mut self)
        requires
            old(self).wf(),
        ensures
            moves_to(*old(self), *final(self), if old(self).spec_terminals().len() > 0 {
                next_index(old(self).spec_current(), old(self).spec_terminals().len() as usize)
            } else {
                old(self).spec_current()
            }),
    {
        if !self.terminals.is_empty() {
            assert(self.current_index < self.terminals.len());
            self.current_index = (self.current_index + 1) % self.terminals.len();
        }
    }

    /// Makes the previous terminal current, the last before the first.
    pub fn previous_terminal(&mut self)
        requires
            old(self).wf(),
        ensures
            moves_to(*old(self), *final(self), if old(self).spec_terminals().len() > 0 {
                previous_index(old(self).spec_current(), old(self).spec_terminals().len() as usize)
            } else {
                old(self).spec_current()
            }),
    {
        if !self.terminals.is_empty() {
            self.current_index = if self.current_index == 0 {
                self.terminals.len() - 1
            } else {
                self.current_index - 1
            };
        }
    }

    /// Makes terminal number `index` (counted from 1) current, if it
    /// exists.
    pub fn switch_to(&mut self, index: usize)
        requires
            old(self).wf(),
        ensures
            moves_to(*old(self), *final(self), if 0 < index <= old(self).spec_terminals().len() {
                (index - 1) as usize
            } else {
                old(self).spec_current()
            }),
    {
        if index > 0 && index <= self.terminals.len() {
            self.current_index = index - 1;
        }
    }

    /// Shows the panel if hidden, hides it if shown.
    pub fn toggle_visibility(&mut self)
        ensures
            shows(*old(self), *final(self), !old(self).spec_visible()),
    {
        self.visible = !self.visible;
    }

    /// Shows the panel.
    pub fn show(&mut self)
        ensures
            shows(*old(self), *final(self), true),
    {
        self.visible = true;
    }

    /// Hides the panel.
    pub fn hide_panel(&mut self)
        ensures
            shows(*old(self), *final(self), false),
    {
        self.visible = false;
    }

    /// Whether the panel is shown.
    pub fn is_visible(&self) -> (b: bool)
        ensures
            b == self.spec_visible(),
    {
        self.visible
    }

    /// The index of the current terminal.
    pub fn current_index(&self) -> (i: usize)
        ensures
            i == self.spec_current(),
    {
        self.current_index
    }

    /// Clears the current terminal, if any (see [`Terminal::clear`]).
    pub fn clear_current(&mut self)
        requires
            old(self).wf(),
        ensures
            clears_current(*old(self), *final(self)),
    {
        let i = self.current_index;
        if i < self.terminals.len() {
            let mut t = self.terminals.remove(i);
            t.clear();
            self.terminals.insert(i, t);
            proof {
                assert forall|j: int| 0 <= j < self.spec_terminals().len() implies (#[trigger] self.spec_terminals()[j]).wf() by {
                    if j != i {
                        assert(self.spec_terminals()[j] == old(self).spec_terminals()[j]);
                    }
                }
            }
        }
    }

    /// Marks the current terminal's process as ended, if there is one.
    pub fn kill_current(&mut self)
        requires
            old(self).wf(),
        ensures
            kills_current(*old(self), *final(self)),
    {
        let i = self.current_index;
        if i < self.terminals.len() {
            let mut t = self.terminals.remove(i);
            t.kill();
            self.terminals.insert(i, t);
            proof {
                assert forall|j: int| 0 <= j < self.spec_terminals().len() implies (#[trigger] self.spec_terminals()[j]).wf() by {
                    if j != i {
                        assert(self.spec_terminals()[j] == old(self).spec_terminals()[j]);
                    }
                }
            }
        }
    }
}

} // verus!
