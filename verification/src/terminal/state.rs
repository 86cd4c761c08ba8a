//! A terminal's state that output updates in place, and the events of a
//! terminal.

use vstd::prelude::*;
use crate::terminal::buffer::{Cell, Cursor, Grid, Scrollback};
use crate::terminal::buffer::cursor::{home_cursor, sat_sub};
use crate::terminal::buffer::grid::blank_row;
use crate::terminal::clipboard::{no_selection, selection_text, Selection, SelectionMode, TerminalClipboard};
use crate::terminal::manager::{at_most, blanked, resized, set_cell, Screen};
use crate::terminal::parser::sequences::TerminalAction;
use crate::text::{concat, usize_decimal, usize_to_string};

verus! {

/// Events of a terminal.
#[derive(Debug, Clone, PartialEq, Eq)]
pub enum TerminalEvent {
    /// Output of the process
    Output(Vec<u8>),
    /// The terminal was resized
    Resized { cols: u16, rows: u16 },
    /// The process ended
    Exited,
    /// The title changed
    TitleChanged(String),
    /// The bell rang
    Bell,
}

/// The screen after an action on a state of `rows` by `cols` cells: a
/// printed character goes into the cell at the cursor (if it lies in the
/// grid) and the cursor stays; a carriage return goes to column 0;
/// clearing the screen blanks every cell (the cursor stays); clearing the
/// line, or its part from the cursor to its end or from its beginning to
/// the cursor, blanks those cells; every other action changes nothing.
pub open spec fn state_after_action(s: Screen, rows: usize, cols: usize, a: TerminalAction) -> Screen {
    let cur = s.cursor;
    match a {
        TerminalAction::Print(ch) => Screen { cells: set_cell(s.cells, cur.row as int, cur.col as int, Cell { c: ch, ..crate::terminal::buffer::cell::blank() }), ..s },
        TerminalAction::CarriageReturn => Screen { cursor: Cursor { col: 0, ..cur }, ..s },
        TerminalAction::ClearScreen => Screen { cells: Seq::new(rows as nat, |r: int| blank_row(cols as nat)), ..s },
        TerminalAction::ClearLine => Screen {
            cells: if cur.row < rows { s.cells.update(cur.row as int, blank_row(cols as nat)) } else { s.cells },
            ..s
        },
        TerminalAction::ClearToEndOfLine => Screen { cells: blanked(s.cells, cur.row as int, cur.col as int, cols as int), ..s },
        TerminalAction::ClearToBeginningOfLine => Screen { cells: blanked(s.cells, cur.row as int, 0, cur.col + 1), ..s },
        _ => s,
    }
}

/// Whether an action is output that brings the view back to the bottom: a
/// printed or executed character.
pub open spec fn resets_scroll(a: TerminalAction) -> bool {
    a is Print || a is Execute
}

/// A terminal's state: its grid, scrolled-off lines, cursor, title and
/// clipboard, whether its process runs and how far the view is scrolled.
pub struct TerminalState {
    /// Its identifier
    pub id: usize,
    title: String,
    grid: Grid,
    scrollback: Scrollback,
    cursor: Cursor,
    clipboard: TerminalClipboard,
    running: bool,
    scroll_offset: usize,
}

impl TerminalState {
    /// The screen.
    pub closed spec fn screen(&self) -> Screen {
        Screen { cells: self.grid.spec_cells(), cursor: self.cursor, history: self.scrollback.spec_lines(), title: self.title@ }
    }

    /// The grid is well formed.
    pub closed spec fn wf(&self) -> bool {
        self.grid.wf()
    }

    /// The grid's number of rows.
    pub closed spec fn spec_rows(&self) -> usize {
        self.grid.spec_rows()
    }

    /// The grid's number of columns.
    pub closed spec fn spec_cols(&self) -> usize {
        self.grid.spec_cols()
    }

    /// Whether its process runs.
    pub closed spec fn spec_running(&self) -> bool {
        self.running
    }

    /// The identifier.
    pub closed spec fn spec_id(&self) -> usize {
        self.id
    }

    /// The scroll offset (0: at the bottom).
    pub closed spec fn spec_scroll_offset(&self) -> usize {
        self.scroll_offset
    }

    /// The clipboard.
    pub closed spec fn spec_clipboard(&self) -> TerminalClipboard {
        self.clipboard
    }

    /// A running state numbered `id`, titled `Terminal` and its number,
    /// with a blank grid of `cols` rows of `rows` cells (the number of
    /// columns gives the number of rows, as [`Grid::new`] takes it),
    /// keeping up to `scrollback_lines` scrolled-off lines of `cols` cells,
    /// the cursor at the origin, at the bottom and with no selection.
    pub fn new(id: usize, rows: u16, cols: u16, scrollback_lines: usize) -> (t: Self)
        requires
            rows > 0,
            cols > 0,
        ensures
            t.wf(),
            t.spec_id() == id,
            t.screen() == (Screen {
                cells: Seq::new(cols as nat, |r: int| blank_row(rows as nat)),
                cursor: home_cursor(),
                history: Seq::empty(),
                title: "Terminal "@ + usize_decimal(id as nat),
            }),
            t.spec_rows() == cols,
            t.spec_cols() == rows,
            t.spec_running(),
            t.spec_scroll_offset() == 0,
            t.spec_clipboard().spec_selection() == no_selection(),
    {
        proof {
            assert((rows as usize) * (cols as usize) <= usize::MAX) by (nonlinear_arith)
                requires
                    rows <= 0xffff,
                    cols <= 0xffff,
            ;
        }
        let grid = Grid::new(cols as usize, rows as usize);
        let scrollback = Scrollback::new(scrollback_lines, cols as usize);
        proof {
            assert(scrollback.spec_lines() =~= Seq::<Seq<Cell>>::empty());
        }
        let n = usize_to_string(id);
        Self {
            id,
            title: concat("Terminal ", n.as_str()),
            grid,
            scrollback,
            cursor: Cursor::new(),
            clipboard: TerminalClipboard::new(),
            running: true,
            scroll_offset: 0,
        }
    }

    /// The title.
    pub fn title(&self) -> (s: &str)
        ensures
            s@ == self.screen().title,
    {
        self.title.as_str()
    }

    /// Sets the title.
    pub fn set_title(&mut self, title: String)
        ensures
            final(self).screen() == (Screen { title: title@, ..old(self).screen() }),
            final(self).wf() == old(self).wf(),
            final(self).spec_rows() == old(self).spec_rows(),
            final(self).spec_cols() == old(self).spec_cols(),
            final(self).spec_running() == old(self).spec_running(),
            final(self).spec_scroll_offset() == old(self).spec_scroll_offset(),
            final(self).spec_clipboard() == old(self).spec_clipboard(),
    {
        self.title = title;
    }

    /// The grid.
    pub fn grid(&self) -> (g: &Grid)
        ensures
            g.spec_cells() == self.screen().cells,
            g.spec_rows() == self.spec_rows(),
            g.spec_cols() == self.spec_cols(),
            self.wf() ==> g.wf(),
    {
        &self.grid
    }

    /// The cursor.
    pub fn cursor(&self) -> (c: &Cursor)
        ensures
            *c == self.screen().cursor,
    {
        &self.cursor
    }

    /// The scrolled-off lines.
    pub fn scrollback(&self) -> (s: &Scrollback)
        ensures
            s.spec_lines() == self.screen().history,
    {
        &self.scrollback
    }

    /// The clipboard.
    pub fn clipboard(&self) -> (c: &TerminalClipboard)
        ensures
            *c == self.spec_clipboard(),
    {
        &self.clipboard
    }

    /// The clipboard, to change.
    pub fn clipboard_mut(&mut self) -> (c: &mut TerminalClipboard)
        ensures
            *c == old(self).spec_clipboard(),
            final(self).spec_clipboard() == *final(c),
            final(self).screen() == old(self).screen(),
            final(self).wf() == old(self).wf(),
            final(self).spec_running() == old(self).spec_running(),
            final(self).spec_scroll_offset() == old(self).spec_scroll_offset(),
    {
        &mut self.clipboard
    }

    /// Whether its process runs.
    pub fn is_running(&self) -> (b: bool)
        ensures
            b == self.spec_running(),
    {
        self.running
    }

    /// How far the view is scrolled up into the scrolled-off lines.
    pub fn scroll_offset(&self) -> (n: usize)
        ensures
            n == self.spec_scroll_offset(),
    {
        self.scroll_offset
    }

    /// Scrolls to `offset` lines up, at most to the oldest line.
    pub fn set_scroll_offset(&mut self, offset: usize)
        ensures
            final(self).spec_scroll_offset() == at_most(offset as int, old(self).screen().history.len() as usize),
            final(self).screen() == old(self).screen(),
            final(self).wf() == old(self).wf(),
            final(self).spec_clipboard() == old(self).spec_clipboard(),
            final(self).spec_running() == old(self).spec_running(),
    {
        let len = self.scrollback.len();
        self.scroll_offset = if offset < len { offset } else { len };
    }

    /// Scrolls up `n` lines, at most to the oldest line.
    pub fn scroll_up_by(&mut self, n: usize)
        requires
            old(self).spec_scroll_offset() + n <= usize::MAX,
        ensures
            final(self).spec_scroll_offset() == at_most(old(self).spec_scroll_offset() + n, old(self).screen().history.len() as usize),
            final(self).screen() == old(self).screen(),
            final(self).wf() == old(self).wf(),
            final(self).spec_clipboard() == old(self).spec_clipboard(),
            final(self).spec_running() == old(self).spec_running(),
    {
        let len = self.scrollback.len();
        let want = self.scroll_offset + n;
        self.scroll_offset = if want < len { want } else { len };
    }

    /// Scrolls down `n` lines, at most to the bottom.
    pub fn scroll_down_by(&mut self, n: usize)
        ensures
            final(self).spec_scroll_offset() == sat_sub(old(self).spec_scroll_offset(), n),
            final(self).screen() == old(self).screen(),
            final(self).wf() == old(self).wf(),
            final(self).spec_clipboard() == old(self).spec_clipboard(),
            final(self).spec_running() == old(self).spec_running(),
    {
        self.scroll_offset = self.scroll_offset.saturating_sub(n);
    }

    /// Scrolls up to the oldest line.
    pub fn scroll_to_top(&mut self)
        ensures
            final(self).spec_scroll_offset() == old(self).screen().history.len(),
            final(self).screen() == old(self).screen(),
            final(self).wf() == old(self).wf(),
            final(self).spec_clipboard() == old(self).spec_clipboard(),
            final(self).spec_running() == old(self).spec_running(),
    {
        self.scroll_offset = self.scrollback.len();
    }

    /// Scrolls down to the bottom.
    pub fn scroll_to_bottom(&mut self)
        ensures
            final(self).spec_scroll_offset() == 0,
            final(self).screen() == old(self).screen(),
            final(self).wf() == old(self).wf(),
            final(self).spec_clipboard() == old(self).spec_clipboard(),
            final(self).spec_running() == old(self).spec_running(),
    {
        self.scroll_offset = 0;
    }

    /// Starts a selection at a cell.
    pub fn start_selection(&mut self, row: usize, col: usize, mode: SelectionMode)
        ensures
            final(self).spec_clipboard().spec_selection() == (Selection { mode, start: (row, col), end: (row, col), active: true }),
            final(self).spec_clipboard().spec_text() == old(self).spec_clipboard().spec_text(),
            final(self).screen() == old(self).screen(),
            final(self).wf() == old(self).wf(),
    {
        self.clipboard.start_selection(row, col, mode);
    }

    /// Moves the end of the selection, if one is active.
    pub fn update_selection(&mut self, row: usize, col: usize)
        ensures
            final(self).spec_clipboard().spec_selection() == (if old(self).spec_clipboard().spec_selection().active {
                Selection { end: (row, col), ..old(self).spec_clipboard().spec_selection() }
            } else {
                old(self).spec_clipboard().spec_selection()
            }),
            final(self).spec_clipboard().spec_text() == old(self).spec_clipboard().spec_text(),
            final(self).screen() == old(self).screen(),
            final(self).wf() == old(self).wf(),
    {
        self.clipboard.update_selection(row, col);
    }

    /// Ends dragging the selection.
    pub fn finalize_selection(&mut self)
        ensures
            final(self).spec_clipboard().spec_selection() == old(self).spec_clipboard().spec_selection(),
            final(self).spec_clipboard().spec_text() == old(self).spec_clipboard().spec_text(),
            final(self).screen() == old(self).screen(),
            final(self).wf() == old(self).wf(),
    {
        self.clipboard.finalize_selection();
    }

    /// Copies the selected text of the grid to the clipboard and returns
    /// it.
    pub fn copy_selection(&mut self) -> (s: String)
        requires
            old(self).wf(),
        ensures
            s@ == selection_text(old(self).spec_clipboard().spec_selection(), old(self).screen().cells),
            old(self).spec_clipboard().spec_selection().active ==> final(self).spec_clipboard().spec_text() == s@,
            !old(self).spec_clipboard().spec_selection().active ==> final(self).spec_clipboard().spec_text()
                == old(self).spec_clipboard().spec_text(),
            final(self).spec_clipboard().spec_selection() == old(self).spec_clipboard().spec_selection(),
            final(self).screen() == old(self).screen(),
            final(self).wf(),
    {
        self.clipboard.copy_selection(&self.grid)
    }

    /// Deactivates the selection.
    pub fn clear_selection(&mut self)
        ensures
            final(self).spec_clipboard().spec_selection() == (Selection {
                active: false,
                start: (0, 0),
                end: (0, 0),
                ..old(self).spec_clipboard().spec_selection()
            }),
            final(self).spec_clipboard().spec_text() == old(self).spec_clipboard().spec_text(),
            final(self).screen() == old(self).screen(),
            final(self).wf() == old(self).wf(),
    {
        self.clipboard.clear_selection();
    }

    /// Blanks the cells of row `row` from column `from` up to (not
    /// including) column `to`.
    fn blank_span(&mut self, row: usize, from: usize, to: usize)
        requires
            old(self).wf(),
            to <= old(self).spec_cols(),
        ensures
            final(self).wf(),
            final(self).screen() == (Screen { cells: blanked(old(self).screen().cells, row as int, from as int, to as int), ..old(self).screen() }),
            final(self).spec_rows() == old(self).spec_rows(),
            final(self).spec_cols() == old(self).spec_cols(),
            final(self).id == old(self).id,
            final(self).running == old(self).running,
            final(self).scroll_offset == old(self).scroll_offset,
            final(self).clipboard == old(self).clipboard,
    {
        let ghost cells0 = self.grid.spec_cells();
        if row >= self.grid.rows() {
            return;
        }
        let mut c: usize = from;
        proof {
            assert(blanked(cells0, row as int, from as int, from as int) =~~= cells0);
        }
        while c < to
            invariant
                from <= c,
                c <= to || c == from,
                self.grid.wf(),
                self.grid.spec_rows() == old(self).spec_rows(),
                self.grid.spec_cols() == old(self).spec_cols(),
                row < self.grid.spec_rows(),
                to <= self.grid.spec_cols(),
                self.grid.spec_cells() == blanked(cells0, row as int, from as int, c as int),
                cells0 == old(self).grid.spec_cells(),
                self.cursor == old(self).cursor,
                self.title == old(self).title,
                self.scrollback == old(self).scrollback,
                self.id == old(self).id,
                self.running == old(self).running,
                self.scroll_offset == old(self).scroll_offset,
                self.clipboard == old(self).clipboard,
            decreases to - c,
        {
            self.grid.set(row, c, Cell::default());
            proof {
                assert(self.grid.spec_cells() =~~= blanked(cells0, row as int, from as int, c + 1));
            }
            c = c + 1;
        }
        proof {
            if to < from {
                assert(blanked(cells0, row as int, from as int, to as int) =~~= cells0);
                assert(blanked(cells0, row as int, from as int, from as int) =~~= cells0);
            }
        }
    }

    /// Applies one parsed action (see [`state_after_action`]); a printed
    /// or executed character also scrolls the view to the bottom.
    pub fn apply_action(&mut self, action: TerminalAction)
        requires
            old(self).wf(),
        ensures
            final(self).wf(),
            final(self).screen() == state_after_action(old(self).screen(), old(self).spec_rows(), old(self).spec_cols(), action),
            final(self).spec_scroll_offset() == (if resets_scroll(action) { 0 } else { old(self).spec_scroll_offset() }),
            final(self).spec_rows() == old(self).spec_rows(),
            final(self).spec_cols() == old(self).spec_cols(),
            final(self).spec_running() == old(self).spec_running(),
            final(self).spec_clipboard() == old(self).spec_clipboard(),
    {
        let resets = match &action {
            TerminalAction::Print(_) => true,
            TerminalAction::Execute(_) => true,
            _ => false,
        };
        match action {
            TerminalAction::Print(ch) => {
                let cell = Cell::new(ch);
                self.grid.set(self.cursor.row, self.cursor.col, cell);
            },
            TerminalAction::CarriageReturn => {
                self.cursor.carriage_return();
            },
            TerminalAction::ClearScreen => {
                self.grid.clear();
            },
            TerminalAction::ClearLine => {
                self.grid.clear_row(self.cursor.row);
            },
            TerminalAction::ClearToEndOfLine => {
                let cols = self.grid.cols();
                self.blank_span(self.cursor.row, self.cursor.col, cols);
            },
            TerminalAction::ClearToBeginningOfLine => {
                let cols = self.grid.cols();
                let end = if self.cursor.col < cols { self.cursor.col + 1 } else { cols };
                self.blank_span(self.cursor.row, 0, end);
                proof {
                    assert(blanked(old(self).screen().cells, old(self).cursor.row as int, 0, end as int) =~~= blanked(
                        old(self).screen().cells,
                        old(self).cursor.row as int,
                        0,
                        old(self).cursor.col + 1,
                    ));
                }
            },
            _ => {},
        }
        if resets {
            self.scroll_offset = 0;
        }
    }

    /// Blanks the grid, forgets the scrolled-off lines, homes the cursor
    /// and scrolls to the bottom.
    pub fn clear(&mut self)
        requires
            old(self).wf(),
        ensures
            final(self).wf(),
            final(self).screen() == (Screen {
                cells: Seq::new(old(self).spec_rows() as nat, |r: int| blank_row(old(self).spec_cols() as nat)),
                cursor: Cursor { row: 0, col: 0, ..old(self).screen().cursor },
                history: Seq::empty(),
                title: old(self).screen().title,
            }),
            final(self).spec_scroll_offset() == 0,
            final(self).spec_rows() == old(self).spec_rows(),
            final(self).spec_cols() == old(self).spec_cols(),
            final(self).spec_running() == old(self).spec_running(),
            final(self).spec_clipboard() == old(self).spec_clipboard(),
    {
        self.grid.clear();
        self.scrollback.clear();
        self.cursor.move_to(0, 0);
        self.scroll_offset = 0;
        proof {
            assert(self.scrollback.spec_lines() =~= Seq::<Seq<Cell>>::empty());
        }
    }

    /// Resizes the grid, keeping the cells that lie within both sizes: the
    /// grid gets `cols` rows of `rows` cells (the first argument gives the
    /// number of rows, as [`Grid::resize`] takes it).
    pub fn resize(&mut self, cols: u16, rows: u16)
        requires
            old(self).wf(),
        ensures
            final(self).wf(),
            final(self).spec_rows() == cols,
            final(self).spec_cols() == rows,
            final(self).screen() == (Screen {
                cells: resized(old(self).screen().cells, old(self).spec_rows() as int, old(self).spec_cols() as int, cols as nat, rows as nat),
                ..old(self).screen()
            }),
            final(self).spec_running() == old(self).spec_running(),
            final(self).spec_scroll_offset() == old(self).spec_scroll_offset(),
            final(self).spec_clipboard() == old(self).spec_clipboard(),
    {
        proof {
            assert((rows as usize) * (cols as usize) <= usize::MAX) by (nonlinear_arith)
                requires
                    rows <= 0xffff,
                    cols <= 0xffff,
            ;
        }
        let ghost before = self.grid.spec_cells();
        self.grid.resize(cols as usize, rows as usize);
        proof {
            let want = resized(before, old(self).spec_rows() as int, old(self).spec_cols() as int, cols as nat, rows as nat);
            assert forall|r: int| 0 <= r < cols implies #[trigger] self.grid.spec_cells()[r] =~= want[r] by {
                assert forall|c: int| 0 <= c < rows implies self.grid.spec_cells()[r][c] == want[r][c] by {
                    assert(self.grid.cell_at(r, c) == self.grid.spec_cells()[r][c]);
                }
            }
            assert(self.grid.spec_cells() =~= want);
        }
    }

    /// Marks the process as ended.
    pub fn kill(&mut self)
        ensures
            !final(self).spec_running(),
            final(self).wf() == old(self).wf(),
            final(self).screen() == old(self).screen(),
            final(self).spec_rows() == old(self).spec_rows(),
            final(self).spec_cols() == old(self).spec_cols(),
            final(self).spec_scroll_offset() == old(self).spec_scroll_offset(),
            final(self).spec_clipboard() == old(self).spec_clipboard(),
    {
        self.running = false;
    }
}

} // verus!
