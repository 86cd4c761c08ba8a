//! Terminal tabs: each tab holds a terminal view's grid; one tab is
//! active.

use vstd::prelude::*;
use crate::text::{concat, usize_decimal, usize_to_string};
use crate::ui::TerminalCursor;
use crate::ui::TerminalCursorStyle;
use crate::ui::terminal_canvas::{empty_cells, grid_cells, TerminalGrid};

verus! {

/// The title a tab gets by default: `Terminal` and its number counted
/// from 1.
pub open spec fn tab_title(id: nat) -> Seq<char> {
    "Terminal "@ + usize_decimal(id + 1)
}

/// A terminal tab.
#[derive(Debug, Clone)]
pub struct TerminalTab {
    /// Its identifier
    pub id: usize,
    /// Its title
    pub title: String,
    /// The terminal view's grid
    pub grid: TerminalGrid,
    /// Whether it is the active tab
    pub active: bool,
    /// Its working directory
    pub working_dir: String,
    /// Whether it runs a process
    pub is_busy: bool,
}

/// A tab as [`TerminalTab::new`] makes it.
pub open spec fn new_tab(t: TerminalTab, id: usize, title: Seq<char>, cols: usize, rows: usize) -> bool {
    &&& t.id == id
    &&& t.title@ == title
    &&& t.grid.cols == cols
    &&& t.grid.rows == rows
    &&& grid_cells(&t.grid) == empty_cells(cols as nat, rows as nat)
    &&& t.grid.cursor == (TerminalCursor { row: 0, col: 0, visible: true, style: TerminalCursorStyle::Block })
    &&& t.grid.selection is None
    &&& t.grid.scroll_offset == 0
    &&& !t.active
    &&& t.working_dir@ == "~"@
    &&& !t.is_busy
}

impl TerminalTab {
    /// A tab with an empty grid of `rows` rows of `cols` cells, inactive,
    /// idle, in the home directory.
    pub fn new(id: usize, title: String, cols: usize, rows: usize) -> (t: Self)
        ensures
            new_tab(t, id, title@, cols, rows),
    {
        Self { id, title, grid: TerminalGrid::new(cols, rows), active: false, working_dir: "~".to_owned(), is_busy: false }
    }

    /// A tab of 80 by 24 cells with the default title.
    pub fn default(id: usize) -> (t: Self)
        requires
            id < usize::MAX,
        ensures
            new_tab(t, id, tab_title(id as nat), 80, 24),
    {
        let n = usize_to_string(id + 1);
        Self::new(id, concat("Terminal ", n.as_str()), 80, 24)
    }
}

/// The tabs and which one is active.
#[derive(Debug, Clone)]
pub struct TabManager {
    /// The tabs, in order
    pub tabs: Vec<TerminalTab>,
    /// The index of the active tab
    pub active_index: usize,
    /// The identifier the next tab gets
    pub next_id: usize,
}

impl TabManager {
    /// One tab, numbered 0 and active; the next gets 1.
    pub fn new() -> (m: Self)
        ensures
            m.tabs@.len() == 1,
            new_tab(m.tabs@[0], 0, tab_title(0), 80, 24),
            m.active_index == 0,
            m.next_id == 1,
    {
        let mut tabs: Vec<TerminalTab> = Vec::new();
        tabs.push(TerminalTab::default(0));
        Self { tabs, active_index: 0, next_id: 1 }
    }

    /// Adds a tab of 80 by 24 cells with the next identifier and the given
    /// title (the default one without), and makes it active.
    pub fn add_tab(&mut self, title: Option<String>)
        requires
            old(self).next_id < usize::MAX,
        ensures
            final(self).tabs@.len() == old(self).tabs@.len() + 1,
            final(self).tabs@.drop_last() == old(self).tabs@,
            new_tab(
                final(self).tabs@.last(),
                old(self).next_id,
                match title {
                    Some(t) => t@,
                    None => tab_title(old(self).next_id as nat),
                },
                80,
                24,
            ),
            final(self).next_id == old(self).next_id + 1,
            final(self).active_index == old(self).tabs@.len(),
    {
        let title = match title {
            Some(t) => t,
            None => {
                let n = usize_to_string(self.next_id + 1);
                concat("Terminal ", n.as_str())
            },
        };
        let tab = TerminalTab::new(self.next_id, title, 80, 24);
        self.next_id = self.next_id + 1;
        self.tabs.push(tab);
        self.active_index = self.tabs.len() - 1;
        proof {
            assert(self.tabs@.drop_last() =~= old(self).tabs@);
        }
    }

    /// Closes the tab at `index`, unless it is the only one or there is no
    /// such tab; the active index follows its tab, or moves to the last tab
    /// when past the end.
    pub fn close_tab(&mut self, index: usize)
        ensures
            (old(self).tabs@.len() > 1 && index < old(self).tabs@.len()) ==> {
                let n = old(self).tabs@.len() - 1;
                &&& final(self).tabs@ == old(self).tabs@.remove(index as int)
                &&& final(self).active_index == (if old(self).active_index >= n {
                    (n - 1) as usize
                } else if old(self).active_index > index {
                    (old(self).active_index - 1) as usize
                } else {
                    old(self).active_index
                })
            },
            !(old(self).tabs@.len() > 1 && index < old(self).tabs@.len()) ==> *final(self) == *old(self),
            final(self).next_id == old(self).next_id,
    {
        if self.tabs.len() > 1 && index < self.tabs.len() {
            self.tabs.remove(index);
            if self.active_index >= self.tabs.len() {
                self.active_index = self.tabs.len() - 1;
            } else if self.active_index > index {
                self.active_index = self.active_index - 1;
            }
        }
    }

    /// Makes the tab at `index` active, if it exists.
    pub fn switch_to_tab(&mut self, index: usize)
        ensures
            final(self).tabs@ == old(self).tabs@,
            final(self).active_index == (if index < old(self).tabs@.len() { index } else { old(self).active_index }),
            final(self).next_id == old(self).next_id,
    {
        if index < self.tabs.len() {
            self.active_index = index;
        }
    }

    /// The active tab, if its index is that of a tab.
    pub fn active_tab(&self) -> (r: Option<&TerminalTab>)
        ensures
            self.active_index < self.tabs@.len() ==> r == Some(&self.tabs@[self.active_index as int]),
            self.active_index >= self.tabs@.len() ==> r is None,
    {
        if self.active_index < self.tabs.len() {
            Some(&self.tabs[self.active_index])
        } else {
            None
        }
    }

    /// The active tab, to change, if its index is that of a tab.
    pub fn active_tab_mut(&mut self) -> (r: Option<&mut TerminalTab>)
        ensures
            old(self).active_index < old(self).tabs@.len() ==> (r matches Some(t) && *t == old(self).tabs@[old(self).active_index as int]
                && final(self).tabs@ == old(self).tabs@.update(old(self).active_index as int, *final(t))),
            old(self).active_index >= old(self).tabs@.len() ==> r is None && final(self).tabs@ == old(self).tabs@,
            final(self).active_index == old(self).active_index,
            final(self).next_id == old(self).next_id,
    {
        let i = self.active_index;
        if i < self.tabs.len() {
            Some(&mut self.tabs[i])
        } else {
            None
        }
    }

    /// Makes the next tab active, the first after the last.
    pub fn next_tab(&mut self)
        requires
            old(self).active_index < usize::MAX,
        ensures
            final(self).tabs@ == old(self).tabs@,
            final(self).active_index == (if old(self).tabs@.len() > 0 {
                ((old(self).active_index + 1) % (old(self).tabs@.len() as int)) as usize
            } else {
                old(self).active_index
            }),
            final(self).next_id == old(self).next_id,
    {
        if !self.tabs.is_empty() {
            self.active_index = (self.active_index + 1) % self.tabs.len();
        }
    }

    /// Makes the previous tab active, the last before the first.
    pub fn prev_tab(&mut self)
        ensures
            final(self).tabs@ == old(self).tabs@,
            final(self).active_index == (if old(self).tabs@.len() > 0 {
                if old(self).active_index == 0 {
                    (old(self).tabs@.len() - 1) as usize
                } else {
                    (old(self).active_index - 1) as usize
                }
            } else {
                old(self).active_index
            }),
            final(self).next_id == old(self).next_id,
    {
        if !self.tabs.is_empty() {
            self.active_index = if self.active_index == 0 {
                self.tabs.len() - 1
            } else {
                self.active_index - 1
            };
        }
    }
}

} // verus!
