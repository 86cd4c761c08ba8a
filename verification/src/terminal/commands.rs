//! Commands of the terminal panel.

use vstd::prelude::*;
use crate::terminal::manager::{
    closes_all, closes_current, clears_current, creates, kills_current, moves_to, next_index,
    previous_index, shows, TerminalId, TerminalManager,
};

verus! {

/// Commands of the terminal panel.
#[derive(Debug, Clone, PartialEq, Eq, Hash)]
pub enum TerminalCommand {
    /// Create a terminal
    New,
    /// Close the current terminal
    Close,
    /// Close all terminals
    CloseAll,
    /// Switch to the next terminal
    Next,
    /// Switch to the previous terminal
    Previous,
    /// Switch to a terminal by its number (from 1)
    SwitchTo(usize),
    /// Show or hide the panel
    Toggle,
    /// Show the panel
    Show,
    /// Hide the panel
    Hide,
    /// Clear the current terminal
    Clear,
    /// Kill the current terminal's process
    Kill,
    /// Send input to the current terminal
    SendInput(String),
}

/// The description of a terminal command.
pub open spec fn terminal_command_description(c: TerminalCommand) -> &'static str {
    match c {
        TerminalCommand::New => "New Terminal",
        TerminalCommand::Close => "Close Terminal",
        TerminalCommand::CloseAll => "Close All Terminals",
        TerminalCommand::Next => "Next Terminal",
        TerminalCommand::Previous => "Previous Terminal",
        TerminalCommand::SwitchTo(_) => "Switch to Terminal",
        TerminalCommand::Toggle => "Toggle Terminal Panel",
        TerminalCommand::Show => "Show Terminal Panel",
        TerminalCommand::Hide => "Hide Terminal Panel",
        TerminalCommand::Clear => "Clear Terminal",
        TerminalCommand::Kill => "Kill Terminal Process",
        TerminalCommand::SendInput(_) => "Send Input to Terminal",
    }
}

impl TerminalCommand {
    /// The description of the command.
    pub fn description(&self) -> (s: &'static str)
        ensures
            s == terminal_command_description(*self),
    {
        match self {
            TerminalCommand::New => "New Terminal",
            TerminalCommand::Close => "Close Terminal",
            TerminalCommand::CloseAll => "Close All Terminals",
            TerminalCommand::Next => "Next Terminal",
            TerminalCommand::Previous => "Previous Terminal",
            TerminalCommand::SwitchTo(_) => "Switch to Terminal",
            TerminalCommand::Toggle => "Toggle Terminal Panel",
            TerminalCommand::Show => "Show Terminal Panel",
            TerminalCommand::Hide => "Hide Terminal Panel",
            TerminalCommand::Clear => "Clear Terminal",
            TerminalCommand::Kill => "Kill Terminal Process",
            TerminalCommand::SendInput(_) => "Send Input to Terminal",
        }
    }

    /// The command as text: its description.
    pub fn to_display_string(&self) -> (s: String)
        ensures
            s@ == terminal_command_description(*self)@,
    {
        self.description().to_owned()
    }
}

/// What running a command does to a terminal manager `a`, giving `b`
/// (see [`TerminalCommand::execute`]).
pub open spec fn command_effect(c: TerminalCommand, a: TerminalManager, b: TerminalManager, new_id: TerminalId) -> bool {
    let n = a.spec_terminals().len();
    match c {
        TerminalCommand::New => creates(a, b, new_id),
        TerminalCommand::Close => closes_current(a, b),
        TerminalCommand::CloseAll => closes_all(a, b),
        TerminalCommand::Next => moves_to(a, b, if n > 0 { next_index(a.spec_current(), n as usize) } else { a.spec_current() }),
        TerminalCommand::Previous => moves_to(a, b, if n > 0 { previous_index(a.spec_current(), n as usize) } else { a.spec_current() }),
        TerminalCommand::SwitchTo(i) => moves_to(a, b, if 0 < i <= n { (i - 1) as usize } else { a.spec_current() }),
        TerminalCommand::Toggle => shows(a, b, !a.spec_visible()),
        TerminalCommand::Show => shows(a, b, true),
        TerminalCommand::Hide => shows(a, b, false),
        TerminalCommand::Clear => clears_current(a, b),
        TerminalCommand::Kill => kills_current(a, b),
        TerminalCommand::SendInput(_) => b == a,
    }
}

impl TerminalCommand {
    /// Runs the command on a terminal manager (see [`command_effect`]): a
    /// new terminal gets the identifier `new_id`; input is written by the
    /// program to the current terminal's process, so the manager is left as
    /// it is.
    pub fn execute(&self, manager: &mut TerminalManager, new_id: TerminalId) -> (r: Result<(), String>)
        requires
            old(manager).wf(),
            *self is New ==> old(manager).spec_size().0 > 0 && old(manager).spec_size().1 > 0,
        ensures
            r is Ok,
            command_effect(*self, *old(manager), *final(manager), new_id),
    {
        match self {
            TerminalCommand::New => {
                manager.create_terminal(new_id);
            },
            TerminalCommand::Close => {
                manager.close_current();
            },
            TerminalCommand::CloseAll => {
                manager.close_all();
            },
            TerminalCommand::Next => {
                manager.next_terminal();
            },
            TerminalCommand::Previous => {
                manager.previous_terminal();
            },
            TerminalCommand::SwitchTo(index) => {
                manager.switch_to(*index);
            },
            TerminalCommand::Toggle => {
                manager.toggle_visibility();
            },
            TerminalCommand::Show => {
                manager.show();
            },
            TerminalCommand::Hide => {
                manager.hide_panel();
            },
            TerminalCommand::Clear => {
                manager.clear_current();
            },
            TerminalCommand::Kill => {
                manager.kill_current();
            },
            TerminalCommand::SendInput(_) => {},
        }
        Ok(())
    }
}

} // verus!
