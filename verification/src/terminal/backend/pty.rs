//! Errors of the pseudo-terminal that runs a shell.

use vstd::prelude::*;
use crate::config::io_error_text;
use crate::text::concat;

verus! {

/// Errors of a pseudo-terminal.
#[derive(Debug)]
pub enum PtyError {
    /// Failed to spawn the PTY
    Spawn(String),
    /// Failed to read from the PTY
    Read(std::io::Error),
    /// Failed to write to the PTY
    Write(String),
    /// Failed to resize the PTY
    Resize(String),
    /// The PTY process has exited
    Exited,
    /// The PTY feature is not in this build
    NotEnabled,
}

impl PtyError {
    /// An error of reading from the PTY.
    pub fn from_io(e: std::io::Error) -> (r: Self)
        ensures
            r is Read,
    {
        PtyError::Read(e)
    }

    /// The message of the error: a fixed text, then what it is about.
    pub fn to_display_string(&self) -> (s: String)
        ensures
            match *self {
                PtyError::Spawn(m) => s@ == "Failed to spawn PTY: "@ + m@,
                PtyError::Read(_) => s@.len() >= "Failed to read from PTY: "@.len() && s@.subrange(
                    0,
                    "Failed to read from PTY: "@.len() as int,
                ) == "Failed to read from PTY: "@,
                PtyError::Write(m) => s@ == "Failed to write to PTY: "@ + m@,
                PtyError::Resize(m) => s@ == "Failed to resize PTY: "@ + m@,
                PtyError::Exited => s@ == "PTY process has exited"@,
                PtyError::NotEnabled => s@ == "PTY feature is not enabled in this build"@,
            },
    {
        match self {
            PtyError::Spawn(m) => concat("Failed to spawn PTY: ", m.as_str()),
            PtyError::Read(e) => {
                let t = io_error_text(e);
                let r = concat("Failed to read from PTY: ", t.as_str());
                proof {
                    assert(r@.subrange(0, "Failed to read from PTY: "@.len() as int) =~= "Failed to read from PTY: "@);
                }
                r
            },
            PtyError::Write(m) => concat("Failed to write to PTY: ", m.as_str()),
            PtyError::Resize(m) => concat("Failed to resize PTY: ", m.as_str()),
            PtyError::Exited => "PTY process has exited".to_owned(),
            PtyError::NotEnabled => "PTY feature is not enabled in this build".to_owned(),
        }
    }
}

} // verus!
