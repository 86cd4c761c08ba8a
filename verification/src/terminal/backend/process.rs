//! Shell kinds and the configuration of the shell that a terminal runs.

use vstd::prelude::*;
use crate::text::{chars_contain, contains_sub, ends_with, lower_of, str_to_chars, string_to_lower};

verus! {

/// Kinds of shell.
#[derive(Debug, Clone, PartialEq, Eq)]
pub enum ShellType {
    Bash,
    Zsh,
    Fish,
    /// The POSIX shell
    Sh,
    PowerShell,
    /// PowerShell Core
    Pwsh,
    /// The Windows command prompt
    Cmd,
    /// Another shell, by its command
    Custom(String),
}

/// The command of a shell kind.
pub open spec fn shell_command(s: ShellType) -> Seq<char> {
    match s {
        ShellType::Bash => "bash"@,
        ShellType::Zsh => "zsh"@,
        ShellType::Fish => "fish"@,
        ShellType::Sh => "sh"@,
        ShellType::PowerShell => "powershell"@,
        ShellType::Pwsh => "pwsh"@,
        ShellType::Cmd => "cmd"@,
        ShellType::Custom(c) => c@,
    }
}

/// The default arguments of a shell kind, for interactive use.
pub open spec fn shell_default_args(s: ShellType) -> Seq<Seq<char>> {
    match s {
        ShellType::Bash | ShellType::Zsh | ShellType::Fish | ShellType::Sh => seq!["-i"@],
        ShellType::PowerShell | ShellType::Pwsh => seq!["-NoLogo"@],
        _ => Seq::empty(),
    }
}

/// The known shell that a lower-cased path names, by the first name it
/// holds (bash, zsh, fish, pwsh, powershell, cmd), else by an `sh` or
/// `sh.exe` ending; none for any other path.
pub open spec fn known_shell(lower: Seq<char>) -> Option<ShellType> {
    if contains_sub(lower, "bash"@) {
        Some(ShellType::Bash)
    } else if contains_sub(lower, "zsh"@) {
        Some(ShellType::Zsh)
    } else if contains_sub(lower, "fish"@) {
        Some(ShellType::Fish)
    } else if contains_sub(lower, "pwsh"@) {
        Some(ShellType::Pwsh)
    } else if contains_sub(lower, "powershell"@) {
        Some(ShellType::PowerShell)
    } else if contains_sub(lower, "cmd"@) {
        Some(ShellType::Cmd)
    } else if ends_with(lower, "sh"@) || ends_with(lower, "sh.exe"@) {
        Some(ShellType::Sh)
    } else {
        None
    }
}

/// The views of a list of strings.
pub open spec fn text_views(v: Seq<String>) -> Seq<Seq<char>> {
    v.map_values(|s: String| s@)
}

fn ends_with_exec(v: &[char], p: &str) -> (b: bool)
    ensures
        b == ends_with(v@, p@),
{
    let pc = str_to_chars(p);
    if pc.len() > v.len() {
        return false;
    }
    let off = v.len() - pc.len();
    let mut i: usize = 0;
    while i < pc.len()
        invariant
            pc@ == p@,
            off + pc@.len() == v@.len(),
            off + pc.len() == v.len(),
            i <= pc@.len(),
            forall|j: int| 0 <= j < i ==> v@[off + j] == pc@[j],
        decreases pc@.len() - i,
    {
        if v[off + i] != pc[i] {
            proof {
                assert(v@.subrange(off as int, v@.len() as int)[i as int] == v@[off + i]);
            }
            return false;
        }
        i = i + 1;
    }
    proof {
        assert(v@.subrange(off as int, v@.len() as int) =~= pc@);
    }
    true
}

impl ShellType {
    /// The command of the shell.
    pub fn command(&self) -> (s: String)
        ensures
            s@ == shell_command(*self),
    {
        match self {
            ShellType::Bash => "bash".to_owned(),
            ShellType::Zsh => "zsh".to_owned(),
            ShellType::Fish => "fish".to_owned(),
            ShellType::Sh => "sh".to_owned(),
            ShellType::PowerShell => "powershell".to_owned(),
            ShellType::Pwsh => "pwsh".to_owned(),
            ShellType::Cmd => "cmd".to_owned(),
            ShellType::Custom(cmd) => cmd.clone(),
        }
    }

    /// The default arguments, for interactive use.
    pub fn default_args(&self) -> (r: Vec<String>)
        ensures
            text_views(r@) == shell_default_args(*self),
    {
        let mut r: Vec<String> = Vec::new();
        match self {
            ShellType::Bash | ShellType::Zsh | ShellType::Fish | ShellType::Sh => {
                r.push("-i".to_owned());
            },
            ShellType::PowerShell | ShellType::Pwsh => {
                r.push("-NoLogo".to_owned());
            },
            _ => {},
        }
        proof {
            assert(text_views(r@) =~= shell_default_args(*self));
        }
        r
    }

    /// The shell of a path, given the path and its lower-cased form (see
    /// [`known_shell`]); a custom shell running the path otherwise.
    pub fn from_lowered_path(path: &str, lower: &str) -> (r: Self)
        ensures
            known_shell(lower@) matches Some(k) ==> r == k,
            known_shell(lower@) is None ==> (r matches ShellType::Custom(c) && c@ == path@),
    {
        let v = str_to_chars(lower);
        let s = v.as_slice();
        if chars_contain(s, "bash") {
            ShellType::Bash
        } else if chars_contain(s, "zsh") {
            ShellType::Zsh
        } else if chars_contain(s, "fish") {
            ShellType::Fish
        } else if chars_contain(s, "pwsh") {
            ShellType::Pwsh
        } else if chars_contain(s, "powershell") {
            ShellType::PowerShell
        } else if chars_contain(s, "cmd") {
            ShellType::Cmd
        } else if ends_with_exec(s, "sh") || ends_with_exec(s, "sh.exe") {
            ShellType::Sh
        } else {
            ShellType::Custom(path.to_owned())
        }
    }

    /// The shell of a path, by its lower-cased form (see [`known_shell`]).
    pub fn from_path(path: &str) -> (r: Self)
        ensures
            known_shell(lower_of(path@)) matches Some(k) ==> r == k,
            known_shell(lower_of(path@)) is None ==> (r matches ShellType::Custom(c) && c@ == path@),
    {
        let lower = string_to_lower(path);
        Self::from_lowered_path(path, &lower)
    }

    /// The shell named by the value of the `SHELL` variable, if it is set;
    /// the POSIX shell otherwise.
    pub fn detect_from(shell_var: Option<&str>) -> (r: Self)
        ensures
            shell_var is None ==> r == ShellType::Sh,
            shell_var matches Some(p) ==> (
                (known_shell(lower_of(p@)) matches Some(k) ==> r == k)
                && (known_shell(lower_of(p@)) is None ==> (r matches ShellType::Custom(c) && c@ == p@))),
    {
        match shell_var {
            Some(p) => Self::from_path(p),
            None => ShellType::Sh,
        }
    }

    /// Whether the shell can be run: never, as this build spawns no
    /// processes.
    pub fn is_available(&self) -> (b: bool)
        ensures
            !b,
    {
        false
    }
}

/// The shells that can be run: none, as this build spawns no processes.
pub fn detect_available_shells() -> (r: Vec<ShellType>)
    ensures
        r@.len() == 0,
{
    Vec::new()
}

/// The configuration of the shell that a terminal runs.
#[derive(Debug, Clone)]
pub struct ShellConfig {
    /// The shell
    pub shell: ShellType,
    /// Its arguments
    pub args: Vec<String>,
    /// Its working directory (none: the current one)
    pub cwd: Option<String>,
    /// Environment variables to set
    pub env: Vec<(String, String)>,
}

impl ShellConfig {
    /// The configuration of a shell: its default arguments, no working
    /// directory, no variables.
    pub fn with_shell(shell: ShellType) -> (c: Self)
        ensures
            c.shell == shell,
            text_views(c.args@) == shell_default_args(shell),
            c.cwd is None,
            c.env@.len() == 0,
    {
        let args = shell.default_args();
        Self { args, shell, cwd: None, env: Vec::new() }
    }

    /// The configuration of the shell that the `SHELL` variable names (see
    /// [`ShellType::detect_from`]).
    pub fn for_shell_var(shell_var: Option<&str>) -> (c: Self)
        ensures
            shell_var is None ==> c.shell == ShellType::Sh,
            shell_var matches Some(p) ==> (
                (known_shell(lower_of(p@)) matches Some(k) ==> c.shell == k)
                && (known_shell(lower_of(p@)) is None ==> (c.shell matches ShellType::Custom(x) && x@ == p@))),
            text_views(c.args@) == shell_default_args(c.shell),
            c.cwd is None,
            c.env@.len() == 0,
    {
        Self::with_shell(ShellType::detect_from(shell_var))
    }

    /// Sets the shell.
    pub fn shell(self, shell: ShellType) -> (c: Self)
        ensures
            c.shell == shell,
            c.args@ == self.args@,
            c.cwd == self.cwd,
            c.env@ == self.env@,
    {
        let mut c = self;
        c.shell = shell;
        c
    }

    /// Sets the arguments.
    pub fn args(self, args: Vec<String>) -> (c: Self)
        ensures
            c.shell == self.shell,
            c.args@ == args@,
            c.cwd == self.cwd,
            c.env@ == self.env@,
    {
        let mut c = self;
        c.args = args;
        c
    }

    /// Adds an argument.
    pub fn arg(self, arg: String) -> (c: Self)
        ensures
            c.shell == self.shell,
            c.args@ == self.args@.push(arg),
            c.cwd == self.cwd,
            c.env@ == self.env@,
    {
        let mut c = self;
        c.args.push(arg);
        c
    }

    /// Sets the working directory.
    pub fn cwd(self, cwd: String) -> (c: Self)
        ensures
            c.shell == self.shell,
            c.args@ == self.args@,
            c.cwd == Some(cwd),
            c.env@ == self.env@,
    {
        let mut c = self;
        c.cwd = Some(cwd);
        c
    }

    /// Adds an environment variable.
    pub fn env(self, key: String, value: String) -> (c: Self)
        ensures
            c.shell == self.shell,
            c.args@ == self.args@,
            c.cwd == self.cwd,
            c.env@ == self.env@.push((key, value)),
    {
        let mut c = self;
        c.env.push((key, value));
        c
    }

    /// The shell's command.
    pub fn command(&self) -> (s: String)
        ensures
            s@ == shell_command(self.shell),
    {
        self.shell.command()
    }

    /// The arguments as string slices.
    pub fn args_as_strs(&self) -> (r: Vec<&str>)
        ensures
            r@.len() == self.args@.len(),
            forall|i: int| 0 <= i < r@.len() ==> (#[trigger] r@[i])@ == self.args@[i]@,
    {
        let mut r: Vec<&str> = Vec::new();
        let mut i: usize = 0;
        while i < self.args.len()
            invariant
                i <= self.args@.len(),
                r@.len() == i,
                forall|j: int| 0 <= j < i ==> (#[trigger] r@[j])@ == self.args@[j]@,
            decreases self.args@.len() - i,
        {
            r.push(self.args[i].as_str());
            i = i + 1;
        }
        r
    }

    /// The working directory as text.
    pub fn cwd_as_str(&self) -> (r: Option<&str>)
        ensures
            r is Some <==> self.cwd is Some,
            r matches Some(s) ==> s@ == self.cwd->0@,
    {
        match &self.cwd {
            Some(p) => Some(p.as_str()),
            None => None,
        }
    }
}

} // verus!
