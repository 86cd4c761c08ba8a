//! Watching files for changes made by others: the events, the watcher's
//! configuration, and which raw events are reported.

use vstd::prelude::*;
use std::path::PathBuf;
use std::time::Duration;
use crate::syntax::languages::{extension_of, file_name_of, name_extension, path_file_name};
use crate::text::{ascii_lower, str_to_chars};
use crate::undo::millis;

verus! {

/// Changes to files.
#[derive(Debug, Clone, PartialEq, Eq)]
pub enum FileSystemEvent {
    Modified(PathBuf),
    Created(PathBuf),
    Deleted(PathBuf),
    Renamed { from: PathBuf, to: PathBuf },
    /// Another change
    Changed(PathBuf),
}

/// The path an event is about (for a rename, the new one).
pub open spec fn event_path(e: FileSystemEvent) -> PathBuf {
    match e {
        FileSystemEvent::Modified(p) => p,
        FileSystemEvent::Created(p) => p,
        FileSystemEvent::Deleted(p) => p,
        FileSystemEvent::Changed(p) => p,
        FileSystemEvent::Renamed { to, .. } => to,
    }
}

impl FileSystemEvent {
    /// The path the event is about (for a rename, the new one).
    pub fn path(&self) -> (p: &PathBuf)
        ensures
            *p == event_path(*self),
    {
        match self {
            FileSystemEvent::Modified(p) | FileSystemEvent::Created(p) | FileSystemEvent::Deleted(p)
            | FileSystemEvent::Changed(p) => p,
            FileSystemEvent::Renamed { to, .. } => to,
        }
    }

    /// Whether the event is a modification (or another change).
    pub fn is_modification(&self) -> (b: bool)
        ensures
            b == (self is Modified || self is Changed),
    {
        match self {
            FileSystemEvent::Modified(_) | FileSystemEvent::Changed(_) => true,
            _ => false,
        }
    }

    /// Whether the event is a deletion.
    pub fn is_deletion(&self) -> (b: bool)
        ensures
            b == self is Deleted,
    {
        match self {
            FileSystemEvent::Deleted(_) => true,
            _ => false,
        }
    }
}

/// The watcher's configuration.
#[derive(Debug, Clone)]
pub struct WatcherConfig {
    /// How long events are gathered before they are reported
    pub debounce_duration: Duration,
    /// Watch directories recursively
    pub recursive: bool,
    /// The extensions of the files to watch (none: all files)
    pub extensions: Option<Vec<String>>,
    /// Ignore hidden files
    pub ignore_hidden: bool,
}

impl Default for WatcherConfig {
    /// Events gathered for 500 ms, not recursive, all files, hidden ones
    /// ignored.
    fn default() -> (c: Self)
        ensures
            !c.recursive,
            c.extensions is None,
            c.ignore_hidden,
    {
        Self { debounce_duration: millis(500), recursive: false, extensions: None, ignore_hidden: true }
    }
}

/// Kinds of raw events of the watcher.
#[derive(Debug, Clone, Copy, PartialEq, Eq, Structural)]
pub enum WatchEventKind {
    Create,
    Modify,
    Remove,
    /// An event of unknown kind
    Any,
    /// Any other kind (access, for one)
    Other,
}

/// An extension is one of `exts`, ignoring ASCII case.
pub open spec fn ext_listed(exts: Seq<String>, e: Seq<char>) -> bool {
    exists|j: int| 0 <= j < exts.len() && #[trigger] ascii_lower(exts[j]@) == ascii_lower(e)
}

/// A path (given by its text, if it has one) has an extension among
/// `exts`.
pub open spec fn path_ext_listed(t: Option<String>, exts: Seq<String>) -> bool {
    match t {
        Some(s) => match path_file_name(s@) {
            Some(n) => match name_extension(n) {
                Some(e) => ext_listed(exts, e),
                None => false,
            },
            None => false,
        },
        None => false,
    }
}

/// A path (given by its text, if it has one) names a hidden file: its file
/// name begins with a dot.
pub open spec fn path_hidden(t: Option<String>) -> bool {
    match t {
        Some(s) => match path_file_name(s@) {
            Some(n) => n.len() > 0 && n[0] == '.',
            None => false,
        },
        None => false,
    }
}

/// Whether a raw event with paths of these texts is reported: some path
/// has a watched extension (where extensions are set), and no path is
/// hidden (where hidden files are ignored).
pub open spec fn event_reported(texts: Seq<Option<String>>, extensions: Option<Vec<String>>, ignore_hidden: bool) -> bool {
    &&& extensions matches Some(ex) ==> exists|i: int| 0 <= i < texts.len() && path_ext_listed(#[trigger] texts[i], ex@)
    &&& ignore_hidden ==> !(exists|i: int| 0 <= i < texts.len() && path_hidden(#[trigger] texts[i]))
}

/// The event that a raw event of a kind becomes, about a path.
pub open spec fn event_of_kind(kind: WatchEventKind, p: PathBuf) -> FileSystemEvent {
    match kind {
        WatchEventKind::Create => FileSystemEvent::Created(p),
        WatchEventKind::Modify => FileSystemEvent::Modified(p),
        WatchEventKind::Remove => FileSystemEvent::Deleted(p),
        _ => FileSystemEvent::Changed(p),
    }
}

fn ext_listed_exec(exts: &Vec<String>, e: &str) -> (b: bool)
    ensures
        b == ext_listed(exts@, e@),
{
    let ev = str_to_chars(e);
    let mut j: usize = 0;
    while j < exts.len()
        invariant
            j <= exts@.len(),
            ev@ == e@,
            forall|k: int| 0 <= k < j ==> #[trigger] ascii_lower(exts@[k]@) != ascii_lower(e@),
        decreases exts@.len() - j,
    {
        let xv = str_to_chars(exts[j].as_str());
        if ascii_eq_ignore_case(xv.as_slice(), ev.as_slice()) {
            return true;
        }
        j = j + 1;
    }
    false
}

fn lower_char(c: char) -> (r: char)
    ensures
        r == crate::text::ascii_lower_char(c),
{
    if 'A' <= c && c <= 'Z' {
        ((c as u32 + 32) as u8) as char
    } else {
        c
    }
}

/// Whether two texts are equal ignoring ASCII case.
fn ascii_eq_ignore_case(a: &[char], b: &[char]) -> (r: bool)
    ensures
        r == (ascii_lower(a@) == ascii_lower(b@)),
{
    if a.len() != b.len() {
        proof {
            assert(ascii_lower(a@).len() != ascii_lower(b@).len());
        }
        return false;
    }
    let mut i: usize = 0;
    while i < a.len()
        invariant
            a@.len() == b@.len(),
            i <= a@.len(),
            forall|k: int| 0 <= k < i ==> crate::text::ascii_lower_char(a@[k]) == crate::text::ascii_lower_char(b@[k]),
        decreases a@.len() - i,
    {
        if lower_char(a[i]) != lower_char(b[i]) {
            proof {
                assert(ascii_lower(a@)[i as int] != ascii_lower(b@)[i as int]);
            }
            return false;
        }
        i = i + 1;
    }
    proof {
        assert(ascii_lower(a@) =~= ascii_lower(b@));
    }
    true
}

fn path_ext_listed_exec(t: &Option<String>, exts: &Vec<String>) -> (b: bool)
    ensures
        b == path_ext_listed(*t, exts@),
{
    match t {
        Some(s) => match file_name_of(s.as_str()) {
            Some(n) => match extension_of(n.as_str()) {
                Some(e) => ext_listed_exec(exts, e.as_str()),
                None => false,
            },
            None => false,
        },
        None => false,
    }
}

fn path_hidden_exec(t: &Option<String>) -> (b: bool)
    ensures
        b == path_hidden(*t),
{
    match t {
        Some(s) => match file_name_of(s.as_str()) {
            Some(n) => {
                let nv = str_to_chars(n.as_str());
                nv.len() > 0 && nv[0] == '.'
            },
            None => false,
        },
        None => false,
    }
}

/// The event that a raw event becomes, if it is reported (see
/// [`event_reported`]): of its kind (see [`event_of_kind`]), about its
/// first path. `path_texts` holds the texts of the paths (none for a path
/// that is not valid text).
pub fn convert_event(
    kind: WatchEventKind,
    paths: Vec<PathBuf>,
    path_texts: &Vec<Option<String>>,
    extensions: &Option<Vec<String>>,
    ignore_hidden: bool,
) -> (r: Option<FileSystemEvent>)
    ensures
        !event_reported(path_texts@, *extensions, ignore_hidden) ==> r is None,
        event_reported(path_texts@, *extensions, ignore_hidden) && paths@.len() == 0 ==> r is None,
        event_reported(path_texts@, *extensions, ignore_hidden) && paths@.len() > 0
            ==> r == Some(event_of_kind(kind, paths@[0])),
{
    if let Some(exts) = extensions {
        let mut found = false;
        let mut i: usize = 0;
        while i < path_texts.len()
            invariant
                i <= path_texts@.len(),
                found <==> exists|k: int| 0 <= k < i && path_ext_listed(#[trigger] path_texts@[k], exts@),
            decreases path_texts@.len() - i,
        {
            if path_ext_listed_exec(&path_texts[i], exts) {
                found = true;
            }
            i = i + 1;
        }
        if !found {
            return None;
        }
    }
    if ignore_hidden {
        let mut i: usize = 0;
        while i < path_texts.len()
            invariant
                i <= path_texts@.len(),
                forall|k: int| 0 <= k < i ==> !path_hidden(#[trigger] path_texts@[k]),
                ignore_hidden,
            decreases path_texts@.len() - i,
        {
            if path_hidden_exec(&path_texts[i]) {
                proof {
                    assert(path_hidden(path_texts@[i as int]));
                }
                return None;
            }
            i = i + 1;
        }
    }
    if paths.len() == 0 {
        return None;
    }
    let mut paths = paths;
    let p = paths.remove(0);
    match kind {
        WatchEventKind::Create => Some(FileSystemEvent::Created(p)),
        WatchEventKind::Modify => Some(FileSystemEvent::Modified(p)),
        WatchEventKind::Remove => Some(FileSystemEvent::Deleted(p)),
        _ => Some(FileSystemEvent::Changed(p)),
    }
}

/// A builder of the watcher's configuration.
pub struct FileWatcherBuilder {
    config: WatcherConfig,
}

impl FileWatcherBuilder {
    /// The configuration built so far.
    pub closed spec fn spec_config(&self) -> WatcherConfig {
        self.config
    }

    /// A builder with the default configuration.
    pub fn new() -> (b: Self)
        ensures
            !b.spec_config().recursive,
            b.spec_config().extensions is None,
            b.spec_config().ignore_hidden,
    {
        Self { config: WatcherConfig::default() }
    }

    /// Sets the debounce duration.
    pub fn debounce_duration(self, duration: Duration) -> (b: Self)
        ensures
            b.spec_config() == (WatcherConfig { debounce_duration: duration, ..self.spec_config() }),
    {
        let mut b = self;
        b.config.debounce_duration = duration;
        b
    }

    /// Sets recursive watching.
    pub fn recursive(self, recursive: bool) -> (b: Self)
        ensures
            b.spec_config() == (WatcherConfig { recursive, ..self.spec_config() }),
    {
        let mut b = self;
        b.config.recursive = recursive;
        b
    }

    /// Sets the extensions of the files to watch.
    pub fn extensions(self, extensions: Vec<String>) -> (b: Self)
        ensures
            b.spec_config() == (WatcherConfig { extensions: Some(extensions), ..self.spec_config() }),
    {
        let mut b = self;
        b.config.extensions = Some(extensions);
        b
    }

    /// Sets whether hidden files are ignored.
    pub fn ignore_hidden(self, ignore: bool) -> (b: Self)
        ensures
            b.spec_config() == (WatcherConfig { ignore_hidden: ignore, ..self.spec_config() }),
    {
        let mut b = self;
        b.config.ignore_hidden = ignore;
        b
    }

    /// The configuration built.
    pub fn into_config(self) -> (c: WatcherConfig)
        ensures
            c == self.spec_config(),
    {
        self.config
    }
}

impl Default for FileWatcherBuilder {
    fn default() -> (b: Self)
        ensures
            !b.spec_config().recursive,
            b.spec_config().extensions is None,
            b.spec_config().ignore_hidden,
    {
        Self::new()
    }
}

} // verus!
