//! The clipboard: text, history of copied texts, and per-cursor entries.

use vstd::prelude::*;
use std::collections::VecDeque;
use crate::text::{concat, str_eq};

verus! {

/// Errors of clipboard operations.
#[derive(Debug, Clone, PartialEq, Eq)]
pub enum ClipboardError {
    /// The system clipboard could not be accessed
    AccessError(String),
    /// The clipboard is empty
    Empty,
    /// An unsupported content format
    UnsupportedFormat(String),
    /// The platform is not supported
    PlatformNotSupported,
}

impl ClipboardError {
    /// The error's message.
    pub fn to_display_string(&self) -> (s: String)
        ensures
            s@ == (match *self {
                ClipboardError::AccessError(m) => "Clipboard access error: "@ + m@,
                ClipboardError::Empty => "Clipboard is empty"@,
                ClipboardError::UnsupportedFormat(f) => "Unsupported clipboard format: "@ + f@,
                ClipboardError::PlatformNotSupported => "Platform not supported"@,
            }),
    {
        match self {
            ClipboardError::AccessError(msg) => concat("Clipboard access error: ", msg.as_str()),
            ClipboardError::Empty => "Clipboard is empty".to_owned(),
            ClipboardError::UnsupportedFormat(fmt) => concat("Unsupported clipboard format: ", fmt.as_str()),
            ClipboardError::PlatformNotSupported => "Platform not supported".to_owned(),
        }
    }
}

/// The clipboard, with a history of the texts set (newest first) and
/// entries for multiple cursors.
pub struct Clipboard {
    internal_clipboard: String,
    history: VecDeque<String>,
    max_history: usize,
    multi_entries: Vec<String>,
}

impl Clipboard {
    /// The current text.
    pub closed spec fn spec_text(&self) -> Seq<char> {
        self.internal_clipboard@
    }

    /// The history, newest first.
    pub closed spec fn spec_history(&self) -> Seq<Seq<char>> {
        self.history@.map_values(|s: String| s@)
    }

    /// The most history entries kept.
    pub closed spec fn spec_max_history(&self) -> usize {
        self.max_history
    }

    /// The per-cursor entries.
    pub closed spec fn spec_multi(&self) -> Seq<Seq<char>> {
        self.multi_entries@.map_values(|s: String| s@)
    }

    /// The history holds at most the maximum number of entries.
    pub open spec fn wf(&self) -> bool {
        self.spec_history().len() <= self.spec_max_history()
    }

    /// An empty clipboard keeping up to 100 history entries.
    pub fn new() -> (c: Self)
        ensures
            c.wf(),
            c.spec_text() == Seq::<char>::empty(),
            c.spec_history().len() == 0,
            c.spec_max_history() == 100,
            c.spec_multi().len() == 0,
    {
        Self::with_history_size(100)
    }

    /// An empty clipboard keeping up to `max_history` history entries.
    pub fn with_history_size(max_history: usize) -> (c: Self)
        ensures
            c.wf(),
            c.spec_text() == Seq::<char>::empty(),
            c.spec_history().len() == 0,
            c.spec_max_history() == max_history,
            c.spec_multi().len() == 0,
    {
        let c = Self {
            internal_clipboard: String::new(),
            history: VecDeque::new(),
            max_history,
            multi_entries: Vec::new(),
        };
        proof {
            assert(c.spec_history() =~= Seq::<Seq<char>>::empty());
            assert(c.spec_multi() =~= Seq::<Seq<char>>::empty());
        }
        c
    }

    /// The current text (this clipboard does not reach the system one).
    pub fn get_text(&self) -> (r: Result<String, ClipboardError>)
        ensures
            r is Ok,
            r->Ok_0@ == self.spec_text(),
    {
        Ok(self.internal_clipboard.clone())
    }

    /// Sets the text. A non-empty text that differs from the newest history
    /// entry goes to the front of the history, dropping the oldest entry
    /// beyond the maximum.
    pub fn set_text(&mut self, text: String) -> (r: Result<(), ClipboardError>)
        ensures
            r is Ok,
            set_text_outcome(*old(self), *final(self), text@),
    {
        let add = if text.as_str().is_empty() {
            false
        } else if self.history.len() == 0 {
            true
        } else {
            !str_eq(self.history[0].as_str(), text.as_str())
        };
        if add {
            let ghost h0 = self.history@;
            self.history.push_front(text.clone());
            proof {
                assert(self.history@.map_values(|s: String| s@) =~= seq![text@] + h0.map_values(|s: String| s@));
            }
            if self.history.len() > self.max_history {
                let ghost h1 = self.history@;
                let _ = self.history.pop_back();
                proof {
                    assert(self.history@.map_values(|s: String| s@) =~= h1.map_values(|s: String| s@).drop_last());
                }
            }
        }
        self.internal_clipboard = text;
        Ok(())
    }

    /// The history, newest first.
    pub fn get_history(&self) -> (h: &VecDeque<String>)
        ensures
            h@.map_values(|s: String| s@) == self.spec_history(),
    {
        &self.history
    }

    /// A history entry (0 is the newest).
    pub fn get_history_entry(&self, index: usize) -> (r: Option<&String>)
        ensures
            index < self.spec_history().len() ==> r is Some && r->0@ == self.spec_history()[index as int],
            index >= self.spec_history().len() ==> r is None,
    {
        if index < self.history.len() {
            Some(&self.history[index])
        } else {
            None
        }
    }

    /// Forgets the history.
    pub fn clear_history(&mut self)
        ensures
            final(self).spec_history().len() == 0,
            final(self).spec_text() == old(self).spec_text(),
            final(self).spec_max_history() == old(self).spec_max_history(),
            final(self).spec_multi() == old(self).spec_multi(),
    {
        self.history.clear();
        proof {
            assert(self.spec_history() =~= Seq::<Seq<char>>::empty());
        }
    }

    /// Sets the per-cursor entries.
    pub fn set_multi(&mut self, entries: Vec<String>)
        ensures
            final(self).spec_multi() == entries@.map_values(|s: String| s@),
            final(self).spec_text() == old(self).spec_text(),
            final(self).spec_history() == old(self).spec_history(),
            final(self).spec_max_history() == old(self).spec_max_history(),
    {
        self.multi_entries = entries;
    }

    /// The per-cursor entries.
    pub fn get_multi(&self) -> (r: &[String])
        ensures
            r@.map_values(|s: String| s@) == self.spec_multi(),
    {
        self.multi_entries.as_slice()
    }

    /// Whether there are per-cursor entries.
    pub fn has_multi(&self) -> (b: bool)
        ensures
            b == (self.spec_multi().len() > 0),
    {
        self.multi_entries.len() > 0
    }

    /// Forgets the per-cursor entries.
    pub fn clear_multi(&mut self)
        ensures
            final(self).spec_multi().len() == 0,
            final(self).spec_text() == old(self).spec_text(),
            final(self).spec_history() == old(self).spec_history(),
            final(self).spec_max_history() == old(self).spec_max_history(),
    {
        self.multi_entries.clear();
        proof {
            assert(self.spec_multi() =~= Seq::<Seq<char>>::empty());
        }
    }
}

/// What setting text `t` does to a clipboard: the text becomes `t`; a
/// non-empty `t` that differs from the newest history entry is put in
/// front of the history, and the oldest entry goes when there are more
/// than the maximum; nothing else changes.
pub open spec fn set_text_outcome(c0: Clipboard, c1: Clipboard, t: Seq<char>) -> bool {
    let h0 = c0.spec_history();
    let add = t.len() > 0 && (h0.len() == 0 || h0[0] != t);
    let h = seq![t] + h0;
    &&& c1.spec_text() == t
    &&& c1.spec_history() == (if !add {
        h0
    } else if h.len() > c0.spec_max_history() {
        h.drop_last()
    } else {
        h
    })
    &&& c1.spec_max_history() == c0.spec_max_history()
    &&& c1.spec_multi() == c0.spec_multi()
}

/// Setting a text and then getting the text gives it back; the history
/// never grows beyond its maximum; and a non-empty text set becomes the
/// newest history entry when the maximum allows one.
pub proof fn lemma_set_then_get(c0: Clipboard, c1: Clipboard, t: Seq<char>)
    requires
        c0.wf(),
        set_text_outcome(c0, c1, t),
    ensures
        c1.spec_text() == t,
        c1.wf(),
        t.len() > 0 && c0.spec_max_history() > 0 ==> c1.spec_history()[0] == t,
{
}

impl Default for Clipboard {
    fn default() -> (c: Self)
        ensures
            c.wf(),
            c.spec_text() == Seq::<char>::empty(),
            c.spec_history().len() == 0,
            c.spec_max_history() == 100,
            c.spec_multi().len() == 0,
    {
        Self::new()
    }
}

/// What an editor offers the clipboard commands.
///
/// The contract is stated over the views declared first. Each operation
/// may fail (the system clipboard is outside the editor); what is stated
/// is what holds when it succeeds.
///
/// An implementation gives each view its meaning; left to the default, a
/// view is some value that nothing here can know.
pub trait ClipboardContext: Sized {
    /// The selected text.
    closed spec fn selection_text(&self) -> Seq<char> {
        arbitrary()
    }

    /// The clipboard text.
    closed spec fn clipboard_text(&self) -> Seq<char> {
        arbitrary()
    }

    /// The context once the selected text is replaced by `text`.
    closed spec fn with_selection_replaced(&self, text: Seq<char>) -> Self {
        arbitrary()
    }

    /// Copies the selected text to the clipboard.
    fn copy(&mut self) -> (r: Result<(), ClipboardError>)
        ensures
            r is Ok ==> final(self).clipboard_text() == old(self).selection_text(),
            r is Ok ==> final(self).selection_text() == old(self).selection_text(),
    ;

    /// Cuts the selected text to the clipboard: the clipboard gets the
    /// text, and the selected text is removed.
    fn cut(&mut self) -> (r: Result<(), ClipboardError>)
        ensures
            r is Ok ==> final(self).clipboard_text() == old(self).selection_text(),
            r is Ok ==> *final(self) == old(self).with_selection_replaced(Seq::empty()).with_clipboard(old(self).selection_text()),
    ;

    /// Pastes the clipboard text over the selection.
    fn paste(&mut self) -> (r: Result<(), ClipboardError>)
        ensures
            r is Ok ==> *final(self) == old(self).with_selection_replaced(old(self).clipboard_text()),
    ;

    /// The clipboard text.
    fn get_clipboard_text(&self) -> (r: Result<String, ClipboardError>)
        ensures
            r is Ok ==> r->Ok_0@ == self.clipboard_text(),
    ;

    /// The context once the clipboard holds `text`.
    closed spec fn with_clipboard(&self, text: Seq<char>) -> Self {
        arbitrary()
    }

    /// Sets the clipboard text.
    fn set_clipboard_text(&mut self, text: String) -> (r: Result<(), ClipboardError>)
        ensures
            r is Ok ==> *final(self) == old(self).with_clipboard(text@),
    ;
}

/// Copies the selection: on success the clipboard holds the selected text.
pub fn execute_copy(ctx: &mut impl ClipboardContext) -> (r: Result<(), ClipboardError>)
    ensures
        r is Ok ==> final(ctx).clipboard_text() == old(ctx).selection_text(),
        r is Ok ==> final(ctx).selection_text() == old(ctx).selection_text(),
{
    ctx.copy()
}

/// Cuts the selection: on success the clipboard holds the selected text,
/// and the selected text is removed.
pub fn execute_cut(ctx: &mut impl ClipboardContext) -> (r: Result<(), ClipboardError>)
    ensures
        r is Ok ==> final(ctx).clipboard_text() == old(ctx).selection_text(),
        r is Ok ==> *final(ctx) == old(ctx).with_selection_replaced(Seq::empty()).with_clipboard(old(ctx).selection_text()),
{
    ctx.cut()
}

/// Pastes the clipboard text: on success the selection is replaced by it.
pub fn execute_paste(ctx: &mut impl ClipboardContext) -> (r: Result<(), ClipboardError>)
    ensures
        r is Ok ==> *final(ctx) == old(ctx).with_selection_replaced(old(ctx).clipboard_text()),
{
    ctx.paste()
}

/// Clipboard content of several kinds.
#[derive(Debug, Clone)]
pub enum ClipboardContent {
    /// Plain text
    Text(String),
    /// Rich text
    RichText {
        /// The HTML form
        html: String,
        /// The plain text form
        plain: String,
    },
    /// Code
    Code {
        /// The code
        text: String,
        /// Its language
        language: Option<String>,
    },
    /// Custom content
    Custom {
        /// The MIME type
        mime_type: String,
        /// The bytes
        data: Vec<u8>,
    },
}

impl ClipboardContent {
    /// The plain text of the content (empty for custom content).
    pub fn as_text(&self) -> (s: &str)
        ensures
            s@ == (match *self {
                ClipboardContent::Text(t) => t@,
                ClipboardContent::RichText { plain, .. } => plain@,
                ClipboardContent::Code { text, .. } => text@,
                ClipboardContent::Custom { .. } => Seq::<char>::empty(),
            }),
    {
        match self {
            ClipboardContent::Text(text) => text.as_str(),
            ClipboardContent::RichText { plain, .. } => plain.as_str(),
            ClipboardContent::Code { text, .. } => text.as_str(),
            ClipboardContent::Custom { .. } => {
                let e = "";
                proof {
                    reveal_strlit("");
                }
                e
            },
        }
    }

    /// Plain text content.
    pub fn from_text(text: String) -> (c: Self)
        ensures
            c matches ClipboardContent::Text(t) && t == text,
    {
        ClipboardContent::Text(text)
    }

    /// Code content.
    pub fn from_code(text: String, language: Option<String>) -> (c: Self)
        ensures
            c == (ClipboardContent::Code { text, language }),
    {
        ClipboardContent::Code { text, language }
    }
}

} // verus!
