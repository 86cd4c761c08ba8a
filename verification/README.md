# lite_xl

The core of a small text editor, written in Verus: its functions carry
`requires`/`ensures` contracts over mathematical models (`Seq`, `Map`,
`int`), and Verus proves that the code meets them.

## Layout

- `src/` — the verified library
  - `buffer/` — the text buffer (on a `ropey` rope), positions and ranges,
    the line structure, line-ending detection and normalization
  - `document/` — documents: selections, editing at every cursor,
    movement, undo and redo
  - `undo.rs` — edits, their inverses, and the grouped undo history
  - `editor/` — the editor state behind a view: typing, deleting, moving
  - `commands/` — commands, key bindings and key maps, and the editing,
    navigation and file commands over the context traits that an editor
    implements
  - `events/` — keys, modifiers and key-binding text
  - `clipboard.rs` — the clipboard and its history
  - `syntax/` — language detection and syntax highlighting (on `syntect`)
    with a per-line cache
  - `io/` — encoding detection and decoding, file contents and watching
  - `config/` — settings, their defaults, merging and validation
  - `terminal/` — terminal grids, scrollback, cursor, selections, tabs and
    the terminal manager
  - `ui/` — what the views show as plain values: selected columns, the
    status bar's texts, what a key does in the editor and sends to a
    terminal; the terminal canvas and tab models
- `tests/` — tests of the library
- `app/` — the program around the library: `main`, files, the shell and
  the terminal tasks

Calls into outside crates and into parts of `std` that Verus does not
specify go through small trusted wrappers, each with a doc comment saying
what its contract claims of the call.

The laws that the library states are proof functions named `lemma_*` next
to the functions they speak of: for instance that inserting text and
undoing gives the text back, that toggling line comments twice restores the
lines, that merging sorted selections leaves none overlapping, and that a
key map's lookups agree with its per-command binding lists.
