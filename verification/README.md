# turbotui

The state and the rules of a terminal SQL Server query tool, verified with Verus.

- `src/text.rs` — a UTF-8 text with a byte cursor: insert, backspace and cursor moves, with
  laws (typing then backspace restores the text, moves undo each other, the cursor always
  stays between characters).
- `src/app.rs` — the tool's state, its operations, and `App::handle_key`, the key dispatch
  that tells the surrounding program which outside work (query, file listing, file reading,
  saving) a key asks for.
- `src/listing.rs` — picking `.sql` files from directory entries and ordering them.
- `src/layout.rs` — what the screen shows: visible editor lines, cursor cell, table window,
  titles and labels.
- `src/database.rs`, `src/config.rs`, `src/export.rs`, `src/format.rs` — connection target,
  settings, result file names, and the call into `sqlformat`.
- `src/laws.rs` — properties that span several key presses.
- `app/` — the terminal program: event loop, ratatui rendering, tiberius queries, file I/O.
