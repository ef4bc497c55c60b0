use vstd::prelude::*;

use crate::database::QueryResult;
use crate::format::{format_sql, formatted_sql};
use crate::laws::law_key_keeps_state_consistent;
use crate::listing::{sorted_names, sql_files, sql_names, texts};
use crate::message::{concat2, decimal, decimal_string};
use crate::text::{
    byte_len, cursor_at, delete_before_cursor, insert_at_cursor, law_steps_keep_cursor_valid,
    count_lines, lemma_width_take_all, line_count, next_boundary, prev_boundary, TextCursor,
};

verus! {

/// Which pane takes the keyboard.
#[derive(Debug, Clone, Copy, PartialEq, Eq, Structural)]
pub enum Focus {
    Editor,
    Results,
    FileBrowser,
}

/// The whole state of the query tool between two key presses.
pub struct App {
    pub query: String,
    pub cursor_position: usize,
    pub result: Option<QueryResult>,
    pub status_message: String,
    pub focus: Focus,
    pub scroll_offset: usize,
    pub editor_scroll: usize,
    pub should_quit: bool,
    pub show_help: bool,
    pub file_browser: FileBrowser,
    pub save_dialog: SaveDialog,
}

/// The list of saved `.sql` files and the preview of the selected one.
pub struct FileBrowser {
    pub files: Vec<String>,
    pub selected_index: usize,
    pub preview: String,
    pub active: bool,
}

/// The file-name prompt for saving results.
pub struct SaveDialog {
    pub active: bool,
    pub input: String,
    pub cursor: usize,
}

impl Default for FileBrowser {
    fn default() -> (b: Self)
        ensures
            b.files@.len() == 0,
            b.selected_index == 0,
            b.preview@ == Seq::<char>::empty(),
            !b.active,
    {
        FileBrowser { files: Vec::new(), selected_index: 0, preview: String::new(), active: false }
    }
}

impl Default for SaveDialog {
    fn default() -> (d: Self)
        ensures
            !d.active,
            d.input@ == Seq::<char>::empty(),
            d.cursor == 0,
    {
        SaveDialog { active: false, input: String::new(), cursor: 0 }
    }
}

impl SaveDialog {
    /// The input line and its cursor.
    pub open spec fn editing(&self) -> TextCursor {
        TextCursor { text: self.input@, cursor: self.cursor as int }
    }

    /// The cursor sits between two characters of the input.
    pub open spec fn wf(&self) -> bool {
        self.editing().wf()
    }

    /// Shows the prompt with an empty input.
    pub fn open(&mut self)
        ensures
            final(self).active,
            final(self).input@ == Seq::<char>::empty(),
            final(self).cursor == 0,
            final(self).wf(),
    {
        self.active = true;
        self.input = String::new();
        self.cursor = 0;
        proof {
            lemma_width_take_all(self.input@);
            assert(cursor_at(self.input@, 0, 0));
        }
    }

    /// Hides the prompt and empties the input.
    pub fn close(&mut self)
        ensures
            !final(self).active,
            final(self).input@ == Seq::<char>::empty(),
            final(self).cursor == 0,
            final(self).wf(),
    {
        self.active = false;
        self.input = String::new();
        self.cursor = 0;
        proof {
            lemma_width_take_all(self.input@);
            assert(cursor_at(self.input@, 0, 0));
        }
    }

    /// Types `c` at the cursor.
    pub fn insert_char(&mut self, c: char)
        requires
            old(self).wf(),
        ensures
            final(self).editing() == old(self).editing().inserted(c),
            final(self).active == old(self).active,
            final(self).wf(),
    {
        self.cursor = insert_at_cursor(&mut self.input, self.cursor, c);
    }

    /// Erases the character before the cursor, if there is one.
    pub fn delete_char(&mut self)
        requires
            old(self).wf(),
        ensures
            final(self).editing() == old(self).editing().deleted_back(),
            final(self).active == old(self).active,
            final(self).wf(),
    {
        if self.cursor > 0 {
            self.cursor = delete_before_cursor(&mut self.input, self.cursor);
        }
    }
}

/// The status line shown at start-up.
pub open spec fn ready_message() -> Seq<char> {
    "Ready. Press F1 for help."@
}

impl Default for App {
    fn default() -> (app: Self)
        ensures
            app.query@ == Seq::<char>::empty(),
            app.cursor_position == 0,
            app.result is None,
            app.status_message@ == ready_message(),
            app.focus == Focus::Editor,
            app.scroll_offset == 0,
            app.editor_scroll == 0,
            !app.should_quit,
            !app.show_help,
            app.file_browser.files@.len() == 0,
            app.file_browser.selected_index == 0,
            app.file_browser.preview@ == Seq::<char>::empty(),
            !app.file_browser.active,
            !app.save_dialog.active,
            app.save_dialog.input@ == Seq::<char>::empty(),
            app.save_dialog.cursor == 0,
            app.wf(),
            app.panes_agree(),
    {
        let app = App {
            query: String::new(),
            cursor_position: 0,
            result: None,
            status_message: String::from_str("Ready. Press F1 for help."),
            focus: Focus::Editor,
            scroll_offset: 0,
            editor_scroll: 0,
            should_quit: false,
            show_help: false,
            file_browser: FileBrowser::default(),
            save_dialog: SaveDialog::default(),
        };
        proof {
            lemma_width_take_all(app.query@);
            assert(cursor_at(app.query@, 0, 0));
        }
        app
    }
}

/// `new` is `old` after typing `c` in the editor.
pub open spec fn typed(old: App, new: App, c: char) -> bool {
    &&& new.editor() == old.editor().inserted(c)
    &&& new == App { query: new.query, cursor_position: new.cursor_position, ..old }
}

/// `new` is `old` after a backspace in the editor.
pub open spec fn erased(old: App, new: App) -> bool {
    &&& new.editor() == old.editor().deleted_back()
    &&& new == App { query: new.query, cursor_position: new.cursor_position, ..old }
}

/// `new` is `old` with the editor cursor moved one character back.
pub open spec fn stepped_left(old: App, new: App) -> bool {
    &&& new.editor() == old.editor().moved_left()
    &&& new == App { cursor_position: new.cursor_position, ..old }
}

/// `new` is `old` with the editor cursor moved one character forward.
pub open spec fn stepped_right(old: App, new: App) -> bool {
    &&& new.editor() == old.editor().moved_right()
    &&& new == App { cursor_position: new.cursor_position, ..old }
}

/// One step back from `n`, stopping at 0.
pub open spec fn step_back(n: usize) -> usize {
    if n > 0 {
        (n - 1) as usize
    } else {
        0
    }
}

/// One step forward from `n`, stopping at `last`.
pub open spec fn step_forward(n: usize, last: int) -> usize {
    if n < last {
        (n + 1) as usize
    } else {
        n
    }
}

/// The largest scroll offset of the results table: one less than the row count, or 0.
pub open spec fn max_result_scroll(result: Option<QueryResult>) -> int {
    match result {
        Some(r) => if r.row_count > 0 {
            r.row_count - 1
        } else {
            0
        },
        None => 0,
    }
}

/// The largest scroll offset of the editor: one less than the line count, or 0.
pub open spec fn max_editor_scroll(query: Seq<char>) -> int {
    if line_count(query) > 0 {
        line_count(query) - 1
    } else {
        0
    }
}

/// `new` is `old` after the query was replaced by a formatted text: the cursor at its end and
/// the status line saying so.
pub open spec fn formatted(old: App, new: App) -> bool {
    &&& new.editor().at_end()
    &&& new.status_message@ == "Query formatted"@
    &&& new == App {
        query: new.query,
        cursor_position: new.cursor_position,
        status_message: new.status_message,
        ..old
    }
}

/// The status line after a query returned `rows` rows.
pub open spec fn executed_message(rows: nat) -> Seq<char> {
    "Query executed: "@ + decimal(rows) + " rows returned"@
}

/// What the preview pane shows when the selected file cannot be read.
pub open spec fn preview_error_message() -> Seq<char> {
    "Error reading file"@
}

impl App {
    /// The query text and its cursor.
    pub open spec fn editor(&self) -> TextCursor {
        TextCursor { text: self.query@, cursor: self.cursor_position as int }
    }

    /// The editor cursor sits between two characters of the query.
    pub open spec fn wf(&self) -> bool {
        self.editor().wf()
    }

    /// The panes agree with each other: the file browser is open exactly when it has the
    /// keyboard, and the help screen never stands over it.
    pub open spec fn panes_agree(&self) -> bool {
        &&& self.file_browser.active <==> self.focus == Focus::FileBrowser
        &&& self.show_help ==> !self.file_browser.active
    }

    /// Types `c` at the editor cursor.
    pub fn insert_char(&mut self, c: char)
        requires
            old(self).wf(),
        ensures
            typed(*old(self), *final(self), c),
            final(self).wf(),
    {
        self.cursor_position = insert_at_cursor(&mut self.query, self.cursor_position, c);
    }

    /// Erases the character before the editor cursor, if there is one.
    pub fn delete_char(&mut self)
        requires
            old(self).wf(),
        ensures
            erased(*old(self), *final(self)),
            final(self).wf(),
    {
        if self.cursor_position > 0 {
            self.cursor_position = delete_before_cursor(&mut self.query, self.cursor_position);
        }
    }

    /// Moves the editor cursor back over one character, if there is one.
    pub fn move_cursor_left(&mut self)
        requires
            old(self).wf(),
        ensures
            stepped_left(*old(self), *final(self)),
            final(self).wf(),
    {
        proof {
            law_steps_keep_cursor_valid(self.editor(), ' ');
        }
        if self.cursor_position > 0 {
            self.cursor_position = prev_boundary(self.query.as_str(), self.cursor_position);
        }
    }

    /// Moves the editor cursor forward over one character, if there is one.
    pub fn move_cursor_right(&mut self)
        requires
            old(self).wf(),
        ensures
            stepped_right(*old(self), *final(self)),
            final(self).wf(),
    {
        proof {
            law_steps_keep_cursor_valid(self.editor(), ' ');
        }
        let len = byte_len(self.query.as_str());
        if self.cursor_position < len {
            self.cursor_position = next_boundary(self.query.as_str(), self.cursor_position);
        }
    }

    /// Replaces the query by its formatted text, puts the cursor at its end and reports it.
    pub fn format_query(&mut self)
        ensures
            final(self).query@ == formatted_sql(old(self).query@),
            formatted(*old(self), *final(self)),
            final(self).wf(),
    {
        let text = format_sql(self.query.as_str());
        self.set_formatted_query(text);
    }

    /// Puts `text`, the formatted query, in the editor with the cursor at its end.
    pub fn set_formatted_query(&mut self, text: String)
        ensures
            final(self).query@ == text@,
            formatted(*old(self), *final(self)),
            final(self).wf(),
    {
        let len = byte_len(text.as_str());
        self.query = text;
        self.cursor_position = len;
        self.status_message = String::from_str("Query formatted");
        proof {
            lemma_width_take_all(self.query@);
            assert(cursor_at(self.query@, len as int, self.query@.len() as int));
        }
    }

    /// Shows the rows of a query that ran and moves the focus to them.
    pub fn set_result(&mut self, result: QueryResult)
        ensures
            final(self).status_message@ == executed_message(result.row_count as nat),
            *final(self) == (App {
                status_message: final(self).status_message,
                result: Some(result),
                focus: Focus::Results,
                scroll_offset: 0,
                ..*old(self)
            }),
    {
        let count = decimal_string(result.row_count);
        let mut msg = concat2("Query executed: ", count.as_str());
        msg.append(" rows returned");
        self.status_message = msg;
        self.result = Some(result);
        self.focus = Focus::Results;
        self.scroll_offset = 0;
    }

    /// Reports a failed query in the status line.
    pub fn set_error(&mut self, error: String)
        ensures
            final(self).status_message@ == "Error: "@ + error@,
            *final(self) == (App { status_message: final(self).status_message, ..*old(self) }),
    {
        self.status_message = concat2("Error: ", error.as_str());
    }

    /// Scrolls the results table up by one row, if it is not at the top.
    pub fn scroll_up(&mut self)
        ensures
            *final(self) == (App {
                scroll_offset: step_back(old(self).scroll_offset),
                ..*old(self)
            }),
    {
        if self.scroll_offset > 0 {
            self.scroll_offset = self.scroll_offset - 1;
        }
    }

    /// Scrolls the results table down by one row, as long as the last row is not at the top.
    pub fn scroll_down(&mut self)
        ensures
            *final(self) == (App {
                scroll_offset: step_forward(
                    old(self).scroll_offset,
                    max_result_scroll(old(self).result),
                ),
                ..*old(self)
            }),
    {
        match &self.result {
            Some(result) => {
                let last = if result.row_count > 0 {
                    result.row_count - 1
                } else {
                    0
                };
                if self.scroll_offset < last {
                    self.scroll_offset = self.scroll_offset + 1;
                }
            },
            None => {},
        }
    }

    /// Scrolls the editor up by one line, if it is not at the top.
    pub fn editor_scroll_up(&mut self)
        ensures
            *final(self) == (App {
                editor_scroll: step_back(old(self).editor_scroll),
                ..*old(self)
            }),
    {
        if self.editor_scroll > 0 {
            self.editor_scroll = self.editor_scroll - 1;
        }
    }

    /// Scrolls the editor down by one line, as long as the last line is not at the top.
    pub fn editor_scroll_down(&mut self)
        ensures
            *final(self) == (App {
                editor_scroll: step_forward(
                    old(self).editor_scroll,
                    max_editor_scroll(old(self).query@),
                ),
                ..*old(self)
            }),
    {
        let lines = count_lines(self.query.as_str());
        let last = if lines > 0 {
            lines - 1
        } else {
            0
        };
        if self.editor_scroll < last {
            self.editor_scroll = self.editor_scroll + 1;
        }
    }

    /// Opens the file browser on the directory entries `entries`: it lists the `.sql` files
    /// among them in the order of `String`s, with the first one selected and no preview yet.
    /// Asks for the preview of the selected file when the list is not empty.
    pub fn open_file_browser(&mut self, entries: &Vec<String>) -> (action: Action)
        ensures
            action == if final(self).file_browser.files@.len() > 0 {
                Action::RefreshPreview
            } else {
                Action::Nothing
            },
            sorted_names(texts(final(self).file_browser.files@)),
            texts(final(self).file_browser.files@).to_multiset() == sql_names(
                texts(entries@),
            ).to_multiset(),
            final(self).file_browser.preview@ == Seq::<char>::empty(),
            !old(self).show_help ==> final(self).panes_agree(),
            *final(self) == (App {
                focus: Focus::FileBrowser,
                file_browser: FileBrowser {
                    files: final(self).file_browser.files,
                    selected_index: 0,
                    preview: final(self).file_browser.preview,
                    active: true,
                },
                ..*old(self)
            }),
    {
        self.file_browser.files = sql_files(entries);
        self.file_browser.selected_index = 0;
        self.file_browser.preview = String::new();
        self.file_browser.active = true;
        self.focus = Focus::FileBrowser;
        if self.file_browser.files.len() > 0 {
            Action::RefreshPreview
        } else {
            Action::Nothing
        }
    }

    /// The file under the browser's selection, if the selection is on a file.
    pub fn selected_file(&self) -> (f: Option<&String>)
        ensures
            match f {
                Some(name) => self.file_browser.selected_index < self.file_browser.files@.len()
                    && *name == self.file_browser.files@[self.file_browser.selected_index as int],
                None => self.file_browser.selected_index >= self.file_browser.files@.len(),
            },
    {
        if self.file_browser.selected_index < self.file_browser.files.len() {
            Some(&self.file_browser.files[self.file_browser.selected_index])
        } else {
            None
        }
    }

    /// Shows `content`, what reading the selected file gave (`None` if it could not be read),
    /// in the preview pane; nothing changes when no file is selected.
    pub fn update_preview(&mut self, content: Option<String>)
        ensures
            old(self).file_browser.selected_index < old(self).file_browser.files@.len() ==> {
                &&& final(self).file_browser.preview@ == match content {
                    Some(t) => t@,
                    None => preview_error_message(),
                }
                &&& *final(self) == (App {
                    file_browser: FileBrowser {
                        preview: final(self).file_browser.preview,
                        ..old(self).file_browser
                    },
                    ..*old(self)
                })
            },
            old(self).file_browser.selected_index >= old(self).file_browser.files@.len()
                ==> *final(self) == *old(self),
    {
        if self.file_browser.selected_index < self.file_browser.files.len() {
            match content {
                Some(text) => {
                    self.file_browser.preview = text;
                },
                None => {
                    self.file_browser.preview = String::from_str("Error reading file");
                },
            }
        }
    }

    /// Moves the browser's selection up one file; tells whether it moved.
    pub fn file_browser_up(&mut self) -> (moved: bool)
        ensures
            moved == (old(self).file_browser.selected_index > 0),
            *final(self) == (App {
                file_browser: FileBrowser {
                    selected_index: step_back(old(self).file_browser.selected_index),
                    ..old(self).file_browser
                },
                ..*old(self)
            }),
    {
        if self.file_browser.selected_index > 0 {
            self.file_browser.selected_index = self.file_browser.selected_index - 1;
            true
        } else {
            false
        }
    }

    /// Moves the browser's selection down one file, unless it is on the last; tells whether it
    /// moved.
    pub fn file_browser_down(&mut self) -> (moved: bool)
        ensures
            moved == (old(self).file_browser.selected_index + 1
                < old(self).file_browser.files@.len()),
            *final(self) == (App {
                file_browser: FileBrowser {
                    selected_index: step_forward(
                        old(self).file_browser.selected_index,
                        old(self).file_browser.files@.len() - 1,
                    ),
                    ..old(self).file_browser
                },
                ..*old(self)
            }),
    {
        let len = self.file_browser.files.len();
        let last = if len > 0 {
            len - 1
        } else {
            0
        };
        if self.file_browser.selected_index < last {
            self.file_browser.selected_index = self.file_browser.selected_index + 1;
            true
        } else {
            false
        }
    }

    /// Puts `content`, what reading the selected file gave, in the editor (when a file is
    /// selected and could be read), then closes the browser and returns to the editor.
    pub fn load_selected_file(&mut self, content: Option<String>)
        requires
            old(self).wf(),
        ensures
            ({
                let sel = old(self).file_browser.selected_index as int;
                let files = old(self).file_browser.files@;
                if sel < files.len() && content is Some {
                    &&& final(self).query@ == content.unwrap()@
                    &&& final(self).editor().at_end()
                    &&& final(self).status_message@ == "Loaded "@ + files[sel]@
                } else {
                    &&& final(self).query == old(self).query
                    &&& final(self).cursor_position == old(self).cursor_position
                    &&& final(self).status_message == old(self).status_message
                }
            }),
            *final(self) == (App {
                query: final(self).query,
                cursor_position: final(self).cursor_position,
                status_message: final(self).status_message,
                focus: Focus::Editor,
                file_browser: FileBrowser { active: false, ..old(self).file_browser },
                ..*old(self)
            }),
            final(self).wf(),
            final(self).panes_agree(),
    {
        if self.file_browser.selected_index < self.file_browser.files.len() {
            match content {
                Some(text) => {
                    let len = byte_len(text.as_str());
                    let msg = concat2(
                        "Loaded ",
                        self.file_browser.files[self.file_browser.selected_index].as_str(),
                    );
                    self.query = text;
                    self.cursor_position = len;
                    self.status_message = msg;
                    proof {
                        lemma_width_take_all(self.query@);
                        assert(cursor_at(self.query@, len as int, self.query@.len() as int));
                    }
                },
                None => {},
            }
        }
        self.file_browser.active = false;
        self.focus = Focus::Editor;
    }

    /// Leaves the file browser for the editor.
    pub fn close_file_browser(&mut self)
        ensures
            *final(self) == (App {
                focus: Focus::Editor,
                file_browser: FileBrowser { active: false, ..old(self).file_browser },
                ..*old(self)
            }),
            final(self).panes_agree(),
    {
        self.file_browser.active = false;
        self.focus = Focus::Editor;
    }

    /// Reports in the status line how saving the results went: the paths written, or the error.
    pub fn record_save_outcome(&mut self, outcome: Result<String, String>)
        ensures
            final(self).status_message@ == match outcome {
                Ok(paths) => "Results saved to "@ + paths@,
                Err(e) => "Error saving: "@ + e@,
            },
            *final(self) == (App { status_message: final(self).status_message, ..*old(self) }),
    {
        match outcome {
            Ok(paths) => {
                self.status_message = concat2("Results saved to ", paths.as_str());
            },
            Err(e) => {
                self.status_message = concat2("Error saving: ", e.as_str());
            },
        }
    }
}


/// A key as the query tool tells keys apart.
#[derive(Debug, Clone, Copy, PartialEq, Eq, Structural)]
pub enum Key {
    Char(char),
    Backspace,
    Enter,
    Left,
    Right,
    Up,
    Down,
    Tab,
    Esc,
    F(u8),
    Other,
}

/// Outside work that a key press asks of the program around the state.
#[derive(Debug, Clone, Copy, PartialEq, Eq, Structural)]
pub enum Action {
    /// Nothing further.
    Nothing,
    /// Run the query against the database, then `set_result` or `set_error`.
    ExecuteQuery,
    /// List the queries directory and hand the entries to `open_file_browser`.
    OpenFileBrowser,
    /// Read the selected file and hand it to `update_preview`.
    RefreshPreview,
    /// Read the selected file and hand it to `load_selected_file`.
    LoadSelectedFile,
    /// Write the results out and hand the outcome to `record_save_outcome`.
    SaveResults,
}

/// The status line while a query runs.
pub open spec fn executing_message() -> Seq<char> {
    "Executing query..."@
}

/// What a key does while the file browser is open.
pub open spec fn browser_key_effect(old: App, new: App, key: Key, action: Action) -> bool {
    let sel = old.file_browser.selected_index;
    match key {
        Key::Up => {
            &&& new == App {
                file_browser: FileBrowser { selected_index: step_back(sel), ..old.file_browser },
                ..old
            }
            &&& action == if sel > 0 {
                Action::RefreshPreview
            } else {
                Action::Nothing
            }
        },
        Key::Down => {
            let last = old.file_browser.files@.len() - 1;
            &&& new == App {
                file_browser: FileBrowser {
                    selected_index: step_forward(sel, last),
                    ..old.file_browser
                },
                ..old
            }
            &&& action == if sel < last {
                Action::RefreshPreview
            } else {
                Action::Nothing
            }
        },
        Key::Enter => new == old && action == Action::LoadSelectedFile,
        Key::Esc => {
            &&& new == App {
                focus: Focus::Editor,
                file_browser: FileBrowser { active: false, ..old.file_browser },
                ..old
            }
            &&& action == Action::Nothing
        },
        _ => new == old && action == Action::Nothing,
    }
}

/// What a function key does in the editor.
pub open spec fn editor_function_key_effect(old: App, new: App, n: u8, action: Action) -> bool {
    if n == 1 {
        new == App { show_help: true, ..old } && action == Action::Nothing
    } else if n == 5 {
        &&& new.status_message@ == executing_message()
        &&& new == App { status_message: new.status_message, ..old }
        &&& action == Action::ExecuteQuery
    } else if n == 6 {
        &&& new.query@ == formatted_sql(old.query@)
        &&& formatted(old, new)
        &&& action == Action::Nothing
    } else if n == 7 {
        new == old && action == Action::OpenFileBrowser
    } else if n == 8 {
        new == old && action == if old.result is Some {
            Action::SaveResults
        } else {
            Action::Nothing
        }
    } else {
        new == old && action == Action::Nothing
    }
}

/// What a key does in the editor.
pub open spec fn editor_key_effect(old: App, new: App, key: Key, ctrl: bool, action: Action) -> bool {
    match key {
        Key::F(n) => editor_function_key_effect(old, new, n, action),
        _ => {
            &&& action == Action::Nothing
            &&& match key {
                Key::Char(c) => if c == 'c' && ctrl {
                    new == App { should_quit: true, ..old }
                } else {
                    typed(old, new, c)
                },
                Key::Backspace => erased(old, new),
                Key::Left => stepped_left(old, new),
                Key::Right => stepped_right(old, new),
                Key::Up => new == App { editor_scroll: step_back(old.editor_scroll), ..old },
                Key::Down => new == App {
                    editor_scroll: step_forward(old.editor_scroll, max_editor_scroll(old.query@)),
                    ..old
                },
                Key::Enter => typed(old, new, '\n'),
                Key::Tab => new == App { focus: Focus::Results, ..old },
                Key::Esc => new == App { should_quit: true, ..old },
                _ => new == old,
            }
        },
    }
}

/// What a key does in the results table.
pub open spec fn results_key_effect(old: App, new: App, key: Key, action: Action) -> bool {
    &&& action == if key == Key::F(8) && old.result is Some {
        Action::SaveResults
    } else {
        Action::Nothing
    }
    &&& new == match key {
        Key::Up => App { scroll_offset: step_back(old.scroll_offset), ..old },
        Key::Down => App {
            scroll_offset: step_forward(old.scroll_offset, max_result_scroll(old.result)),
            ..old
        },
        Key::Tab => App { focus: Focus::Editor, ..old },
        Key::F(n) => if n == 1 {
            App { show_help: true, ..old }
        } else {
            old
        },
        Key::Esc => App { should_quit: true, ..old },
        _ => old,
    }
}

/// What a key press (with Ctrl held or not) does to the state, and what it asks of the
/// program around it: the help screen takes every key first, then the file browser, then the
/// focused pane.
pub open spec fn key_effect(old: App, new: App, key: Key, ctrl: bool, action: Action) -> bool {
    if old.show_help {
        &&& action == Action::Nothing
        &&& new == if key == Key::F(1) || key == Key::Esc {
            App { show_help: false, ..old }
        } else {
            old
        }
    } else if old.file_browser.active {
        browser_key_effect(old, new, key, action)
    } else {
        match old.focus {
            Focus::Editor => editor_key_effect(old, new, key, ctrl, action),
            Focus::Results => results_key_effect(old, new, key, action),
            Focus::FileBrowser => new == old && action == Action::Nothing,
        }
    }
}

impl App {
    /// Handles one key press; the returned action says what outside work it calls for.
    pub fn handle_key(&mut self, key: Key, ctrl: bool) -> (action: Action)
        requires
            old(self).wf(),
        ensures
            key_effect(*old(self), *final(self), key, ctrl, action),
            final(self).wf(),
            old(self).panes_agree() ==> final(self).panes_agree(),
    {
        let ghost before = *self;
        let action = self.dispatch_key(key, ctrl);
        proof {
            if before.panes_agree() {
                law_key_keeps_state_consistent(before, *self, key, ctrl, action);
            }
        }
        action
    }

    fn dispatch_key(&mut self, key: Key, ctrl: bool) -> (action: Action)
        requires
            old(self).wf(),
        ensures
            key_effect(*old(self), *final(self), key, ctrl, action),
            final(self).wf(),
    {
        if self.show_help {
            match key {
                Key::F(1) | Key::Esc => {
                    self.show_help = false;
                },
                _ => {},
            }
            return Action::Nothing;
        }
        if self.file_browser.active {
            return match key {
                Key::Up => if self.file_browser_up() {
                    Action::RefreshPreview
                } else {
                    Action::Nothing
                },
                Key::Down => if self.file_browser_down() {
                    Action::RefreshPreview
                } else {
                    Action::Nothing
                },
                Key::Enter => Action::LoadSelectedFile,
                Key::Esc => {
                    self.close_file_browser();
                    Action::Nothing
                },
                _ => Action::Nothing,
            };
        }
        match self.focus {
            Focus::Editor => self.handle_editor_key(key, ctrl),
            Focus::Results => self.handle_results_key(key),
            Focus::FileBrowser => Action::Nothing,
        }
    }

    fn handle_editor_key(&mut self, key: Key, ctrl: bool) -> (action: Action)
        requires
            old(self).wf(),
        ensures
            editor_key_effect(*old(self), *final(self), key, ctrl, action),
            final(self).wf(),
    {
        match key {
            Key::Char(c) => {
                if c == 'c' && ctrl {
                    self.should_quit = true;
                } else {
                    self.insert_char(c);
                }
                Action::Nothing
            },
            Key::Backspace => {
                self.delete_char();
                Action::Nothing
            },
            Key::Left => {
                self.move_cursor_left();
                Action::Nothing
            },
            Key::Right => {
                self.move_cursor_right();
                Action::Nothing
            },
            Key::Up => {
                self.editor_scroll_up();
                Action::Nothing
            },
            Key::Down => {
                self.editor_scroll_down();
                Action::Nothing
            },
            Key::Enter => {
                self.insert_char('\n');
                Action::Nothing
            },
            Key::Tab => {
                self.focus = Focus::Results;
                Action::Nothing
            },
            Key::Esc => {
                self.should_quit = true;
                Action::Nothing
            },
            Key::F(n) => {
                if n == 1 {
                    self.show_help = true;
                    Action::Nothing
                } else if n == 5 {
                    self.status_message = String::from_str("Executing query...");
                    Action::ExecuteQuery
                } else if n == 6 {
                    self.format_query();
                    Action::Nothing
                } else if n == 7 {
                    Action::OpenFileBrowser
                } else if n == 8 {
                    if self.result.is_some() {
                        Action::SaveResults
                    } else {
                        Action::Nothing
                    }
                } else {
                    Action::Nothing
                }
            },
            Key::Other => Action::Nothing,
        }
    }

    fn handle_results_key(&mut self, key: Key) -> (action: Action)
        ensures
            results_key_effect(*old(self), *final(self), key, action),
    {
        match key {
            Key::Up => {
                self.scroll_up();
                Action::Nothing
            },
            Key::Down => {
                self.scroll_down();
                Action::Nothing
            },
            Key::Tab => {
                self.focus = Focus::Editor;
                Action::Nothing
            },
            Key::Esc => {
                self.should_quit = true;
                Action::Nothing
            },
            Key::F(n) => {
                if n == 1 {
                    self.show_help = true;
                    Action::Nothing
                } else if n == 8 && self.result.is_some() {
                    Action::SaveResults
                } else {
                    Action::Nothing
                }
            },
            _ => Action::Nothing,
        }
    }
}

} // verus!
