use vstd::prelude::*;
use vstd::seq_lib::to_multiset_contains;

use crate::app::{
    key_effect, max_result_scroll, step_back, step_forward, Action, App, Focus, Key,
};
use crate::listing::{is_sql_file_name, sql_names};
use crate::app::FileBrowser;
use crate::database::QueryResult;
use crate::format::formatted_sql;
use crate::layout::{spec_results_title, spec_screen, Screen};
use crate::message::decimal;
use crate::text::{line_count, utf8_width};
use crate::text::{cursor_at, law_insert_then_delete, law_steps_keep_cursor_valid, lemma_width_take_all};

verus! {

/// While the help screen is up, a key press asks for no outside work and changes nothing but
/// the help flag: F1 and Esc close the screen, every other key is ignored.
pub proof fn law_help_screen_takes_keys(old: App, new: App, key: Key, ctrl: bool, action: Action)
    requires
        old.show_help,
        key_effect(old, new, key, ctrl, action),
    ensures
        action == Action::Nothing,
        new == (App { show_help: new.show_help, ..old }),
        new.show_help == !(key == Key::F(1) || key == Key::Esc),
{
}

/// F1 in the editor or in the results table opens the help screen, and F1 again closes it,
/// leaving everything as it was.
pub proof fn law_help_opens_and_closes(
    a: App,
    b: App,
    c: App,
    ctrl1: bool,
    ctrl2: bool,
    x: Action,
    y: Action,
)
    requires
        !a.show_help,
        !a.file_browser.active,
        a.focus == Focus::Editor || a.focus == Focus::Results,
        key_effect(a, b, Key::F(1), ctrl1, x),
        key_effect(b, c, Key::F(1), ctrl2, y),
    ensures
        b.show_help,
        c == a,
        x == Action::Nothing,
        y == Action::Nothing,
{
}

/// Tab moves the focus from the editor to the results table and back.
pub proof fn law_tab_switches_focus_back_and_forth(
    a: App,
    b: App,
    c: App,
    ctrl1: bool,
    ctrl2: bool,
    x: Action,
    y: Action,
)
    requires
        !a.show_help,
        !a.file_browser.active,
        a.focus == Focus::Editor || a.focus == Focus::Results,
        key_effect(a, b, Key::Tab, ctrl1, x),
        key_effect(b, c, Key::Tab, ctrl2, y),
    ensures
        b.focus != a.focus,
        b.focus == Focus::Editor || b.focus == Focus::Results,
        c == a,
{
}

/// In the editor, typing a character and then pressing backspace restores the state: the same
/// text, the same cursor, everything else untouched.
pub proof fn law_type_then_backspace(
    a: App,
    b: App,
    c: App,
    ch: char,
    ctrl: bool,
    ctrl2: bool,
    x: Action,
    y: Action,
)
    requires
        a.wf(),
        !a.show_help,
        !a.file_browser.active,
        a.focus == Focus::Editor,
        !(ch == 'c' && ctrl),
        key_effect(a, b, Key::Char(ch), ctrl, x),
        key_effect(b, c, Key::Backspace, ctrl2, y),
    ensures
        c.query@ == a.query@,
        c == (App { query: c.query, ..a }),
        x == Action::Nothing,
        y == Action::Nothing,
{
    law_insert_then_delete(a.editor(), ch);
    assert(c.editor() == a.editor());
}

/// Esc in the editor or in the results table asks the program to quit; so does Ctrl+C in the
/// editor.
pub proof fn law_quit_keys(old: App, new: App, key: Key, ctrl: bool, action: Action)
    requires
        !old.show_help,
        !old.file_browser.active,
        old.focus == Focus::Results && key == Key::Esc || old.focus == Focus::Editor && (key
            == Key::Esc || key == Key::Char('c') && ctrl),
        key_effect(old, new, key, ctrl, action),
    ensures
        new.should_quit,
        new == (App { should_quit: true, ..old }),
        action == Action::Nothing,
{
}

/// Escape closes the file browser and gives the keyboard back to the editor; nothing else
/// changes.
pub proof fn law_escape_leaves_file_browser(old: App, new: App, ctrl: bool, action: Action)
    requires
        !old.show_help,
        old.file_browser.active,
        key_effect(old, new, Key::Esc, ctrl, action),
    ensures
        !new.file_browser.active,
        new.focus == Focus::Editor,
        new.query == old.query,
        new.cursor_position == old.cursor_position,
        new.file_browser.files == old.file_browser.files,
{
}

/// Scrolling the results down never goes past the last row, and scrolling up again undoes a
/// step that moved.
pub proof fn law_result_scroll_bounded(offset: usize, last: int)
    requires
        offset <= last || offset == 0,
        last <= usize::MAX,
    ensures
        step_forward(offset, last) <= last || step_forward(offset, last) == 0,
        offset < last ==> step_back(step_forward(offset, last)) == offset,
        offset > 0 ==> step_forward(step_back(offset), last) == offset,
{
}

/// The file browser's selection stays on a listed file when it moves up or down.
pub proof fn law_selection_stays_in_list(sel: usize, len: nat)
    requires
        sel < len,
    ensures
        step_back(sel) < len,
        step_forward(sel, len - 1) < len,
{
}

/// A key press keeps the file browser's selection on a listed file (or at 0 when the list is
/// empty).
pub proof fn law_key_keeps_selection_in_list(
    old: App,
    new: App,
    key: Key,
    ctrl: bool,
    action: Action,
)
    requires
        key_effect(old, new, key, ctrl, action),
        old.file_browser.selected_index < old.file_browser.files@.len()
            || old.file_browser.selected_index == 0,
    ensures
        new.file_browser.files == old.file_browser.files,
        new.file_browser.selected_index < new.file_browser.files@.len()
            || new.file_browser.selected_index == 0,
{
}

/// A key press keeps the results scroll offset within the results when it was.
pub proof fn law_key_keeps_result_scroll(old: App, new: App, key: Key, ctrl: bool, action: Action)
    requires
        key_effect(old, new, key, ctrl, action),
        old.scroll_offset <= max_result_scroll(old.result),
        new.result == old.result,
    ensures
        new.scroll_offset <= max_result_scroll(new.result),
{
}

/// A file list holding the `.sql` names of the entries, as many times as they occur, holds
/// nothing but `.sql` names, and every `.sql` entry is in it.
pub proof fn law_listing_is_the_sql_entries(files: Seq<Seq<char>>, entries: Seq<Seq<char>>)
    requires
        files.to_multiset() == sql_names(entries).to_multiset(),
    ensures
        forall|i: int| 0 <= i < files.len() ==> is_sql_file_name(#[trigger] files[i]),
        forall|j: int|
            0 <= j < entries.len() && is_sql_file_name(#[trigger] entries[j]) ==> files.contains(
                entries[j],
            ),
{
    assert forall|j: int|
        0 <= j < entries.len() && is_sql_file_name(#[trigger] entries[j]) implies files.contains(
        entries[j],
    ) by {
        entries.lemma_filter_contains(|t: Seq<char>| is_sql_file_name(t), j);
        to_multiset_contains(sql_names(entries), entries[j]);
        to_multiset_contains(files, entries[j]);
    }
    assert forall|i: int| 0 <= i < files.len() implies is_sql_file_name(#[trigger] files[i]) by {
        let x = files[i];
        assert(files.contains(x));
        to_multiset_contains(files, x);
        to_multiset_contains(sql_names(entries), x);
        let f = sql_names(entries);
        let j = choose|j: int| 0 <= j < f.len() && f[j] == x;
        entries.lemma_filter_pred(|t: Seq<char>| is_sql_file_name(t), j);
    }
}

/// The state that the tool keeps between key presses stays consistent: the editor cursor sits
/// between two characters, the file browser is open exactly when it has the keyboard, and help
/// never stands over the browser. Every key press keeps this.
pub proof fn law_key_keeps_state_consistent(
    old: App,
    new: App,
    key: Key,
    ctrl: bool,
    action: Action,
)
    requires
        old.wf(),
        old.panes_agree(),
        key_effect(old, new, key, ctrl, action),
    ensures
        new.wf(),
        new.panes_agree(),
{
    law_steps_keep_cursor_valid(old.editor(), ' ');
    if !old.show_help && !old.file_browser.active && old.focus == Focus::Editor {
        match key {
            Key::Char(c) => {
                law_steps_keep_cursor_valid(old.editor(), c);
            },
            Key::Enter => {
                law_steps_keep_cursor_valid(old.editor(), '\n');
            },
            Key::F(n) => {
                if n == 6 {
                    lemma_width_take_all(new.query@);
                    assert(cursor_at(new.query@, new.cursor_position as int, new.query@.len() as int));
                }
            },
            _ => {},
        }
    }
}

/// The outside work that key presses ask for keeps the state consistent too: opening the
/// browser, loading a file or closing the browser, previewing, reporting a query's outcome
/// (which only runs from the editor) or a save.
pub proof fn law_outside_work_keeps_panes_agreeing(old: App, new: App)
    requires
        old.panes_agree(),
    ensures
        new == (App {
            focus: Focus::FileBrowser,
            file_browser: FileBrowser { active: true, ..new.file_browser },
            ..old
        }) && !old.show_help ==> new.panes_agree(),
        new == (App {
            focus: Focus::Editor,
            file_browser: FileBrowser { active: false, ..new.file_browser },
            query: new.query,
            cursor_position: new.cursor_position,
            status_message: new.status_message,
            ..old
        }) ==> new.panes_agree(),
        new == (App { file_browser: FileBrowser { preview: new.file_browser.preview, ..old.file_browser }, ..old })
            ==> new.panes_agree(),
        new == (App {
            status_message: new.status_message,
            result: new.result,
            focus: Focus::Results,
            scroll_offset: 0,
            ..old
        }) && !old.file_browser.active ==> new.panes_agree(),
        new == (App { status_message: new.status_message, ..old }) ==> new.panes_agree(),
{
}

/// In the editor (no help screen, browser closed), each key does what the key reference says:
/// Up and Down scroll the editor one line (not past the first or last line), Left and Right move
/// the cursor over one character, a character or Enter is typed at the cursor, Backspace erases
/// the character before it, Tab gives the keyboard to the results, F1 shows help, F5 asks for
/// the query to run, F7 for the file browser, F8 for a save when there are results, and Esc or
/// Ctrl+C quit.
pub proof fn law_editor_keys(old: App, new: App, key: Key, ctrl: bool, action: Action)
    requires
        !old.show_help,
        !old.file_browser.active,
        old.focus == Focus::Editor,
        key_effect(old, new, key, ctrl, action),
    ensures
        key == Key::Down ==> {
            &&& action == Action::Nothing
            &&& new == (App {
                editor_scroll: (if old.editor_scroll + 1 < line_count(old.query@) {
                    old.editor_scroll + 1
                } else {
                    old.editor_scroll as int
                }) as usize,
                ..old
            })
        },
        key == Key::Up ==> {
            &&& action == Action::Nothing
            &&& new == (App {
                editor_scroll: (if old.editor_scroll > 0 {
                    old.editor_scroll - 1
                } else {
                    0
                }) as usize,
                ..old
            })
        },
        key == Key::Left ==> {
            &&& action == Action::Nothing
            &&& new.query == old.query
            &&& new.cursor_position as int == if old.cursor_position > 0 {
                utf8_width(old.query@.take(old.editor().index() - 1)) as int
            } else {
                0
            }
            &&& new == (App { cursor_position: new.cursor_position, ..old })
        },
        key == Key::Right ==> {
            &&& action == Action::Nothing
            &&& new.query == old.query
            &&& new.cursor_position as int == if old.cursor_position < utf8_width(old.query@) {
                utf8_width(old.query@.take(old.editor().index() + 1)) as int
            } else {
                old.cursor_position as int
            }
            &&& new == (App { cursor_position: new.cursor_position, ..old })
        },
        (key == Key::Enter || (key matches Key::Char(c) && !(c == 'c' && ctrl))) ==> {
            let c = if key == Key::Enter {
                '\n'
            } else {
                key->Char_0
            };
            &&& action == Action::Nothing
            &&& new.query@ == old.query@.insert(old.editor().index(), c)
            &&& new.cursor_position == old.cursor_position + utf8_width(seq![c])
            &&& new == (App { query: new.query, cursor_position: new.cursor_position, ..old })
        },
        key == Key::Backspace ==> {
            &&& action == Action::Nothing
            &&& old.cursor_position > 0 ==> new.query@ == old.query@.remove(old.editor().index() - 1)
            &&& old.cursor_position > 0 ==> new.cursor_position == utf8_width(
                old.query@.take(old.editor().index() - 1),
            )
            &&& old.cursor_position == 0 ==> new.query@ == old.query@ && new.cursor_position == 0
            &&& new == (App { query: new.query, cursor_position: new.cursor_position, ..old })
        },
        key == Key::Tab ==> new == (App { focus: Focus::Results, ..old }) && action
            == Action::Nothing,
        key == Key::F(1) ==> new == (App { show_help: true, ..old }) && action == Action::Nothing,
        key == Key::F(5) ==> {
            &&& action == Action::ExecuteQuery
            &&& new.status_message@ == "Executing query..."@
            &&& new == (App { status_message: new.status_message, ..old })
        },
        key == Key::F(6) ==> {
            &&& action == Action::Nothing
            &&& new.query@ == formatted_sql(old.query@)
            &&& new.cursor_position == utf8_width(new.query@)
            &&& new.status_message@ == "Query formatted"@
        },
        key == Key::F(7) ==> new == old && action == Action::OpenFileBrowser,
        key == Key::F(8) ==> new == old && (action == Action::SaveResults <==> old.result is Some)
            && (action == Action::SaveResults || action == Action::Nothing),
        (key == Key::Esc || key == Key::Char('c') && ctrl) ==> new == (App {
            should_quit: true,
            ..old
        }) && action == Action::Nothing,
{
}

/// In the results table, Up and Down scroll one row (not past the first or last row), Tab gives
/// the keyboard back to the editor, F1 shows help, F8 asks for a save, Esc quits, and any other
/// key does nothing.
pub proof fn law_results_keys(old: App, new: App, key: Key, ctrl: bool, action: Action)
    requires
        !old.show_help,
        !old.file_browser.active,
        old.focus == Focus::Results,
        key_effect(old, new, key, ctrl, action),
    ensures
        key == Key::Down ==> action == Action::Nothing && new == (App {
            scroll_offset: (if old.result is Some && old.scroll_offset + 1
                < old.result->Some_0.row_count {
                old.scroll_offset + 1
            } else {
                old.scroll_offset as int
            }) as usize,
            ..old
        }),
        key == Key::Up ==> action == Action::Nothing && new == (App {
            scroll_offset: (if old.scroll_offset > 0 {
                old.scroll_offset - 1
            } else {
                0
            }) as usize,
            ..old
        }),
        key == Key::Tab ==> new == (App { focus: Focus::Editor, ..old }) && action
            == Action::Nothing,
        key == Key::F(1) ==> new == (App { show_help: true, ..old }) && action == Action::Nothing,
        key == Key::F(8) ==> new == old && (action == Action::SaveResults <==> old.result is Some)
            && (action == Action::SaveResults || action == Action::Nothing),
        key == Key::Esc ==> new == (App { should_quit: true, ..old }) && action == Action::Nothing,
        (key is Char || key is Backspace || key is Enter || key is Left || key is Right
            || key is Other) ==> new == old && action == Action::Nothing,
{
}

/// With the file browser open, Up and Down move the selection one file (not off the list) and
/// ask for the new preview exactly when it moved, Enter asks for the selected file to be
/// loaded, Esc closes the browser, and any other key does nothing.
pub proof fn law_browser_keys(old: App, new: App, key: Key, ctrl: bool, action: Action)
    requires
        !old.show_help,
        old.file_browser.active,
        key_effect(old, new, key, ctrl, action),
    ensures
        key == Key::Down ==> {
            let moved = old.file_browser.selected_index + 1 < old.file_browser.files@.len();
            &&& action == if moved {
                Action::RefreshPreview
            } else {
                Action::Nothing
            }
            &&& new == (App {
                file_browser: FileBrowser {
                    selected_index: (if moved {
                        old.file_browser.selected_index + 1
                    } else {
                        old.file_browser.selected_index as int
                    }) as usize,
                    ..old.file_browser
                },
                ..old
            })
        },
        key == Key::Up ==> {
            let moved = old.file_browser.selected_index > 0;
            &&& action == if moved {
                Action::RefreshPreview
            } else {
                Action::Nothing
            }
            &&& new == (App {
                file_browser: FileBrowser {
                    selected_index: (if moved {
                        old.file_browser.selected_index - 1
                    } else {
                        0
                    }) as usize,
                    ..old.file_browser
                },
                ..old
            })
        },
        key == Key::Enter ==> new == old && action == Action::LoadSelectedFile,
        key == Key::Esc ==> action == Action::Nothing && new == (App {
            focus: Focus::Editor,
            file_browser: FileBrowser { active: false, ..old.file_browser },
            ..old
        }),
        (key is Char || key is Backspace || key is Left || key is Right || key is Tab || key is F
            || key is Other) ==> new == old && action == Action::Nothing,
{
}

/// The help screen is drawn whenever help is on, whatever pane has the keyboard; otherwise the
/// file browser when it is open; otherwise the main panes, with the save prompt when it is open.
pub proof fn law_screen_choice(app: App)
    ensures
        app.show_help ==> spec_screen(app) == Screen::Help,
        !app.show_help && app.file_browser.active ==> spec_screen(app) == Screen::FileBrowser,
        !app.show_help && !app.file_browser.active ==> spec_screen(app) == (Screen::Main {
            save_dialog: app.save_dialog.active,
        }),
{
}

/// A name is that of an `.sql` file exactly when it is a non-empty stem followed by `.sql`,
/// whatever the stem's length.
pub proof fn law_sql_names_are_stem_dot_sql(stem: Seq<char>, name: Seq<char>)
    ensures
        stem.len() > 0 ==> is_sql_file_name(stem + ".sql"@),
        is_sql_file_name(name) <==> (name.len() >= 5 && name == name.take(name.len() - 4)
            + ".sql"@),
{
    reveal_strlit(".sql");
    if stem.len() > 0 {
        let n = stem + ".sql"@;
        assert(n[n.len() - 4] == '.');
        assert(n[n.len() - 3] == 's');
        assert(n[n.len() - 2] == 'q');
        assert(n[n.len() - 1] == 'l');
    }
    if name.len() >= 5 {
        let m = name.take(name.len() - 4) + ".sql"@;
        if is_sql_file_name(name) {
            assert(name =~= m);
        }
        if name == m {
            assert(name[name.len() - 4] == m[name.len() - 4]);
        }
    }
}

/// The results title names the row count whenever a query has run, zero rows included, so a
/// result can always be told from no result.
pub proof fn law_results_title_shows_count(result: Option<QueryResult>)
    ensures
        result is None ==> spec_results_title(result) == "Results"@,
        result matches Some(r) ==> spec_results_title(result) == "Results ("@ + decimal(
            r.row_count as nat,
        ) + " rows)"@,
        result is Some ==> spec_results_title(result) != spec_results_title(None),
{
    reveal_strlit("Results");
    reveal_strlit("Results (");
    if result is Some {
        let t = spec_results_title(result);
        assert(t.len() > "Results"@.len());
    }
}

} // verus!
