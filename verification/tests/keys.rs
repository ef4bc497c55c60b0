use turbotui::app::{Action, App, Focus, Key};
use turbotui::database::QueryResult;

fn names(v: &[&str]) -> Vec<String> {
    v.iter().map(|s| s.to_string()).collect()
}

#[test]
fn help_screen_opens_and_closes() {
    let mut app = App::default();
    assert_eq!(app.handle_key(Key::F(1), false), Action::Nothing);
    assert!(app.show_help);
    assert_eq!(app.handle_key(Key::Char('x'), false), Action::Nothing);
    assert!(app.show_help);
    assert_eq!(app.query, "");
    assert_eq!(app.handle_key(Key::F(5), false), Action::Nothing);
    assert!(app.show_help);
    app.handle_key(Key::Esc, false);
    assert!(!app.show_help);
    assert!(!app.should_quit);
    app.handle_key(Key::F(1), false);
    app.handle_key(Key::F(1), false);
    assert!(!app.show_help);
}

#[test]
fn tab_switches_between_editor_and_results() {
    let mut app = App::default();
    app.handle_key(Key::Tab, false);
    assert_eq!(app.focus, Focus::Results);
    app.handle_key(Key::Tab, false);
    assert_eq!(app.focus, Focus::Editor);
}

#[test]
fn editor_keys_edit_the_query() {
    let mut app = App::default();
    for c in "SELCT".chars() {
        app.handle_key(Key::Char(c), false);
    }
    app.handle_key(Key::Left, false);
    app.handle_key(Key::Left, false);
    app.handle_key(Key::Char('E'), false);
    app.handle_key(Key::Right, false);
    app.handle_key(Key::Right, false);
    app.handle_key(Key::Enter, false);
    app.handle_key(Key::Char('1'), true);
    assert_eq!(app.query, "SELECT\n1");
    app.handle_key(Key::Backspace, false);
    assert_eq!(app.query, "SELECT\n");
    assert_eq!(app.cursor_position, 7);
    app.handle_key(Key::Down, false);
    assert_eq!(app.editor_scroll, 0);
}

#[test]
fn ctrl_c_and_escape_quit_from_editor() {
    let mut app = App::default();
    app.handle_key(Key::Char('c'), false);
    assert_eq!(app.query, "c");
    assert!(!app.should_quit);
    app.handle_key(Key::Char('c'), true);
    assert_eq!(app.query, "c");
    assert!(app.should_quit);
    let mut other = App::default();
    other.handle_key(Key::Esc, false);
    assert!(other.should_quit);
}

#[test]
fn function_keys_in_editor_ask_for_work() {
    let mut app = App::default();
    assert_eq!(app.handle_key(Key::F(5), false), Action::ExecuteQuery);
    assert_eq!(app.status_message, "Executing query...");
    assert_eq!(app.handle_key(Key::F(7), false), Action::OpenFileBrowser);
    assert_eq!(app.handle_key(Key::F(8), false), Action::Nothing);
    app.result = Some(QueryResult::from_rows(vec![], vec![]));
    assert_eq!(app.handle_key(Key::F(8), false), Action::SaveResults);
    assert_eq!(app.handle_key(Key::F(2), false), Action::Nothing);
    assert_eq!(app.handle_key(Key::Other, false), Action::Nothing);
}

#[test]
fn f6_formats_from_the_editor() {
    let mut app = App::default();
    for c in "select 1".chars() {
        app.handle_key(Key::Char(c), false);
    }
    assert_eq!(app.handle_key(Key::F(6), false), Action::Nothing);
    assert_eq!(app.status_message, "Query formatted");
    assert_eq!(app.cursor_position, app.query.len());
}

#[test]
fn results_keys_scroll_save_and_quit() {
    let mut app = App::default();
    let rows = vec![vec!["1".to_string()], vec!["2".to_string()]];
    app.set_result(QueryResult::from_rows(vec!["n".to_string()], rows));
    app.handle_key(Key::Down, false);
    app.handle_key(Key::Down, false);
    assert_eq!(app.scroll_offset, 1);
    app.handle_key(Key::Up, false);
    assert_eq!(app.scroll_offset, 0);
    assert_eq!(app.handle_key(Key::F(8), false), Action::SaveResults);
    assert_eq!(app.handle_key(Key::F(5), false), Action::Nothing);
    assert_eq!(app.handle_key(Key::Char('x'), false), Action::Nothing);
    assert_eq!(app.query, "");
    app.handle_key(Key::F(1), false);
    assert!(app.show_help);
    app.handle_key(Key::Esc, false);
    assert!(!app.should_quit);
    app.handle_key(Key::Esc, false);
    assert!(app.should_quit);
}

#[test]
fn browser_keys_navigate_load_and_close() {
    let mut app = App::default();
    app.open_file_browser(&names(&["a.sql", "b.sql"]));
    assert_eq!(app.handle_key(Key::Up, false), Action::Nothing);
    assert_eq!(app.handle_key(Key::Down, false), Action::RefreshPreview);
    assert_eq!(app.handle_key(Key::Down, false), Action::Nothing);
    assert_eq!(app.file_browser.selected_index, 1);
    assert_eq!(app.handle_key(Key::Up, false), Action::RefreshPreview);
    assert_eq!(app.handle_key(Key::Char('q'), false), Action::Nothing);
    assert_eq!(app.query, "");
    assert_eq!(app.handle_key(Key::Enter, false), Action::LoadSelectedFile);
    assert!(app.file_browser.active);
    assert_eq!(app.handle_key(Key::Esc, false), Action::Nothing);
    assert!(!app.file_browser.active);
    assert_eq!(app.focus, Focus::Editor);
    assert!(!app.should_quit);
}

fn panes_agree(app: &App) -> bool {
    app.file_browser.active == (app.focus == Focus::FileBrowser)
        && (!app.show_help || !app.file_browser.active)
}

#[test]
fn panes_stay_consistent_over_a_session() {
    let mut app = App::default();
    assert!(panes_agree(&app));
    let keys = [
        Key::F(1), Key::F(7), Key::Esc, Key::Char('a'), Key::Tab, Key::F(1), Key::Esc,
        Key::Tab, Key::F(7), Key::Down, Key::Esc, Key::Enter,
    ];
    for key in keys {
        let action = app.handle_key(key, false);
        if action == Action::OpenFileBrowser {
            app.open_file_browser(&names(&["a.sql", "b.sql"]));
        }
        if action == Action::LoadSelectedFile {
            app.load_selected_file(Some("x".to_string()));
        }
        assert!(panes_agree(&app), "after {:?}", key);
    }
    app.handle_key(Key::F(7), false);
    app.open_file_browser(&names(&["a.sql"]));
    assert!(panes_agree(&app));
    assert_eq!(app.handle_key(Key::Enter, false), Action::LoadSelectedFile);
    app.load_selected_file(None);
    assert!(panes_agree(&app));
    assert_eq!(app.focus, Focus::Editor);
}
