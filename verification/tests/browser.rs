use turbotui::app::{Action, App, Focus};
use turbotui::listing::{has_sql_extension, name_comes_first, sql_files};

fn names(v: &[&str]) -> Vec<String> {
    v.iter().map(|s| s.to_string()).collect()
}

#[test]
fn sql_extension_follows_path_rules() {
    assert!(has_sql_extension("a.sql"));
    assert!(has_sql_extension("report.v2.sql"));
    assert!(has_sql_extension("..sql"));
    assert!(has_sql_extension("é.sql"));
    assert!(!has_sql_extension(".sql"));
    assert!(!has_sql_extension("sql"));
    assert!(!has_sql_extension("a.SQL"));
    assert!(!has_sql_extension("a.sql.bak"));
    assert!(!has_sql_extension("a.sq"));
    assert!(!has_sql_extension(""));
}

#[test]
fn names_order_by_bytes() {
    assert!(name_comes_first("a.sql", "b.sql"));
    assert!(!name_comes_first("b.sql", "a.sql"));
    assert!(name_comes_first("Z.sql", "a.sql"));
    assert!(name_comes_first("ab", "abc"));
    assert!(!name_comes_first("abc", "ab"));
    assert!(name_comes_first("same", "same"));
    assert!(name_comes_first("z.sql", "é.sql"));
}

#[test]
fn listing_keeps_sorted_sql_files() {
    let files = sql_files(&names(&["b.sql", "notes.txt", "a.sql", ".sql", "c.SQL", "x.sql", "a.sql"]));
    assert_eq!(files, names(&["a.sql", "a.sql", "b.sql", "x.sql"]));
    let mut expected: Vec<String> = names(&["q9.sql", "Q1.sql", "é.sql", "q10.sql"]);
    let got = sql_files(&expected);
    expected.sort();
    assert_eq!(got, expected);
}

#[test]
fn open_file_browser_lists_and_selects_first() {
    let mut app = App::default();
    app.file_browser.preview = "old".to_string();
    app.file_browser.selected_index = 3;
    let action = app.open_file_browser(&names(&["y.sql", "readme.md", "x.sql"]));
    assert_eq!(action, Action::RefreshPreview);
    assert_eq!(app.file_browser.files, names(&["x.sql", "y.sql"]));
    assert_eq!(app.file_browser.selected_index, 0);
    assert_eq!(app.file_browser.preview, "");
    assert!(app.file_browser.active);
    assert_eq!(app.focus, Focus::FileBrowser);
    assert_eq!(app.selected_file(), Some(&"x.sql".to_string()));
}

#[test]
fn browser_selection_moves_within_list() {
    let mut app = App::default();
    app.open_file_browser(&names(&["a.sql", "b.sql", "c.sql"]));
    assert!(!app.file_browser_up());
    assert!(app.file_browser_down());
    assert!(app.file_browser_down());
    assert!(!app.file_browser_down());
    assert_eq!(app.file_browser.selected_index, 2);
    assert!(app.file_browser_up());
    assert_eq!(app.file_browser.selected_index, 1);
}

#[test]
fn empty_browser_has_no_selection() {
    let mut app = App::default();
    assert_eq!(app.open_file_browser(&names(&["notes.txt"])), Action::Nothing);
    assert!(app.file_browser.files.is_empty());
    assert!(!app.file_browser_down());
    assert!(!app.file_browser_up());
    assert_eq!(app.selected_file(), None);
    app.update_preview(Some("ignored".to_string()));
    assert_eq!(app.file_browser.preview, "");
}

#[test]
fn preview_shows_content_or_error() {
    let mut app = App::default();
    app.open_file_browser(&names(&["a.sql"]));
    app.update_preview(Some("SELECT 1".to_string()));
    assert_eq!(app.file_browser.preview, "SELECT 1");
    app.update_preview(None);
    assert_eq!(app.file_browser.preview, "Error reading file");
}

#[test]
fn load_selected_file_fills_editor() {
    let mut app = App::default();
    app.open_file_browser(&names(&["a.sql", "b.sql"]));
    app.file_browser_down();
    app.load_selected_file(Some("SELECT 'é'".to_string()));
    assert_eq!(app.query, "SELECT 'é'");
    assert_eq!(app.cursor_position, 11);
    assert_eq!(app.status_message, "Loaded b.sql");
    assert!(!app.file_browser.active);
    assert_eq!(app.focus, Focus::Editor);
}

#[test]
fn load_unreadable_file_only_closes_browser() {
    let mut app = App::default();
    app.query = "keep".to_string();
    app.cursor_position = 2;
    app.open_file_browser(&names(&["a.sql"]));
    app.load_selected_file(None);
    assert_eq!(app.query, "keep");
    assert_eq!(app.cursor_position, 2);
    assert_eq!(app.status_message, "Ready. Press F1 for help.");
    assert!(!app.file_browser.active);
    assert_eq!(app.focus, Focus::Editor);
}

#[test]
fn close_file_browser_returns_to_editor() {
    let mut app = App::default();
    app.open_file_browser(&names(&["a.sql"]));
    app.close_file_browser();
    assert!(!app.file_browser.active);
    assert_eq!(app.focus, Focus::Editor);
    assert_eq!(app.file_browser.files, names(&["a.sql"]));
}
