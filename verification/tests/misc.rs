use turbotui::app::App;
use turbotui::config::{Config, DatabaseConfig, QueriesConfig};
use turbotui::database::{Database, LoginMethod, QueryResult};
use turbotui::export::{csv_records, save_paths, saved_files_message};
use turbotui::layout::{
    centered_margin, column_percent, cursor_line_column, editor_cursor_cell, file_list_label, is_even_stripe,
    results_title, save_dialog_cursor, save_field, screen, split_lines, visible_cursor_row,
    visible_editor_text, visible_rows, Screen,
};
use turbotui::message::decimal_string;
use turbotui::text::{byte_len, char_width, count_lines};

fn db_config(server: &str, user: &str) -> DatabaseConfig {
    DatabaseConfig {
        server: server.to_string(),
        port: 1433,
        user: user.to_string(),
        password: "pw".to_string(),
        database: "master".to_string(),
        trusted_connection: false,
        trust_server_certificate: true,
    }
}

#[test]
fn queries_directory_defaults() {
    let mut config = Config { database: db_config("db", ""), queries: None };
    assert_eq!(config.queries_directory(), "queries");
    config.queries = Some(QueriesConfig { directory: "sql/saved".to_string() });
    assert_eq!(config.queries_directory(), "sql/saved");
}

#[test]
fn host_and_address_drop_instance_name() {
    let db = Database::new(db_config("MyServer\\SQLEXPRESS", "sa"));
    assert_eq!(db.host_name(), "MyServer");
    assert_eq!(db.address(), "MyServer:1433");
    assert_eq!(db.login_method(), LoginMethod::SqlServer);
    assert!(db.trusts_server_certificate());
    let plain = Database::new(db_config("10.0.0.5", ""));
    assert_eq!(plain.host_name(), "10.0.0.5");
    assert_eq!(plain.address(), "10.0.0.5:1433");
    assert_eq!(plain.login_method(), LoginMethod::NoLogin);
    assert_eq!(plain.config().database, "master");
}

#[test]
fn decimal_notation() {
    assert_eq!(decimal_string(0), "0");
    assert_eq!(decimal_string(7), "7");
    assert_eq!(decimal_string(10), "10");
    assert_eq!(decimal_string(65535), "65535");
    assert_eq!(decimal_string(usize::MAX), usize::MAX.to_string());
}

#[test]
fn widths_and_lines() {
    assert_eq!(char_width('a'), 1);
    assert_eq!(char_width('é'), 2);
    assert_eq!(char_width('€'), 3);
    assert_eq!(char_width('😀'), 4);
    assert_eq!(byte_len("aé"), 3);
    assert_eq!(count_lines(""), 0);
    assert_eq!(count_lines("a"), 1);
    assert_eq!(count_lines("a\n"), 1);
    assert_eq!(count_lines("a\n\n"), 2);
    assert_eq!(count_lines("\n"), 1);
    assert_eq!(count_lines("a\r\nb"), 2);
}

#[test]
fn split_lines_matches_str_lines() {
    for s in ["", "a", "a\n", "a\r\nb\rc\n\nd", "\r", "x\r", "\n\n", "é\r\r\n"] {
        let expected: Vec<String> = s.lines().map(|l| l.to_string()).collect();
        assert_eq!(split_lines(s), expected, "input {:?}", s);
    }
}

#[test]
fn editor_window_of_lines() {
    assert_eq!(visible_editor_text("a\nb\nc\nd", 1, 2), "b\nc");
    assert_eq!(visible_editor_text("a\nb\nc\nd", 3, 5), "d");
    assert_eq!(visible_editor_text("a\nb", 5, 5), "");
    assert_eq!(visible_editor_text("a\r\nb\n", 0, 10), "a\nb");
}

#[test]
fn cursor_line_and_column() {
    assert_eq!(cursor_line_column("ab\ncd", 4), (1, 1));
    assert_eq!(cursor_line_column("ab\ncd", 3), (1, 0));
    assert_eq!(cursor_line_column("ab\ncd", 2), (0, 2));
    assert_eq!(cursor_line_column("é\néé", 7), (1, 4));
    assert_eq!(cursor_line_column("", 0), (0, 0));
    assert_eq!(visible_cursor_row(3, 2, 5), Some(1));
    assert_eq!(visible_cursor_row(1, 2, 5), None);
    assert_eq!(visible_cursor_row(7, 2, 5), None);
}

#[test]
fn results_pane_layout() {
    assert_eq!(results_title(&None), "Results");
    let r = QueryResult::from_rows(vec!["a".to_string()], vec![vec!["1".to_string()]; 12]);
    assert_eq!(results_title(&Some(r)), "Results (12 rows)");
    assert_eq!(column_percent(0), 100);
    assert_eq!(column_percent(1), 100);
    assert_eq!(column_percent(3), 33);
    assert_eq!(column_percent(200), 0);
    assert_eq!(visible_rows(10, 3, 8), (3, 7));
    assert_eq!(visible_rows(10, 8, 20), (8, 10));
    assert_eq!(visible_rows(10, 15, 20), (10, 10));
    assert_eq!(visible_rows(10, 0, 3), (0, 0));
    assert!(is_even_stripe(0));
    assert!(!is_even_stripe(3));
}

#[test]
fn popup_and_lists() {
    assert_eq!(centered_margin(60), 20);
    assert_eq!(centered_margin(50), 25);
    assert_eq!(centered_margin(100), 0);
    assert_eq!(file_list_label("a.sql", true), "> a.sql");
    assert_eq!(file_list_label("a.sql", false), "  a.sql");
    assert_eq!(save_field("", 10), format!(" {:<width$}", " ", width = 6));
    assert_eq!(save_field("report", 8), format!(" {:<width$}", "report", width = 4));
    assert_eq!(save_field("ü", 12), format!(" {:<width$}", "ü", width = 8));
    assert_eq!(save_field("", 2), "  ");
    assert_eq!(save_dialog_cursor(10, 5, 40, 3), (15, 9));
}

#[test]
fn screen_choice() {
    let mut app = App::default();
    assert_eq!(screen(&app), Screen::Main { save_dialog: false });
    app.save_dialog.open();
    assert_eq!(screen(&app), Screen::Main { save_dialog: true });
    app.file_browser.active = true;
    assert_eq!(screen(&app), Screen::FileBrowser);
    app.show_help = true;
    assert_eq!(screen(&app), Screen::Help);
}

#[test]
fn save_file_names() {
    let (json, csv) = save_paths("20250101_093000");
    assert_eq!(json, "results_20250101_093000.json");
    assert_eq!(csv, "results_20250101_093000.csv");
    assert_eq!(
        saved_files_message(&json, &csv),
        "results_20250101_093000.json and results_20250101_093000.csv"
    );
}

#[test]
fn line_count_is_number_of_lines() {
    for s in ["", "a", "a\n", "a\n\n", "\n", "a\r\nb", "x\ny\rz\n\n\nw"] {
        assert_eq!(count_lines(s), split_lines(s).len(), "input {:?}", s);
    }
}

#[test]
fn login_follows_user_then_trusted_connection() {
    let mut c = db_config("db", "");
    c.trusted_connection = true;
    c.trust_server_certificate = false;
    let db = Database::new(c.clone());
    assert_eq!(db.login_method(), LoginMethod::Integrated);
    assert!(!db.trusts_server_certificate());
    c.user = "app".to_string();
    assert_eq!(Database::new(c).login_method(), LoginMethod::SqlServer);
}

#[test]
fn editor_cursor_cell_offsets() {
    assert_eq!(editor_cursor_cell(2, 3, 5, 1), (8, 5));
    assert_eq!(editor_cursor_cell(0, 0, 65536 + 4, 0), (5, 1));
}

#[test]
fn csv_records_header_then_rows() {
    let r = QueryResult::from_rows(
        vec!["id".to_string(), "name".to_string()],
        vec![vec!["1".to_string(), "a".to_string()], vec!["2".to_string(), "b".to_string()]],
    );
    let recs = csv_records(&r);
    assert_eq!(recs.len(), 3);
    assert_eq!(recs[0], vec!["id".to_string(), "name".to_string()]);
    assert_eq!(recs[2], vec!["2".to_string(), "b".to_string()]);
    let empty = QueryResult::from_rows(vec![], vec![]);
    assert_eq!(csv_records(&empty), vec![Vec::<String>::new()]);
}
