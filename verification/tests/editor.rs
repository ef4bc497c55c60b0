use turbotui::app::{App, SaveDialog};

fn app_with(query: &str, cursor: usize) -> App {
    let mut app = App::default();
    app.query = query.to_string();
    app.cursor_position = cursor;
    app
}

#[test]
fn default_app_is_ready() {
    let app = App::default();
    assert_eq!(app.query, "");
    assert_eq!(app.cursor_position, 0);
    assert!(app.result.is_none());
    assert_eq!(app.status_message, "Ready. Press F1 for help.");
    assert_eq!(app.focus, turbotui::app::Focus::Editor);
    assert_eq!(app.scroll_offset, 0);
    assert_eq!(app.editor_scroll, 0);
    assert!(!app.should_quit);
    assert!(!app.show_help);
    assert!(app.file_browser.files.is_empty());
    assert!(!app.file_browser.active);
    assert!(!app.save_dialog.active);
}

#[test]
fn typing_ascii_moves_cursor_by_one_byte() {
    let mut app = App::default();
    app.insert_char('s');
    app.insert_char('q');
    app.insert_char('l');
    assert_eq!(app.query, "sql");
    assert_eq!(app.cursor_position, 3);
}

#[test]
fn typing_multibyte_moves_cursor_by_its_width() {
    let mut app = app_with("ab", 1);
    app.insert_char('é');
    assert_eq!(app.query, "aéb");
    assert_eq!(app.cursor_position, 3);
    app.insert_char('€');
    assert_eq!(app.query, "aé€b");
    assert_eq!(app.cursor_position, 6);
    app.insert_char('😀');
    assert_eq!(app.query, "aé€😀b");
    assert_eq!(app.cursor_position, 10);
}

#[test]
fn backspace_removes_whole_character() {
    let mut app = app_with("aé€b", 6);
    app.delete_char();
    assert_eq!(app.query, "aéb");
    assert_eq!(app.cursor_position, 3);
    app.delete_char();
    assert_eq!(app.query, "ab");
    assert_eq!(app.cursor_position, 1);
}

#[test]
fn backspace_at_start_does_nothing() {
    let mut app = app_with("abc", 0);
    app.delete_char();
    assert_eq!(app.query, "abc");
    assert_eq!(app.cursor_position, 0);
}

#[test]
fn cursor_moves_over_characters() {
    let mut app = app_with("aé😀", 0);
    app.move_cursor_right();
    assert_eq!(app.cursor_position, 1);
    app.move_cursor_right();
    assert_eq!(app.cursor_position, 3);
    app.move_cursor_right();
    assert_eq!(app.cursor_position, 7);
    app.move_cursor_right();
    assert_eq!(app.cursor_position, 7);
    app.move_cursor_left();
    assert_eq!(app.cursor_position, 3);
    app.move_cursor_left();
    assert_eq!(app.cursor_position, 1);
    app.move_cursor_left();
    assert_eq!(app.cursor_position, 0);
    app.move_cursor_left();
    assert_eq!(app.cursor_position, 0);
}

#[test]
fn type_then_backspace_restores_text() {
    let mut app = app_with("select", 3);
    app.insert_char('ü');
    app.delete_char();
    assert_eq!(app.query, "select");
    assert_eq!(app.cursor_position, 3);
}

#[test]
fn right_then_left_restores_cursor() {
    let mut app = app_with("xñy", 1);
    app.move_cursor_right();
    assert_eq!(app.cursor_position, 3);
    app.move_cursor_left();
    assert_eq!(app.cursor_position, 1);
}

#[test]
fn editor_scroll_stops_at_last_line() {
    let mut app = app_with("a\nb\nc", 0);
    app.editor_scroll_down();
    app.editor_scroll_down();
    app.editor_scroll_down();
    assert_eq!(app.editor_scroll, 2);
    app.editor_scroll_up();
    assert_eq!(app.editor_scroll, 1);
    app.editor_scroll_up();
    app.editor_scroll_up();
    assert_eq!(app.editor_scroll, 0);
}

#[test]
fn editor_scroll_ignores_final_line_feed() {
    let mut app = app_with("a\nb\n", 0);
    app.editor_scroll_down();
    app.editor_scroll_down();
    assert_eq!(app.editor_scroll, 1);
    let mut empty = App::default();
    empty.editor_scroll_down();
    assert_eq!(empty.editor_scroll, 0);
}

#[test]
fn format_query_replaces_text_and_reports() {
    let mut app = app_with("select a,b from t", 2);
    app.format_query();
    let expected = sqlformat::format(
        "select a,b from t",
        &sqlformat::QueryParams::None,
        sqlformat::FormatOptions::default(),
    );
    assert_ne!(app.query, "select a,b from t");
    assert_eq!(app.query, expected);
    assert_eq!(app.cursor_position, expected.len());
    assert_eq!(app.status_message, "Query formatted");
}

#[test]
fn set_formatted_query_puts_cursor_at_end() {
    let mut app = app_with("x", 1);
    app.set_formatted_query("SELECT\n  é".to_string());
    assert_eq!(app.query, "SELECT\n  é");
    assert_eq!(app.cursor_position, 11);
    assert_eq!(app.status_message, "Query formatted");
}

#[test]
fn save_dialog_opens_and_edits() {
    let mut d = SaveDialog::default();
    assert!(!d.active);
    d.insert_char('x');
    d.open();
    assert!(d.active);
    assert_eq!(d.input, "");
    assert_eq!(d.cursor, 0);
    d.insert_char('ö');
    d.insert_char('k');
    assert_eq!(d.input, "ök");
    assert_eq!(d.cursor, 3);
    d.delete_char();
    assert_eq!(d.input, "ö");
    assert_eq!(d.cursor, 2);
    d.delete_char();
    d.delete_char();
    assert_eq!(d.input, "");
    assert_eq!(d.cursor, 0);
    d.insert_char('a');
    d.close();
    assert!(!d.active);
    assert_eq!(d.input, "");
    assert_eq!(d.cursor, 0);
}
