use turbotui::app::{App, Focus};
use turbotui::database::QueryResult;

fn result_of(n: usize) -> QueryResult {
    let rows = (0..n).map(|i| vec![i.to_string()]).collect();
    QueryResult::from_rows(vec!["id".to_string()], rows)
}

#[test]
fn from_rows_counts_rows() {
    let r = result_of(4);
    assert_eq!(r.row_count, 4);
    assert_eq!(r.columns, vec!["id".to_string()]);
    assert_eq!(r.rows[3], vec!["3".to_string()]);
}

#[test]
fn set_result_reports_row_count_and_focuses_results() {
    let mut app = App::default();
    app.scroll_offset = 7;
    app.set_result(result_of(3));
    assert_eq!(app.status_message, "Query executed: 3 rows returned");
    assert_eq!(app.focus, Focus::Results);
    assert_eq!(app.scroll_offset, 0);
    assert_eq!(app.result.as_ref().unwrap().row_count, 3);
}

#[test]
fn set_result_reports_large_counts() {
    let mut app = App::default();
    app.set_result(QueryResult { columns: vec![], rows: vec![], row_count: 1_234_506 });
    assert_eq!(app.status_message, "Query executed: 1234506 rows returned");
    app.set_result(result_of(0));
    assert_eq!(app.status_message, "Query executed: 0 rows returned");
}

#[test]
fn set_error_reports_message() {
    let mut app = App::default();
    app.set_error("Login failed".to_string());
    assert_eq!(app.status_message, "Error: Login failed");
    assert_eq!(app.focus, Focus::Editor);
}

#[test]
fn results_scroll_stays_within_rows() {
    let mut app = App::default();
    app.scroll_down();
    assert_eq!(app.scroll_offset, 0);
    app.set_result(result_of(3));
    app.scroll_down();
    app.scroll_down();
    app.scroll_down();
    assert_eq!(app.scroll_offset, 2);
    app.scroll_up();
    assert_eq!(app.scroll_offset, 1);
    app.scroll_up();
    app.scroll_up();
    assert_eq!(app.scroll_offset, 0);
}

#[test]
fn empty_result_does_not_scroll() {
    let mut app = App::default();
    app.set_result(result_of(0));
    app.scroll_down();
    assert_eq!(app.scroll_offset, 0);
}

#[test]
fn save_outcome_is_reported() {
    let mut app = App::default();
    app.record_save_outcome(Ok("a.json and a.csv".to_string()));
    assert_eq!(app.status_message, "Results saved to a.json and a.csv");
    app.record_save_outcome(Err("disk full".to_string()));
    assert_eq!(app.status_message, "Error saving: disk full");
}
