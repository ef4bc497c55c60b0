use turbotui::database::text_before;
use turbotui::message::{concat2, concat3, push_decimal};
use turbotui::text::{delete_before_cursor, insert_at_cursor, next_boundary, prev_boundary};

#[test]
fn insert_and_delete_at_cursor() {
    let mut s = "añb".to_string();
    let c = insert_at_cursor(&mut s, 3, '€');
    assert_eq!(s, "añ€b");
    assert_eq!(c, 6);
    let c = delete_before_cursor(&mut s, c);
    assert_eq!(s, "añb");
    assert_eq!(c, 3);
    let c = delete_before_cursor(&mut s, c);
    assert_eq!(s, "ab");
    assert_eq!(c, 1);
}

#[test]
fn boundaries_around_cursor() {
    let s = "x😀yé";
    assert_eq!(next_boundary(s, 0), 1);
    assert_eq!(next_boundary(s, 1), 5);
    assert_eq!(next_boundary(s, 6), 8);
    assert_eq!(prev_boundary(s, 8), 6);
    assert_eq!(prev_boundary(s, 5), 1);
    assert_eq!(prev_boundary(s, 1), 0);
}

#[test]
fn text_before_separator() {
    assert_eq!(text_before("host\\inst\\x", '\\'), "host");
    assert_eq!(text_before("\\inst", '\\'), "");
    assert_eq!(text_before("plain", '\\'), "plain");
    assert_eq!(text_before("", '\\'), "");
}

#[test]
fn concatenation_and_digits() {
    assert_eq!(concat2("ab", "ç"), "abç");
    assert_eq!(concat3("a", "", "c"), "ac");
    let mut s = "n=".to_string();
    push_decimal(&mut s, 1005);
    assert_eq!(s, "n=1005");
}
