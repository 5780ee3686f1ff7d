use graze::event::{SortOrder, SortState};
use graze::layout::{sort_indicator_string, subscript_digit};

#[test]
fn toggle_cycles_ascending_descending_removed() {
    let mut s = SortState::default();
    s.toggle("age");
    assert_eq!(s.order_for("age"), Some(&SortOrder::Ascending));
    s.toggle("age");
    assert_eq!(s.order_for("age"), Some(&SortOrder::Descending));
    s.toggle("age");
    assert_eq!(s.order_for("age"), None);
    assert!(s.is_empty());
}

#[test]
fn toggle_keeps_other_columns_in_place() {
    let mut s = SortState::default();
    s.toggle("a");
    s.toggle("b");
    s.toggle("a");
    assert_eq!(s.position("a"), Some(0));
    assert_eq!(s.position("b"), Some(1));
    assert_eq!(s.to_sql(), Some("\"a\" DESC, \"b\" ASC".to_string()));
    s.toggle("a");
    assert_eq!(s.position("b"), Some(0));
    assert_eq!(s.to_sql(), Some("\"b\" ASC".to_string()));
}

#[test]
fn empty_sort_has_no_order_by() {
    let s = SortState::default();
    assert_eq!(s.to_sql(), None);
    assert_eq!(s.specs().len(), 0);
}

#[test]
fn clear_removes_everything() {
    let mut s = SortState::default();
    s.toggle("x");
    s.toggle("y");
    s.clear();
    assert!(s.is_empty());
    assert_eq!(s.position("x"), None);
}

#[test]
fn sort_order_words_and_arrows() {
    assert_eq!(SortOrder::Ascending.as_sql(), "ASC");
    assert_eq!(SortOrder::Descending.as_sql(), "DESC");
    assert_eq!(SortOrder::Ascending.toggle(), SortOrder::Descending);
    assert_eq!(SortOrder::Ascending.indicator(), "\u{25b2}");
    assert_eq!(SortOrder::Descending.indicator(), "\u{25bc}");
}

#[test]
fn subscript_digits_and_fallback() {
    assert_eq!(subscript_digit(0), '\u{2080}');
    assert_eq!(subscript_digit(1), '\u{2081}');
    assert_eq!(subscript_digit(9), '\u{2089}');
    assert_eq!(subscript_digit(10), '?');
    assert_eq!(subscript_digit(42), '?');
}

#[test]
fn sort_indicator_single_and_multi() {
    let mut s = SortState::default();
    assert_eq!(sort_indicator_string(&s, "a", false), "");
    s.toggle("a");
    s.toggle("b");
    s.toggle("b");
    assert_eq!(sort_indicator_string(&s, "a", false), " \u{25b2}");
    assert_eq!(sort_indicator_string(&s, "a", true), " \u{25b2}\u{2081}");
    assert_eq!(sort_indicator_string(&s, "b", true), " \u{25bc}\u{2082}");
    assert_eq!(sort_indicator_string(&s, "c", true), "");
}
