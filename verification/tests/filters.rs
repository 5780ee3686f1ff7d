use graze::cell_filter::{
    cell_matches_filter, like_match, parse_simple_filter, sql_like_match, unquote_column, unquote_value,
    NumOrder,
};
use graze::handlers::filter::expand_dollar_refs;
use graze::handlers::input::{
    apply_autocomplete, autocomplete_suggestions, find_dollar_prefix, goto_row, input_enter, parse_usize,
    EnterOutcome, GotoOutcome,
};
use graze::mode::InputVariant;

#[test]
fn expand_bare_and_quoted_references() {
    assert_eq!(expand_dollar_refs("$age > 30"), "\"age\" > 30");
    assert_eq!(expand_dollar_refs("$\"first name\" = 'x'"), "\"first name\" = 'x'");
    assert_eq!(expand_dollar_refs("$\"open"), "\"open\"");
    assert_eq!(expand_dollar_refs("price = 5$"), "price = 5$");
    assert_eq!(expand_dollar_refs("$1 + $_a1"), "$1 + \"_a1\"");
}

#[test]
fn expand_plain_ascii_unchanged() {
    assert_eq!(expand_dollar_refs("city = 'Oslo' AND age < 4"), "city = 'Oslo' AND age < 4");
    assert_eq!(expand_dollar_refs(""), "");
}

#[test]
fn expand_copies_non_ascii_bytewise() {
    // Each byte of a non-ASCII character becomes the character with that code.
    assert_eq!(expand_dollar_refs("é"), "\u{c3}\u{a9}");
}

#[test]
fn dollar_prefix_detection() {
    assert_eq!(find_dollar_prefix("age > $na"), Some(("na".to_string(), 6)));
    assert_eq!(find_dollar_prefix("x = $"), Some((String::new(), 4)));
    assert_eq!(find_dollar_prefix("$\"first na"), Some(("first na".to_string(), 0)));
    assert_eq!(find_dollar_prefix("$\"done\" = 1"), None);
    assert_eq!(find_dollar_prefix("$a b"), None);
    assert_eq!(find_dollar_prefix("no refs"), None);
    assert_eq!(find_dollar_prefix("é $x"), Some(("x".to_string(), 3)));
}

#[test]
fn suggestions_by_lowercase_prefix() {
    let names = vec!["Name".to_string(), "age".to_string(), "NAMESPACE".to_string()];
    let lower = vec!["name".to_string(), "age".to_string(), "namespace".to_string()];
    assert_eq!(
        autocomplete_suggestions("x = $NA", &names, &lower),
        Some(vec!["Name".to_string(), "NAMESPACE".to_string()])
    );
    assert_eq!(autocomplete_suggestions("x = $", &names, &lower), Some(names.clone()));
    assert_eq!(autocomplete_suggestions("x = 1", &names, &lower), None);
}

#[test]
fn completion_quotes_when_needed() {
    assert_eq!(apply_autocomplete("age > 3 AND $na", "name"), Some("age > 3 AND $name".to_string()));
    assert_eq!(apply_autocomplete("$fi", "first name"), Some("$\"first name\"".to_string()));
    assert_eq!(apply_autocomplete("plain", "x"), None);
}

#[test]
fn parse_usize_like_std() {
    assert_eq!(parse_usize("42"), Some(42));
    assert_eq!(parse_usize("+7"), Some(7));
    assert_eq!(parse_usize("007"), Some(7));
    assert_eq!(parse_usize(""), None);
    assert_eq!(parse_usize("+"), None);
    assert_eq!(parse_usize("-1"), None);
    assert_eq!(parse_usize("1a"), None);
    assert_eq!(parse_usize("18446744073709551615"), "18446744073709551615".parse::<usize>().ok());
    assert_eq!(parse_usize("99999999999999999999999"), None);
}

#[test]
fn goto_outcomes() {
    match goto_row("5", 10) {
        GotoOutcome::Jump { row, message } => {
            assert_eq!(row, 4);
            assert_eq!(message, "Jumped to row 5");
        }
        _ => panic!("expected a jump"),
    }
    match goto_row("11", 10) {
        GotoOutcome::Stay { message } => assert_eq!(message, "Row must be between 1 and 10"),
        _ => panic!("expected to stay"),
    }
    match goto_row("0", 0) {
        GotoOutcome::Stay { message } => assert_eq!(message, "Row must be between 1 and 0"),
        _ => panic!("expected to stay"),
    }
    match goto_row("123456", 0) {
        GotoOutcome::Jump { row, .. } => assert_eq!(row, 123455),
        _ => panic!("expected a jump while the total is unknown"),
    }
    match goto_row("abc", 10) {
        GotoOutcome::Stay { message } => assert_eq!(message, "Invalid row number"),
        _ => panic!("expected to stay"),
    }
    match goto_row("", 10) {
        GotoOutcome::Stay { message } => assert_eq!(message, "Enter a row number"),
        _ => panic!("expected to stay"),
    }
}

#[test]
fn enter_in_prompts() {
    match input_enter(InputVariant::Filter, "$age > 1", 0) {
        EnterOutcome::Filter(f) => assert_eq!(f, "\"age\" > 1"),
        _ => panic!("expected a filter"),
    }
    match input_enter(InputVariant::Search, "bob", 0) {
        EnterOutcome::Search(t) => assert_eq!(t, "bob"),
        _ => panic!("expected a search"),
    }
    assert!(matches!(input_enter(InputVariant::Search, "", 0), EnterOutcome::Leave));
    assert!(matches!(input_enter(InputVariant::GoToRow, "", 3), EnterOutcome::Stay(_)));
    assert!(matches!(input_enter(InputVariant::GoToRow, "3", 3), EnterOutcome::Jump { row: 2, .. }));
}

#[test]
fn unquoting() {
    assert_eq!(unquote_column(" \"first name\" "), Some("first name".to_string()));
    assert_eq!(unquote_column("age"), Some("age".to_string()));
    assert_eq!(unquote_column("first name"), None);
    assert_eq!(unquote_column("   "), None);
    assert_eq!(unquote_column("\""), Some("\"".to_string()));
    assert_eq!(unquote_value(" 'Oslo' "), "Oslo");
    assert_eq!(unquote_value("42"), "42");
    assert_eq!(unquote_value("'"), "'");
}

#[test]
fn parse_simple_filters() {
    let f = parse_simple_filter("age >= 30").unwrap();
    assert_eq!((f.column.as_str(), f.op.as_str(), f.value.as_str()), ("age", ">=", "30"));
    let f = parse_simple_filter("  \"first name\" = 'Bob' ").unwrap();
    assert_eq!((f.column.as_str(), f.op.as_str(), f.value.as_str()), ("first name", "=", "Bob"));
    let f = parse_simple_filter("city ilike '%OS%'").unwrap();
    assert_eq!((f.column.as_str(), f.op.as_str(), f.value.as_str(), f.value_lower.as_str()),
        ("city", "ILIKE", "%OS%", "%os%"));
    let f = parse_simple_filter("x is not null").unwrap();
    assert_eq!((f.column.as_str(), f.op.as_str(), f.value.as_str()), ("x", "IS NOT", "null"));
    let f = parse_simple_filter("a <> b").unwrap();
    assert_eq!(f.op, "<>");
    assert!(parse_simple_filter("a = 1 AND b = 2").is_none());
    assert!(parse_simple_filter("(a = 1)").is_none());
    assert!(parse_simple_filter("just words").is_none());
    assert!(parse_simple_filter("first name = 3").is_none());
    assert!(parse_simple_filter("=x").is_none());
    let f = parse_simple_filter("q=x").unwrap();
    assert_eq!((f.column.as_str(), f.value.as_str()), ("q", "x"));
}

#[test]
fn parse_with_non_ascii_before_keyword() {
    // Upper-casing `ß` gives `SS`, two one-byte characters for one two-byte
    // character, so the keyword's position still falls on a boundary here.
    let f = parse_simple_filter("straße like 'x%'").unwrap();
    assert_eq!((f.column.as_str(), f.op.as_str(), f.value.as_str()), ("straße", "LIKE", "x%"));
}

#[test]
fn like_patterns() {
    assert!(like_match(b"hello", b"h%o"));
    assert!(like_match(b"hello", b"%"));
    assert!(like_match(b"", b"%%"));
    assert!(like_match(b"hello", b"h_llo"));
    assert!(!like_match(b"hello", b"h_lo"));
    assert!(like_match(b"abcabc", b"%bc"));
    assert!(!like_match(b"abc", b""));
    assert!(like_match(b"", b""));
    assert!(like_match(b"mississippi", b"%iss%ppi"));
    assert!(!like_match(b"mississippi", b"%iss%ppx"));
}

#[test]
fn like_percent_in_text_is_taken_literally_first() {
    // The matcher takes a pattern `%` that equals the text byte as that byte.
    assert!(!like_match(b"%ba", b"%a"));
    assert!(like_match(b"%a", b"%a"));
}

#[test]
fn sql_like_case_handling() {
    assert!(sql_like_match("Hello", "H%", "h%", true));
    assert!(!sql_like_match("hello", "H%", "h%", true));
    assert!(sql_like_match("HELLO", "h%", "h%", false));
}

#[test]
fn cell_matching() {
    let f = parse_simple_filter("age > 30").unwrap();
    assert!(cell_matches_filter("45", &f, Some(NumOrder::Greater)));
    assert!(!cell_matches_filter("45", &f, Some(NumOrder::Less)));
    // Text order when the values are not both numbers.
    let g = parse_simple_filter("name > m").unwrap();
    assert!(cell_matches_filter("zed", &g, None));
    assert!(!cell_matches_filter("abe", &g, None));
    let le = parse_simple_filter("name <= m").unwrap();
    assert!(cell_matches_filter("m", &le, None));
    assert!(!cell_matches_filter("n", &le, None));
    let nan = parse_simple_filter("x >= 1").unwrap();
    assert!(!cell_matches_filter("NaN", &nan, Some(NumOrder::Unordered)));
    let eq = parse_simple_filter("city = Oslo").unwrap();
    assert!(cell_matches_filter("Oslo", &eq, None));
    assert!(!cell_matches_filter("oslo", &eq, None));
    let ne = parse_simple_filter("city != Oslo").unwrap();
    assert!(cell_matches_filter("oslo", &ne, None));
    let il = parse_simple_filter("city ILIKE 'os%'").unwrap();
    assert!(cell_matches_filter("OSLO", &il, None));
    let is = parse_simple_filter("city IS NULL").unwrap();
    assert!(!cell_matches_filter("x", &is, None));
    let isnot = parse_simple_filter("city IS NOT null").unwrap();
    assert!(cell_matches_filter("x", &isnot, None));
}
