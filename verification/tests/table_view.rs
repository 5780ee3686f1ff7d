use graze::cell_filter::{parse_simple_filter, NumOrder};
use graze::search::{matching_column, SearchMatcher};
use graze::table_view::{
    cell_look, current_match_row, eq_ignore_ascii_case, highlight_column, row_look, row_prefix,
    stats_cell_look, type_column_min, viewport_outside_buffer, CellLook, MatchLook, RowLook,
    StatsCellLook,
};

#[test]
fn loading_when_view_leaves_buffer() {
    // buffer holds rows 100..200
    assert!(!viewport_outside_buffer(150, 20, 100, 100));
    assert!(viewport_outside_buffer(200, 20, 100, 100));
    assert!(viewport_outside_buffer(70, 30, 100, 100));
    assert!(!viewport_outside_buffer(70, 31, 100, 100));
}

#[test]
fn row_marks_and_prefixes() {
    let marked = vec![3usize, 12];
    assert_eq!(row_look(2, 2, false, 10, &marked), RowLook::SelectedMarked);
    assert_eq!(row_look(1, 1, false, 10, &marked), RowLook::Selected);
    assert_eq!(row_look(1, 1, true, 10, &marked), RowLook::Plain);
    assert_eq!(row_look(2, 0, false, 10, &marked), RowLook::Marked);
    assert_eq!(row_look(3, 0, false, 0, &marked), RowLook::Marked);
    assert_eq!(row_prefix(RowLook::SelectedMarked), "*> ");
    assert_eq!(row_prefix(RowLook::Selected), ">> ");
    assert_eq!(row_prefix(RowLook::Marked), " * ");
    assert_eq!(row_prefix(RowLook::Plain), "   ");
}

#[test]
fn current_match_in_buffer() {
    let rows = vec![5usize, 40, 90];
    assert_eq!(current_match_row(Some(2), &rows, 30), Some(10));
    assert_eq!(current_match_row(Some(1), &rows, 30), None);
    assert_eq!(current_match_row(Some(0), &rows, 0), None);
    assert_eq!(current_match_row(Some(4), &rows, 0), None);
    assert_eq!(current_match_row(None, &rows, 0), None);
}

#[test]
fn ascii_case_blind_names() {
    assert!(eq_ignore_ascii_case("Name", "nAME"));
    assert!(!eq_ignore_ascii_case("Name", "Names"));
    assert!(!eq_ignore_ascii_case("Émile", "émile"));
    let names = vec!["id".to_string(), "City".to_string(), "city".to_string()];
    assert_eq!(highlight_column(&names, "CITY"), Some(1));
    assert_eq!(highlight_column(&names, "town"), None);
}

#[test]
fn cell_highlighting() {
    let f = parse_simple_filter("city = 'Oslo'");
    assert_eq!(
        cell_look(false, true, false, "Oslo", &f, None, None, false),
        CellLook { null: false, filter_hit: true, search: MatchLook::NoMatch }
    );
    assert_eq!(
        cell_look(true, true, false, "Oslo", &f, None, None, false),
        CellLook { null: false, filter_hit: false, search: MatchLook::NoMatch }
    );
    assert_eq!(
        cell_look(false, true, false, "Bergen", &f, None, None, false),
        CellLook { null: false, filter_hit: false, search: MatchLook::NoMatch }
    );
    let m = SearchMatcher::new("os").unwrap();
    let hits = m.matches_each(&vec!["Oslo".to_string(), "Bergen".to_string()]);
    assert_eq!(hits, vec![true, false]);
    assert_eq!(
        cell_look(false, false, false, "Oslo", &f, None, Some(hits[0]), true),
        CellLook { null: false, filter_hit: false, search: MatchLook::Current }
    );
    assert_eq!(
        cell_look(false, false, false, "Oslo", &f, None, Some(hits[0]), false),
        CellLook { null: false, filter_hit: false, search: MatchLook::Other }
    );
    assert_eq!(
        cell_look(false, false, false, "Bergen", &f, None, Some(hits[1]), true),
        CellLook { null: false, filter_hit: false, search: MatchLook::NoMatch }
    );
    // nulls never show a search match; only IS NULL marks them
    assert_eq!(
        cell_look(false, true, true, "", &f, None, Some(true), true),
        CellLook { null: true, filter_hit: false, search: MatchLook::NoMatch }
    );
    let is_null = parse_simple_filter("city IS null");
    assert_eq!(
        cell_look(false, true, true, "", &is_null, None, Some(true), true),
        CellLook { null: true, filter_hit: true, search: MatchLook::NoMatch }
    );
    let gt = parse_simple_filter("age > 9");
    assert!(cell_look(false, true, false, "10", &gt, Some(NumOrder::Greater), None, false).filter_hit);
    assert!(!cell_look(false, true, false, "10", &gt, None, None, false).filter_hit);
}

#[test]
fn stats_cells_and_type_width() {
    assert_eq!(stats_cell_look(0, true, Some(0), Some(1), true), StatsCellLook::Null);
    assert_eq!(stats_cell_look(1, false, Some(0), Some(1), true), StatsCellLook::TypeOverride);
    assert_eq!(stats_cell_look(1, false, Some(0), Some(1), false), StatsCellLook::Plain);
    assert_eq!(stats_cell_look(0, false, Some(0), Some(1), true), StatsCellLook::Name);
    let ov = vec![Some("Int64".to_string()), None, Some("Timestamp(Microsecond, None)".to_string())];
    assert_eq!(type_column_min(&ov, 0, 2), Some(5));
    assert_eq!(type_column_min(&ov, 0, 10), Some(28));
    assert_eq!(type_column_min(&ov, 1, 1), None);
    assert_eq!(type_column_min(&ov, 5, 3), None);
}

#[test]
fn first_matching_column_of_row() {
    let m = SearchMatcher::new("^b").unwrap();
    let row = vec![Some("abc".to_string()), None, Some("Bob".to_string()), Some("bee".to_string())];
    assert_eq!(matching_column(&m, &row), Some(2));
    let none = vec![None, Some("xyz".to_string())];
    assert_eq!(matching_column(&m, &none), None);
}
