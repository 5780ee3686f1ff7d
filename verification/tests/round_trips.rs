use graze::cell_filter::parse_simple_filter;
use graze::diff_sql::{load_sql_for_path, reader_for, schema_probe_sql};
use graze::handlers::normal::{apply_normal, NormalCommand, TabView};
use graze::input::autocomplete::AutocompleteState;
use graze::input::{CharFilter, TextInput};
use graze::layout::{drawn_row_heights, visible_column_count};
use graze::session::buffer_row;
use graze::state::Viewport;

#[test]
fn autocomplete_full_cycle_returns_to_start() {
    let mut a = AutocompleteState::new();
    a.set_suggestions(vec!["a".to_string(), "b".to_string(), "c".to_string(), "d".to_string()]);
    a.move_down();
    let start = a.selected_index;
    for _ in 0..4 {
        a.move_down();
    }
    assert_eq!(a.selected_index, start);
    assert_eq!(a.selected(), Some("b"));
}

#[test]
fn cursor_down_then_up_returns() {
    let mut v = Viewport::new();
    v.page_size = 10;
    v.move_cursor_down(7, 0);
    v.move_cursor_down(30, 100);
    assert_eq!(v.selected_row, 37);
    v.move_cursor_up(30);
    assert_eq!(v.selected_row, 7);
    assert!(v.view_start <= v.selected_row && v.selected_row < v.view_start + v.page_size);
    // Stopped by the last row: the way back is shorter than the way down.
    v.move_cursor_down(500, 100);
    assert_eq!(v.selected_row, 99);
    v.move_cursor_up(500);
    assert_eq!(v.selected_row, 0);
}

#[test]
fn mark_key_twice_keeps_marks() {
    let mut t = TabView::new();
    t.total_rows = 50;
    t.viewport.page_size = 10;
    t.marked_rows = vec![2, 9];
    apply_normal(&mut t, NormalCommand::Down, false, false);
    apply_normal(&mut t, NormalCommand::Down, false, false);
    assert_eq!(t.viewport.selected_row, 2);
    let r = apply_normal(&mut t, NormalCommand::ToggleMark, false, false);
    assert_eq!(r.status.as_deref(), Some("Unmarked row 3 (1 marked)"));
    assert_eq!(t.marked_rows, vec![9]);
    let r = apply_normal(&mut t, NormalCommand::ToggleMark, false, false);
    assert_eq!(r.status.as_deref(), Some("Marked row 3 (2 marked)"));
    assert_eq!(t.marked_rows, vec![2, 9]);
    assert_eq!(t.viewport.selected_row, 2);
}

#[test]
fn commands_that_fit_at_the_last_row() {
    let mut t = TabView::new();
    t.viewport.selected_row = usize::MAX - 1;
    t.viewport.view_start = usize::MAX - 60;
    assert!(t.command_fits(NormalCommand::ToggleMark));
    assert!(t.command_fits(NormalCommand::CycleSort));
    assert!(!t.command_fits(NormalCommand::Down));
    t.viewport.selected_row = usize::MAX;
    assert!(!t.command_fits(NormalCommand::ToggleMark));
    assert!(t.command_fits(NormalCommand::Help));
}

#[test]
fn typing_then_deleting_restores_text() {
    let mut t = TextInput::new();
    t.set("añb");
    t.move_cursor_left();
    let (s, p) = (t.input.clone(), t.cursor_pos);
    t.insert_char('ü');
    assert_eq!(t.input, "añüb");
    assert!(t.delete_before_cursor());
    assert_eq!((t.input.clone(), t.cursor_pos), (s, p));
    t.move_cursor_to_start();
    assert!(!t.delete_before_cursor());
    assert_eq!(t.input, "añb");
    assert_eq!(t.cursor_pos, 0);
}

#[test]
fn refused_character_changes_nothing() {
    let mut t = TextInput::with_char_filter(CharFilter::AsciiDigit);
    t.insert_char('4');
    t.insert_char('x');
    assert_eq!(t.input, "4");
    assert_eq!(t.cursor_pos, 1);
}

#[test]
fn filter_trims_unicode_white_space() {
    let f = parse_simple_filter("\u{3000} age > 60\u{2003}\n").expect("a simple filter");
    assert_eq!(f.column, "age");
    assert_eq!(f.op, ">");
    assert_eq!(f.value, "60");
    let g = parse_simple_filter("\u{a0}name\u{a0}=\u{a0}'Bo'\u{a0}").expect("a simple filter");
    assert_eq!(g.column, "name");
    assert_eq!(g.value, "Bo");
}

#[test]
fn reader_follows_extension_case_blind() {
    assert_eq!(reader_for("CSV"), Ok("read_csv_auto"));
    assert_eq!(reader_for("tsv"), Ok("read_csv_auto"));
    assert_eq!(reader_for("Parquet"), Ok("read_parquet"));
    assert_eq!(reader_for("ndjson"), Ok("read_json_auto"));
    assert_eq!(reader_for("xlsx"), Err("Unsupported file extension: .xlsx".to_string()));
    assert_eq!(reader_for(""), Err("Unsupported file extension: .".to_string()));
    assert_eq!(
        load_sql_for_path("JSONL", "a.jsonl", "t").unwrap(),
        "CREATE TABLE t AS SELECT * FROM read_json_auto('a.jsonl')"
    );
    assert_eq!(
        schema_probe_sql("parquet", "b.parquet").unwrap(),
        "SELECT * FROM read_parquet('b.parquet') LIMIT 0"
    );
}

#[test]
fn drawn_rows_stop_at_the_screen_end() {
    let rows = vec![
        vec!["abcdefgh".to_string(), "x".to_string()],
        vec!["a".to_string(), "y".to_string()],
        vec!["abcdefghijkl".to_string(), "z".to_string()],
        vec!["a".to_string(), "w".to_string()],
    ];
    let widths = vec![4usize, 4];
    assert_eq!(drawn_row_heights(&rows, &widths, 4, true), vec![2, 1, 3]);
    assert_eq!(drawn_row_heights(&rows, &widths, 3, false), vec![1, 1, 1]);
    assert_eq!(drawn_row_heights(&rows, &widths, 0, true), Vec::<usize>::new());
}

#[test]
fn column_count_is_at_least_one() {
    assert_eq!(visible_column_count(None, 80, 0, 0, None), 1);
    let widths = [10u16, 10, 10];
    assert_eq!(visible_column_count(Some(&widths[..]), 80, 0, 4, None), 3);
    assert_eq!(visible_column_count(Some(&widths[..]), 80, 0, 4, Some(&[true, true, true][..])), 1);
}

#[test]
fn buffer_row_inside_and_outside() {
    assert_eq!(buffer_row(105, 100, 10), Some(5));
    assert_eq!(buffer_row(100, 100, 10), Some(0));
    assert_eq!(buffer_row(110, 100, 10), None);
    assert_eq!(buffer_row(99, 100, 10), None);
    assert_eq!(buffer_row(0, 0, 0), None);
}
