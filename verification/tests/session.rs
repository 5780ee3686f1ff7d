use graze::handlers::mouse::{clicked_row, hit_test_column, hit_test_tab};
use graze::handlers::normal::TabView;
use graze::handlers::overlay::{confirm_hidden_columns, jump_to_column, stats_command, stats_scroll, StatsCommand};
use graze::handlers::keys::Key;
use graze::session::{
    csv_document, csv_field, fetch_window, is_invalid_filter_error, is_summarize, marked_buffer_rows,
    matches_message, needs_fetch, on_filter_result, page_size_for, refresh_search, spinner_char, summarize_sql,
    switch_tab_index, visible_row_count,
};
use graze::query::cached_page;
use graze::state::diff::{diff_page_size, page_covers};
use graze::state::DiffState;

#[test]
fn fetch_decisions() {
    // cursor outside the buffer
    assert!(needs_fetch(500, 0, 250, 1000, 50, true));
    // inside, but a fetch is under way
    assert!(!needs_fetch(10, 0, 250, 1000, 50, true));
    // near the end of the buffer with rows after it
    assert!(needs_fetch(210, 0, 250, 1000, 50, false));
    // comfortably inside
    assert!(!needs_fetch(100, 0, 250, 1000, 50, false));
    // near the start of a buffer that does not start at 0
    assert!(needs_fetch(110, 100, 250, 1000, 50, false));
    assert_eq!(fetch_window(1000, 50), (875, 250));
    assert_eq!(fetch_window(10, 50), (0, 250));
}

#[test]
fn page_sizes_and_tabs() {
    assert_eq!(page_size_for(40, false), 37);
    assert_eq!(page_size_for(40, true), 36);
    assert_eq!(page_size_for(2, false), 1);
    assert_eq!(switch_tab_index(0, 3, -1), 2);
    assert_eq!(switch_tab_index(2, 3, 1), 0);
    assert_eq!(switch_tab_index(1, 3, 7), 2);
    assert_eq!(switch_tab_index(1, 3, -8), 2);
    assert_eq!(switch_tab_index(0, 1, isize::MIN), 0);
    assert_eq!(diff_page_size(30), 27);
    assert_eq!(diff_page_size(1), 1);
}

#[test]
fn rows_in_view() {
    assert_eq!(visible_row_count(100, 50, Some(250), 40), 40);
    assert_eq!(visible_row_count(280, 50, Some(250), 40), 20);
    assert_eq!(visible_row_count(10, 50, Some(250), 40), 40);
    assert_eq!(visible_row_count(0, 0, None, 40), 0);
}

#[test]
fn engine_messages() {
    assert!(is_summarize("  summarize data"));
    assert!(!is_summarize("SELECT 1"));
    assert_eq!(summarize_sql(Some("t1")), "SUMMARIZE t1");
    assert_eq!(summarize_sql(None), "SUMMARIZE data");
    assert_eq!(matches_message(3), "3 matches found");
    assert_eq!(matches_message(0), "No matches found");
    assert!(is_invalid_filter_error("Invalid filter: x"));
    assert!(!is_invalid_filter_error("Error: Invalid filter"));
    assert_eq!(spinner_char(0), '\u{280b}');
    assert_eq!(spinner_char(13), '\u{2838}');
}

#[test]
fn filter_replies_and_search_refresh() {
    let mut t = TabView::new();
    t.viewport.selected_row = 30;
    t.viewport.view_start = 10;
    t.active_filter = Some("a = 1".to_string());
    on_filter_result(&mut t, 77, false);
    assert_eq!((t.total_rows, t.viewport.selected_row, t.viewport.view_start), (77, 0, 0));
    assert!(t.active_filter.is_some());
    on_filter_result(&mut t, 100, true);
    assert!(t.active_filter.is_none());
    assert_eq!(refresh_search(&mut t), None);
    t.search.active_search = Some("bob".to_string());
    t.search.match_rows = vec![1, 2];
    t.search.match_count = Some(2);
    assert_eq!(refresh_search(&mut t), Some("bob".to_string()));
    assert!(t.search.match_rows.is_empty());
    assert_eq!(t.search.match_count, None);
}

#[test]
fn csv_export() {
    assert_eq!(csv_field(Some("plain")), "plain");
    assert_eq!(csv_field(Some("a,b")), "\"a,b\"");
    assert_eq!(csv_field(Some("say \"hi\"")), "\"say \"\"hi\"\"\"");
    assert_eq!(csv_field(None), "");
    let doc = csv_document(
        &vec!["id".to_string(), "name".to_string()],
        &vec![vec![Some("1".to_string()), Some("x,y".to_string())], vec![Some("2".to_string()), None]],
    );
    assert_eq!(doc, "id,name\n1,\"x,y\"\n2,\n");
    assert_eq!(marked_buffer_rows(&vec![3, 10, 60, 300], 10, 100), vec![0, 50]);
}

#[test]
fn clicks() {
    let widths = [4u16, 6, 3];
    let cols = vec![0usize, 2];
    // columns start at x = 10: col 0 spans 10..16, col 2 spans 16..21
    assert_eq!(hit_test_column(&widths, &cols, 10, 9), None);
    assert_eq!(hit_test_column(&widths, &cols, 10, 10), Some(0));
    assert_eq!(hit_test_column(&widths, &cols, 10, 16), Some(2));
    assert_eq!(hit_test_column(&widths, &cols, 10, 21), None);
    assert_eq!(clicked_row(0, 5, 100), Some(5));
    assert_eq!(clicked_row(3, 5, 100), Some(7));
    assert_eq!(clicked_row(3, 98, 100), None);
    assert_eq!(clicked_row(3, 5, 0), None);
    // labels " a.csv " (7 wide) then a separator, then " b.csv "
    assert_eq!(hit_test_tab(&vec![5, 5], 0), Some(0));
    assert_eq!(hit_test_tab(&vec![5, 5], 7), None);
    assert_eq!(hit_test_tab(&vec![5, 5], 8), Some(1));
    assert_eq!(hit_test_tab(&vec![5, 5], 15), None);
}

#[test]
fn overlays() {
    assert_eq!(stats_command(Key::Char('d'), true), StatsCommand::HalfDown);
    assert_eq!(stats_command(Key::Char('d'), false), StatsCommand::Nothing);
    assert_eq!(stats_command(Key::Esc, false), StatsCommand::Close);
    assert_eq!(stats_scroll(StatsCommand::Down, 0, 30, 10), 1);
    assert_eq!(stats_scroll(StatsCommand::Bottom, 0, 30, 10), 20);
    assert_eq!(stats_scroll(StatsCommand::HalfDown, 18, 30, 10), 20);
    assert_eq!(stats_scroll(StatsCommand::HalfUp, 3, 30, 10), 0);
    assert_eq!(stats_scroll(StatsCommand::Down, 0, 0, 0), 0);
    assert_eq!(stats_scroll(StatsCommand::Up, 0, 30, 10), 0);

    let mut t = TabView::new();
    t.viewport.selected_col = 1;
    t.viewport.column_offset = 0;
    let msg = confirm_hidden_columns(&mut t, vec![true, true, false]);
    assert_eq!(msg, "2 column(s) hidden");
    assert_eq!((t.viewport.selected_col, t.viewport.column_offset), (2, 2));
    let msg = confirm_hidden_columns(&mut t, vec![false, false, false]);
    assert_eq!(msg, "All columns visible");
    let all = vec![(0usize, "id".to_string()), (4usize, "city".to_string())];
    assert_eq!(jump_to_column(&mut t, &all, 4), "Jumped to column: city");
    assert_eq!((t.viewport.selected_col, t.viewport.column_offset), (4, 4));
    assert_eq!(jump_to_column(&mut t, &all, 9), "Jumped to column: ");
}

#[test]
fn diff_pages() {
    let d = DiffState::new();
    assert_eq!(d.visible_row_count(), 0);
    assert!(page_covers(&vec![0, 1, 2, 3], &vec![1, 2]));
    assert!(!page_covers(&vec![0, 1], &vec![1, 2]));
    assert!(!page_covers(&vec![], &vec![1]));
}

#[test]
fn fetched_window_holds_the_cursor() {
    for &(center, page, total) in &[(0usize, 10usize, 1000usize), (37, 10, 1000), (995, 10, 1000), (500, 7, 520)] {
        let (off, limit) = fetch_window(center, page);
        let (start, len) = cached_page(off, limit, total).unwrap();
        assert_eq!(start, off);
        assert!(start <= center && center < start + len);
        assert!(!needs_fetch(center, start, len, total, page, false));
    }
}
