use graze::handlers::keys::Key;
use graze::handlers::normal::{apply_normal, normal_command, toggle_mark, NormalCommand, NormalEffect, TabView};
use graze::state::{
    first_visible_col, next_visible_col, ColWidthCache, ColumnJumpState, ColumnPickerState, SearchState, SelectionMode,
    Viewport,
};

#[test]
fn viewport_scrolls_to_show_selection() {
    let mut v = Viewport::new();
    v.page_size = 10;
    v.move_cursor_down(25, 100);
    assert_eq!(v.selected_row, 25);
    assert_eq!(v.view_start, 16);
    v.move_cursor_down(500, 100);
    assert_eq!(v.selected_row, 99);
    assert_eq!(v.view_start, 90);
    v.move_cursor_up(95);
    assert_eq!(v.selected_row, 4);
    assert_eq!(v.view_start, 4);
    v.move_cursor_up(10);
    assert_eq!(v.selected_row, 0);
    assert_eq!(v.selected_row_in_view(), 0);
}

#[test]
fn viewport_unknown_total_moves_freely() {
    let mut v = Viewport::new();
    v.move_cursor_down(1000, 0);
    assert_eq!(v.selected_row, 1000);
    assert_eq!(v.view_start, 951);
}

#[test]
fn column_view_follows_selection() {
    let mut v = Viewport::new();
    v.selected_col = 7;
    v.adjust_column_view_with(3);
    assert_eq!(v.column_offset, 5);
    v.selected_col = 2;
    v.adjust_column_view_with(3);
    assert_eq!(v.column_offset, 2);
}

#[test]
fn search_matches_wrap() {
    let mut s = SearchState::new();
    s.match_rows = vec![3, 8, 20];
    assert_eq!(s.next_match(8), Some((2, 20)));
    assert_eq!(s.next_match(20), Some((0, 3)));
    assert_eq!(s.prev_match(8), Some((0, 3)));
    assert_eq!(s.prev_match(3), Some((2, 20)));
    let empty = SearchState::new();
    assert_eq!(empty.next_match(0), None);
}

#[test]
fn next_then_prev_returns_to_match() {
    let mut s = SearchState::new();
    s.match_rows = vec![1, 4, 9];
    for &r in &[1usize, 4, 9] {
        let (_, n) = s.next_match(r).unwrap();
        let (_, p) = s.prev_match(n).unwrap();
        assert_eq!(p, r);
    }
}

#[test]
fn visible_column_steps() {
    let hidden = vec![false, true, true, false, false];
    assert_eq!(next_visible_col(0, 1, &hidden, 4), 3);
    assert_eq!(next_visible_col(3, -1, &hidden, 4), 0);
    assert_eq!(next_visible_col(4, 1, &hidden, 4), 4);
    assert_eq!(next_visible_col(0, -1, &hidden, 4), 0);
    assert_eq!(first_visible_col(&[true, true, false], 2), 2);
    assert_eq!(first_visible_col(&[true, true], 1), 0);
    assert_eq!(first_visible_col(&[], 3), 0);
}

#[test]
fn normal_key_mapping() {
    assert_eq!(normal_command(Key::Char('q'), true), NormalCommand::Quit);
    assert_eq!(normal_command(Key::Char('c'), true), NormalCommand::Quit);
    assert_eq!(normal_command(Key::Char('c'), false), NormalCommand::Nothing);
    assert_eq!(normal_command(Key::Char('d'), true), NormalCommand::HalfPageDown);
    assert_eq!(normal_command(Key::Char('f'), true), NormalCommand::ColumnJump);
    assert_eq!(normal_command(Key::Char('f'), false), NormalCommand::ColumnFilter);
    assert_eq!(normal_command(Key::Char('j'), true), NormalCommand::Down);
    assert_eq!(normal_command(Key::Tab, false), NormalCommand::ToggleSelectionMode);
    assert_eq!(normal_command(Key::PageUp, false), NormalCommand::PageUp);
    assert_eq!(normal_command(Key::Home, false), NormalCommand::Nothing);
}

fn sample_tab() -> TabView {
    let mut t = TabView::new();
    t.total_rows = 100;
    t.viewport.page_size = 10;
    t.field_names = Some(vec!["id".to_string(), "name".to_string(), "age".to_string()]);
    t.hidden_columns = vec![false, false, false];
    t
}

#[test]
fn normal_moves_and_marks() {
    let mut t = sample_tab();
    let r = apply_normal(&mut t, NormalCommand::PageDown, false, false);
    assert!(matches!(r.effect, NormalEffect::EnsureBuffer));
    assert_eq!(t.viewport.selected_row, 10);
    assert_eq!(t.viewport.view_start, 1);
    apply_normal(&mut t, NormalCommand::Bottom, false, false);
    assert_eq!(t.viewport.selected_row, 99);
    let r = apply_normal(&mut t, NormalCommand::ToggleMark, false, false);
    assert_eq!(r.status.as_deref(), Some("Marked row 100 (1 marked)"));
    apply_normal(&mut t, NormalCommand::Top, false, false);
    let r = apply_normal(&mut t, NormalCommand::ToggleMark, false, false);
    assert_eq!(r.status.as_deref(), Some("Marked row 1 (2 marked)"));
    assert_eq!(t.marked_rows, vec![0, 99]);
    let r = apply_normal(&mut t, NormalCommand::NextMark, false, false);
    assert_eq!(r.status.as_deref(), Some("Mark 2/2"));
    assert_eq!(t.viewport.selected_row, 99);
    let r = apply_normal(&mut t, NormalCommand::NextMark, false, false);
    assert_eq!(r.status.as_deref(), Some("Mark 1/2 (wrapped)"));
    assert_eq!(t.viewport.selected_row, 0);
    let r = apply_normal(&mut t, NormalCommand::ToggleMark, false, false);
    assert_eq!(r.status.as_deref(), Some("Unmarked row 1 (1 marked)"));
    let r = apply_normal(&mut t, NormalCommand::ClearMarks, false, false);
    assert_eq!(r.status.as_deref(), Some("Cleared 1 mark(s)"));
    let r = apply_normal(&mut t, NormalCommand::ClearMarks, false, false);
    assert_eq!(r.status.as_deref(), Some("No marks to clear"));
    let r = apply_normal(&mut t, NormalCommand::PrevMark, false, false);
    assert_eq!(r.status.as_deref(), Some("No marks"));
}

#[test]
fn normal_columns_sort_and_freeze() {
    let mut t = sample_tab();
    apply_normal(&mut t, NormalCommand::Right, false, false);
    assert_eq!(t.viewport.column_offset, 1);
    let r = apply_normal(&mut t, NormalCommand::ToggleFreeze, false, false);
    assert_eq!(r.status.as_deref(), Some("Froze 1 column(s)"));
    let r = apply_normal(&mut t, NormalCommand::ToggleFreeze, false, false);
    assert_eq!(r.status.as_deref(), Some("Columns unfrozen"));
    apply_normal(&mut t, NormalCommand::ToggleSelectionMode, false, false);
    assert_eq!(t.viewport.selection_mode, SelectionMode::Column);
    assert_eq!(t.viewport.selected_col, 1);
    let r = apply_normal(&mut t, NormalCommand::CycleSort, false, false);
    assert_eq!(r.status.as_deref(), Some("Sort: name asc"));
    assert!(matches!(r.effect, NormalEffect::ApplySort(_)));
    let r = apply_normal(&mut t, NormalCommand::CycleSort, false, false);
    assert_eq!(r.status.as_deref(), Some("Sort: name desc"));
    let r = apply_normal(&mut t, NormalCommand::CycleSort, false, false);
    assert_eq!(r.status.as_deref(), Some("Sort cleared: name"));
    let r = apply_normal(&mut t, NormalCommand::Right, false, false);
    assert!(matches!(r.effect, NormalEffect::AdjustColumnView));
    assert_eq!(t.viewport.selected_col, 2);
    let r = apply_normal(&mut t, NormalCommand::ColumnFilter, false, false);
    match r.effect {
        NormalEffect::StartFilter(text) => assert_eq!(text, "\"age\" = "),
        _ => panic!("expected the filter prompt"),
    }
}

#[test]
fn normal_escape_search_then_filter() {
    let mut t = sample_tab();
    t.search.active_search = Some("x".to_string());
    t.search.match_rows = vec![5];
    t.active_filter = Some("a = 1".to_string());
    let r = apply_normal(&mut t, NormalCommand::NextMatch, false, false);
    assert_eq!(r.status.as_deref(), Some("Match at row 6"));
    assert_eq!(t.search.match_index, Some(1));
    let r = apply_normal(&mut t, NormalCommand::NextMatch, false, false);
    assert_eq!(r.status.as_deref(), Some("Match at row 6 (wrapped)"));
    let r = apply_normal(&mut t, NormalCommand::Escape, false, false);
    assert_eq!(r.status.as_deref(), Some("Search cleared"));
    assert!(t.search.active_search.is_none());
    let r = apply_normal(&mut t, NormalCommand::Escape, false, false);
    assert!(matches!(r.effect, NormalEffect::ResetFilter));
    assert!(t.active_filter.is_none());
    let r = apply_normal(&mut t, NormalCommand::ToggleWrap, false, true);
    assert_eq!(r.status.as_deref(), Some("Wrap: off"));
    let r = apply_normal(&mut t, NormalCommand::NextTab, true, false);
    assert!(matches!(r.effect, NormalEffect::SwitchTab(1)));
    let r = apply_normal(&mut t, NormalCommand::ResetView, false, false);
    assert_eq!(r.status.as_deref(), Some("View reset"));
    assert_eq!(t.hidden_columns, vec![false, false, false]);
}

#[test]
fn mark_toggle_keeps_order() {
    let mut m = vec![2usize, 7];
    assert!(!toggle_mark(&mut m, 5));
    assert_eq!(m, vec![2, 5, 7]);
    assert!(toggle_mark(&mut m, 2));
    assert_eq!(m, vec![5, 7]);
}

#[test]
fn mark_toggled_twice_is_unchanged() {
    let start = vec![1usize, 4, 9];
    let mut m = start.clone();
    toggle_mark(&mut m, 6);
    toggle_mark(&mut m, 6);
    assert_eq!(m, start);
    toggle_mark(&mut m, 4);
    toggle_mark(&mut m, 4);
    assert_eq!(m, start);
}

#[test]
fn column_picker_and_jump() {
    let mut p = ColumnPickerState::new();
    p.populate(vec!["a".to_string(), "b".to_string()], vec![false, false]);
    p.move_down();
    p.move_down();
    p.toggle_at_cursor();
    assert_eq!(p.selected_names(), vec!["b".to_string()]);
    p.move_up();
    p.move_up();
    assert_eq!(p.cursor, 0);

    let mut j = ColumnJumpState::new();
    j.populate(vec![(0, "Name".to_string()), (1, "username".to_string()), (2, "age".to_string())]);
    assert_eq!(j.filtered, vec![0, 1, 2]);
    j.query = "NAM".to_string();
    j.refilter();
    assert_eq!(j.filtered, vec![0, 1]);
    j.move_down();
    assert_eq!(j.selected_col_idx(), Some(1));
    j.clear();
    assert_eq!(j.selected_col_idx(), None);
}

#[test]
fn width_cache_hits_only_same_page_and_sample() {
    let c = ColWidthCache {
        generation: 3,
        sample_start: 10,
        sample_end: 40,
        headers: vec!["a [int]".to_string()],
        col_widths: vec![7],
    };
    assert!(c.is_hit(3, 10, 40));
    assert!(!c.is_hit(4, 10, 40));
    assert!(!c.is_hit(3, 11, 40));
    assert!(!c.is_hit(3, 10, 41));
}
