use graze::layout::{
    apply_width_mins, column_width, frozen_separator_x, row_height, rows_rendered,
    gutter_width, truncate_to_width, visible_columns, visible_columns_with_freeze, wrap_lines,
    DEFAULT_MAX_COL_WIDTH, ROW_PREFIX_WIDTH,
};

#[test]
fn gutter_is_digits_plus_one() {
    assert_eq!(gutter_width(0), 2);
    assert_eq!(gutter_width(1), 2);
    assert_eq!(gutter_width(9), 2);
    assert_eq!(gutter_width(10), 3);
    assert_eq!(gutter_width(99_999), 6);
    assert_eq!(gutter_width(100_000), 7);
    assert_eq!(gutter_width(usize::MAX), 21);
}

#[test]
fn layout_constants() {
    assert_eq!(DEFAULT_MAX_COL_WIDTH, 50);
    assert_eq!(ROW_PREFIX_WIDTH, 3);
}

#[test]
fn columns_that_fit() {
    let widths = [10u16, 10, 10, 10];
    // margin 5, each column takes 12
    assert_eq!(visible_columns(&widths, 41, 0, 5, None), vec![0, 1, 2]);
    assert_eq!(visible_columns(&widths, 41, 2, 5, None), vec![2, 3]);
    assert_eq!(visible_columns(&widths, 10, 0, 5, None), vec![0]);
    let hidden = [false, true, false, false];
    assert_eq!(visible_columns(&widths, 41, 0, 5, Some(&hidden)), vec![0, 2, 3]);
    assert_eq!(visible_columns(&[], 41, 0, 5, None), Vec::<usize>::new());
}

#[test]
fn frozen_columns_come_first() {
    let widths = [4u16, 4, 4, 4, 4, 4];
    // each column takes 6
    assert_eq!(visible_columns_with_freeze(&widths, 30, 3, 0, None, 1), vec![0, 3, 4, 5]);
    assert_eq!(visible_columns_with_freeze(&widths, 30, 0, 0, None, 2), vec![0, 1, 2, 3, 4]);
    assert_eq!(visible_columns_with_freeze(&widths, 8, 4, 0, None, 3), vec![0]);
}

#[test]
fn wrapping_by_display_width() {
    assert_eq!(wrap_lines("abcdef", 4), vec!["abcd".to_string(), "ef".to_string()]);
    assert_eq!(wrap_lines("abc", 0), vec!["abc".to_string()]);
    assert_eq!(wrap_lines("", 3), vec![String::new()]);
    assert_eq!(wrap_lines("日本語", 4), vec!["日本".to_string(), "語".to_string()]);
    assert_eq!(wrap_lines("日本", 1), vec!["日".to_string(), "本".to_string()]);
}

#[test]
fn truncating_and_padding() {
    assert_eq!(truncate_to_width("abc", 5), "abc  ");
    assert_eq!(truncate_to_width("abcdef", 4), "abc\u{2026}");
    assert_eq!(truncate_to_width("abcdef", 0), "\u{2026}");
    assert_eq!(truncate_to_width("日本語", 4), "日\u{2026}");
    assert_eq!(truncate_to_width("日本", 4), "日本  ");
}

#[test]
fn column_width_takes_widest_and_clamps() {
    let vals = vec!["ab".to_string(), "abcdef".to_string()];
    assert_eq!(column_width("id", &vals, 50), 6);
    assert_eq!(column_width("a_long_header", &vals, 50), 13);
    assert_eq!(column_width("x", &vec!["y".to_string()], 50), 4);
    assert_eq!(column_width("x", &vec!["y".repeat(80)], 50), 50);
    assert_eq!(column_width("", &Vec::new(), 50), 4);
    // wide characters count two columns each
    assert_eq!(column_width("h", &vec!["日本語".to_string()], 50), 6);
}

#[test]
fn width_minimums_raise_and_clamp() {
    let mut w = vec![5u16, 10, 20];
    apply_width_mins(&mut w, &[(0, 8), (1, 3), (2, 90), (7, 30)], 40);
    assert_eq!(w, vec![8, 10, 40]);
}

#[test]
fn frozen_separator_position() {
    let widths = [4u16, 6, 8];
    assert_eq!(frozen_separator_x(5, &vec![0, 1, 2], &widths, 0), None);
    // one frozen column: 5 + 4 + 2 = 11, separator one to the left
    assert_eq!(frozen_separator_x(5, &vec![0, 1, 2], &widths, 1), Some(10));
    assert_eq!(frozen_separator_x(5, &vec![0, 1, 2], &widths, 2), Some(18));
    // a frozen column that is hidden leaves the separator at the margin
    assert_eq!(frozen_separator_x(5, &vec![2], &widths, 1), Some(4));
    assert_eq!(frozen_separator_x(0, &vec![2], &widths, 1), Some(0));
}

#[test]
fn wrapped_row_height() {
    let cells = vec!["abcdefghij".to_string(), "xy".to_string()];
    assert_eq!(row_height(&cells, &vec![4, 4]), 3);
    assert_eq!(row_height(&cells, &vec![20, 4]), 1);
    assert_eq!(row_height(&Vec::new(), &Vec::new()), 1);
}

#[test]
fn rows_that_start_on_screen() {
    assert_eq!(rows_rendered(&vec![1, 1, 1, 1], 2), 2);
    assert_eq!(rows_rendered(&vec![3, 3, 3], 5), 2);
    assert_eq!(rows_rendered(&vec![3, 3], 10), 2);
    assert_eq!(rows_rendered(&vec![2, 2], 0), 0);
}
