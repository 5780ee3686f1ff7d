use graze::state::{DiffCounts, SelectionMode};
use graze::status::{
    diff_badge, diff_hints, diff_status_segments, hints_x, stats_header, status_segments, DiffStage, SegmentKind,
    StatusInfo,
};

fn info() -> StatusInfo {
    StatusInfo {
        show_selection: true,
        selection_mode: SelectionMode::Column,
        file_name: Some("a.csv".to_string()),
        selected_row: 4,
        total_rows: 0,
        marked: 2,
        frozen_cols: 0,
        filter: Some("x > 1".to_string()),
        search: Some("bob".to_string()),
        search_pending: false,
        match_index: Some(1),
        match_count: Some(3),
        message: Some("hello".to_string()),
    }
}

#[test]
fn status_segments_in_order() {
    let segs = status_segments(&info());
    let texts: Vec<&str> = segs.iter().map(|s| s.text.as_str()).collect();
    assert_eq!(
        texts,
        vec![" COL ", " a.csv ", " 5/? ", " [2 marked] ", " [Filter: x > 1] ", " [Search: bob (1/3 matches)] ", " | hello "]
    );
    assert_eq!(segs[0].kind, SegmentKind::Selection);
    assert_eq!(segs[3].kind, SegmentKind::Marked);
    assert_eq!(segs[6].kind, SegmentKind::Message);
}

#[test]
fn status_segments_minimal() {
    let mut i = info();
    i.show_selection = false;
    i.file_name = None;
    i.total_rows = 10;
    i.marked = 0;
    i.frozen_cols = 3;
    i.filter = None;
    i.search_pending = true;
    i.message = None;
    let segs = status_segments(&i);
    let texts: Vec<&str> = segs.iter().map(|s| s.text.as_str()).collect();
    assert_eq!(texts, vec![" 5/10 ", " [FREEZE:3] ", " [Search: bob (searching...)] "]);
    i.search_pending = false;
    i.match_index = None;
    let segs = status_segments(&i);
    assert_eq!(segs[2].text, " [Search: bob (3 matches)] ");
}

#[test]
fn hints_placement() {
    assert_eq!(hints_x(0, 80, 20, 30), Some(59));
    assert_eq!(hints_x(0, 40, 20, 30), None);
}

#[test]
fn diff_status_text() {
    assert_eq!(diff_badge(DiffStage::PickKey), " KEY ");
    assert_eq!(diff_badge(DiffStage::Viewing), " DIFF ");
    assert_eq!(diff_hints(DiffStage::Loading), "Esc:cancel");
    assert_eq!(diff_hints(DiffStage::Quitting), "");
    let c = DiffCounts { only_a: 1, only_b: 2, common: 3, changed: 4 };
    let segs = diff_status_segments(DiffStage::Viewing, "a.csv", "b.csv", 0, 10, &c, Some("ok"));
    let texts: Vec<&str> = segs.iter().map(|s| s.text.as_str()).collect();
    assert_eq!(texts, vec![" a.csv vs b.csv ", " 1/10 ", " +1 -2 ~4 =3 ", " | ok "]);
    let segs = diff_status_segments(DiffStage::PickCols, "a", "b", 0, 0, &c, None);
    assert_eq!(segs.len(), 1);
    assert_eq!(stats_header(0, Some(5)), " Statistics | 1/5 | Esc ");
    assert_eq!(stats_header(0, Some(0)), " Statistics | Esc ");
    assert_eq!(stats_header(3, None), " Statistics | Esc ");
}
