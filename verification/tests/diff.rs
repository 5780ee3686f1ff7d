use graze::diff_sql::{
    cell_preview, changed_cells, compare_ticks, diff_cell_look, diff_header, marker_prefix, DiffCellLook, counts_message, diff_layout, diff_table_statement, display_column_indices,
    fetch_rows_sql, first_page_rows, load_sql_for_path, marker_of, scan_markers, schema_probe_sql,
};
use graze::handlers::keys::Key;
use graze::state::diff::{diff_key, loading_quits, setup_command, DiffKey, SetupCommand};
use graze::state::{DiffCounts, DiffMarker};

fn strings(v: &[&str]) -> Vec<String> {
    v.iter().map(|s| s.to_string()).collect()
}

#[test]
fn load_statements_by_extension() {
    assert_eq!(
        load_sql_for_path("CSV", "/d/a.csv", "table_a"),
        Ok("CREATE TABLE table_a AS SELECT * FROM read_csv_auto('/d/a.csv')".to_string())
    );
    assert_eq!(
        load_sql_for_path("parquet", "x.parquet", "t"),
        Ok("CREATE TABLE t AS SELECT * FROM read_parquet('x.parquet')".to_string())
    );
    assert_eq!(
        load_sql_for_path("ndjson", "x", "t"),
        Ok("CREATE TABLE t AS SELECT * FROM read_json_auto('x')".to_string())
    );
    assert_eq!(load_sql_for_path("XLSX", "x", "t"), Err("Unsupported file extension: .xlsx".to_string()));
    assert_eq!(load_sql_for_path("", "x", "t"), Err("Unsupported file extension: .".to_string()));
    assert_eq!(
        schema_probe_sql("tsv", "/d/b.tsv"),
        Ok("SELECT * FROM read_csv_auto('/d/b.tsv') LIMIT 0".to_string())
    );
}

#[test]
fn diff_statement_text() {
    let sql = diff_table_statement(&strings(&["id", "v"]), &strings(&["id"]), &strings(&["v"]));
    assert_eq!(
        sql,
        "CREATE TABLE diff_result AS SELECT ROW_NUMBER() OVER () - 1 AS _rownum, \
COALESCE(a.\"id\"::VARCHAR, b.\"id\"::VARCHAR) AS \"id\", \
COALESCE(a.\"v\"::VARCHAR, b.\"v\"::VARCHAR) AS \"v\", \
b.\"v\" AS \"_b_v\", \
CASE WHEN a.\"id\" IS NULL THEN 'only_b' WHEN b.\"id\" IS NULL THEN 'only_a' \
WHEN a.\"v\"::VARCHAR IS DISTINCT FROM b.\"v\"::VARCHAR THEN 'changed' ELSE 'common' END AS _diff \
FROM table_a a FULL OUTER JOIN table_b b ON a.\"id\"::VARCHAR = b.\"id\"::VARCHAR \
ORDER BY COALESCE(a.\"id\"::VARCHAR, b.\"id\"::VARCHAR)"
    );
    let no_diff = diff_table_statement(&strings(&["k"]), &strings(&["k"]), &strings(&[]));
    assert!(no_diff.contains("WHEN FALSE THEN 'changed'"));
}

#[test]
fn layout_of_the_diff_table() {
    let names = strings(&["_rownum", "id", "v", "w", "_b_v", "_b_w", "_diff"]);
    assert_eq!(display_column_indices(&names), vec![1, 2, 3]);
    let l = diff_layout(&names, &strings(&["w", "v", "missing"]));
    assert_eq!(l.display_indices, vec![1, 2, 3]);
    assert_eq!(l.display_col_sql, "\"id\", \"v\", \"w\"");
    assert_eq!(l.b_side_col_sql, "\"_b_w\", \"_b_v\"");
    assert_eq!(l.b_col_pairs, vec![(2, 0), (1, 1)]);
    assert_eq!(l.b_side_col_map, vec![None, Some(1), Some(0)]);
    let none = diff_layout(&names, &strings(&[]));
    assert_eq!(none.b_side_col_sql, "");
    assert_eq!(none.b_side_col_map, vec![None, None, None]);
}

#[test]
fn markers_and_counts() {
    assert_eq!(marker_of(&Some("only_a".to_string())), DiffMarker::OnlyA);
    assert_eq!(marker_of(&None), DiffMarker::Common);
    let values = vec![
        Some("common".to_string()),
        Some("only_a".to_string()),
        None,
        Some("changed".to_string()),
        Some("only_b".to_string()),
        Some("odd".to_string()),
    ];
    let scan = scan_markers(&values);
    assert_eq!(
        scan.markers,
        vec![
            DiffMarker::Common,
            DiffMarker::OnlyA,
            DiffMarker::Common,
            DiffMarker::Changed,
            DiffMarker::OnlyB,
            DiffMarker::Common
        ]
    );
    assert_eq!(scan.counts, DiffCounts { only_a: 1, only_b: 1, common: 3, changed: 1 });
    assert_eq!(scan.changed_row_indices, vec![1, 3, 4]);
    assert_eq!(counts_message(&scan.counts), "+1 -1 ~1 =3");
}

#[test]
fn changed_cells_only_on_changed_rows() {
    let markers = vec![DiffMarker::Changed, DiffMarker::Common, DiffMarker::Changed];
    let pairs = vec![(1usize, 0usize)];
    let a = vec![
        vec![Some("1".to_string()), Some("x".to_string())],
        vec![Some("2".to_string()), Some("y".to_string())],
        vec![Some("3".to_string()), None],
    ];
    let b = vec![vec![Some("z".to_string())], vec![Some("q".to_string())], vec![None]];
    let cells = changed_cells(&vec![0, 1, 2], &markers, &pairs, 2, &a, &b);
    assert_eq!(cells, vec![vec![false, true], vec![false, false], vec![false, false]]);
    let b2 = vec![vec![Some("x".to_string())], vec![Some("q".to_string())], vec![Some("w".to_string())]];
    let cells2 = changed_cells(&vec![0, 1, 2], &markers, &pairs, 2, &a, &b2);
    assert_eq!(cells2, vec![vec![false, false], vec![false, false], vec![false, true]]);
}

#[test]
fn fetch_query_for_rows() {
    assert_eq!(fetch_rows_sql("\"a\"", "", &vec![]), None);
    assert_eq!(
        fetch_rows_sql("\"a\", \"b\"", "\"_b_b\"", &vec![3, 10]),
        Some("SELECT \"a\", \"b\", \"_b_b\" FROM diff_result WHERE _rownum IN (3, 10) ORDER BY _rownum".to_string())
    );
    assert_eq!(
        fetch_rows_sql("\"a\"", "", &vec![0]),
        Some("SELECT \"a\" FROM diff_result WHERE _rownum IN (0) ORDER BY _rownum".to_string())
    );
}

#[test]
fn compare_defaults_and_first_page() {
    assert_eq!(compare_ticks(&strings(&["id", "a", "b"]), &strings(&["id"])), vec![false, true, true]);
    assert_eq!(first_page_rows(3, 10), vec![0, 1, 2]);
    assert_eq!(first_page_rows(5, 2), vec![0, 1]);
}

#[test]
fn diff_view_keys() {
    assert_eq!(diff_key(Key::Char('q'), false), DiffKey::Quit);
    assert_eq!(diff_key(Key::Esc, false), DiffKey::Quit);
    assert_eq!(diff_key(Key::Char('c'), true), DiffKey::Quit);
    assert_eq!(diff_key(Key::Char('c'), false), DiffKey::ToggleCommon);
    assert_eq!(diff_key(Key::Char('j'), false), DiffKey::Down);
    assert_eq!(diff_key(Key::Down, false), DiffKey::Down);
    assert_eq!(diff_key(Key::Char('k'), false), DiffKey::Up);
    assert_eq!(diff_key(Key::Char('g'), false), DiffKey::Top);
    assert_eq!(diff_key(Key::Char('G'), false), DiffKey::Bottom);
    assert_eq!(diff_key(Key::Char('d'), true), DiffKey::HalfPageDown);
    assert_eq!(diff_key(Key::Char('d'), false), DiffKey::Other);
    assert_eq!(diff_key(Key::Char('u'), true), DiffKey::HalfPageUp);
    assert_eq!(diff_key(Key::Char('h'), false), DiffKey::Left);
    assert_eq!(diff_key(Key::Right, false), DiffKey::Right);
    assert_eq!(diff_key(Key::Char('n'), false), DiffKey::NextChange);
    assert_eq!(diff_key(Key::Char('N'), false), DiffKey::PrevChange);
    assert_eq!(diff_key(Key::Tab, false), DiffKey::Other);
}

#[test]
fn diff_setup_keys() {
    assert_eq!(setup_command(Key::Char('j'), false), SetupCommand::Down);
    assert_eq!(setup_command(Key::Up, false), SetupCommand::Up);
    assert_eq!(setup_command(Key::Char(' '), false), SetupCommand::Toggle);
    assert_eq!(setup_command(Key::Enter, false), SetupCommand::Confirm);
    assert_eq!(setup_command(Key::Esc, false), SetupCommand::Quit);
    assert_eq!(setup_command(Key::Char('c'), true), SetupCommand::Quit);
    assert_eq!(setup_command(Key::Char('c'), false), SetupCommand::Nothing);
    assert!(loading_quits(Key::Esc, false));
    assert!(loading_quits(Key::Char('c'), true));
    assert!(!loading_quits(Key::Char('c'), false));
    assert!(!loading_quits(Key::Char('q'), false));
}

#[test]
fn diff_row_prefixes() {
    assert_eq!(marker_prefix(DiffMarker::OnlyA), " + ");
    assert_eq!(marker_prefix(DiffMarker::OnlyB), " - ");
    assert_eq!(marker_prefix(DiffMarker::Changed), " ~ ");
    assert_eq!(marker_prefix(DiffMarker::Common), "   ");
}

#[test]
fn diff_cell_looks() {
    assert_eq!(diff_cell_look(DiffMarker::Common, true, false, true, false), DiffCellLook::Dim);
    assert_eq!(diff_cell_look(DiffMarker::Changed, true, false, true, true), DiffCellLook::Null);
    assert_eq!(diff_cell_look(DiffMarker::Common, false, true, true, true), DiffCellLook::Dim);
    assert_eq!(diff_cell_look(DiffMarker::Changed, false, true, false, true), DiffCellLook::Key);
    assert_eq!(diff_cell_look(DiffMarker::Changed, false, false, true, true), DiffCellLook::Changed);
    assert_eq!(diff_cell_look(DiffMarker::Changed, false, false, true, false), DiffCellLook::Plain);
    assert_eq!(diff_cell_look(DiffMarker::Changed, false, false, false, true), DiffCellLook::Dim);
    assert_eq!(diff_cell_look(DiffMarker::OnlyA, false, false, true, false), DiffCellLook::Added);
    assert_eq!(diff_cell_look(DiffMarker::OnlyB, false, false, true, false), DiffCellLook::Removed);
}

#[test]
fn diff_preview_and_header() {
    assert_eq!(cell_preview("price", Some("10"), Some("12")), "price: \"10\" \u{2192} \"12\"");
    assert_eq!(cell_preview("x", None, Some("a")), "x: \"NULL\" \u{2192} \"a\"");
    let c = DiffCounts { only_a: 1, only_b: 2, changed: 3, common: 4 };
    assert_eq!(diff_header("a.csv", "b.csv", &c, false), " Diff: a.csv vs b.csv | +1 -2 ~3 =4");
    assert_eq!(diff_header("a.csv", "b.csv", &c, true), " Diff: a.csv vs b.csv | +1 -2 ~3 =4 [changes only]");
}
