use graze::event::SortState;
use graze::query::{
    cached_page, count_query, create_table_sql, escape_quotes, match_clause, match_rows_query, schema_query,
    sql_type_name, ColumnType, QueryState,
};
use graze::search::{matching_rows, SearchMatcher};

#[test]
fn base_and_page_queries() {
    let mut q = QueryState::new("data");
    assert_eq!(q.base_query(), "SELECT * FROM data");
    q.current_filter = Some("age > 60".to_string());
    let mut s = SortState::default();
    s.toggle("age");
    q.sort_state = s;
    assert_eq!(q.base_query(), "SELECT * FROM data WHERE age > 60 ORDER BY \"age\" ASC");
    assert_eq!(q.page_query(50, 10), "SELECT * FROM data WHERE age > 60 ORDER BY \"age\" ASC LIMIT 10 OFFSET 50");
    assert_eq!(q.count_query(), "SELECT COUNT(*) FROM data WHERE age > 60");
    assert_eq!(count_query("t", None), "SELECT COUNT(*) FROM t");
    assert_eq!(schema_query("t"), "SELECT * FROM t LIMIT 0");
}

#[test]
fn pages_of_a_cached_result() {
    assert_eq!(cached_page(0, 50, 100_000), Some((0, 50)));
    assert_eq!(cached_page(99_990, 100, 100_000), Some((99_990, 10)));
    assert_eq!(cached_page(200_000, 50, 100_000), None);
    assert_eq!(cached_page(100_000, 1, 100_000), None);
}

#[test]
fn search_conditions() {
    assert_eq!(escape_quotes("it's"), "it''s");
    let cols = vec!["a".to_string(), "b c".to_string()];
    assert_eq!(
        match_clause(&cols, "o'k", false),
        Some("\"a\"::VARCHAR ILIKE '%o''k%' OR \"b c\"::VARCHAR ILIKE '%o''k%'".to_string())
    );
    assert_eq!(
        match_clause(&vec!["a".to_string()], "^x", true),
        Some("regexp_matches(\"a\"::VARCHAR, '(?i)^x')".to_string())
    );
    assert_eq!(match_clause(&Vec::new(), "x", true), None);
    assert_eq!(
        match_rows_query("SELECT * FROM t", "c"),
        "WITH numbered AS (SELECT *, ROW_NUMBER() OVER () - 1 AS _rn FROM (SELECT * FROM t)) SELECT _rn FROM numbered WHERE (c) ORDER BY _rn ASC"
    );
}

#[test]
fn regex_search_terms() {
    assert!(SearchMatcher::new("(").is_none());
    let m = SearchMatcher::new("os").unwrap();
    assert!(m.is_match("OSLO"));
    assert!(!m.is_match("Bergen"));
    let m2 = SearchMatcher::new("^b.r").unwrap();
    assert!(m2.is_match("Bergen"));
    let rows = vec![
        vec!["1".to_string(), "Oslo".to_string()],
        vec!["2".to_string(), "Bergen".to_string()],
        vec![],
        vec!["3".to_string(), "Los Angeles".to_string()],
    ];
    assert_eq!(matching_rows(&m, &rows), vec![0, 3]);
}

#[test]
fn table_for_query_result() {
    let names = vec!["id".to_string(), "full name".to_string(), "t".to_string()];
    let types = vec![ColumnType::Int64, ColumnType::Text, ColumnType::Other];
    assert_eq!(
        create_table_sql("query_data", &names, &types),
        "CREATE TABLE query_data (\"id\" BIGINT, \"full name\" VARCHAR, \"t\" VARCHAR)"
    );
    assert_eq!(create_table_sql("t", &Vec::new(), &Vec::new()), "CREATE TABLE t ()");
    assert_eq!(sql_type_name(ColumnType::UInt16), "USMALLINT");
    assert_eq!(sql_type_name(ColumnType::Timestamp), "TIMESTAMP");
}
