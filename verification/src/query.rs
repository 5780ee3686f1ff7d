//! The SQL the explorer sends to its engine for one table: the base query
//! with the filter and sort order, pages of it, row counts, and the search
//! over every column.
use vstd::prelude::*;

use crate::event::{order_by_sql, SortState};
use crate::text::{decimal, join_strings, join_with, push_decimal, push_quoted, push_str, quoted, strings_view};

verus! {

/// `SELECT * FROM table` with the filter and the sort order, if any.
pub open spec fn base_query_spec(table: Seq<char>, filter: Option<Seq<char>>, sort: Seq<(Seq<char>, crate::event::SortOrder)>) -> Seq<char> {
    "SELECT * FROM "@ + table
        + (match filter { Some(f) => " WHERE "@ + f, None => Seq::empty() })
        + (if sort.len() > 0 { " ORDER BY "@ + order_by_sql(sort) } else { Seq::empty() })
}

/// The query that reads one page of the base query.
pub open spec fn page_query_spec(base: Seq<char>, limit: nat, offset: nat) -> Seq<char> {
    base + " LIMIT "@ + decimal(limit) + " OFFSET "@ + decimal(offset)
}

/// The query that reads a table's columns without rows.
pub open spec fn schema_query_spec(table: Seq<char>) -> Seq<char> {
    "SELECT * FROM "@ + table + " LIMIT 0"@
}

/// The query that counts a table's rows, under a filter if any.
pub open spec fn count_query_spec(table: Seq<char>, filter: Option<Seq<char>>) -> Seq<char> {
    "SELECT COUNT(*) FROM "@ + table + (match filter { Some(f) => " WHERE "@ + f, None => Seq::empty() })
}

/// The character view of an optional string slice.
pub open spec fn opt_str(o: Option<&str>) -> Option<Seq<char>> {
    match o {
        Some(s) => Some(s@),
        None => None,
    }
}

/// The query that reads a table's columns without rows.
pub fn schema_query(table: &str) -> (r: String)
    ensures
        r@ == schema_query_spec(table@),
{
    let mut s = String::new();
    push_str(&mut s, "SELECT * FROM ");
    push_str(&mut s, table);
    push_str(&mut s, " LIMIT 0");
    assert(s@ =~= schema_query_spec(table@));
    s
}

/// The query that counts a table's rows, under a filter if any.
pub fn count_query(table: &str, filter: Option<&str>) -> (r: String)
    ensures
        r@ == count_query_spec(table@, opt_str(filter)),
{
    let mut s = String::new();
    push_str(&mut s, "SELECT COUNT(*) FROM ");
    push_str(&mut s, table);
    match filter {
        Some(f) => {
            push_str(&mut s, " WHERE ");
            push_str(&mut s, f);
        },
        None => {},
    }
    assert(s@ =~= count_query_spec(table@, opt_str(filter)));
    s
}

/// What the engine's view of one table holds: its name, the filter in
/// force and the sort order.
pub struct QueryState {
    pub table_name: String,
    pub sort_state: SortState,
    pub current_filter: Option<String>,
}

/// The character view of an optional string.
pub open spec fn opt_string(o: Option<String>) -> Option<Seq<char>> {
    match o {
        Some(s) => Some(s@),
        None => None,
    }
}

impl QueryState {
    /// A table with no filter and no sort order.
    pub fn new(table_name: &str) -> (r: Self)
        ensures
            r.table_name@ == table_name@,
            r.sort_state@.len() == 0,
            r.sort_state.wf(),
            r.current_filter is None,
    {
        QueryState { table_name: table_name.to_owned(), sort_state: SortState::default(), current_filter: None }
    }

    /// `SELECT * FROM table` with the filter and the sort order, if any.
    pub fn base_query(&self) -> (r: String)
        ensures
            r@ == base_query_spec(self.table_name@, opt_string(self.current_filter), self.sort_state@),
    {
        let mut s = String::new();
        push_str(&mut s, "SELECT * FROM ");
        push_str(&mut s, self.table_name.as_str());
        match &self.current_filter {
            Some(f) => {
                push_str(&mut s, " WHERE ");
                push_str(&mut s, f.as_str());
            },
            None => {},
        }
        match self.sort_state.to_sql() {
            Some(order) => {
                push_str(&mut s, " ORDER BY ");
                push_str(&mut s, order.as_str());
            },
            None => {},
        }
        assert(s@ =~= base_query_spec(self.table_name@, opt_string(self.current_filter), self.sort_state@));
        s
    }

    /// The query that reads `limit` rows of the base query from row `offset` on.
    pub fn page_query(&self, offset: usize, limit: usize) -> (r: String)
        ensures
            r@ == page_query_spec(base_query_spec(self.table_name@, opt_string(self.current_filter), self.sort_state@),
                limit as nat, offset as nat),
    {
        let mut s = self.base_query();
        push_str(&mut s, " LIMIT ");
        push_decimal(&mut s, limit);
        push_str(&mut s, " OFFSET ");
        push_decimal(&mut s, offset);
        s
    }

    /// The query that counts the rows under the filter in force.
    pub fn count_query(&self) -> (r: String)
        ensures
            r@ == count_query_spec(self.table_name@, opt_string(self.current_filter)),
    {
        match &self.current_filter {
            Some(f) => count_query(self.table_name.as_str(), Some(f.as_str())),
            None => count_query(self.table_name.as_str(), None),
        }
    }
}

/// Which rows of a cached result a page covers: `None` (an empty page)
/// from the end on, else the offset and the number of rows.
pub fn cached_page(offset: usize, limit: usize, total: usize) -> (r: Option<(usize, usize)>)
    ensures
        offset >= total ==> r is None,
        offset < total ==> r == Some((offset, if limit <= total - offset { limit } else { (total - offset) as usize })),
{
    if offset >= total {
        return None;
    }
    let rest = total - offset;
    Some((offset, if limit <= rest { limit } else { rest }))
}

/// The text with each single quote doubled, for use inside an SQL string.
pub open spec fn escape_quotes_spec(s: Seq<char>) -> Seq<char>
    decreases s.len(),
{
    if s.len() == 0 {
        Seq::empty()
    } else {
        escape_quotes_spec(s.drop_last()) + (if s.last() == '\'' { seq!['\'', '\''] } else { seq![s.last()] })
    }
}

/// Double each single quote.
pub fn escape_quotes(s: &str) -> (r: String)
    ensures
        r@ == escape_quotes_spec(s@),
{
    let cs = crate::text::chars_of(s);
    let mut out = String::new();
    let mut i: usize = 0;
    while i < cs.len()
        invariant
            i <= cs@.len(),
            cs@ == s@,
            out@ == escape_quotes_spec(s@.take(i as int)),
        decreases cs@.len() - i,
    {
        proof {
            assert(s@.take(i + 1).drop_last() =~= s@.take(i as int));
        }
        if cs[i] == '\'' {
            crate::text::push_char(&mut out, '\'');
            crate::text::push_char(&mut out, '\'');
        } else {
            crate::text::push_char(&mut out, cs[i]);
        }
        assert(out@ =~= escape_quotes_spec(s@.take(i + 1)));
        i += 1;
    }
    assert(s@.take(cs@.len() as int) =~= s@);
    out
}

/// The test of one column for the search term: a case-insensitive regular
/// expression match, or a case-insensitive substring match.
pub open spec fn column_test(col: Seq<char>, escaped: Seq<char>, is_regex: bool) -> Seq<char> {
    if is_regex {
        "regexp_matches("@ + quoted(col) + "::VARCHAR, '(?i)"@ + escaped + "')"@
    } else {
        quoted(col) + "::VARCHAR ILIKE '%"@ + escaped + "%'"@
    }
}

/// The condition that a row matches the search term in some column;
/// `None` when there are no columns.
pub open spec fn match_clause_spec(columns: Seq<Seq<char>>, term: Seq<char>, is_regex: bool) -> Option<Seq<char>> {
    if columns.len() == 0 {
        None
    } else {
        Some(join_with(columns.map_values(|c: Seq<char>| column_test(c, escape_quotes_spec(term), is_regex)), " OR "@))
    }
}

/// Build the search condition over every column.
pub fn match_clause(columns: &Vec<String>, term: &str, is_regex: bool) -> (r: Option<String>)
    ensures
        match match_clause_spec(strings_view(columns@), term@, is_regex) {
            Some(c) => r matches Some(s) && s@ == c,
            None => r is None,
        },
{
    if columns.len() == 0 {
        return None;
    }
    let escaped = escape_quotes(term);
    let ghost v = strings_view(columns@);
    let mut tests: Vec<String> = Vec::new();
    let mut i: usize = 0;
    while i < columns.len()
        invariant
            i <= columns@.len(),
            v == strings_view(columns@),
            escaped@ == escape_quotes_spec(term@),
            strings_view(tests@) == v.take(i as int).map_values(|c: Seq<char>| column_test(c, escape_quotes_spec(term@), is_regex)),
        decreases columns@.len() - i,
    {
        let mut t = String::new();
        if is_regex {
            push_str(&mut t, "regexp_matches(");
            push_quoted(&mut t, columns[i].as_str());
            push_str(&mut t, "::VARCHAR, '(?i)");
            push_str(&mut t, escaped.as_str());
            push_str(&mut t, "')");
        } else {
            push_quoted(&mut t, columns[i].as_str());
            push_str(&mut t, "::VARCHAR ILIKE '%");
            push_str(&mut t, escaped.as_str());
            push_str(&mut t, "%'");
        }
        assert(t@ =~= column_test(v[i as int], escape_quotes_spec(term@), is_regex));
        let ghost prev = strings_view(tests@);
        tests.push(t);
        assert(strings_view(tests@) =~= prev.push(t@));
        assert(v.take(i + 1).map_values(|c: Seq<char>| column_test(c, escape_quotes_spec(term@), is_regex))
            =~= v.take(i as int).map_values(|c: Seq<char>| column_test(c, escape_quotes_spec(term@), is_regex)).push(
                column_test(v[i as int], escape_quotes_spec(term@), is_regex)));
        i += 1;
    }
    assert(v.take(columns@.len() as int) =~= v);
    Some(join_strings(&tests, " OR "))
}

/// The query that lists, in order, the rows of the base query that match.
pub open spec fn match_rows_query_spec(base: Seq<char>, clause: Seq<char>) -> Seq<char> {
    "WITH numbered AS (SELECT *, ROW_NUMBER() OVER () - 1 AS _rn FROM ("@ + base
        + ")) SELECT _rn FROM numbered WHERE ("@ + clause + ") ORDER BY _rn ASC"@
}

/// Build the query that lists the matching rows.
pub fn match_rows_query(base: &str, clause: &str) -> (r: String)
    ensures
        r@ == match_rows_query_spec(base@, clause@),
{
    let mut s = String::new();
    push_str(&mut s, "WITH numbered AS (SELECT *, ROW_NUMBER() OVER () - 1 AS _rn FROM (");
    push_str(&mut s, base);
    push_str(&mut s, ")) SELECT _rn FROM numbered WHERE (");
    push_str(&mut s, clause);
    push_str(&mut s, ") ORDER BY _rn ASC");
    assert(s@ =~= match_rows_query_spec(base@, clause@));
    s
}

/// The column types of a query result, as far as a table made for it needs.
#[derive(Debug, Clone, Copy, PartialEq, Eq, Structural)]
pub enum ColumnType {
    Boolean,
    Int8,
    Int16,
    Int32,
    Int64,
    UInt8,
    UInt16,
    UInt32,
    UInt64,
    Float32,
    Float64,
    Text,
    Date,
    Timestamp,
    Other,
}

/// The engine's name of a column type (anything else is stored as text).
pub open spec fn sql_type_spec(t: ColumnType) -> Seq<char> {
    match t {
        ColumnType::Boolean => "BOOLEAN"@,
        ColumnType::Int8 => "TINYINT"@,
        ColumnType::Int16 => "SMALLINT"@,
        ColumnType::Int32 => "INTEGER"@,
        ColumnType::Int64 => "BIGINT"@,
        ColumnType::UInt8 => "UTINYINT"@,
        ColumnType::UInt16 => "USMALLINT"@,
        ColumnType::UInt32 => "UINTEGER"@,
        ColumnType::UInt64 => "UBIGINT"@,
        ColumnType::Float32 => "FLOAT"@,
        ColumnType::Float64 => "DOUBLE"@,
        ColumnType::Text => "VARCHAR"@,
        ColumnType::Date => "DATE"@,
        ColumnType::Timestamp => "TIMESTAMP"@,
        ColumnType::Other => "VARCHAR"@,
    }
}

/// The engine's name of a column type.
pub fn sql_type_name(t: ColumnType) -> (r: &'static str)
    ensures
        r@ == sql_type_spec(t),
{
    match t {
        ColumnType::Boolean => "BOOLEAN",
        ColumnType::Int8 => "TINYINT",
        ColumnType::Int16 => "SMALLINT",
        ColumnType::Int32 => "INTEGER",
        ColumnType::Int64 => "BIGINT",
        ColumnType::UInt8 => "UTINYINT",
        ColumnType::UInt16 => "USMALLINT",
        ColumnType::UInt32 => "UINTEGER",
        ColumnType::UInt64 => "UBIGINT",
        ColumnType::Float32 => "FLOAT",
        ColumnType::Float64 => "DOUBLE",
        ColumnType::Text => "VARCHAR",
        ColumnType::Date => "DATE",
        ColumnType::Timestamp => "TIMESTAMP",
        ColumnType::Other => "VARCHAR",
    }
}

/// One column's definition: its quoted name and its type.
pub open spec fn column_def(name: Seq<char>, t: ColumnType) -> Seq<char> {
    quoted(name) + seq![' '] + sql_type_spec(t)
}

/// The statement that creates an empty table with these columns.
pub open spec fn create_table_spec(table: Seq<char>, names: Seq<Seq<char>>, types: Seq<ColumnType>) -> Seq<char> {
    "CREATE TABLE "@ + table + " ("@
        + join_with(Seq::new(names.len(), |i: int| column_def(names[i], types[i])), ", "@) + seq![')']
}

/// Build the statement that creates a table for a query result's columns.
pub fn create_table_sql(table: &str, names: &Vec<String>, types: &Vec<ColumnType>) -> (r: String)
    requires
        names@.len() == types@.len(),
    ensures
        r@ == create_table_spec(table@, strings_view(names@), types@),
{
    let ghost v = strings_view(names@);
    let mut defs: Vec<String> = Vec::new();
    let mut i: usize = 0;
    while i < names.len()
        invariant
            i <= names@.len(),
            names@.len() == types@.len(),
            v == strings_view(names@),
            strings_view(defs@) == Seq::new(i as nat, |k: int| column_def(v[k], types@[k])),
        decreases names@.len() - i,
    {
        let mut d = String::new();
        push_quoted(&mut d, names[i].as_str());
        push_str(&mut d, " ");
        push_str(&mut d, sql_type_name(types[i]));
        proof { reveal_strlit(" "); }
        assert(d@ =~= column_def(v[i as int], types@[i as int]));
        let ghost prev = strings_view(defs@);
        defs.push(d);
        assert(strings_view(defs@) =~= prev.push(d@));
        assert(strings_view(defs@) =~= Seq::new((i + 1) as nat, |k: int| column_def(v[k], types@[k])));
        i += 1;
    }
    let mut s = String::new();
    push_str(&mut s, "CREATE TABLE ");
    push_str(&mut s, table);
    push_str(&mut s, " (");
    push_str(&mut s, join_strings(&defs, ", ").as_str());
    push_str(&mut s, ")");
    proof { reveal_strlit(")"); }
    assert(s@ =~= create_table_spec(table@, v, types@));
    s
}

/// Law: the sort order is applied whether or not a filter is set. Without a
/// sort the base query is the table, restricted by ` WHERE ` and the filter
/// when there is one; a non-empty sort appends ` ORDER BY ` and its order to
/// exactly that query.
pub proof fn law_sort_with_or_without_filter(
    table: Seq<char>,
    filter: Option<Seq<char>>,
    sort: Seq<(Seq<char>, crate::event::SortOrder)>,
)
    ensures
        base_query_spec(table, filter, Seq::empty()) == match filter {
            Some(f) => "SELECT * FROM "@ + table + " WHERE "@ + f,
            None => "SELECT * FROM "@ + table,
        },
        sort.len() > 0 ==> base_query_spec(table, filter, sort)
            == base_query_spec(table, filter, Seq::empty()) + " ORDER BY "@ + order_by_sql(sort),
        sort.len() == 0 ==> base_query_spec(table, filter, sort) == base_query_spec(table, filter, Seq::empty()),
{
    let head = "SELECT * FROM "@ + table;
    let empty = Seq::<char>::empty();
    match filter {
        Some(f) => {
            assert(head + (" WHERE "@ + f) + empty =~= head + " WHERE "@ + f);
            assert(head + (" WHERE "@ + f) + (" ORDER BY "@ + order_by_sql(sort))
                =~= head + " WHERE "@ + f + " ORDER BY "@ + order_by_sql(sort));
        },
        None => {
            assert(head + empty + empty =~= head);
            assert(head + empty + (" ORDER BY "@ + order_by_sql(sort)) =~= head + " ORDER BY "@ + order_by_sql(sort));
        },
    }
}

/// Law: the search condition is met by a row when the term matches in any
/// column, for a regular expression as for a substring. One column gives
/// that column's test alone, and each further column adds its test after
/// ` OR `.
pub proof fn law_search_matches_any_column(columns: Seq<Seq<char>>, c: Seq<char>, term: Seq<char>, is_regex: bool)
    ensures
        match_clause_spec(seq![c], term, is_regex) == Some(column_test(c, escape_quotes_spec(term), is_regex)),
        columns.len() > 0 ==> match_clause_spec(columns.push(c), term, is_regex) == Some(
            match_clause_spec(columns, term, is_regex).unwrap() + " OR "@ + column_test(c, escape_quotes_spec(term), is_regex)),
        match_clause_spec(Seq::empty(), term, is_regex) is None,
{
    let e = escape_quotes_spec(term);
    let f = |x: Seq<char>| column_test(x, e, is_regex);
    assert(seq![c].map_values(f) =~= seq![f(c)]);
    assert(columns.push(c).map_values(f) =~= columns.map_values(f).push(f(c)));
    if columns.len() > 0 {
        assert(columns.map_values(f).push(f(c)).drop_last() =~= columns.map_values(f));
    }
}

} // verus!
