//! The SQL behind the diff of two files, and what is read back from it:
//! the row markers, the columns shown, and which cells changed.
use vstd::prelude::*;

use crate::event::str_eq;
use crate::state::diff::non_common;
use crate::state::{DiffCounts, DiffMarker};
use crate::text::{
    decimal, join_strings, join_with, push_decimal, push_quoted, push_str, quoted,
    strings_view, to_lower, unicode_lower,
};

verus! {

/// The engine function that reads a file with this (lower-case) extension.
pub open spec fn read_function(ext: Seq<char>) -> Option<Seq<char>> {
    if ext == "csv"@ || ext == "tsv"@ {
        Some("read_csv_auto"@)
    } else if ext == "parquet"@ {
        Some("read_parquet"@)
    } else if ext == "json"@ || ext == "jsonl"@ || ext == "ndjson"@ {
        Some("read_json_auto"@)
    } else {
        None
    }
}

/// The engine function that reads a file with extension `extension` (empty
/// when it has none), matched without regard to case; an error for an
/// extension the engine cannot read.
pub fn reader_for(extension: &str) -> (r: Result<&'static str, String>)
    ensures
        match read_function(unicode_lower(extension@)) {
            Some(f) => r matches Ok(g) && g@ == f,
            None => r matches Err(e) && e@ == "Unsupported file extension: ."@ + unicode_lower(extension@),
        },
{
    let ext = to_lower(extension);
    let e = ext.as_str();
    if str_eq(e, "csv") || str_eq(e, "tsv") {
        Ok("read_csv_auto")
    } else if str_eq(e, "parquet") {
        Ok("read_parquet")
    } else if str_eq(e, "json") || str_eq(e, "jsonl") || str_eq(e, "ndjson") {
        Ok("read_json_auto")
    } else {
        let mut m = String::new();
        push_str(&mut m, "Unsupported file extension: .");
        push_str(&mut m, e);
        Err(m)
    }
}

/// The statement that loads a file into a table.
pub open spec fn load_sql_spec(f: Seq<char>, path: Seq<char>, table: Seq<char>) -> Seq<char> {
    "CREATE TABLE "@ + table + " AS SELECT * FROM "@ + f + "('"@ + path + "')"@
}

/// The statement that loads the file at `path`, whose extension is
/// `extension` (empty when it has none), into table `table_name`; an error
/// for an extension the engine cannot read.
pub fn load_sql_for_path(extension: &str, path: &str, table_name: &str) -> (r: Result<String, String>)
    ensures
        match read_function(unicode_lower(extension@)) {
            Some(f) => r matches Ok(s) && s@ == load_sql_spec(f, path@, table_name@),
            None => r matches Err(e) && e@ == "Unsupported file extension: ."@ + unicode_lower(extension@),
        },
{
    let f = match reader_for(extension) {
        Ok(f) => f,
        Err(m) => return Err(m),
    };
    let mut s = String::new();
    push_str(&mut s, "CREATE TABLE ");
    push_str(&mut s, table_name);
    push_str(&mut s, " AS SELECT * FROM ");
    push_str(&mut s, f);
    push_str(&mut s, "('");
    push_str(&mut s, path);
    push_str(&mut s, "')");
    assert(s@ =~= load_sql_spec(f@, path@, table_name@));
    Ok(s)
}

/// The pieces of SQL that the diff query makes from one column name.
#[derive(Debug, Clone, Copy, PartialEq, Eq, Structural)]
pub enum Fragment {
    /// `COALESCE(a."c"::VARCHAR, b."c"::VARCHAR) AS "c"`
    Coalesce,
    /// `b."c" AS "_b_c"`
    BSide,
    /// `a."c"::VARCHAR IS DISTINCT FROM b."c"::VARCHAR`
    Distinct,
    /// `a."c" IS NULL`
    NullA,
    /// `b."c" IS NULL`
    NullB,
    /// `a."c"::VARCHAR = b."c"::VARCHAR`
    JoinOn,
    /// `COALESCE(a."c"::VARCHAR, b."c"::VARCHAR)`
    OrderBy,
    /// `"c"`
    Quoted,
}

/// The text of a fragment for column `c`.
pub open spec fn fragment(kind: Fragment, c: Seq<char>) -> Seq<char> {
    match kind {
        Fragment::Coalesce => "COALESCE(a."@ + quoted(c) + "::VARCHAR, b."@ + quoted(c) + "::VARCHAR) AS "@ + quoted(c),
        Fragment::BSide => "b."@ + quoted(c) + " AS "@ + quoted("_b_"@ + c),
        Fragment::Distinct => "a."@ + quoted(c) + "::VARCHAR IS DISTINCT FROM b."@ + quoted(c) + "::VARCHAR"@,
        Fragment::NullA => "a."@ + quoted(c) + " IS NULL"@,
        Fragment::NullB => "b."@ + quoted(c) + " IS NULL"@,
        Fragment::JoinOn => "a."@ + quoted(c) + "::VARCHAR = b."@ + quoted(c) + "::VARCHAR"@,
        Fragment::OrderBy => "COALESCE(a."@ + quoted(c) + "::VARCHAR, b."@ + quoted(c) + "::VARCHAR)"@,
        Fragment::Quoted => quoted(c),
    }
}

/// The fragment of each name, in order.
pub open spec fn fragments(kind: Fragment, names: Seq<Seq<char>>) -> Seq<Seq<char>> {
    names.map_values(|c: Seq<char>| fragment(kind, c))
}

/// Build one fragment.
fn make_fragment(kind: Fragment, c: &str) -> (r: String)
    ensures
        r@ == fragment(kind, c@),
{
    let mut s = String::new();
    match kind {
        Fragment::Coalesce => {
            push_str(&mut s, "COALESCE(a.");
            push_quoted(&mut s, c);
            push_str(&mut s, "::VARCHAR, b.");
            push_quoted(&mut s, c);
            push_str(&mut s, "::VARCHAR) AS ");
            push_quoted(&mut s, c);
        },
        Fragment::BSide => {
            push_str(&mut s, "b.");
            push_quoted(&mut s, c);
            push_str(&mut s, " AS ");
            let mut b = String::new();
            push_str(&mut b, "_b_");
            push_str(&mut b, c);
            push_quoted(&mut s, b.as_str());
        },
        Fragment::Distinct => {
            push_str(&mut s, "a.");
            push_quoted(&mut s, c);
            push_str(&mut s, "::VARCHAR IS DISTINCT FROM b.");
            push_quoted(&mut s, c);
            push_str(&mut s, "::VARCHAR");
        },
        Fragment::NullA => {
            push_str(&mut s, "a.");
            push_quoted(&mut s, c);
            push_str(&mut s, " IS NULL");
        },
        Fragment::NullB => {
            push_str(&mut s, "b.");
            push_quoted(&mut s, c);
            push_str(&mut s, " IS NULL");
        },
        Fragment::JoinOn => {
            push_str(&mut s, "a.");
            push_quoted(&mut s, c);
            push_str(&mut s, "::VARCHAR = b.");
            push_quoted(&mut s, c);
            push_str(&mut s, "::VARCHAR");
        },
        Fragment::OrderBy => {
            push_str(&mut s, "COALESCE(a.");
            push_quoted(&mut s, c);
            push_str(&mut s, "::VARCHAR, b.");
            push_quoted(&mut s, c);
            push_str(&mut s, "::VARCHAR)");
        },
        Fragment::Quoted => {
            push_quoted(&mut s, c);
        },
    }
    assert(s@ =~= fragment(kind, c@));
    s
}

/// Appends the fragment of each name to `out`.
fn push_fragments(out: &mut Vec<String>, kind: Fragment, names: &Vec<String>)
    ensures
        strings_view(final(out)@) == strings_view(old(out)@) + fragments(kind, strings_view(names@)),
{
    let ghost start = strings_view(out@);
    let ghost v = strings_view(names@);
    let mut i: usize = 0;
    while i < names.len()
        invariant
            i <= names@.len(),
            v == strings_view(names@),
            strings_view(out@) == start + fragments(kind, v.take(i as int)),
        decreases names@.len() - i,
    {
        let f = make_fragment(kind, names[i].as_str());
        let ghost prev = strings_view(out@);
        out.push(f);
        proof {
            assert(strings_view(out@) =~= prev.push(f@));
            assert(fragments(kind, v.take(i + 1)) =~= fragments(kind, v.take(i as int)).push(fragment(kind, v[i as int])));
            assert(strings_view(out@) =~= start + fragments(kind, v.take(i + 1)));
        }
        i += 1;
    }
    assert(v.take(names@.len() as int) =~= v);
}

/// Whether `s` is one of the names.
pub fn contains_name(names: &Vec<String>, s: &str) -> (r: bool)
    ensures
        r == strings_view(names@).contains(s@),
{
    let ghost v = strings_view(names@);
    let mut i: usize = 0;
    while i < names.len()
        invariant
            i <= names@.len(),
            v == strings_view(names@),
            forall|j: int| 0 <= j < i ==> v[j] != s@,
        decreases names@.len() - i,
    {
        if str_eq(names[i].as_str(), s) {
            assert(v[i as int] == s@);
            return true;
        }
        i += 1;
    }
    false
}

/// The names of `all` that are not in `keys`, in order.
pub open spec fn without(all: Seq<Seq<char>>, keys: Seq<Seq<char>>) -> Seq<Seq<char>>
    decreases all.len(),
{
    if all.len() == 0 {
        Seq::empty()
    } else {
        let rest = without(all.drop_last(), keys);
        if keys.contains(all.last()) { rest } else { rest.push(all.last()) }
    }
}

/// The names of `all` that are not in `keys`.
fn names_without(all: &Vec<String>, keys: &Vec<String>) -> (r: Vec<String>)
    ensures
        strings_view(r@) == without(strings_view(all@), strings_view(keys@)),
{
    let ghost v = strings_view(all@);
    let mut out: Vec<String> = Vec::new();
    let mut i: usize = 0;
    while i < all.len()
        invariant
            i <= all@.len(),
            v == strings_view(all@),
            strings_view(out@) == without(v.take(i as int), strings_view(keys@)),
        decreases all@.len() - i,
    {
        proof {
            assert(v.take(i + 1).drop_last() =~= v.take(i as int));
            assert(v.take(i + 1).last() == all@[i as int]@);
        }
        if !contains_name(keys, all[i].as_str()) {
            out.push(all[i].as_str().to_owned());
            assert(strings_view(out@) =~= without(v.take(i + 1), strings_view(keys@)));
        }
        i += 1;
    }
    assert(v.take(all@.len() as int) =~= v);
    out
}

/// When the diff columns differ: `FALSE` with no diff column.
pub open spec fn changed_condition(diffs: Seq<Seq<char>>) -> Seq<char> {
    if diffs.len() == 0 { "FALSE"@ } else { join_with(fragments(Fragment::Distinct, diffs), " OR "@) }
}

/// The expression that classifies each joined row.
pub open spec fn case_expr(keys: Seq<Seq<char>>, diffs: Seq<Seq<char>>) -> Seq<char> {
    "CASE WHEN "@ + join_with(fragments(Fragment::NullA, keys), " AND "@) + " THEN 'only_b' WHEN "@
        + join_with(fragments(Fragment::NullB, keys), " AND "@) + " THEN 'only_a' WHEN "@
        + changed_condition(diffs) + " THEN 'changed' ELSE 'common' END AS _diff"@
}

/// The select list of the diff query.
pub open spec fn select_list(all: Seq<Seq<char>>, keys: Seq<Seq<char>>, diffs: Seq<Seq<char>>) -> Seq<Seq<char>> {
    seq!["ROW_NUMBER() OVER () - 1 AS _rownum"@] + fragments(Fragment::Coalesce, keys)
        + fragments(Fragment::Coalesce, without(all, keys)) + fragments(Fragment::BSide, diffs)
        + seq![case_expr(keys, diffs)]
}

/// The statement that joins the two tables on the key columns and stores,
/// per row, the row number, every column (A's value, else B's), B's value of
/// each diff column and the row's classification.
pub open spec fn diff_table_sql(all: Seq<Seq<char>>, keys: Seq<Seq<char>>, diffs: Seq<Seq<char>>) -> Seq<char> {
    "CREATE TABLE diff_result AS SELECT "@ + join_with(select_list(all, keys, diffs), ", "@)
        + " FROM table_a a FULL OUTER JOIN table_b b ON "@
        + join_with(fragments(Fragment::JoinOn, keys), " AND "@) + " ORDER BY "@
        + join_with(fragments(Fragment::OrderBy, keys), ", "@)
}

/// Law: a row present in both files is classified as changed exactly when
/// at least one compared column differs. With no compared column nothing is
/// changed; one column gives its own `IS DISTINCT FROM` test, and each further
/// column adds its test after ` OR `.
pub proof fn law_changed_when_any_column_differs(diffs: Seq<Seq<char>>, d: Seq<char>)
    ensures
        changed_condition(Seq::empty()) == "FALSE"@,
        changed_condition(seq![d])
            == "a."@ + quoted(d) + "::VARCHAR IS DISTINCT FROM b."@ + quoted(d) + "::VARCHAR"@,
        diffs.len() > 0 ==> changed_condition(diffs.push(d)) == changed_condition(diffs) + " OR "@
            + ("a."@ + quoted(d) + "::VARCHAR IS DISTINCT FROM b."@ + quoted(d) + "::VARCHAR"@),
{
    let f = |c: Seq<char>| fragment(Fragment::Distinct, c);
    assert(fragments(Fragment::Distinct, seq![d]) =~= seq![f(d)]);
    assert(fragments(Fragment::Distinct, diffs.push(d)) =~= fragments(Fragment::Distinct, diffs).push(f(d)));
    if diffs.len() > 0 {
        assert(fragments(Fragment::Distinct, diffs).push(f(d)).drop_last() =~= fragments(Fragment::Distinct, diffs));
    }
}

/// Law: the diff statement classifies a row as changed by the changed
/// condition of the compared columns, after the tests for rows missing from
/// either file and before the rows that are common.
pub proof fn law_statement_classifies_by_changed_condition(all: Seq<Seq<char>>, keys: Seq<Seq<char>>, diffs: Seq<Seq<char>>)
    ensures
        exists|pre: Seq<char>, post: Seq<char>| diff_table_sql(all, keys, diffs)
            == pre + " THEN 'only_a' WHEN "@ + changed_condition(diffs) + " THEN 'changed' ELSE 'common' END AS _diff"@ + post,
{
    let sl = select_list(all, keys, diffs);
    assert(sl.last() == case_expr(keys, diffs));
    assert(sl.len() >= 2);
    let a = "CREATE TABLE diff_result AS SELECT "@;
    let j = join_with(sl.drop_last(), ", "@);
    let b = " FROM table_a a FULL OUTER JOIN table_b b ON "@
        + join_with(fragments(Fragment::JoinOn, keys), " AND "@) + " ORDER BY "@
        + join_with(fragments(Fragment::OrderBy, keys), ", "@);
    let c0 = "CASE WHEN "@ + join_with(fragments(Fragment::NullA, keys), " AND "@) + " THEN 'only_b' WHEN "@
        + join_with(fragments(Fragment::NullB, keys), " AND "@);
    let mid = " THEN 'only_a' WHEN "@ + changed_condition(diffs) + " THEN 'changed' ELSE 'common' END AS _diff"@;
    assert(case_expr(keys, diffs) =~= c0 + mid);
    assert(join_with(sl, ", "@) == j + ", "@ + sl.last());
    let pre = a + j + ", "@ + c0;
    assert(diff_table_sql(all, keys, diffs) =~= pre + mid + b);
    assert(pre + mid + b =~= pre + " THEN 'only_a' WHEN "@ + changed_condition(diffs)
        + " THEN 'changed' ELSE 'common' END AS _diff"@ + b);
}

/// Build the diff statement from the columns of the first file, the key
/// columns and the columns to compare.
pub fn diff_table_statement(all_columns: &Vec<String>, key_columns: &Vec<String>, diff_columns: &Vec<String>) -> (r: String)
    ensures
        r@ == diff_table_sql(strings_view(all_columns@), strings_view(key_columns@), strings_view(diff_columns@)),
{
    let ghost all = strings_view(all_columns@);
    let ghost keys = strings_view(key_columns@);
    let ghost diffs = strings_view(diff_columns@);

    let mut null_a: Vec<String> = Vec::new();
    push_fragments(&mut null_a, Fragment::NullA, key_columns);
    let mut null_b: Vec<String> = Vec::new();
    push_fragments(&mut null_b, Fragment::NullB, key_columns);
    let changed = if diff_columns.len() == 0 {
        "FALSE".to_owned()
    } else {
        let mut conds: Vec<String> = Vec::new();
        push_fragments(&mut conds, Fragment::Distinct, diff_columns);
        assert(strings_view(conds@) =~= fragments(Fragment::Distinct, diffs));
        join_strings(&conds, " OR ")
    };
    assert(strings_view(null_a@) =~= fragments(Fragment::NullA, keys));
    assert(strings_view(null_b@) =~= fragments(Fragment::NullB, keys));
    let mut case_sql = String::new();
    push_str(&mut case_sql, "CASE WHEN ");
    push_str(&mut case_sql, join_strings(&null_a, " AND ").as_str());
    push_str(&mut case_sql, " THEN 'only_b' WHEN ");
    push_str(&mut case_sql, join_strings(&null_b, " AND ").as_str());
    push_str(&mut case_sql, " THEN 'only_a' WHEN ");
    push_str(&mut case_sql, changed.as_str());
    push_str(&mut case_sql, " THEN 'changed' ELSE 'common' END AS _diff");
    assert(case_sql@ =~= case_expr(keys, diffs));

    let mut select: Vec<String> = Vec::new();
    select.push("ROW_NUMBER() OVER () - 1 AS _rownum".to_owned());
    assert(strings_view(select@) =~= seq!["ROW_NUMBER() OVER () - 1 AS _rownum"@]);
    push_fragments(&mut select, Fragment::Coalesce, key_columns);
    let rest = names_without(all_columns, key_columns);
    push_fragments(&mut select, Fragment::Coalesce, &rest);
    push_fragments(&mut select, Fragment::BSide, diff_columns);
    let ghost before = strings_view(select@);
    select.push(case_sql);
    assert(strings_view(select@) =~= before.push(case_expr(keys, diffs)));
    assert(strings_view(select@) =~= select_list(all, keys, diffs));

    let mut joins: Vec<String> = Vec::new();
    push_fragments(&mut joins, Fragment::JoinOn, key_columns);
    assert(strings_view(joins@) =~= fragments(Fragment::JoinOn, keys));
    let mut orders: Vec<String> = Vec::new();
    push_fragments(&mut orders, Fragment::OrderBy, key_columns);
    assert(strings_view(orders@) =~= fragments(Fragment::OrderBy, keys));

    let mut s = String::new();
    push_str(&mut s, "CREATE TABLE diff_result AS SELECT ");
    push_str(&mut s, join_strings(&select, ", ").as_str());
    push_str(&mut s, " FROM table_a a FULL OUTER JOIN table_b b ON ");
    push_str(&mut s, join_strings(&joins, " AND ").as_str());
    push_str(&mut s, " ORDER BY ");
    push_str(&mut s, join_strings(&orders, ", ").as_str());
    assert(s@ =~= diff_table_sql(all, keys, diffs));
    s
}

/// A column of the diff table that is shown: not the row number, not the
/// classification, not one of B's copies (`_b_...`).
pub open spec fn is_display_name(n: Seq<char>) -> bool {
    n != "_diff"@ && n != "_rownum"@ && !(n.len() >= 3 && n.take(3) == "_b_"@)
}

/// The indices of the shown columns among the first `n` names.
pub open spec fn display_indices_upto(names: Seq<Seq<char>>, n: int) -> Seq<usize>
    decreases n,
{
    if n <= 0 {
        Seq::empty()
    } else {
        let p = display_indices_upto(names, n - 1);
        if is_display_name(names[n - 1]) { p.push((n - 1) as usize) } else { p }
    }
}

/// The first position `p >= from` in `disp` whose column is named `col`.
pub open spec fn display_position(names: Seq<Seq<char>>, disp: Seq<usize>, col: Seq<char>, from: int) -> Option<int>
    decreases disp.len() - from,
{
    if from < 0 || from >= disp.len() {
        None
    } else if names[disp[from] as int] == col {
        Some(from)
    } else {
        display_position(names, disp, col, from + 1)
    }
}

/// For each diff column whose B copy exists and which is shown: its
/// position among the shown columns and the name of its B copy.
pub open spec fn b_entries(names: Seq<Seq<char>>, disp: Seq<usize>, diffs: Seq<Seq<char>>) -> Seq<(usize, Seq<char>)>
    decreases diffs.len(),
{
    if diffs.len() == 0 {
        Seq::empty()
    } else {
        let prev = b_entries(names, disp, diffs.drop_last());
        let col = diffs.last();
        let b = "_b_"@ + col;
        if names.contains(b) {
            match display_position(names, disp, col, 0) {
                Some(p) => prev.push((p as usize, b)),
                None => prev,
            }
        } else {
            prev
        }
    }
}

/// The first entry at or after `from` for shown column `d`.
pub open spec fn entry_for(entries: Seq<(usize, Seq<char>)>, d: int, from: int) -> Option<usize>
    decreases entries.len() - from,
{
    if from < 0 || from >= entries.len() {
        None
    } else if entries[from].0 == d {
        Some(from as usize)
    } else {
        entry_for(entries, d, from + 1)
    }
}

/// Where the diff's columns are: the shown columns, and for the compared
/// ones where B's value is.
pub struct DiffLayout {
    /// Indices (in the diff table) of the shown columns.
    pub display_indices: Vec<usize>,
    /// The shown columns, quoted and comma-separated.
    pub display_col_sql: String,
    /// (shown column, position of its B copy among the B columns).
    pub b_col_pairs: Vec<(usize, usize)>,
    /// The B copies, quoted and comma-separated (empty when there are none).
    pub b_side_col_sql: String,
    /// For each shown column, the position of its B copy, if it has one.
    pub b_side_col_map: Vec<Option<usize>>,
}

/// Whether a name starts with `_b_`.
fn is_b_copy(s: &str) -> (r: bool)
    ensures
        r == (s@.len() >= 3 && s@.take(3) == "_b_"@),
{
    let cs = crate::text::chars_of(s);
    proof { reveal_strlit("_b_"); }
    if cs.len() < 3 {
        return false;
    }
    if cs[0] == '_' && cs[1] == 'b' && cs[2] == '_' {
        assert(s@.take(3) =~= "_b_"@);
        true
    } else {
        assert(s@.take(3) != "_b_"@) by {
            if s@.take(3) == "_b_"@ {
                assert(s@.take(3)[0] == '_' && s@.take(3)[1] == 'b' && s@.take(3)[2] == '_');
            }
        }
        false
    }
}

/// The indices of the shown columns.
pub fn display_column_indices(names: &Vec<String>) -> (r: Vec<usize>)
    ensures
        r@ == display_indices_upto(strings_view(names@), names@.len() as int),
{
    let ghost v = strings_view(names@);
    let mut out: Vec<usize> = Vec::new();
    let mut i: usize = 0;
    while i < names.len()
        invariant
            i <= names@.len(),
            v == strings_view(names@),
            out@ == display_indices_upto(v, i as int),
        decreases names@.len() - i,
    {
        let n = names[i].as_str();
        assert(v[i as int] == n@);
        if !str_eq(n, "_diff") && !str_eq(n, "_rownum") && !is_b_copy(n) {
            out.push(i);
        }
        i += 1;
    }
    out
}

/// Whether every index points into the names.
pub open spec fn indices_in(disp: Seq<usize>, n: nat) -> bool {
    forall|k: int| 0 <= k < disp.len() ==> disp[k] < n
}

proof fn lemma_display_indices_in(names: Seq<Seq<char>>, n: int)
    requires
        0 <= n <= names.len(),
    ensures
        indices_in(display_indices_upto(names, n), names.len()),
        display_indices_upto(names, n).len() <= n,
    decreases n,
{
    if n > 0 {
        lemma_display_indices_in(names, n - 1);
    }
}

/// The first position among the shown columns of column `col`.
fn find_display_position(names: &Vec<String>, disp: &Vec<usize>, col: &str) -> (r: Option<usize>)
    requires
        indices_in(disp@, names@.len()),
    ensures
        match display_position(strings_view(names@), disp@, col@, 0) {
            Some(p) => r == Some(p as usize),
            None => r is None,
        },
{
    let ghost v = strings_view(names@);
    let mut p: usize = 0;
    while p < disp.len()
        invariant
            p <= disp@.len(),
            v == strings_view(names@),
            indices_in(disp@, names@.len()),
            display_position(v, disp@, col@, 0) == display_position(v, disp@, col@, p as int),
        decreases disp@.len() - p,
    {
        let idx = disp[p];
        assert(v[idx as int] == names@[idx as int]@);
        if str_eq(names[idx].as_str(), col) {
            return Some(p);
        }
        p += 1;
    }
    None
}

/// The first position in `a_idx` holding `d`.
fn first_entry(a_idx: &Vec<usize>, d: usize, Ghost(e): Ghost<Seq<(usize, Seq<char>)>>) -> (r: Option<usize>)
    requires
        a_idx@ == e.map_values(|x: (usize, Seq<char>)| x.0),
    ensures
        r == entry_for(e, d as int, 0),
{
    let mut t: usize = 0;
    while t < a_idx.len()
        invariant
            t <= a_idx@.len(),
            a_idx@ == e.map_values(|x: (usize, Seq<char>)| x.0),
            entry_for(e, d as int, 0) == entry_for(e, d as int, t as int),
        decreases a_idx@.len() - t,
    {
        if a_idx[t] == d {
            return Some(t);
        }
        t += 1;
    }
    None
}

/// Work out where the shown columns and B's values are in a diff table
/// whose columns are `names`, for the compared columns `diff_columns`.
pub fn diff_layout(names: &Vec<String>, diff_columns: &Vec<String>) -> (r: DiffLayout)
    ensures
        r.display_indices@ == display_indices_upto(strings_view(names@), names@.len() as int),
        r.display_col_sql@ == join_with(
            r.display_indices@.map_values(|i: usize| quoted(strings_view(names@)[i as int])), ", "@),
        ({
            let e = b_entries(strings_view(names@), r.display_indices@, strings_view(diff_columns@));
            &&& r.b_col_pairs@ == Seq::new(e.len(), |k: int| (e[k].0, k as usize))
            &&& r.b_side_col_sql@ == join_with(e.map_values(|x: (usize, Seq<char>)| quoted(x.1)), ", "@)
            &&& r.b_side_col_map@ == Seq::new(r.display_indices@.len(), |d: int| entry_for(e, d, 0))
        }),
{
    let ghost v = strings_view(names@);
    let ghost diffs = strings_view(diff_columns@);
    let disp = display_column_indices(names);
    proof { lemma_display_indices_in(v, names@.len() as int); }

    let mut shown: Vec<String> = Vec::new();
    let mut i: usize = 0;
    while i < disp.len()
        invariant
            i <= disp@.len(),
            v == strings_view(names@),
            indices_in(disp@, names@.len()),
            strings_view(shown@) == disp@.take(i as int).map_values(|k: usize| quoted(v[k as int])),
        decreases disp@.len() - i,
    {
        let mut q = String::new();
        push_quoted(&mut q, names[disp[i]].as_str());
        let ghost prev = strings_view(shown@);
        shown.push(q);
        assert(strings_view(shown@) =~= prev.push(q@));
        assert(disp@.take(i + 1).map_values(|k: usize| quoted(v[k as int]))
            =~= disp@.take(i as int).map_values(|k: usize| quoted(v[k as int])).push(quoted(v[disp@[i as int] as int])));
        i += 1;
    }
    assert(disp@.take(disp@.len() as int) =~= disp@);
    let display_col_sql = join_strings(&shown, ", ");

    // B copies, column by column.
    let mut a_idx: Vec<usize> = Vec::new();
    let mut b_quoted: Vec<String> = Vec::new();
    let mut j: usize = 0;
    while j < diff_columns.len()
        invariant
            j <= diff_columns@.len(),
            v == strings_view(names@),
            diffs == strings_view(diff_columns@),
            indices_in(disp@, names@.len()),
            a_idx@.len() == b_quoted@.len(),
            ({
                let e = b_entries(v, disp@, diffs.take(j as int));
                &&& a_idx@ == e.map_values(|x: (usize, Seq<char>)| x.0)
                &&& strings_view(b_quoted@) == e.map_values(|x: (usize, Seq<char>)| quoted(x.1))
            }),
        decreases diff_columns@.len() - j,
    {
        let col = diff_columns[j].as_str();
        proof {
            assert(diffs.take(j + 1).drop_last() =~= diffs.take(j as int));
            assert(diffs.take(j + 1).last() == col@);
        }
        let mut b = String::new();
        push_str(&mut b, "_b_");
        push_str(&mut b, col);
        if contains_name(names, b.as_str()) {
            match find_display_position(names, &disp, col) {
                Some(p) => {
                    let ghost e0 = b_entries(v, disp@, diffs.take(j as int));
                    let ghost pa = a_idx@;
                    let ghost pb = strings_view(b_quoted@);
                    a_idx.push(p);
                    let mut q = String::new();
                    push_quoted(&mut q, b.as_str());
                    b_quoted.push(q);
                    proof {
                        let e1 = b_entries(v, disp@, diffs.take(j + 1));
                        assert(e1 == e0.push((p, b@)));
                        assert(a_idx@ =~= e1.map_values(|x: (usize, Seq<char>)| x.0));
                        assert(strings_view(b_quoted@) =~= pb.push(q@));
                        assert(strings_view(b_quoted@) =~= e1.map_values(|x: (usize, Seq<char>)| quoted(x.1)));
                    }
                },
                None => {},
            }
        }
        j += 1;
    }
    assert(diffs.take(diff_columns@.len() as int) =~= diffs);
    let b_side_col_sql = join_strings(&b_quoted, ", ");
    let ghost e = b_entries(v, disp@, diffs);

    let mut pairs: Vec<(usize, usize)> = Vec::new();
    let mut k: usize = 0;
    while k < a_idx.len()
        invariant
            k <= a_idx@.len(),
            a_idx@ == e.map_values(|x: (usize, Seq<char>)| x.0),
            pairs@ == Seq::new(k as nat, |m: int| (e[m].0, m as usize)),
        decreases a_idx@.len() - k,
    {
        pairs.push((a_idx[k], k));
        assert(pairs@ =~= Seq::new((k + 1) as nat, |m: int| (e[m].0, m as usize)));
        k += 1;
    }

    let mut map: Vec<Option<usize>> = Vec::new();
    let mut d: usize = 0;
    while d < disp.len()
        invariant
            d <= disp@.len(),
            a_idx@ == e.map_values(|x: (usize, Seq<char>)| x.0),
            map@ == Seq::new(d as nat, |m: int| entry_for(e, m, 0)),
        decreases disp@.len() - d,
    {
        let found = first_entry(&a_idx, d, Ghost(e));
        map.push(found);
        assert(map@ =~= Seq::new((d + 1) as nat, |m: int| entry_for(e, m, 0)));
        d += 1;
    }

    DiffLayout {
        display_indices: disp,
        display_col_sql,
        b_col_pairs: pairs,
        b_side_col_sql,
        b_side_col_map: map,
    }
}

/// The marker of a row from its classification text (`None` when the value
/// is missing or not text): anything but the three known labels is common.
pub open spec fn marker_for(v: Option<Seq<char>>) -> DiffMarker {
    match v {
        Some(t) => if t == "only_a"@ {
            DiffMarker::OnlyA
        } else if t == "only_b"@ {
            DiffMarker::OnlyB
        } else if t == "changed"@ {
            DiffMarker::Changed
        } else {
            DiffMarker::Common
        },
        None => DiffMarker::Common,
    }
}

/// The character view of a list of optional strings.
pub open spec fn opt_strings_view(v: Seq<Option<String>>) -> Seq<Option<Seq<char>>> {
    v.map_values(|o: Option<String>| match o { Some(s) => Some(s@), None => None })
}

/// How many markers equal `x`.
pub open spec fn count_of(m: Seq<DiffMarker>, x: DiffMarker) -> nat
    decreases m.len(),
{
    if m.len() == 0 {
        0
    } else {
        count_of(m.drop_last(), x) + if m.last() == x { 1nat } else { 0nat }
    }
}

/// What the scan of the classification column gives.
pub struct MarkerScan {
    pub markers: Vec<DiffMarker>,
    pub counts: DiffCounts,
    /// The rows that are not common, in order.
    pub changed_row_indices: Vec<usize>,
}

/// The marker of one classification value.
pub fn marker_of(v: &Option<String>) -> (r: DiffMarker)
    ensures
        r == marker_for(match v { Some(s) => Some(s@), None => None }),
{
    match v {
        Some(t) => {
            let t = t.as_str();
            if str_eq(t, "only_a") {
                DiffMarker::OnlyA
            } else if str_eq(t, "only_b") {
                DiffMarker::OnlyB
            } else if str_eq(t, "changed") {
                DiffMarker::Changed
            } else {
                DiffMarker::Common
            }
        },
        None => DiffMarker::Common,
    }
}

/// Read the classification of every row, in row order: the markers, how
/// many rows of each kind there are, and the rows that are not common.
pub fn scan_markers(values: &Vec<Option<String>>) -> (r: MarkerScan)
    ensures
        r.markers@ == opt_strings_view(values@).map_values(|v: Option<Seq<char>>| marker_for(v)),
        r.counts.only_a == count_of(r.markers@, DiffMarker::OnlyA),
        r.counts.only_b == count_of(r.markers@, DiffMarker::OnlyB),
        r.counts.changed == count_of(r.markers@, DiffMarker::Changed),
        r.counts.common == count_of(r.markers@, DiffMarker::Common),
        r.changed_row_indices@ == non_common(r.markers@),
{
    let ghost target = opt_strings_view(values@).map_values(|v: Option<Seq<char>>| marker_for(v));
    let mut markers: Vec<DiffMarker> = Vec::new();
    let mut counts = DiffCounts::default();
    let mut changed: Vec<usize> = Vec::new();
    let mut i: usize = 0;
    while i < values.len()
        invariant
            i <= values@.len(),
            target == opt_strings_view(values@).map_values(|v: Option<Seq<char>>| marker_for(v)),
            markers@ == target.take(i as int),
            counts.only_a == count_of(markers@, DiffMarker::OnlyA),
            counts.only_b == count_of(markers@, DiffMarker::OnlyB),
            counts.changed == count_of(markers@, DiffMarker::Changed),
            counts.common == count_of(markers@, DiffMarker::Common),
            counts.only_a + counts.only_b + counts.changed + counts.common == i,
            changed@ == non_common(markers@),
        decreases values@.len() - i,
    {
        let m = marker_of(&values[i]);
        let ghost before = markers@;
        markers.push(m);
        proof {
            assert(markers@.drop_last() =~= before);
            assert(markers@ =~= target.take(i + 1));
        }
        match m {
            DiffMarker::OnlyA => {
                counts.only_a = counts.only_a + 1;
                changed.push(i);
            },
            DiffMarker::OnlyB => {
                counts.only_b = counts.only_b + 1;
                changed.push(i);
            },
            DiffMarker::Changed => {
                counts.changed = counts.changed + 1;
                changed.push(i);
            },
            DiffMarker::Common => {
                counts.common = counts.common + 1;
            },
        }
        i += 1;
    }
    assert(target.take(values@.len() as int) =~= target);
    MarkerScan { markers, counts, changed_row_indices: changed }
}

/// Whether two values of a cell differ: one missing and the other not, or
/// both present with different text.
pub open spec fn cell_differs(a: Option<Seq<char>>, b: Option<Seq<char>>) -> bool {
    match (a, b) {
        (None, None) => false,
        (Some(x), Some(y)) => x != y,
        _ => true,
    }
}

/// Whether shown column `d` of a row differs from its B copy, going through
/// the (shown column, B column) pairs from `from` on.
pub open spec fn differs_in_pairs(
    pairs: Seq<(usize, usize)>,
    d: int,
    a_row: Seq<Option<Seq<char>>>,
    b_row: Seq<Option<Seq<char>>>,
    from: int,
) -> bool
    decreases pairs.len() - from,
{
    if from < 0 || from >= pairs.len() {
        false
    } else {
        (pairs[from].0 == d && cell_differs(a_row[d], b_row[pairs[from].1 as int]))
            || differs_in_pairs(pairs, d, a_row, b_row, from + 1)
    }
}

/// Every pair points into the rows' values.
pub open spec fn pairs_fit(pairs: Seq<(usize, usize)>, a_len: nat, b_len: nat) -> bool {
    forall|k: int| 0 <= k < pairs.len() ==> pairs[k].0 < a_len && pairs[k].1 < b_len
}

/// The changed cells of a page of the diff: for each fetched row (its data
/// row in `row_indices`, its shown values in `a_values` and its B values in
/// `b_values`, `None` for a missing value), one flag per shown column, set
/// when the row is `Changed` and the column's value differs from its B copy.
pub fn changed_cells(
    row_indices: &Vec<usize>,
    markers: &Vec<DiffMarker>,
    pairs: &Vec<(usize, usize)>,
    num_display_cols: usize,
    a_values: &Vec<Vec<Option<String>>>,
    b_values: &Vec<Vec<Option<String>>>,
) -> (r: Vec<Vec<bool>>)
    requires
        row_indices@.len() == a_values@.len(),
        row_indices@.len() == b_values@.len(),
        forall|i: int| 0 <= i < a_values@.len() ==> pairs_fit(pairs@, a_values@[i]@.len(), b_values@[i]@.len()),
        forall|k: int| 0 <= k < pairs@.len() ==> pairs@[k].0 < num_display_cols,
    ensures
        r@.len() == row_indices@.len(),
        forall|i: int| 0 <= i < r@.len() ==> r@[i]@.len() == num_display_cols,
        forall|i: int, d: int| 0 <= i < r@.len() && 0 <= d < num_display_cols ==> r@[i]@[d] == (
            row_indices@[i] < markers@.len() && markers@[row_indices@[i] as int] == DiffMarker::Changed
                && differs_in_pairs(pairs@, d, opt_strings_view(a_values@[i]@), opt_strings_view(b_values@[i]@), 0)),
{
    let mut out: Vec<Vec<bool>> = Vec::new();
    let mut i: usize = 0;
    while i < row_indices.len()
        invariant
            i <= row_indices@.len(),
            row_indices@.len() == a_values@.len(),
            row_indices@.len() == b_values@.len(),
            forall|k: int| 0 <= k < a_values@.len() ==> pairs_fit(pairs@, a_values@[k]@.len(), b_values@[k]@.len()),
            forall|k: int| 0 <= k < pairs@.len() ==> pairs@[k].0 < num_display_cols,
            out@.len() == i,
            forall|k: int| 0 <= k < i ==> out@[k]@.len() == num_display_cols,
            forall|k: int, d: int| 0 <= k < i && 0 <= d < num_display_cols ==> out@[k]@[d] == (
                row_indices@[k] < markers@.len() && markers@[row_indices@[k] as int] == DiffMarker::Changed
                    && differs_in_pairs(pairs@, d, opt_strings_view(a_values@[k]@), opt_strings_view(b_values@[k]@), 0)),
        decreases row_indices@.len() - i,
    {
        let row = row_cells(row_indices[i], markers, pairs, num_display_cols, &a_values[i], &b_values[i]);
        out.push(row);
        i += 1;
    }
    out
}

/// The changed flags of one row.
fn row_cells(
    data_row: usize,
    markers: &Vec<DiffMarker>,
    pairs: &Vec<(usize, usize)>,
    num_display_cols: usize,
    a_row: &Vec<Option<String>>,
    b_row: &Vec<Option<String>>,
) -> (r: Vec<bool>)
    requires
        pairs_fit(pairs@, a_row@.len(), b_row@.len()),
        forall|k: int| 0 <= k < pairs@.len() ==> pairs@[k].0 < num_display_cols,
    ensures
        r@.len() == num_display_cols,
        forall|d: int| 0 <= d < num_display_cols ==> r@[d] == (
            data_row < markers@.len() && markers@[data_row as int] == DiffMarker::Changed
                && differs_in_pairs(pairs@, d, opt_strings_view(a_row@), opt_strings_view(b_row@), 0)),
{
    let ghost av = opt_strings_view(a_row@);
    let ghost bv = opt_strings_view(b_row@);
    let is_changed = data_row < markers.len() && markers[data_row] == DiffMarker::Changed;
    let mut flags: Vec<bool> = Vec::new();
    let mut d: usize = 0;
    while d < num_display_cols
        invariant
            d <= num_display_cols,
            av == opt_strings_view(a_row@),
            bv == opt_strings_view(b_row@),
            pairs_fit(pairs@, a_row@.len(), b_row@.len()),
            is_changed == (data_row < markers@.len() && markers@[data_row as int] == DiffMarker::Changed),
            flags@.len() == d,
            forall|e: int| 0 <= e < d ==> flags@[e] == (is_changed && differs_in_pairs(pairs@, e, av, bv, 0)),
        decreases num_display_cols - d,
    {
        let f = if is_changed { column_differs(pairs, d, a_row, b_row) } else { false };
        flags.push(f);
        d += 1;
    }
    flags
}

/// Whether shown column `d` differs from its B copy in some pair.
fn column_differs(pairs: &Vec<(usize, usize)>, d: usize, a_row: &Vec<Option<String>>, b_row: &Vec<Option<String>>) -> (r: bool)
    requires
        pairs_fit(pairs@, a_row@.len(), b_row@.len()),
    ensures
        r == differs_in_pairs(pairs@, d as int, opt_strings_view(a_row@), opt_strings_view(b_row@), 0),
{
    let ghost av = opt_strings_view(a_row@);
    let ghost bv = opt_strings_view(b_row@);
    let mut k: usize = 0;
    while k < pairs.len()
        invariant
            k <= pairs@.len(),
            av == opt_strings_view(a_row@),
            bv == opt_strings_view(b_row@),
            pairs_fit(pairs@, a_row@.len(), b_row@.len()),
            differs_in_pairs(pairs@, d as int, av, bv, 0) == differs_in_pairs(pairs@, d as int, av, bv, k as int),
        decreases pairs@.len() - k,
    {
        let (a_idx, b_idx) = pairs[k];
        if a_idx == d {
            let differs = match (&a_row[a_idx], &b_row[b_idx]) {
                (None, None) => false,
                (Some(x), Some(y)) => !str_eq(x.as_str(), y.as_str()),
                _ => true,
            };
            assert(differs == cell_differs(av[d as int], bv[b_idx as int]));
            if differs {
                return true;
            }
        }
        k += 1;
    }
    false
}

/// The query that fetches the given rows of the diff table, shown columns
/// first and B copies after them; `None` when no row is asked for.
pub open spec fn fetch_rows_sql_spec(display_sql: Seq<char>, b_sql: Seq<char>, rows: Seq<usize>) -> Seq<char> {
    "SELECT "@ + (if b_sql.len() == 0 { display_sql } else { display_sql + ", "@ + b_sql })
        + " FROM diff_result WHERE _rownum IN ("@
        + join_with(rows.map_values(|i: usize| decimal(i as nat)), ", "@) + ") ORDER BY _rownum"@
}

/// Build the query that fetches the given rows of the diff table.
pub fn fetch_rows_sql(display_col_sql: &str, b_side_col_sql: &str, rows: &Vec<usize>) -> (r: Option<String>)
    ensures
        rows@.len() == 0 ==> r is None,
        rows@.len() > 0 ==> (r matches Some(s) && s@ == fetch_rows_sql_spec(display_col_sql@, b_side_col_sql@, rows@)),
{
    if rows.len() == 0 {
        return None;
    }
    let mut nums: Vec<String> = Vec::new();
    let mut i: usize = 0;
    while i < rows.len()
        invariant
            i <= rows@.len(),
            strings_view(nums@) == rows@.take(i as int).map_values(|k: usize| decimal(k as nat)),
        decreases rows@.len() - i,
    {
        let mut n = String::new();
        push_decimal(&mut n, rows[i]);
        let ghost prev = strings_view(nums@);
        nums.push(n);
        assert(strings_view(nums@) =~= prev.push(n@));
        assert(rows@.take(i + 1).map_values(|k: usize| decimal(k as nat))
            =~= rows@.take(i as int).map_values(|k: usize| decimal(k as nat)).push(decimal(rows@[i as int] as nat)));
        i += 1;
    }
    assert(rows@.take(rows@.len() as int) =~= rows@);
    let mut s = String::new();
    push_str(&mut s, "SELECT ");
    push_str(&mut s, display_col_sql);
    if !b_side_col_sql.is_empty() {
        push_str(&mut s, ", ");
        push_str(&mut s, b_side_col_sql);
    }
    push_str(&mut s, " FROM diff_result WHERE _rownum IN (");
    push_str(&mut s, join_strings(&nums, ", ").as_str());
    push_str(&mut s, ") ORDER BY _rownum");
    assert(s@ =~= fetch_rows_sql_spec(display_col_sql@, b_side_col_sql@, rows@));
    Some(s)
}

/// The query that reads a file's columns without rows.
pub open spec fn probe_sql_spec(f: Seq<char>, path: Seq<char>) -> Seq<char> {
    "SELECT * FROM "@ + f + "('"@ + path + "') LIMIT 0"@
}

/// The query that reads the columns of the file at `path` (extension
/// `extension`); an error for an extension the engine cannot read.
pub fn schema_probe_sql(extension: &str, path: &str) -> (r: Result<String, String>)
    ensures
        match read_function(unicode_lower(extension@)) {
            Some(f) => r matches Ok(s) && s@ == probe_sql_spec(f, path@),
            None => r matches Err(e) && e@ == "Unsupported file extension: ."@ + unicode_lower(extension@),
        },
{
    let f = match reader_for(extension) {
        Ok(f) => f,
        Err(m) => return Err(m),
    };
    let mut s = String::new();
    push_str(&mut s, "SELECT * FROM ");
    push_str(&mut s, f);
    push_str(&mut s, "('");
    push_str(&mut s, path);
    push_str(&mut s, "') LIMIT 0");
    assert(s@ =~= probe_sql_spec(f@, path@));
    Ok(s)
}

/// The summary of a diff's counts: `+only_a -only_b ~changed =common`.
pub open spec fn counts_message_spec(c: DiffCounts) -> Seq<char> {
    seq!['+'] + decimal(c.only_a as nat) + " -"@ + decimal(c.only_b as nat) + " ~"@
        + decimal(c.changed as nat) + " ="@ + decimal(c.common as nat)
}

/// Summarise a diff's counts.
pub fn counts_message(c: &DiffCounts) -> (r: String)
    ensures
        r@ == counts_message_spec(*c),
{
    let mut s = String::new();
    crate::text::push_char(&mut s, '+');
    push_decimal(&mut s, c.only_a);
    push_str(&mut s, " -");
    push_decimal(&mut s, c.only_b);
    push_str(&mut s, " ~");
    push_decimal(&mut s, c.changed);
    push_str(&mut s, " =");
    push_decimal(&mut s, c.common);
    assert(s@ =~= counts_message_spec(*c));
    s
}

/// The columns to compare, offered by default: every column that is not a
/// key column.
pub fn compare_ticks(columns: &Vec<String>, keys: &Vec<String>) -> (r: Vec<bool>)
    ensures
        r@.len() == columns@.len(),
        forall|i: int| 0 <= i < columns@.len() ==> r@[i] == !strings_view(keys@).contains(columns@[i]@),
{
    let mut out: Vec<bool> = Vec::new();
    let mut i: usize = 0;
    while i < columns.len()
        invariant
            i <= columns@.len(),
            out@.len() == i,
            forall|j: int| 0 <= j < i ==> out@[j] == !strings_view(keys@).contains(columns@[j]@),
        decreases columns@.len() - i,
    {
        out.push(!contains_name(keys, columns[i].as_str()));
        i += 1;
    }
    out
}

/// The rows of the first page: `0..min(page_size, total)`.
pub fn first_page_rows(page_size: usize, total: usize) -> (r: Vec<usize>)
    ensures
        r@.len() == if page_size <= total { page_size } else { total },
        forall|i: int| 0 <= i < r@.len() ==> r@[i] == i,
{
    let n = if page_size <= total { page_size } else { total };
    let mut out: Vec<usize> = Vec::new();
    let mut i: usize = 0;
    while i < n
        invariant
            i <= n,
            out@.len() == i,
            forall|j: int| 0 <= j < i ==> out@[j] == j,
        decreases n - i,
    {
        out.push(i);
        i += 1;
    }
    out
}

/// The three characters drawn before a diff row.
pub open spec fn marker_prefix_spec(m: DiffMarker) -> Seq<char> {
    match m {
        DiffMarker::OnlyA => " + "@,
        DiffMarker::OnlyB => " - "@,
        DiffMarker::Changed => " ~ "@,
        DiffMarker::Common => "   "@,
    }
}

/// The prefix of a diff row with this marker.
pub fn marker_prefix(m: DiffMarker) -> (r: &'static str)
    ensures
        r@ == marker_prefix_spec(m),
{
    match m {
        DiffMarker::OnlyA => " + ",
        DiffMarker::OnlyB => " - ",
        DiffMarker::Changed => " ~ ",
        DiffMarker::Common => "   ",
    }
}

/// How a cell of the diff table shows.
#[derive(Debug, Clone, Copy, PartialEq, Eq, Structural)]
pub enum DiffCellLook {
    /// Dimmed: an unchanged row, or a column that is neither key nor compared.
    Dim,
    /// A null in a row that differs.
    Null,
    /// A key column's value.
    Key,
    /// A compared value that differs between the files.
    Changed,
    /// A value of a row only the first file has.
    Added,
    /// A value of a row only the second file has.
    Removed,
    Plain,
}

/// The look of a diff cell from its row's marker, whether it is null,
/// whether its column is a key or a compared column, and whether the
/// compared values differ.
pub open spec fn diff_cell_spec(m: DiffMarker, is_null: bool, is_key: bool, is_diff: bool, changed: bool) -> DiffCellLook {
    if is_null {
        if m == DiffMarker::Common { DiffCellLook::Dim } else { DiffCellLook::Null }
    } else if m == DiffMarker::Common {
        DiffCellLook::Dim
    } else if is_key {
        DiffCellLook::Key
    } else if is_diff && m == DiffMarker::Changed && changed {
        DiffCellLook::Changed
    } else if !is_diff {
        DiffCellLook::Dim
    } else {
        match m {
            DiffMarker::OnlyA => DiffCellLook::Added,
            DiffMarker::OnlyB => DiffCellLook::Removed,
            _ => DiffCellLook::Plain,
        }
    }
}

/// Decide how a diff cell shows.
pub fn diff_cell_look(m: DiffMarker, is_null: bool, is_key: bool, is_diff: bool, changed: bool) -> (r: DiffCellLook)
    ensures
        r == diff_cell_spec(m, is_null, is_key, is_diff, changed),
{
    if is_null {
        return if m == DiffMarker::Common { DiffCellLook::Dim } else { DiffCellLook::Null };
    }
    if m == DiffMarker::Common {
        DiffCellLook::Dim
    } else if is_key {
        DiffCellLook::Key
    } else if is_diff && m == DiffMarker::Changed && changed {
        DiffCellLook::Changed
    } else if !is_diff {
        DiffCellLook::Dim
    } else {
        match m {
            DiffMarker::OnlyA => DiffCellLook::Added,
            DiffMarker::OnlyB => DiffCellLook::Removed,
            _ => DiffCellLook::Plain,
        }
    }
}

/// A value as the preview shows it: a null as `NULL`.
pub open spec fn shown_value(v: Option<Seq<char>>) -> Seq<char> {
    match v {
        Some(t) => t,
        None => "NULL"@,
    }
}

/// The preview of a changed cell: `name: "old" → "new"`.
pub open spec fn preview_spec(name: Seq<char>, old: Option<Seq<char>>, new: Option<Seq<char>>) -> Seq<char> {
    name + ": \""@ + shown_value(old) + "\" \u{2192} \""@ + shown_value(new) + "\""@
}

/// The optional view of an optional text.
pub open spec fn opt_text(v: Option<&str>) -> Option<Seq<char>> {
    match v {
        Some(t) => Some(t@),
        None => None,
    }
}

/// Build the preview of a changed cell from the second file's value (old)
/// and the first file's value (new).
pub fn cell_preview(name: &str, old: Option<&str>, new: Option<&str>) -> (r: String)
    ensures
        r@ == preview_spec(name@, opt_text(old), opt_text(new)),
{
    let mut s = String::new();
    push_str(&mut s, name);
    push_str(&mut s, ": \"");
    match old {
        Some(t) => push_str(&mut s, t),
        None => push_str(&mut s, "NULL"),
    }
    push_str(&mut s, "\" \u{2192} \"");
    match new {
        Some(t) => push_str(&mut s, t),
        None => push_str(&mut s, "NULL"),
    }
    push_str(&mut s, "\"");
    s
}

/// The diff view's header line.
pub open spec fn diff_header_spec(file_a: Seq<char>, file_b: Seq<char>, c: DiffCounts, hide_common: bool) -> Seq<char> {
    " Diff: "@ + file_a + " vs "@ + file_b + " | "@ + counts_message_spec(c)
        + (if hide_common { " [changes only]"@ } else { Seq::empty() })
}

/// Build the diff view's header line.
pub fn diff_header(file_a: &str, file_b: &str, c: &DiffCounts, hide_common: bool) -> (r: String)
    ensures
        r@ == diff_header_spec(file_a@, file_b@, *c, hide_common),
{
    let mut s = String::new();
    push_str(&mut s, " Diff: ");
    push_str(&mut s, file_a);
    push_str(&mut s, " vs ");
    push_str(&mut s, file_b);
    push_str(&mut s, " | ");
    let counts = counts_message(c);
    push_str(&mut s, counts.as_str());
    if hide_common {
        push_str(&mut s, " [changes only]");
    }
    s
}

} // verus!
