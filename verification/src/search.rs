//! Search terms: a term is a case-insensitive regular expression, and a
//! cell matches when the expression matches somewhere in its text.
use vstd::prelude::*;


verus! {

/// Whether the `regex` crate builds a case-insensitive expression from
/// `pattern` (with its default limits).
pub uninterp spec fn ci_regex_builds(pattern: Seq<char>) -> bool;

/// Whether the case-insensitive expression built from `pattern` matches
/// somewhere in `text`.
pub uninterp spec fn ci_regex_matches(pattern: Seq<char>, text: Seq<char>) -> bool;

/// `regex::RegexBuilder::new(pattern).case_insensitive(true).build()`,
/// reporting whether it succeeds. The result is named; which patterns the
/// crate accepts is left to it.
#[verifier::external_body]
fn regex_builds(pattern: &str) -> (r: bool)
    ensures
        r == ci_regex_builds(pattern@),
{
    regex::RegexBuilder::new(pattern).case_insensitive(true).build().is_ok()
}

/// `Regex::is_match` on the case-insensitive expression built from
/// `pattern`: whether it matches somewhere in `text`. The result is named;
/// the matching itself is the crate's.
#[verifier::external_body]
fn regex_is_match(pattern: &str, text: &str) -> (r: bool)
    requires
        ci_regex_builds(pattern@),
    ensures
        r == ci_regex_matches(pattern@, text@),
{
    match regex::RegexBuilder::new(pattern).case_insensitive(true).build() {
        Ok(re) => re.is_match(text),
        Err(_) => false,
    }
}

/// `Regex::is_match` of the case-insensitive expression built once from
/// `pattern`, on each text in turn. Each result is named as for
/// `regex_is_match`.
#[verifier::external_body]
fn regex_matches_each(pattern: &str, texts: &Vec<String>) -> (r: Vec<bool>)
    requires
        ci_regex_builds(pattern@),
    ensures
        r@.len() == texts@.len(),
        forall|i: int| 0 <= i < texts@.len() ==> r@[i] == ci_regex_matches(pattern@, #[trigger] texts@[i]@),
{
    match regex::RegexBuilder::new(pattern).case_insensitive(true).build() {
        Ok(re) => texts.iter().map(|t| re.is_match(t)).collect(),
        Err(_) => vec![false; texts.len()],
    }
}

/// A search term that reads as a case-insensitive regular expression.
pub struct SearchMatcher {
    pattern: String,
}

impl SearchMatcher {
    /// The term searched for.
    pub closed spec fn term(&self) -> Seq<char> {
        self.pattern@
    }

    /// The term reads as an expression.
    pub closed spec fn wf(&self) -> bool {
        ci_regex_builds(self.pattern@)
    }

    /// A matcher for `term`; `None` when the term is not a valid expression.
    pub fn new(term: &str) -> (r: Option<Self>)
        ensures
            ci_regex_builds(term@) ==> (r matches Some(m) && m.term() == term@ && m.wf()),
            !ci_regex_builds(term@) ==> r is None,
    {
        if regex_builds(term) {
            Some(SearchMatcher { pattern: term.to_owned() })
        } else {
            None
        }
    }

    /// Whether the term matches somewhere in `val`.
    pub fn is_match(&self, val: &str) -> (r: bool)
        requires
            self.wf(),
        ensures
            r == ci_regex_matches(self.term(), val@),
    {
        regex_is_match(self.pattern.as_str(), val)
    }

    /// Whether the term matches somewhere in each of `texts`.
    pub fn matches_each(&self, texts: &Vec<String>) -> (r: Vec<bool>)
        requires
            self.wf(),
        ensures
            r@.len() == texts@.len(),
            forall|i: int| 0 <= i < texts@.len() ==> r@[i] == ci_regex_matches(self.term(), #[trigger] texts@[i]@),
    {
        regex_matches_each(self.pattern.as_str(), texts)
    }
}

/// The rows (in order) whose cells include one that the matcher matches;
/// `cells[r]` holds the texts of row `r`'s non-null cells.
pub open spec fn matching_rows_upto(term: Seq<char>, cells: Seq<Seq<Seq<char>>>, n: int) -> Seq<usize>
    decreases n,
{
    if n <= 0 {
        Seq::empty()
    } else {
        let prev = matching_rows_upto(term, cells, n - 1);
        if exists|c: int| 0 <= c < cells[n - 1].len() && ci_regex_matches(term, #[trigger] cells[n - 1][c]) {
            prev.push((n - 1) as usize)
        } else {
            prev
        }
    }
}

/// The texts of each row's cells.
pub open spec fn rows_view(rows: Seq<Vec<String>>) -> Seq<Seq<Seq<char>>> {
    rows.map_values(|r: Vec<String>| crate::text::strings_view(r@))
}

/// Whether any of `len` flags from `start` on is set.
fn any_hit(hits: &Vec<bool>, start: usize, len: usize) -> (r: bool)
    requires
        start + len <= hits@.len(),
    ensures
        r == exists|k: int| 0 <= k < len && #[trigger] hits@[start + k],
{
    let n = hits.len();
    let mut c: usize = 0;
    while c < len
        invariant
            n == hits@.len(),
            start + len <= n,
            c <= len,
            forall|k: int| 0 <= k < c ==> !#[trigger] hits@[start + k],
        decreases len - c,
    {
        if hits[start + c] {
            assert(hits@[start + c as int]);
            return true;
        }
        c += 1;
    }
    false
}

/// The rows, in order, that have a cell the matcher matches. The texts are
/// gathered into one list so that the expression is built once.
pub fn matching_rows(m: &SearchMatcher, rows: &Vec<Vec<String>>) -> (r: Vec<usize>)
    requires
        m.wf(),
    ensures
        r@ == matching_rows_upto(m.term(), rows_view(rows@), rows@.len() as int),
{
    let ghost rv = rows_view(rows@);
    let mut flat: Vec<String> = Vec::new();
    let mut starts: Vec<usize> = Vec::new();
    let mut i: usize = 0;
    while i < rows.len()
        invariant
            i <= rows@.len(),
            rv == rows_view(rows@),
            starts@.len() == i,
            forall|r: int| 0 <= r < i ==> starts@[r] + rows@[r]@.len() <= flat@.len(),
            forall|r: int, c: int| 0 <= r < i && 0 <= c < rows@[r]@.len()
                ==> flat@[starts@[r] + c]@ == #[trigger] rv[r][c],
        decreases rows@.len() - i,
    {
        let start = flat.len();
        let row = &rows[i];
        let mut c: usize = 0;
        while c < row.len()
            invariant
                i < rows@.len(),
                row == rows@[i as int],
                rv == rows_view(rows@),
                c <= row@.len(),
                start + c == flat@.len(),
                starts@.len() == i,
                forall|r: int| 0 <= r < i ==> starts@[r] + rows@[r]@.len() <= start,
                forall|r: int, k: int| 0 <= r < i && 0 <= k < rows@[r]@.len()
                    ==> flat@[starts@[r] + k]@ == #[trigger] rv[r][k],
                forall|k: int| 0 <= k < c ==> flat@[start + k]@ == rv[i as int][k],
            decreases row@.len() - c,
        {
            assert(rv[i as int][c as int] == row@[c as int]@);
            flat.push(row[c].as_str().to_owned());
            c += 1;
        }
        starts.push(start);
        i += 1;
    }
    let hits = m.matches_each(&flat);
    let mut out: Vec<usize> = Vec::new();
    let mut r: usize = 0;
    while r < rows.len()
        invariant
            r <= rows@.len(),
            m.wf(),
            rv == rows_view(rows@),
            starts@.len() == rows@.len(),
            hits@.len() == flat@.len(),
            forall|k: int| 0 <= k < flat@.len() ==> hits@[k] == ci_regex_matches(m.term(), #[trigger] flat@[k]@),
            forall|q: int| 0 <= q < rows@.len() ==> starts@[q] + rows@[q]@.len() <= flat@.len(),
            forall|q: int, c: int| 0 <= q < rows@.len() && 0 <= c < rows@[q]@.len()
                ==> flat@[starts@[q] + c]@ == #[trigger] rv[q][c],
            out@ == matching_rows_upto(m.term(), rv, r as int),
        decreases rows@.len() - r,
    {
        let start = starts[r];
        let len = rows[r].len();
        let any = any_hit(&hits, start, len);
        proof {
            assert(rv[r as int].len() == len);
            assert forall|k: int| 0 <= k < len implies hits@[start + k] == ci_regex_matches(m.term(), #[trigger] rv[r as int][k]) by {
                assert(flat@[start + k]@ == rv[r as int][k]);
            }
            if any {
                let k = choose|k: int| 0 <= k < len && #[trigger] hits@[start + k];
                assert(ci_regex_matches(m.term(), rv[r as int][k]));
            }
        }
        if any {
            out.push(r);
        }
        r += 1;
    }
    out
}

/// The first column whose cell is not null and matches, if any.
pub open spec fn first_matching_cell(term: Seq<char>, cells: Seq<Option<String>>) -> Option<usize> {
    if exists|c: int| 0 <= c < cells.len() && cell_hit(term, #[trigger] cells[c]) {
        let c = choose|c: int| 0 <= c < cells.len() && cell_hit(term, cells[c])
            && forall|d: int| 0 <= d < c ==> !cell_hit(term, #[trigger] cells[d]);
        Some(c as usize)
    } else {
        None
    }
}

/// A cell that is not null and that the term matches.
pub open spec fn cell_hit(term: Seq<char>, cell: Option<String>) -> bool {
    match cell {
        Some(t) => ci_regex_matches(term, t@),
        None => false,
    }
}

/// The first column of a row whose (non-null) cell the matcher matches.
pub fn matching_column(m: &SearchMatcher, cells: &Vec<Option<String>>) -> (r: Option<usize>)
    requires
        m.wf(),
    ensures
        match r {
            Some(c) => c < cells@.len() && cell_hit(m.term(), cells@[c as int])
                && forall|d: int| 0 <= d < c ==> !cell_hit(m.term(), #[trigger] cells@[d]),
            None => forall|d: int| 0 <= d < cells@.len() ==> !cell_hit(m.term(), #[trigger] cells@[d]),
        },
        r == first_matching_cell(m.term(), cells@),
{
    let mut i: usize = 0;
    while i < cells.len()
        invariant
            i <= cells@.len(),
            m.wf(),
            forall|d: int| 0 <= d < i ==> !cell_hit(m.term(), #[trigger] cells@[d]),
        decreases cells@.len() - i,
    {
        let hit = match &cells[i] {
            Some(t) => m.is_match(t.as_str()),
            None => false,
        };
        if hit {
            let ghost c = i as int;
            proof {
                assert(cell_hit(m.term(), cells@[c]));
                let k = choose|k: int| 0 <= k < cells@.len() && cell_hit(m.term(), cells@[k])
                    && forall|d: int| 0 <= d < k ==> !cell_hit(m.term(), #[trigger] cells@[d]);
                assert(0 <= c < cells@.len() && cell_hit(m.term(), cells@[c])
                    && forall|d: int| 0 <= d < c ==> !cell_hit(m.term(), #[trigger] cells@[d]));
                if k < c {
                    assert(!cell_hit(m.term(), cells@[k]));
                } else if k > c {
                    assert(!cell_hit(m.term(), cells@[c]));
                }
            }
            return Some(i);
        }
        i += 1;
    }
    None
}

} // verus!
