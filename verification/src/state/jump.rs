//! Column jump overlay state: find a column by (part of) its name and jump to it.
use vstd::prelude::*;

use crate::text::{chars_of, find_chars, find_spec, matches_at, occurs_at, to_lower, unicode_lower};

verus! {

/// `q` starts `s`.
pub open spec fn has_prefix(s: Seq<char>, q: Seq<char>) -> bool {
    occurs_at(s, q, 0)
}

/// The lowercase form of `name` starts with `q`.
#[verifier::opaque]
pub open spec fn matches_prefix(name: Seq<char>, q: Seq<char>) -> bool {
    has_prefix(unicode_lower(name), q)
}

/// The lowercase form of `name` contains `q` but does not start with it.
#[verifier::opaque]
pub open spec fn matches_inner(name: Seq<char>, q: Seq<char>) -> bool {
    !has_prefix(unicode_lower(name), q) && find_spec(unicode_lower(name), q) is Some
}

/// Indices of names whose lowercase form starts with `q`, in order.
pub open spec fn prefix_hits(names: Seq<Seq<char>>, q: Seq<char>) -> Seq<usize>
    decreases names.len(),
{
    if names.len() == 0 {
        Seq::empty()
    } else if matches_prefix(names.last(), q) {
        prefix_hits(names.drop_last(), q).push((names.len() - 1) as usize)
    } else {
        prefix_hits(names.drop_last(), q)
    }
}

/// Indices of names whose lowercase form contains `q` but does not start with it, in order.
pub open spec fn inner_hits(names: Seq<Seq<char>>, q: Seq<char>) -> Seq<usize>
    decreases names.len(),
{
    if names.len() == 0 {
        Seq::empty()
    } else if matches_inner(names.last(), q) {
        inner_hits(names.drop_last(), q).push((names.len() - 1) as usize)
    } else {
        inner_hits(names.drop_last(), q)
    }
}

/// `0, 1, .., n - 1`.
pub open spec fn all_indices(n: nat) -> Seq<usize> {
    Seq::new(n, |i: int| i as usize)
}

/// The filtered list for a query: all columns for an empty query, else
/// prefix matches first, then the other substring matches (case-insensitive).
pub open spec fn refilter_spec(names: Seq<Seq<char>>, query: Seq<char>) -> Seq<usize> {
    let q = unicode_lower(query);
    if q.len() == 0 {
        all_indices(names.len())
    } else {
        prefix_hits(names, q) + inner_hits(names, q)
    }
}

/// Column jump overlay state: fuzzy-find a column and jump to it.
pub struct ColumnJumpState {
    pub query: String,
    /// All columns: (original_col_idx, name).
    pub all_columns: Vec<(usize, String)>,
    /// Indices into `all_columns` that match the current query.
    pub filtered: Vec<usize>,
    /// Cursor position within `filtered`.
    pub cursor: usize,
}

impl ColumnJumpState {
    /// The column names, in `all_columns` order.
    pub open spec fn names(&self) -> Seq<Seq<char>> {
        self.all_columns@.map_values(|p: (usize, String)| p.1@)
    }

    /// Every filtered index points into `all_columns`.
    pub open spec fn wf(&self) -> bool {
        forall|i: int| 0 <= i < self.filtered@.len() ==> self.filtered@[i] < self.all_columns@.len()
    }

    pub fn new() -> (r: Self)
        ensures
            r.query@ == Seq::<char>::empty(),
            r.all_columns@.len() == 0,
            r.filtered@.len() == 0,
            r.cursor == 0,
            r.wf(),
    {
        ColumnJumpState { query: String::new(), all_columns: Vec::new(), filtered: Vec::new(), cursor: 0 }
    }

    /// Populate with column names from schema.
    pub fn populate(&mut self, columns: Vec<(usize, String)>)
        ensures
            final(self).all_columns@ == columns@,
            final(self).query@ == Seq::<char>::empty(),
            final(self).filtered@ == refilter_spec(final(self).names(), Seq::<char>::empty()),
            final(self).cursor == 0,
            final(self).wf(),
    {
        self.all_columns = columns;
        self.query = String::new();
        self.cursor = 0;
        self.refilter();
    }

    /// Refilter columns based on current query (case-insensitive substring, prefix preferred).
    pub fn refilter(&mut self)
        ensures
            final(self).all_columns@ == old(self).all_columns@,
            final(self).query@ == old(self).query@,
            final(self).filtered@ == refilter_spec(old(self).names(), old(self).query@),
            final(self).cursor == if final(self).filtered@.len() == 0 {
                0
            } else if old(self).cursor < final(self).filtered@.len() {
                old(self).cursor as int
            } else {
                final(self).filtered@.len() - 1
            },
            final(self).wf(),
    {
        let ql = to_lower(self.query.as_str());
        let q = chars_of(ql.as_str());
        let ghost names = self.names();
        let n = self.all_columns.len();
        if q.len() == 0 {
            let mut all: Vec<usize> = Vec::new();
            let mut i: usize = 0;
            while i < n
                invariant
                    n == self.all_columns@.len(),
                    i <= n,
                    all@ == all_indices(i as nat),
                decreases n - i,
            {
                all.push(i);
                i += 1;
                assert(all@ =~= all_indices(i as nat));
            }
            self.filtered = all;
        } else {
            let mut prefix: Vec<usize> = Vec::new();
            let mut substring: Vec<usize> = Vec::new();
            let mut i: usize = 0;
            while i < n
                invariant
                    n == self.all_columns@.len(),
                    names == self.names(),
                    q@ == unicode_lower(self.query@),
                    i <= n,
                    prefix@ == prefix_hits(names.take(i as int), q@),
                    substring@ == inner_hits(names.take(i as int), q@),
                decreases n - i,
            {
                let lower_s = to_lower(self.all_columns[i].1.as_str());
                let lower = chars_of(lower_s.as_str());
                proof {
                    let t = names.take(i + 1);
                    assert(t.drop_last() =~= names.take(i as int));
                    assert(t.last() == self.all_columns@[i as int].1@);
                    assert(t.len() - 1 == i);
                    reveal(matches_prefix);
                    reveal(matches_inner);
                }
                if matches_at(&lower, &q, 0) {
                    prefix.push(i);
                } else if find_chars(&lower, &q).is_some() {
                    substring.push(i);
                }
                i += 1;
            }
            assert(names.take(n as int) =~= names);
            prefix.append(&mut substring);
            self.filtered = prefix;
        }
        proof {
            lemma_refilter_in_range(names, self.query@);
            assert(names.len() == self.all_columns@.len());
        }
        if self.filtered.len() != 0 {
            let last = self.filtered.len() - 1;
            if self.cursor > last {
                self.cursor = last;
            }
        } else {
            self.cursor = 0;
        }
    }

    pub fn move_up(&mut self)
        ensures
            final(self).cursor == if old(self).cursor > 0 { old(self).cursor - 1 } else { 0 },
            final(self).query@ == old(self).query@,
            final(self).all_columns@ == old(self).all_columns@,
            final(self).filtered@ == old(self).filtered@,
    {
        self.cursor = self.cursor.saturating_sub(1);
    }

    pub fn move_down(&mut self)
        requires
            old(self).filtered@.len() == 0 || old(self).cursor < usize::MAX,
        ensures
            final(self).cursor == if old(self).cursor + 1 < old(self).filtered@.len() {
                old(self).cursor + 1
            } else {
                old(self).cursor as int
            },
            final(self).query@ == old(self).query@,
            final(self).all_columns@ == old(self).all_columns@,
            final(self).filtered@ == old(self).filtered@,
    {
        if self.filtered.len() != 0 && self.cursor + 1 < self.filtered.len() {
            self.cursor = self.cursor + 1;
        }
    }

    /// The table column index of the selected item, if any.
    pub fn selected_col_idx(&self) -> (r: Option<usize>)
        requires
            self.wf(),
        ensures
            r == if self.cursor < self.filtered@.len() {
                Some(self.all_columns@[self.filtered@[self.cursor as int] as int].0)
            } else {
                None::<usize>
            },
    {
        if self.cursor < self.filtered.len() {
            let all_idx = self.filtered[self.cursor];
            Some(self.all_columns[all_idx].0)
        } else {
            None
        }
    }

    pub fn clear(&mut self)
        ensures
            final(self).query@ == Seq::<char>::empty(),
            final(self).all_columns@.len() == 0,
            final(self).filtered@.len() == 0,
            final(self).cursor == 0,
            final(self).wf(),
    {
        self.query = String::new();
        self.all_columns.clear();
        self.filtered.clear();
        self.cursor = 0;
    }
}

/// The prefix hit list only holds indices of existing names.
pub proof fn lemma_prefix_hits_in_range(names: Seq<Seq<char>>, q: Seq<char>)
    ensures
        forall|i: int| 0 <= i < prefix_hits(names, q).len() ==> prefix_hits(names, q)[i] < names.len(),
    decreases names.len(),
{
    if names.len() > 0 {
        let d = names.drop_last();
        lemma_prefix_hits_in_range(d, q);
        let h = prefix_hits(names, q);
        let hd = prefix_hits(d, q);
        assert forall|i: int| 0 <= i < h.len() implies h[i] < names.len() by {
            if i < hd.len() {
                assert(h[i] == hd[i]);
            }
        }
    }
}

/// The inner hit list only holds indices of existing names.
pub proof fn lemma_inner_hits_in_range(names: Seq<Seq<char>>, q: Seq<char>)
    ensures
        forall|i: int| 0 <= i < inner_hits(names, q).len() ==> inner_hits(names, q)[i] < names.len(),
    decreases names.len(),
{
    if names.len() > 0 {
        let d = names.drop_last();
        lemma_inner_hits_in_range(d, q);
        let h = inner_hits(names, q);
        let hd = inner_hits(d, q);
        assert forall|i: int| 0 <= i < h.len() implies h[i] < names.len() by {
            if i < hd.len() {
                assert(h[i] == hd[i]);
            }
        }
    }
}

proof fn lemma_refilter_in_range(names: Seq<Seq<char>>, query: Seq<char>)
    ensures
        forall|i: int| 0 <= i < refilter_spec(names, query).len() ==> refilter_spec(names, query)[i] < names.len(),
{
    let q = unicode_lower(query);
    lemma_prefix_hits_in_range(names, q);
    lemma_inner_hits_in_range(names, q);
    if q.len() > 0 {
        let r = refilter_spec(names, query);
        let p = prefix_hits(names, q);
        assert forall|i: int| 0 <= i < r.len() implies r[i] < names.len() by {
            if i < p.len() { assert(r[i] == p[i]); } else { assert(r[i] == inner_hits(names, q)[i - p.len()]); }
        }
    }
}

proof fn lemma_push_contains(s: Seq<usize>, v: usize, x: usize)
    ensures
        s.push(v).contains(x) <==> (s.contains(x) || x == v),
{
    if s.push(v).contains(x) {
        let j = choose|j: int| 0 <= j < s.push(v).len() && s.push(v)[j] == x;
        if j < s.len() { assert(s[j] == x); }
    }
    if s.contains(x) {
        let j = choose|j: int| 0 <= j < s.len() && s[j] == x;
        assert(s.push(v)[j] == x);
    }
    if x == v {
        assert(s.push(v)[s.len() as int] == x);
    }
}

/// Law: a column is among the prefix hits exactly when its lowercase name
/// starts with the (lowercase) query, and among the other hits exactly when
/// its lowercase name contains the query elsewhere; prefix hits are listed first.
pub proof fn law_refilter_offers_exactly_the_matches(names: Seq<Seq<char>>, q: Seq<char>, k: usize)
    requires
        k < names.len(),
        names.len() <= usize::MAX,
    ensures
        prefix_hits(names, q).contains(k) <==> matches_prefix(names[k as int], q),
        inner_hits(names, q).contains(k) <==> matches_inner(names[k as int], q),
    decreases names.len(),
{
    let d = names.drop_last();
    let last = (names.len() - 1) as usize;
    lemma_prefix_hits_in_range(d, q);
    lemma_inner_hits_in_range(d, q);
    let hdp = prefix_hits(d, q);
    let hdi = inner_hits(d, q);
    lemma_push_contains(hdp, last, k);
    lemma_push_contains(hdi, last, k);
    if k < names.len() - 1 {
        law_refilter_offers_exactly_the_matches(d, q, k);
        assert(d[k as int] == names[k as int]);
        assert(last != k);
    } else {
        assert(names.last() == names[k as int]);
        if hdp.contains(k) {
            let j = choose|j: int| 0 <= j < hdp.len() && hdp[j] == k;
            assert(hdp[j] < d.len());
        }
        if hdi.contains(k) {
            let j = choose|j: int| 0 <= j < hdi.len() && hdi[j] == k;
            assert(hdi[j] < d.len());
        }
    }
}

} // verus!
