//! Sort specifications: the ordered list of columns that the data is sorted
//! by, and the SQL `ORDER BY` clause built from it.
use vstd::prelude::*;

use crate::text::{decimal, push_char, push_str};

verus! {

/// Direction of one column's sort.
#[derive(Debug, Clone, Copy, PartialEq, Eq, Structural)]
pub enum SortOrder {
    Ascending,
    Descending,
}

/// The SQL keyword of a direction.
pub open spec fn order_sql(o: SortOrder) -> Seq<char> {
    match o {
        SortOrder::Ascending => "ASC"@,
        SortOrder::Descending => "DESC"@,
    }
}

/// The other direction.
pub open spec fn flip(o: SortOrder) -> SortOrder {
    match o {
        SortOrder::Ascending => SortOrder::Descending,
        SortOrder::Descending => SortOrder::Ascending,
    }
}

impl SortOrder {
    /// `"ASC"` or `"DESC"`.
    pub fn as_sql(&self) -> (r: &'static str)
        ensures
            r@ == order_sql(*self),
    {
        match self {
            SortOrder::Ascending => "ASC",
            SortOrder::Descending => "DESC",
        }
    }

    /// The opposite direction.
    pub fn toggle(&self) -> (r: SortOrder)
        ensures
            r == flip(*self),
    {
        match self {
            SortOrder::Ascending => SortOrder::Descending,
            SortOrder::Descending => SortOrder::Ascending,
        }
    }

    /// The arrow shown next to a sorted column header.
    pub fn indicator(&self) -> (r: &'static str)
        ensures
            *self == SortOrder::Ascending ==> r@ == "\u{25b2}"@,
            *self == SortOrder::Descending ==> r@ == "\u{25bc}"@,
    {
        match self {
            SortOrder::Ascending => "\u{25b2}",
            SortOrder::Descending => "\u{25bc}",
        }
    }
}

/// A single column sort specification.
#[derive(Debug, PartialEq, Eq)]
pub struct SortSpec {
    pub column: String,
    pub order: SortOrder,
}

impl View for SortSpec {
    type V = (Seq<char>, SortOrder);

    open spec fn view(&self) -> (Seq<char>, SortOrder) {
        (self.column@, self.order)
    }
}

impl Clone for SortSpec {
    fn clone(&self) -> (r: Self)
        ensures
            r@ == self@,
    {
        SortSpec { column: self.column.clone(), order: self.order }
    }
}

/// Manages an ordered list of sort specifications.
/// The first spec has highest priority in the ORDER BY clause.
#[derive(Debug)]
pub struct SortState {
    specs: Vec<SortSpec>,
}

/// The first index whose column is `col`.
pub open spec fn position_spec(s: Seq<(Seq<char>, SortOrder)>, col: Seq<char>) -> Option<int> {
    if exists|i: int| 0 <= i < s.len() && s[i].0 == col {
        Some(choose|i: int| 0 <= i < s.len() && s[i].0 == col && forall|j: int| 0 <= j < i ==> s[j].0 != col)
    } else {
        None
    }
}

/// The sort direction of `col`, if it is sorted.
pub open spec fn order_of(s: Seq<(Seq<char>, SortOrder)>, col: Seq<char>) -> Option<SortOrder> {
    match position_spec(s, col) {
        Some(p) => Some(s[p].1),
        None => None,
    }
}

/// No column is listed twice.
pub open spec fn distinct_columns(s: Seq<(Seq<char>, SortOrder)>) -> bool {
    forall|i: int, j: int| 0 <= i < s.len() && 0 <= j < s.len() && i != j ==> s[i].0 != s[j].0
}

/// What one toggle of `col` does: add it ascending at the end, turn
/// ascending into descending in place, or drop a descending column.
pub open spec fn toggle_spec(s: Seq<(Seq<char>, SortOrder)>, col: Seq<char>) -> Seq<(Seq<char>, SortOrder)> {
    match position_spec(s, col) {
        Some(p) => match s[p].1 {
            SortOrder::Ascending => s.update(p, (col, SortOrder::Descending)),
            SortOrder::Descending => s.remove(p),
        },
        None => s.push((col, SortOrder::Ascending)),
    }
}

/// `"col" ASC` for one spec.
pub open spec fn spec_sql_part(p: (Seq<char>, SortOrder)) -> Seq<char> {
    seq!['"'] + p.0 + seq!['"', ' '] + order_sql(p.1)
}

/// The parts joined with `", "`.
pub open spec fn order_by_sql(s: Seq<(Seq<char>, SortOrder)>) -> Seq<char>
    decreases s.len(),
{
    if s.len() == 0 {
        Seq::empty()
    } else if s.len() == 1 {
        spec_sql_part(s[0])
    } else {
        order_by_sql(s.drop_last()) + ", "@ + spec_sql_part(s.last())
    }
}

/// The next state of a column's direction under one toggle.
pub open spec fn next_order(o: Option<SortOrder>) -> Option<SortOrder> {
    match o {
        None => Some(SortOrder::Ascending),
        Some(SortOrder::Ascending) => Some(SortOrder::Descending),
        Some(SortOrder::Descending) => None,
    }
}

/// Whether two string slices hold the same characters.
pub fn str_eq(a: &str, b: &str) -> (r: bool)
    ensures
        r == (a@ == b@),
{
    let av = crate::text::chars_of(a);
    let bv = crate::text::chars_of(b);
    if av.len() != bv.len() {
        return false;
    }
    let mut i: usize = 0;
    while i < av.len()
        invariant
            av@ == a@,
            bv@ == b@,
            av@.len() == bv@.len(),
            i <= av@.len(),
            forall|k: int| 0 <= k < i ==> av@[k] == bv@[k],
        decreases av.len() - i,
    {
        if av[i] != bv[i] {
            return false;
        }
        i += 1;
    }
    assert(av@ =~= bv@);
    true
}

impl View for SortState {
    type V = Seq<(Seq<char>, SortOrder)>;

    closed spec fn view(&self) -> Seq<(Seq<char>, SortOrder)> {
        self.specs@.map_values(|s: SortSpec| s@)
    }
}

impl Default for SortState {
    fn default() -> (r: Self)
        ensures
            r@ == Seq::<(Seq<char>, SortOrder)>::empty(),
            r.wf(),
    {
        let r = SortState { specs: Vec::new() };
        assert(r@ =~= Seq::<(Seq<char>, SortOrder)>::empty());
        r
    }
}

impl Clone for SortState {
    fn clone(&self) -> (r: Self)
        ensures
            r@ == self@,
    {
        let mut v: Vec<SortSpec> = Vec::new();
        let mut i: usize = 0;
        while i < self.specs.len()
            invariant
                i <= self.specs@.len(),
                v@.len() == i,
                forall|k: int| 0 <= k < i ==> v@[k]@ == self.specs@[k]@,
            decreases self.specs.len() - i,
        {
            v.push(self.specs[i].clone());
            i += 1;
        }
        let r = SortState { specs: v };
        assert(r@ =~= self@);
        r
    }
}

impl SortState {
    /// The state's invariant: no column is listed twice.
    pub open spec fn wf(&self) -> bool {
        distinct_columns(self@)
    }

    /// Index of the first spec for `column` (exec).
    fn find(&self, column: &str) -> (r: Option<usize>)
        ensures
            match r {
                Some(p) => position_spec(self@, column@) == Some(p as int),
                None => position_spec(self@, column@) is None,
            },
            r matches Some(p) ==> p < self.specs@.len() && self@[p as int] == self.specs@[p as int]@,
    {
        let mut i: usize = 0;
        while i < self.specs.len()
            invariant
                i <= self.specs@.len(),
                forall|j: int| 0 <= j < i ==> self@[j].0 != column@,
            decreases self.specs.len() - i,
        {
            if str_eq(self.specs[i].column.as_str(), column) {
                proof {
                    let s = self@;
                    let w = choose|w: int| 0 <= w < s.len() && s[w].0 == column@ && forall|j: int| 0 <= j < w ==> s[j].0 != column@;
                    assert(s[i as int].0 == column@);
                    if w < i { assert(s[w].0 != column@); }
                    if w > i { assert(s[i as int].0 != column@); }
                }
                return Some(i);
            }
            i += 1;
        }
        None
    }

    /// Toggle sorting for a column.
    /// If column not present: add as ASC.
    /// If ASC: change to DESC.
    /// If DESC: remove it.
    pub fn toggle(&mut self, column: &str)
        requires
            old(self).wf(),
        ensures
            final(self)@ == toggle_spec(old(self)@, column@),
            final(self).wf(),
    {
        proof { lemma_toggle_wf(self@, column@); }
        match self.find(column) {
            Some(pos) => {
                match self.specs[pos].order {
                    SortOrder::Ascending => {
                        let mut s = self.specs.remove(pos);
                        s.order = SortOrder::Descending;
                        self.specs.insert(pos, s);
                        assert(self@ =~= toggle_spec(old(self)@, column@));
                    }
                    SortOrder::Descending => {
                        self.specs.remove(pos);
                        assert(self@ =~= toggle_spec(old(self)@, column@));
                    }
                }
            }
            None => {
                self.specs.push(SortSpec { column: column.to_owned(), order: SortOrder::Ascending });
                assert(self@ =~= toggle_spec(old(self)@, column@));
            }
        }
    }

    /// Remove all sort specs.
    pub fn clear(&mut self)
        ensures
            final(self)@ == Seq::<(Seq<char>, SortOrder)>::empty(),
            final(self).wf(),
    {
        self.specs.clear();
        assert(self@ =~= Seq::<(Seq<char>, SortOrder)>::empty());
    }

    /// Get the ordered list of sort specifications.
    pub fn specs(&self) -> (r: &[SortSpec])
        ensures
            r@.len() == self@.len(),
            forall|i: int| 0 <= i < r@.len() ==> r@[i]@ == self@[i],
    {
        self.specs.as_slice()
    }

    /// Returns true if there are no sort specifications.
    pub fn is_empty(&self) -> (r: bool)
        ensures
            r == (self@.len() == 0),
    {
        self.specs.len() == 0
    }

    /// Find a column's 0-based position in the sort order.
    pub fn position(&self, column: &str) -> (r: Option<usize>)
        ensures
            match r {
                Some(p) => position_spec(self@, column@) == Some(p as int),
                None => position_spec(self@, column@) is None,
            },
    {
        self.find(column)
    }

    /// Get the sort order for a column.
    pub fn order_for(&self, column: &str) -> (r: Option<&SortOrder>)
        ensures
            match r {
                Some(o) => order_of(self@, column@) == Some(*o),
                None => order_of(self@, column@) is None,
            },
    {
        match self.find(column) {
            Some(p) => Some(&self.specs[p].order),
            None => None,
        }
    }

    /// Build the ORDER BY clause string, e.g. `"col1" ASC, "col2" DESC`.
    /// Returns None if empty.
    pub fn to_sql(&self) -> (r: Option<String>)
        ensures
            match r {
                Some(s) => self@.len() > 0 && s@ == order_by_sql(self@),
                None => self@.len() == 0,
            },
    {
        if self.specs.len() == 0 {
            return None;
        }
        let mut out = String::new();
        let mut i: usize = 0;
        while i < self.specs.len()
            invariant
                i <= self.specs@.len(),
                out@ == order_by_sql(self@.take(i as int)),
            decreases self.specs.len() - i,
        {
            if i > 0 {
                push_str(&mut out, ", ");
            }
            push_char(&mut out, '"');
            push_str(&mut out, self.specs[i].column.as_str());
            push_char(&mut out, '"');
            push_char(&mut out, ' ');
            push_str(&mut out, self.specs[i].order.as_sql());
            proof {
                let t = self@.take(i + 1);
                assert(t.drop_last() =~= self@.take(i as int));
                assert(t.last() == self@[i as int]);
                if i == 0 {
                    assert(out@ =~= spec_sql_part(self@[0]));
                } else {
                    assert(out@ =~= order_by_sql(self@.take(i as int)) + ", "@ + spec_sql_part(self@[i as int]));
                }
            }
            i += 1;
        }
        assert(self@.take(self@.len() as int) =~= self@);
        Some(out)
    }
}

/// Under distinct columns, a column found at `p` is found nowhere else.
/// A found position lies inside the list and names the column.
pub proof fn lemma_position_in(s: Seq<(Seq<char>, SortOrder)>, col: Seq<char>)
    ensures
        position_spec(s, col) matches Some(p) ==> 0 <= p < s.len() && s[p].0 == col,
{
    if exists|i: int| 0 <= i < s.len() && s[i].0 == col {
        let i0 = choose|i: int| 0 <= i < s.len() && s[i].0 == col;
        let f = |i: int| i < s.len() && s[i].0 == col;
        crate::text::lemma_least(f, i0, i0);
        let w = choose|i: int| 0 <= i && #[trigger] f(i) && forall|j: int| 0 <= j < i ==> !#[trigger] f(j);
        assert(0 <= w < s.len() && s[w].0 == col && forall|j: int| 0 <= j < w ==> s[j].0 != col) by {
            assert forall|j: int| 0 <= j < w implies s[j].0 != col by {
                assert(!f(j));
            }
        }
    }
}

pub proof fn lemma_position_unique(s: Seq<(Seq<char>, SortOrder)>, col: Seq<char>, p: int)
    requires
        distinct_columns(s),
        0 <= p < s.len(),
        s[p].0 == col,
    ensures
        position_spec(s, col) == Some(p),
{
    let w = choose|w: int| 0 <= w < s.len() && s[w].0 == col && forall|j: int| 0 <= j < w ==> s[j].0 != col;
    assert(0 <= w < s.len() && s[w].0 == col);
    if w != p {
        assert(s[w].0 != s[p].0);
    }
}

/// One toggle keeps every column listed at most once.
pub proof fn lemma_toggle_wf(s: Seq<(Seq<char>, SortOrder)>, col: Seq<char>)
    requires
        distinct_columns(s),
    ensures
        distinct_columns(toggle_spec(s, col)),
{
    match position_spec(s, col) {
        Some(p) => {
            let w = choose|w: int| 0 <= w < s.len() && s[w].0 == col && forall|j: int| 0 <= j < w ==> s[j].0 != col;
            assert(p == w);
            let t = toggle_spec(s, col);
            assert forall|i: int, j: int| 0 <= i < t.len() && 0 <= j < t.len() && i != j implies t[i].0 != t[j].0 by {
                match s[p].1 {
                    SortOrder::Ascending => {
                        assert(t[i].0 == s[i].0);
                        assert(t[j].0 == s[j].0);
                    }
                    SortOrder::Descending => {
                        let ii = if i < p { i } else { i + 1 };
                        let jj = if j < p { j } else { j + 1 };
                        assert(t[i] == s[ii]);
                        assert(t[j] == s[jj]);
                    }
                }
            }
        }
        None => {
            let t = toggle_spec(s, col);
            assert forall|i: int, j: int| 0 <= i < t.len() && 0 <= j < t.len() && i != j implies t[i].0 != t[j].0 by {
                if i == s.len() as int {
                    assert(s[j].0 != col);
                } else if j == s.len() as int {
                    assert(s[i].0 != col);
                }
            }
        }
    }
}

/// Law: toggling a column moves its direction one step around the cycle
/// not sorted -> ascending -> descending -> not sorted.
pub proof fn law_toggle_cycles_order(s: Seq<(Seq<char>, SortOrder)>, col: Seq<char>)
    requires
        distinct_columns(s),
    ensures
        order_of(toggle_spec(s, col), col) == next_order(order_of(s, col)),
{
    let t = toggle_spec(s, col);
    lemma_toggle_wf(s, col);
    match position_spec(s, col) {
        Some(p) => {
            let w = choose|w: int| 0 <= w < s.len() && s[w].0 == col && forall|j: int| 0 <= j < w ==> s[j].0 != col;
            assert(w == p);
            match s[p].1 {
                SortOrder::Ascending => {
                    lemma_position_unique(t, col, p);
                }
                SortOrder::Descending => {
                    if exists|i: int| 0 <= i < t.len() && t[i].0 == col {
                        let i = choose|i: int| 0 <= i < t.len() && t[i].0 == col;
                        let ii = if i < p { i } else { i + 1 };
                        assert(t[i] == s[ii]);
                        assert(s[ii].0 != s[p].0);
                    }
                }
            }
        }
        None => {
            lemma_position_unique(t, col, s.len() as int);
        }
    }
}

/// Law: toggling one column leaves the direction of every other column as it was.
pub proof fn law_toggle_keeps_other_columns(s: Seq<(Seq<char>, SortOrder)>, col: Seq<char>, other: Seq<char>)
    requires
        distinct_columns(s),
        other != col,
    ensures
        order_of(toggle_spec(s, col), other) == order_of(s, other),
{
    let t = toggle_spec(s, col);
    lemma_toggle_wf(s, col);
    if exists|i: int| 0 <= i < s.len() && s[i].0 == other {
        let q = choose|i: int| 0 <= i < s.len() && s[i].0 == other;
        lemma_position_unique(s, other, q);
        match position_spec(s, col) {
            Some(p) => {
                let w = choose|w: int| 0 <= w < s.len() && s[w].0 == col && forall|j: int| 0 <= j < w ==> s[j].0 != col;
                assert(w == p);
                assert(q != p);
                match s[p].1 {
                    SortOrder::Ascending => {
                        lemma_position_unique(t, other, q);
                    }
                    SortOrder::Descending => {
                        let qq = if q < p { q } else { q - 1 };
                        assert(t[qq] == s[q]);
                        lemma_position_unique(t, other, qq);
                    }
                }
            }
            None => {
                lemma_position_unique(t, other, q);
            }
        }
    } else {
        assert(position_spec(s, other) is None);
        if exists|i: int| 0 <= i < t.len() && t[i].0 == other {
            let i = choose|i: int| 0 <= i < t.len() && t[i].0 == other;
            match position_spec(s, col) {
                Some(p) => {
                    let w = choose|w: int| 0 <= w < s.len() && s[w].0 == col && forall|j: int| 0 <= j < w ==> s[j].0 != col;
                    assert(w == p);
                    match s[p].1 {
                        SortOrder::Ascending => {
                            if i == p { assert(t[i].0 == col); } else { assert(t[i] == s[i]); }
                        }
                        SortOrder::Descending => {
                            let ii = if i < p { i } else { i + 1 };
                            assert(t[i] == s[ii]);
                        }
                    }
                }
                None => {
                    if i < s.len() { assert(t[i] == s[i]); }
                }
            }
        }
    }
}

/// Law: toggling an unsorted column three times gives back the same list.
pub proof fn law_toggle_three_times_restores(s: Seq<(Seq<char>, SortOrder)>, col: Seq<char>)
    requires
        distinct_columns(s),
        order_of(s, col) is None,
    ensures
        toggle_spec(toggle_spec(toggle_spec(s, col), col), col) == s,
{
    let t1 = toggle_spec(s, col);
    assert(position_spec(s, col) is None);
    assert(t1 == s.push((col, SortOrder::Ascending)));
    lemma_toggle_wf(s, col);
    lemma_position_unique(t1, col, s.len() as int);
    let t2 = toggle_spec(t1, col);
    assert(t2 == t1.update(s.len() as int, (col, SortOrder::Descending)));
    lemma_toggle_wf(t1, col);
    lemma_position_unique(t2, col, s.len() as int);
    let t3 = toggle_spec(t2, col);
    assert(t3 == t2.remove(s.len() as int));
    assert(t3 =~= s);
}

/// Law: the ORDER BY clause is absent exactly when nothing is sorted, and
/// for a single column it is that column quoted, a space, and its keyword.
pub proof fn law_order_by_single(col: Seq<char>, o: SortOrder)
    ensures
        order_by_sql(seq![(col, o)]) == seq!['"'] + col + seq!['"', ' '] + order_sql(o),
{
}

} // verus!
