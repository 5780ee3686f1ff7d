//! Reusable column picker state used by diff setup and column hide.
use vstd::prelude::*;

verus! {

/// The names whose flag is set, in order (pairs beyond the shorter list are ignored).
pub open spec fn picked_names(cols: Seq<Seq<char>>, sel: Seq<bool>) -> Seq<Seq<char>>
    decreases cols.len() + sel.len(),
{
    if cols.len() == 0 || sel.len() == 0 {
        Seq::empty()
    } else if cols.len() > sel.len() {
        picked_names(cols.take(sel.len() as int), sel)
    } else if sel.len() > cols.len() {
        picked_names(cols, sel.take(cols.len() as int))
    } else if sel.last() {
        picked_names(cols.drop_last(), sel.drop_last()).push(cols.last())
    } else {
        picked_names(cols.drop_last(), sel.drop_last())
    }
}

/// Reusable column picker state used by diff setup and column hide.
pub struct ColumnPickerState {
    pub columns: Vec<String>,
    pub selected: Vec<bool>,
    pub cursor: usize,
}

impl ColumnPickerState {
    /// The column names.
    pub open spec fn names(&self) -> Seq<Seq<char>> {
        self.columns@.map_values(|c: String| c@)
    }

    pub fn new() -> (r: Self)
        ensures
            r.columns@.len() == 0,
            r.selected@.len() == 0,
            r.cursor == 0,
    {
        ColumnPickerState { columns: Vec::new(), selected: Vec::new(), cursor: 0 }
    }

    /// Load columns and their initial flags; the cursor goes to the top.
    pub fn populate(&mut self, columns: Vec<String>, selected: Vec<bool>)
        requires
            columns@.len() == selected@.len(),
        ensures
            final(self).columns@ == columns@,
            final(self).selected@ == selected@,
            final(self).cursor == 0,
    {
        self.columns = columns;
        self.selected = selected;
        self.cursor = 0;
    }

    /// Flip the flag under the cursor.
    pub fn toggle_at_cursor(&mut self)
        ensures
            final(self).columns@ == old(self).columns@,
            final(self).cursor == old(self).cursor,
            final(self).selected@ == if old(self).cursor < old(self).selected@.len() {
                old(self).selected@.update(old(self).cursor as int, !old(self).selected@[old(self).cursor as int])
            } else {
                old(self).selected@
            },
    {
        if self.cursor < self.selected.len() {
            let v = self.selected[self.cursor];
            self.selected.set(self.cursor, !v);
        }
    }

    pub fn move_up(&mut self)
        ensures
            final(self).cursor == if old(self).cursor > 0 { old(self).cursor - 1 } else { 0 },
            final(self).columns@ == old(self).columns@,
            final(self).selected@ == old(self).selected@,
    {
        self.cursor = self.cursor.saturating_sub(1);
    }

    pub fn move_down(&mut self)
        requires
            old(self).columns@.len() == 0 || old(self).cursor < usize::MAX,
        ensures
            final(self).cursor == if old(self).cursor + 1 < old(self).columns@.len() {
                old(self).cursor + 1
            } else {
                old(self).cursor as int
            },
            final(self).columns@ == old(self).columns@,
            final(self).selected@ == old(self).selected@,
    {
        if self.columns.len() != 0 && self.cursor + 1 < self.columns.len() {
            self.cursor = self.cursor + 1;
        }
    }

    /// Return names of all selected columns.
    pub fn selected_names(&self) -> (r: Vec<String>)
        ensures
            r@.map_values(|c: String| c@) == picked_names(self.names(), self.selected@),
    {
        let n = if self.columns.len() < self.selected.len() { self.columns.len() } else { self.selected.len() };
        let ghost cols = self.names().take(n as int);
        let ghost sel = self.selected@.take(n as int);
        let mut r: Vec<String> = Vec::new();
        let mut i: usize = 0;
        while i < n
            invariant
                n <= self.columns@.len(),
                n <= self.selected@.len(),
                i <= n,
                cols == self.names().take(n as int),
                sel == self.selected@.take(n as int),
                r@.map_values(|c: String| c@) == picked_names(cols.take(i as int), sel.take(i as int)),
            decreases n - i,
        {
            proof {
                assert(cols.take(i + 1).drop_last() =~= cols.take(i as int));
                assert(sel.take(i + 1).drop_last() =~= sel.take(i as int));
                assert(cols.take(i + 1).last() == self.columns@[i as int]@);
            }
            if self.selected[i] {
                r.push(self.columns[i].clone());
                assert(r@.map_values(|c: String| c@) =~= picked_names(cols.take(i as int), sel.take(i as int)).push(self.columns@[i as int]@));
            }
            i += 1;
        }
        proof {
            assert(cols.take(n as int) =~= cols);
            assert(sel.take(n as int) =~= sel);
            let all = self.names();
            let s = self.selected@;
            if all.len() > s.len() {
                assert(cols =~= all.take(s.len() as int));
                assert(sel =~= s);
            } else if s.len() > all.len() {
                assert(sel =~= s.take(all.len() as int));
                assert(cols =~= all);
            } else {
                assert(cols =~= all);
                assert(sel =~= s);
            }
        }
        r
    }

    pub fn is_empty(&self) -> (r: bool)
        ensures
            r == (self.columns@.len() == 0),
    {
        self.columns.len() == 0
    }
}

} // verus!
