//! The diff view's state and navigation: row markers, the rows shown when
//! unchanged rows are hidden, scrolling, and jumps between changes.
use vstd::prelude::*;

use super::{lower_bound, lower_bound_spec, sorted};
use crate::handlers::keys::Key;

verus! {

#[derive(Debug, Clone, Copy, PartialEq, Eq, Structural)]
pub enum DiffMarker {
    OnlyA,
    OnlyB,
    Common,
    Changed,
}

#[derive(Debug, Clone, Copy, PartialEq, Eq, Structural)]
pub struct DiffCounts {
    pub only_a: usize,
    pub only_b: usize,
    pub common: usize,
    pub changed: usize,
}

impl Default for DiffCounts {
    fn default() -> (r: Self)
        ensures
            r.only_a == 0 && r.only_b == 0 && r.common == 0 && r.changed == 0,
    {
        DiffCounts { only_a: 0, only_b: 0, common: 0, changed: 0 }
    }
}

/// Column picker state used by both diff setup steps.
pub struct DiffSetup {
    pub columns: Vec<String>,
    pub selected: Vec<bool>,
    pub cursor: usize,
}

impl DiffSetup {
    pub fn new() -> (r: Self)
        ensures
            r.columns@.len() == 0,
            r.selected@.len() == 0,
            r.cursor == 0,
    {
        DiffSetup { columns: Vec::new(), selected: Vec::new(), cursor: 0 }
    }
}

/// Indices of the rows that are not `Common`, in order.
pub open spec fn non_common(m: Seq<DiffMarker>) -> Seq<usize>
    decreases m.len(),
{
    if m.len() == 0 {
        Seq::empty()
    } else if m.last() != DiffMarker::Common {
        non_common(m.drop_last()).push((m.len() - 1) as usize)
    } else {
        non_common(m.drop_last())
    }
}

/// The first index of `x` in `s`, if any.
pub open spec fn index_of(s: Seq<usize>, x: usize) -> Option<int>
    decreases s.len(),
{
    if s.len() == 0 {
        None
    } else if s[0] == x {
        Some(0)
    } else {
        match index_of(s.drop_first(), x) {
            Some(i) => Some(i + 1),
            None => None,
        }
    }
}

/// The first position of `x` in `v` (`iter().position`).
pub fn position_of(v: &Vec<usize>, x: usize) -> (r: Option<usize>)
    ensures
        match r {
            Some(p) => index_of(v@, x) == Some(p as int),
            None => index_of(v@, x) is None,
        },
{
    let mut i: usize = 0;
    assert(v@.skip(0) =~= v@);
    while i < v.len()
        invariant
            i <= v@.len(),
            index_of(v@.skip(i as int), x) matches Some(k) ==> index_of(v@, x) == Some(k + i),
            index_of(v@.skip(i as int), x) is None ==> index_of(v@, x) is None,
        decreases v.len() - i,
    {
        proof {
            let t = v@.skip(i as int);
            assert(t.drop_first() =~= v@.skip(i + 1));
        }
        if v[i] == x {
            return Some(i);
        }
        i += 1;
    }
    proof { assert(v@.skip(i as int) =~= Seq::<usize>::empty()); }
    None
}

/// The scroll offset after keeping `sel` within a window of `page` rows.
pub open spec fn diff_adjust_spec(scroll: int, sel: int, page: int) -> int {
    if sel < scroll {
        sel
    } else if sel >= scroll + page {
        sel - (if page > 0 { page - 1 } else { 0 })
    } else {
        scroll
    }
}

/// Keys that the diff view acts on.
#[derive(Debug, Clone, Copy, PartialEq, Eq, Structural)]
pub enum DiffKey {
    Quit,
    Down,
    Up,
    Top,
    Bottom,
    HalfPageDown,
    HalfPageUp,
    Left,
    Right,
    NextChange,
    PrevChange,
    ToggleCommon,
    ScrollDown,
    ScrollUp,
    Other,
}

/// What a key means in the diff view; `ctrl` tells whether Control was held.
pub open spec fn diff_key_spec(key: Key, ctrl: bool) -> DiffKey {
    match key {
        Key::Char(c) => {
            if c == 'q' { DiffKey::Quit }
            else if ctrl && c == 'c' { DiffKey::Quit }
            else if c == 'j' { DiffKey::Down }
            else if c == 'k' { DiffKey::Up }
            else if c == 'g' { DiffKey::Top }
            else if c == 'G' { DiffKey::Bottom }
            else if ctrl && c == 'd' { DiffKey::HalfPageDown }
            else if ctrl && c == 'u' { DiffKey::HalfPageUp }
            else if c == 'h' { DiffKey::Left }
            else if c == 'l' { DiffKey::Right }
            else if c == 'n' { DiffKey::NextChange }
            else if c == 'N' { DiffKey::PrevChange }
            else if c == 'c' { DiffKey::ToggleCommon }
            else { DiffKey::Other }
        },
        Key::Esc => DiffKey::Quit,
        Key::Down => DiffKey::Down,
        Key::Up => DiffKey::Up,
        Key::Left => DiffKey::Left,
        Key::Right => DiffKey::Right,
        _ => DiffKey::Other,
    }
}

/// The diff-view meaning of a key.
pub fn diff_key(key: Key, ctrl: bool) -> (r: DiffKey)
    ensures
        r == diff_key_spec(key, ctrl),
{
    match key {
        Key::Char(c) => {
            if c == 'q' { DiffKey::Quit }
            else if ctrl && c == 'c' { DiffKey::Quit }
            else if c == 'j' { DiffKey::Down }
            else if c == 'k' { DiffKey::Up }
            else if c == 'g' { DiffKey::Top }
            else if c == 'G' { DiffKey::Bottom }
            else if ctrl && c == 'd' { DiffKey::HalfPageDown }
            else if ctrl && c == 'u' { DiffKey::HalfPageUp }
            else if c == 'h' { DiffKey::Left }
            else if c == 'l' { DiffKey::Right }
            else if c == 'n' { DiffKey::NextChange }
            else if c == 'N' { DiffKey::PrevChange }
            else if c == 'c' { DiffKey::ToggleCommon }
            else { DiffKey::Other }
        },
        Key::Esc => DiffKey::Quit,
        Key::Down => DiffKey::Down,
        Key::Up => DiffKey::Up,
        Key::Left => DiffKey::Left,
        Key::Right => DiffKey::Right,
        _ => DiffKey::Other,
    }
}

/// What a key does while the key columns or the compared columns are picked.
#[derive(Debug, Clone, Copy, PartialEq, Eq, Structural)]
pub enum SetupCommand {
    Down,
    Up,
    Toggle,
    Confirm,
    Quit,
    Nothing,
}

/// The meaning of a key while columns are picked.
pub open spec fn setup_command_spec(key: Key, ctrl: bool) -> SetupCommand {
    match key {
        Key::Char(c) => {
            if c == 'j' { SetupCommand::Down }
            else if c == 'k' { SetupCommand::Up }
            else if c == ' ' { SetupCommand::Toggle }
            else if ctrl && c == 'c' { SetupCommand::Quit }
            else { SetupCommand::Nothing }
        },
        Key::Down => SetupCommand::Down,
        Key::Up => SetupCommand::Up,
        Key::Enter => SetupCommand::Confirm,
        Key::Esc => SetupCommand::Quit,
        _ => SetupCommand::Nothing,
    }
}

/// The picking meaning of a key.
pub fn setup_command(key: Key, ctrl: bool) -> (r: SetupCommand)
    ensures
        r == setup_command_spec(key, ctrl),
{
    match key {
        Key::Char(c) => {
            if c == 'j' { SetupCommand::Down }
            else if c == 'k' { SetupCommand::Up }
            else if c == ' ' { SetupCommand::Toggle }
            else if ctrl && c == 'c' { SetupCommand::Quit }
            else { SetupCommand::Nothing }
        },
        Key::Down => SetupCommand::Down,
        Key::Up => SetupCommand::Up,
        Key::Enter => SetupCommand::Confirm,
        Key::Esc => SetupCommand::Quit,
        _ => SetupCommand::Nothing,
    }
}

/// While the diff is computed only leaving is possible: Esc or Control-C.
pub fn loading_quits(key: Key, ctrl: bool) -> (r: bool)
    ensures
        r == (key == Key::Esc || (ctrl && key == Key::Char('c'))),
{
    match key {
        Key::Esc => true,
        Key::Char(c) => ctrl && c == 'c',
        _ => false,
    }
}

/// What the caller does after a key was handled.
#[derive(Debug, Clone, Copy, PartialEq, Eq, Structural)]
pub enum DiffOutcome {
    /// Leave the diff view.
    Quit,
    /// Make sure the rows around the cursor are loaded.
    EnsurePage,
    /// Nothing more to do.
    Nothing,
}

/// Full diff view state (the data pages themselves are held by the caller).
pub struct DiffState {
    pub markers: Vec<DiffMarker>,
    pub counts: DiffCounts,
    pub total_rows: usize,
    /// Indices of all non-Common data rows (for n/N navigation).
    pub changed_row_indices: Vec<usize>,
    /// For each display column: Some(idx in b_side_batch) if it's a diff col, None otherwise.
    pub b_side_col_map: Vec<Option<usize>>,
    pub loading: bool,
    pub error: Option<String>,
    /// Viewport start (first visible display row).
    pub scroll_offset: usize,
    /// Cursor position (display row index).
    pub selected_row: usize,
    pub column_offset: usize,
    pub selected_col: usize,
    pub file_a: String,
    pub file_b: String,
    pub key_columns: Vec<String>,
    pub diff_columns: Vec<String>,
    pub setup: DiffSetup,
    pub hide_common: bool,
    /// Indices of visible rows when `hide_common` is true (non-Common rows).
    pub visible_rows: Vec<usize>,
}

impl DiffState {
    pub fn new() -> (r: Self)
        ensures
            r.markers@.len() == 0,
            r.total_rows == 0,
            r.changed_row_indices@.len() == 0,
            r.b_side_col_map@.len() == 0,
            !r.loading,
            r.error is None,
            r.scroll_offset == 0,
            r.selected_row == 0,
            r.column_offset == 0,
            r.selected_col == 0,
            r.file_a@.len() == 0,
            r.file_b@.len() == 0,
            r.key_columns@.len() == 0,
            r.diff_columns@.len() == 0,
            !r.hide_common,
            r.visible_rows@.len() == 0,
    {
        DiffState {
            markers: Vec::new(),
            counts: DiffCounts::default(),
            total_rows: 0,
            changed_row_indices: Vec::new(),
            b_side_col_map: Vec::new(),
            loading: false,
            error: None,
            scroll_offset: 0,
            selected_row: 0,
            column_offset: 0,
            selected_col: 0,
            file_a: String::new(),
            file_b: String::new(),
            key_columns: Vec::new(),
            diff_columns: Vec::new(),
            setup: DiffSetup::new(),
            hide_common: false,
            visible_rows: Vec::new(),
        }
    }

    /// Total rows visible in the current view (filtered or full).
    /// Everything but the navigation (cursor, scrolling, the hidden-rows
    /// switch and the rows it shows) is the same in `self` and `other`.
    pub open spec fn keeps_content(&self, other: &DiffState) -> bool {
        &&& other.counts == self.counts
        &&& other.b_side_col_map@ == self.b_side_col_map@
        &&& other.loading == self.loading
        &&& other.error == self.error
        &&& other.file_a@ == self.file_a@
        &&& other.file_b@ == self.file_b@
        &&& other.key_columns@ == self.key_columns@
        &&& other.diff_columns@ == self.diff_columns@
        &&& other.setup.columns@ == self.setup.columns@
        &&& other.setup.selected@ == self.setup.selected@
        &&& other.setup.cursor == self.setup.cursor
    }

    pub open spec fn visible_count_spec(&self) -> int {
        if self.hide_common { self.visible_rows@.len() as int } else { self.total_rows as int }
    }

    /// The data row shown at a display row.
    pub open spec fn data_row_spec(&self, display_row: int) -> int {
        if self.hide_common {
            if 0 <= display_row < self.visible_rows@.len() { self.visible_rows@[display_row] as int } else { 0 }
        } else {
            display_row
        }
    }

    /// Rebuild the visible_rows index based on hide_common toggle.
    pub fn rebuild_visible_rows(&mut self)
        ensures
            old(self).keeps_content(&*final(self)),
            final(self).visible_rows@ == if old(self).hide_common { non_common(old(self).markers@) } else { Seq::<usize>::empty() },
            final(self).markers@ == old(self).markers@,
            final(self).hide_common == old(self).hide_common,
            final(self).total_rows == old(self).total_rows,
            final(self).selected_row == old(self).selected_row,
            final(self).scroll_offset == old(self).scroll_offset,
            final(self).selected_col == old(self).selected_col,
            final(self).column_offset == old(self).column_offset,
            final(self).changed_row_indices@ == old(self).changed_row_indices@,
    {
        if self.hide_common {
            let mut v: Vec<usize> = Vec::new();
            let mut i: usize = 0;
            while i < self.markers.len()
                invariant
                    i <= self.markers@.len(),
                    v@ == non_common(self.markers@.take(i as int)),
                decreases self.markers.len() - i,
            {
                proof {
                    assert(self.markers@.take(i + 1).drop_last() =~= self.markers@.take(i as int));
                }
                if self.markers[i] != DiffMarker::Common {
                    v.push(i);
                }
                i += 1;
            }
            assert(self.markers@.take(self.markers@.len() as int) =~= self.markers@);
            self.visible_rows = v;
        } else {
            self.visible_rows.clear();
        }
    }

    /// Total rows visible in the current view (filtered or full).
    pub fn visible_row_count(&self) -> (r: usize)
        ensures
            r == self.visible_count_spec(),
    {
        if self.hide_common {
            self.visible_rows.len()
        } else {
            self.total_rows
        }
    }

    /// Keep selected_row visible by scrolling the viewport.
    pub fn adjust_view(&mut self, page_size: usize)
        requires
            old(self).selected_row < old(self).scroll_offset || old(self).scroll_offset + page_size <= usize::MAX,
        ensures
            old(self).keeps_content(&*final(self)),
            final(self).scroll_offset == diff_adjust_spec(old(self).scroll_offset as int, old(self).selected_row as int, page_size as int),
            final(self).selected_row == old(self).selected_row,
            final(self).hide_common == old(self).hide_common,
            final(self).visible_rows@ == old(self).visible_rows@,
            final(self).total_rows == old(self).total_rows,
            final(self).markers@ == old(self).markers@,
            final(self).selected_col == old(self).selected_col,
            final(self).column_offset == old(self).column_offset,
            final(self).changed_row_indices@ == old(self).changed_row_indices@,
    {
        if self.selected_row < self.scroll_offset {
            self.scroll_offset = self.selected_row;
        } else if self.selected_row >= self.scroll_offset + page_size {
            self.scroll_offset = self.selected_row.saturating_sub(page_size.saturating_sub(1));
        }
    }

    /// Map a display row index to the actual data row index.
    pub fn display_to_data_row(&self, display_row: usize) -> (r: usize)
        ensures
            r == self.data_row_spec(display_row as int),
    {
        if self.hide_common {
            if display_row < self.visible_rows.len() { self.visible_rows[display_row] } else { 0 }
        } else {
            display_row
        }
    }

    /// The display row at which a data row is shown (its position among the
    /// visible rows when unchanged rows are hidden, 0 when it is not shown).
    pub open spec fn display_row_spec(&self, data_row: usize) -> int {
        if self.hide_common {
            match index_of(self.visible_rows@, data_row) {
                Some(i) => i,
                None => 0,
            }
        } else {
            data_row as int
        }
    }

    /// Move the cursor to a data row and column: scroll to the row and put the column at the left edge.
    pub fn jump_to_diff_cell(&mut self, data_row: usize, col: usize, page_size: usize)
        requires
            old(self).scroll_offset + page_size <= usize::MAX,
        ensures
            old(self).keeps_content(&*final(self)),
            final(self).selected_row == old(self).display_row_spec(data_row),
            final(self).selected_col == col,
            final(self).column_offset == col,
            final(self).scroll_offset == diff_adjust_spec(old(self).scroll_offset as int, final(self).selected_row as int, page_size as int),
            final(self).hide_common == old(self).hide_common,
            final(self).visible_rows@ == old(self).visible_rows@,
            final(self).total_rows == old(self).total_rows,
            final(self).markers@ == old(self).markers@,
            final(self).changed_row_indices@ == old(self).changed_row_indices@,
    {
        let display_row = if self.hide_common {
            match position_of(&self.visible_rows, data_row) {
                Some(k) => k,
                None => 0,
            }
        } else {
            data_row
        };
        self.selected_row = display_row;
        self.selected_col = col;
        self.adjust_view(page_size);
        self.column_offset = self.selected_col;
    }

    /// Jump to the next changed row after the cursor's data row (wrapping
    /// to the first), keeping the column. Returns whether it moved.
    pub fn nav_next_changed(&mut self, page_size: usize) -> (moved: bool)
        requires
            sorted(old(self).changed_row_indices@),
            old(self).data_row_spec(old(self).selected_row as int) < usize::MAX,
            old(self).scroll_offset + page_size <= usize::MAX,
        ensures
            old(self).keeps_content(&*final(self)),
            moved == (old(self).changed_row_indices@.len() > 0),
            !moved ==> final(self).selected_row == old(self).selected_row && final(self).scroll_offset == old(self).scroll_offset,
            moved ==> {
                let rows = old(self).changed_row_indices@;
                let i = lower_bound_spec(rows, old(self).data_row_spec(old(self).selected_row as int) + 1);
                let target = if i < rows.len() { rows[i] } else { rows[0] };
                &&& final(self).selected_row == old(self).display_row_spec(target)
                &&& final(self).selected_col == old(self).selected_col
                &&& final(self).column_offset == old(self).selected_col
                &&& final(self).scroll_offset == diff_adjust_spec(old(self).scroll_offset as int, final(self).selected_row as int, page_size as int)
            },
            !moved ==> final(self).selected_col == old(self).selected_col && final(self).column_offset == old(self).column_offset,
            final(self).hide_common == old(self).hide_common,
            final(self).visible_rows@ == old(self).visible_rows@,
            final(self).total_rows == old(self).total_rows,
            final(self).markers@ == old(self).markers@,
            final(self).changed_row_indices@ == old(self).changed_row_indices@,
    {
        if self.changed_row_indices.len() == 0 {
            return false;
        }
        let current = self.display_to_data_row(self.selected_row);
        let idx = lower_bound(&self.changed_row_indices, current + 1);
        let idx = if idx < self.changed_row_indices.len() { idx } else { 0 };
        let data_row = self.changed_row_indices[idx];
        let col = self.selected_col;
        self.jump_to_diff_cell(data_row, col, page_size);
        true
    }

    /// Jump to the previous changed row before the cursor's data row
    /// (wrapping to the last), keeping the column. Returns whether it moved.
    pub fn nav_prev_changed(&mut self, page_size: usize) -> (moved: bool)
        requires
            sorted(old(self).changed_row_indices@),
            old(self).scroll_offset + page_size <= usize::MAX,
        ensures
            old(self).keeps_content(&*final(self)),
            moved == (old(self).changed_row_indices@.len() > 0),
            !moved ==> final(self).selected_row == old(self).selected_row && final(self).scroll_offset == old(self).scroll_offset,
            moved ==> {
                let rows = old(self).changed_row_indices@;
                let i = lower_bound_spec(rows, old(self).data_row_spec(old(self).selected_row as int));
                let target = if i > 0 { rows[i - 1] } else { rows[rows.len() - 1] };
                &&& final(self).selected_row == old(self).display_row_spec(target)
                &&& final(self).selected_col == old(self).selected_col
                &&& final(self).column_offset == old(self).selected_col
                &&& final(self).scroll_offset == diff_adjust_spec(old(self).scroll_offset as int, final(self).selected_row as int, page_size as int)
            },
            !moved ==> final(self).selected_col == old(self).selected_col && final(self).column_offset == old(self).column_offset,
            final(self).hide_common == old(self).hide_common,
            final(self).visible_rows@ == old(self).visible_rows@,
            final(self).total_rows == old(self).total_rows,
            final(self).markers@ == old(self).markers@,
            final(self).changed_row_indices@ == old(self).changed_row_indices@,
    {
        if self.changed_row_indices.len() == 0 {
            return false;
        }
        let current = self.display_to_data_row(self.selected_row);
        let idx = lower_bound(&self.changed_row_indices, current);
        let idx = if idx > 0 { idx - 1 } else { self.changed_row_indices.len() - 1 };
        let data_row = self.changed_row_indices[idx];
        let col = self.selected_col;
        self.jump_to_diff_cell(data_row, col, page_size);
        true
    }
}


/// The navigation part of the diff view: cursor row, scroll, cursor column,
/// column offset, whether unchanged rows are hidden, and the shown rows.
pub type DiffNav = (usize, usize, usize, usize, bool, Seq<usize>);

/// `a` capped at `b`.
pub open spec fn min_int(a: int, b: int) -> int {
    if a < b { a } else { b }
}

impl DiffState {
    /// The navigation fields.
    pub open spec fn nav(&self) -> DiffNav {
        (self.selected_row, self.scroll_offset, self.selected_col, self.column_offset, self.hide_common, self.visible_rows@)
    }

    /// The navigation after moving the cursor to display row `sel` and scrolling to it.
    pub open spec fn nav_at_row(&self, sel: int, page: int) -> DiffNav {
        (sel as usize, diff_adjust_spec(self.scroll_offset as int, sel, page) as usize, self.selected_col,
            self.column_offset, self.hide_common, self.visible_rows@)
    }

    /// The navigation after jumping to data row `target`, keeping the column.
    pub open spec fn nav_jump(&self, target: usize, page: int) -> DiffNav {
        let sel = self.display_row_spec(target);
        (sel as usize, diff_adjust_spec(self.scroll_offset as int, sel, page) as usize, self.selected_col,
            self.selected_col, self.hide_common, self.visible_rows@)
    }

    /// What one key does to the diff view's navigation, and what the caller does next.
    pub open spec fn view_key_spec(&self, key: DiffKey, page: int, num_cols: Option<usize>) -> (DiffNav, DiffOutcome) {
        let vis = self.visible_count_spec();
        let sel = self.selected_row as int;
        let half = if page / 2 > 1 { page / 2 } else { 1 };
        let rows = self.changed_row_indices@;
        let here = self.data_row_spec(sel);
        match key {
            DiffKey::Quit => (self.nav(), DiffOutcome::Quit),
            DiffKey::Down => if vis > 0 {
                (self.nav_at_row(min_int(sel + 1, vis - 1), page), DiffOutcome::EnsurePage)
            } else {
                (self.nav(), DiffOutcome::Nothing)
            },
            DiffKey::ScrollDown => if vis > 0 {
                (self.nav_at_row(min_int(sel + 3, vis - 1), page), DiffOutcome::EnsurePage)
            } else {
                (self.nav(), DiffOutcome::Nothing)
            },
            DiffKey::HalfPageDown => if vis > 0 {
                (self.nav_at_row(min_int(sel + half, vis - 1), page), DiffOutcome::EnsurePage)
            } else {
                (self.nav(), DiffOutcome::Nothing)
            },
            DiffKey::Bottom => if vis > 0 {
                (self.nav_at_row(vis - 1, page), DiffOutcome::EnsurePage)
            } else {
                (self.nav(), DiffOutcome::Nothing)
            },
            DiffKey::Up => (self.nav_at_row(if sel >= 1 { sel - 1 } else { 0 }, page), DiffOutcome::EnsurePage),
            DiffKey::ScrollUp => (self.nav_at_row(if sel >= 3 { sel - 3 } else { 0 }, page), DiffOutcome::EnsurePage),
            DiffKey::HalfPageUp => (self.nav_at_row(if sel >= half { sel - half } else { 0 }, page), DiffOutcome::EnsurePage),
            DiffKey::Top => (self.nav_at_row(0, page), DiffOutcome::EnsurePage),
            DiffKey::Left => if self.selected_col > 0 {
                let c = (self.selected_col - 1) as usize;
                ((self.selected_row, self.scroll_offset, c, if c < self.column_offset { c } else { self.column_offset },
                    self.hide_common, self.visible_rows@), DiffOutcome::Nothing)
            } else {
                (self.nav(), DiffOutcome::Nothing)
            },
            DiffKey::Right => match num_cols {
                Some(n) => {
                    let max_col = if n > 0 { n - 1 } else { 0 };
                    if self.selected_col < max_col {
                        let c = (self.selected_col + 1) as usize;
                        ((self.selected_row, self.scroll_offset, c,
                            if self.column_offset < c { (self.column_offset + 1) as usize } else { self.column_offset },
                            self.hide_common, self.visible_rows@), DiffOutcome::Nothing)
                    } else {
                        (self.nav(), DiffOutcome::Nothing)
                    }
                },
                None => (self.nav(), DiffOutcome::Nothing),
            },
            DiffKey::NextChange => if rows.len() > 0 {
                let i = lower_bound_spec(rows, here + 1);
                (self.nav_jump(if i < rows.len() { rows[i] } else { rows[0] }, page), DiffOutcome::EnsurePage)
            } else {
                (self.nav(), DiffOutcome::Nothing)
            },
            DiffKey::PrevChange => if rows.len() > 0 {
                let i = lower_bound_spec(rows, here);
                (self.nav_jump(if i > 0 { rows[i - 1] } else { rows[rows.len() - 1] }, page), DiffOutcome::EnsurePage)
            } else {
                (self.nav(), DiffOutcome::Nothing)
            },
            DiffKey::ToggleCommon => {
                let hide = !self.hide_common;
                let shown = if hide { non_common(self.markers@) } else { Seq::<usize>::empty() };
                let v = if hide { shown.len() as int } else { self.total_rows as int };
                let s = if v > 0 { min_int(sel, v - 1) } else { 0 };
                ((s as usize, diff_adjust_spec(self.scroll_offset as int, s, page) as usize, self.selected_col,
                    self.column_offset, hide, shown), DiffOutcome::EnsurePage)
            },
            DiffKey::Other => (self.nav(), DiffOutcome::Nothing),
        }
    }

    /// Handle one key in the diff view.
    pub fn handle_view_key(&mut self, key: DiffKey, page_size: usize, num_cols: Option<usize>) -> (r: DiffOutcome)
        requires
            sorted(old(self).changed_row_indices@),
            old(self).selected_row + page_size + 3 <= usize::MAX,
            old(self).scroll_offset + page_size <= usize::MAX,
            old(self).data_row_spec(old(self).selected_row as int) < usize::MAX,
        ensures
            old(self).keeps_content(&*final(self)),
            (final(self).nav(), r) == old(self).view_key_spec(key, page_size as int, num_cols),
            final(self).markers@ == old(self).markers@,
            final(self).total_rows == old(self).total_rows,
            final(self).changed_row_indices@ == old(self).changed_row_indices@,
    {
        let visible = self.visible_row_count();
        let half = if page_size / 2 > 1 { page_size / 2 } else { 1 };
        match key {
            DiffKey::Quit => DiffOutcome::Quit,
            DiffKey::Down | DiffKey::ScrollDown | DiffKey::HalfPageDown | DiffKey::Bottom => {
                if visible == 0 {
                    return DiffOutcome::Nothing;
                }
                let step = match key {
                    DiffKey::Down => 1,
                    DiffKey::ScrollDown => 3,
                    _ => half,
                };
                let target = if key == DiffKey::Bottom {
                    visible - 1
                } else if self.selected_row + step < visible - 1 {
                    self.selected_row + step
                } else {
                    visible - 1
                };
                self.selected_row = target;
                self.adjust_view(page_size);
                DiffOutcome::EnsurePage
            },
            DiffKey::Up | DiffKey::ScrollUp | DiffKey::HalfPageUp | DiffKey::Top => {
                let target = match key {
                    DiffKey::Up => self.selected_row.saturating_sub(1),
                    DiffKey::ScrollUp => self.selected_row.saturating_sub(3),
                    DiffKey::HalfPageUp => self.selected_row.saturating_sub(half),
                    _ => 0,
                };
                self.selected_row = target;
                self.adjust_view(page_size);
                DiffOutcome::EnsurePage
            },
            DiffKey::Left => {
                if self.selected_col > 0 {
                    self.selected_col = self.selected_col - 1;
                    if self.selected_col < self.column_offset {
                        self.column_offset = self.selected_col;
                    }
                }
                DiffOutcome::Nothing
            },
            DiffKey::Right => {
                if let Some(n) = num_cols {
                    let max_col = n.saturating_sub(1);
                    if self.selected_col < max_col {
                        self.selected_col = self.selected_col + 1;
                        if self.column_offset < self.selected_col {
                            self.column_offset = self.column_offset + 1;
                        }
                    }
                }
                DiffOutcome::Nothing
            },
            DiffKey::NextChange => {
                if self.nav_next_changed(page_size) { DiffOutcome::EnsurePage } else { DiffOutcome::Nothing }
            },
            DiffKey::PrevChange => {
                if self.nav_prev_changed(page_size) { DiffOutcome::EnsurePage } else { DiffOutcome::Nothing }
            },
            DiffKey::ToggleCommon => {
                self.hide_common = !self.hide_common;
                self.rebuild_visible_rows();
                let v = self.visible_row_count();
                if v > 0 {
                    if self.selected_row > v - 1 {
                        self.selected_row = v - 1;
                    }
                } else {
                    self.selected_row = 0;
                }
                self.adjust_view(page_size);
                DiffOutcome::EnsurePage
            },
            DiffKey::Other => DiffOutcome::Nothing,
        }
    }

    /// The data rows to have loaded around the cursor: a window of three
    /// screens centred on the cursor, clamped to the shown rows.
    pub open spec fn needed_rows_spec(&self, screen_page: int) -> Seq<usize> {
        let buffer = screen_page * 3;
        let vis = self.visible_count_spec();
        let half = buffer / 2;
        let start0 = if self.selected_row >= half { self.selected_row - half } else { 0 };
        let end = min_int(start0 + buffer, vis);
        let start = if end >= buffer { end - buffer } else { 0 };
        if self.hide_common {
            self.visible_rows@.subrange(start, end)
        } else {
            Seq::new((end - start) as nat, |i: int| (start + i) as usize)
        }
    }

    /// The data rows that the page around the cursor needs (`ensure_diff_page`'s window).
    pub fn needed_rows(&self, screen_page_size: usize) -> (r: Vec<usize>)
        requires
            screen_page_size * 3 + self.selected_row <= usize::MAX,
            self.hide_common ==> self.visible_rows@.len() == self.visible_count_spec(),
        ensures
            r@ == self.needed_rows_spec(screen_page_size as int),
    {
        let buffer = screen_page_size * 3;
        let vis = self.visible_row_count();
        let half = buffer / 2;
        let start0 = self.selected_row.saturating_sub(half);
        let end = if start0 + buffer < vis { start0 + buffer } else { vis };
        let start = end.saturating_sub(buffer);
        let mut r: Vec<usize> = Vec::new();
        let mut i: usize = start;
        while i < end
            invariant
                start <= i <= end,
                end <= vis,
                vis == self.visible_count_spec(),
                self.hide_common ==> self.visible_rows@.len() == vis,
                self.hide_common ==> r@ == self.visible_rows@.subrange(start as int, i as int),
                !self.hide_common ==> r@ == Seq::new((i - start) as nat, |k: int| (start + k) as usize),
            decreases end - i,
        {
            if self.hide_common {
                r.push(self.visible_rows[i]);
                assert(r@ =~= self.visible_rows@.subrange(start as int, i + 1));
            } else {
                r.push(i);
                assert(r@ =~= Seq::new((i + 1 - start) as nat, |k: int| (start + k) as usize));
            }
            i += 1;
        }
        r
    }
}

/// Whether a loaded page (its data rows, ascending) already covers the needed rows.
pub fn page_covers(page_rows: &Vec<usize>, needed: &Vec<usize>) -> (r: bool)
    ensures
        r == (page_rows@.len() > 0 && needed@.len() > 0
            && needed@[0] >= page_rows@[0] && needed@[needed@.len() - 1] <= page_rows@[page_rows@.len() - 1]),
{
    if page_rows.len() == 0 || needed.len() == 0 {
        return false;
    }
    needed[0] >= page_rows[0] && needed[needed.len() - 1] <= page_rows[page_rows.len() - 1]
}

/// Rows of the diff area: the terminal height minus the header bar, the
/// column header and the status bar, at least one.
pub fn diff_page_size(terminal_height: u16) -> (r: usize)
    ensures
        r == if terminal_height as int - 3 > 1 { terminal_height as int - 3 } else { 1 },
{
    let h = terminal_height as usize;
    let p = h.saturating_sub(3);
    if p > 1 { p } else { 1 }
}

/// Law: hiding unchanged rows shows exactly the rows whose marker is not
/// `Common`, in order.
pub proof fn law_non_common_rows(m: Seq<DiffMarker>, k: usize)
    requires
        m.len() <= usize::MAX,
    ensures
        non_common(m).contains(k) <==> (k < m.len() && m[k as int] != DiffMarker::Common),
        forall|i: int, j: int| 0 <= i < j < non_common(m).len() ==> non_common(m)[i] < non_common(m)[j],
    decreases m.len(),
{
    if m.len() > 0 {
        let d = m.drop_last();
        law_non_common_rows(d, k);
        lemma_non_common_below(d);
        let nd = non_common(d);
        let last = (m.len() - 1) as usize;
        if m.last() != DiffMarker::Common {
            let n = nd.push(last);
            if n.contains(k) {
                let j = choose|j: int| 0 <= j < n.len() && n[j] == k;
                if j < nd.len() { assert(nd[j] == k); }
            }
            if nd.contains(k) {
                let j = choose|j: int| 0 <= j < nd.len() && nd[j] == k;
                assert(n[j] == k);
            }
            if k == last {
                assert(n[nd.len() as int] == k);
            }
            if k < m.len() - 1 {
                assert(d[k as int] == m[k as int]);
            }
        } else {
            if k < m.len() - 1 {
                assert(d[k as int] == m[k as int]);
            }
        }
    }
}

/// Every index in `non_common(m)` is below `m.len()`.
pub proof fn lemma_non_common_below(m: Seq<DiffMarker>)
    ensures
        forall|i: int| 0 <= i < non_common(m).len() ==> non_common(m)[i] < m.len(),
    decreases m.len(),
{
    if m.len() > 0 {
        let d = m.drop_last();
        lemma_non_common_below(d);
        let n = non_common(m);
        let nd = non_common(d);
        assert forall|i: int| 0 <= i < n.len() implies n[i] < m.len() by {
            if i < nd.len() { assert(n[i] == nd[i]); }
        }
    }
}

/// Law: toggling "hide unchanged rows" twice shows every row again, with
/// the cursor still inside the shown rows.
pub proof fn law_toggle_common_twice(d: DiffState, page: int)
    requires
        !d.hide_common,
    ensures
        ({
            let (n1, _) = d.view_key_spec(DiffKey::ToggleCommon, page, None);
            &&& n1.4
            &&& n1.5 == non_common(d.markers@)
            &&& (n1.5.len() > 0 ==> n1.0 < n1.5.len())
        }),
{
}

} // verus!
