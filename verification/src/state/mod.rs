//! Per-tab view state: cursor and scrolling, search matches, column
//! visibility, the column-jump finder and the diff view's navigation.
use vstd::prelude::*;

pub mod column_picker;
pub mod jump;
pub mod diff;

pub use self::column_picker::ColumnPickerState;
pub use self::jump::ColumnJumpState;
pub use self::diff::{DiffCounts, DiffMarker, DiffSetup, DiffState};

verus! {

#[derive(Debug, Clone, Copy, PartialEq, Eq, Structural)]
pub enum SelectionMode {
    Row,
    Column,
}

/// How a search term is read.
#[derive(Debug, Clone, Copy, PartialEq, Eq, Structural)]
pub enum SearchMode {
    Plain,
    Regex,
}

/// The view start after scrolling just enough to show `sel` in a window of `page` rows.
pub open spec fn adjust_spec(start: int, sel: int, page: int) -> int {
    if sel < start {
        sel
    } else if sel >= start + page {
        sel - page + 1
    } else {
        start
    }
}

/// The column offset after scrolling just enough to show `sel` among `visible` columns.
pub open spec fn adjust_column_spec(offset: int, sel: int, visible: int) -> int {
    if sel < offset {
        sel
    } else if visible > 0 && sel >= offset + visible {
        sel - visible + 1
    } else {
        offset
    }
}

/// The cursor row after moving down `n` rows; `total == 0` means the total is unknown.
pub open spec fn down_target(sel: int, n: int, total: int) -> int {
    if total == 0 {
        sel + n
    } else if sel + n < total {
        sel + n
    } else {
        total - 1
    }
}

/// The cursor row after moving up `n` rows, stopping at the first row.
pub open spec fn up_target(sel: int, n: int) -> int {
    if sel >= n {
        sel - n
    } else {
        0
    }
}

/// Viewport state: cursor position, scrolling, and terminal dimensions.
pub struct Viewport {
    pub view_start: usize,
    pub selected_row: usize,
    pub page_size: usize,
    pub column_offset: usize,
    pub selected_col: usize,
    pub selection_mode: SelectionMode,
    pub terminal_width: u16,
    /// Number of leftmost columns frozen (pinned) on the left side.
    pub frozen_cols: usize,
    /// Per-column width adjustments.
    pub col_width_overrides: Vec<i16>,
    /// Feedback from the renderer: how many data rows actually fit on screen (used by wrap mode).
    pub rendered_rows: usize,
}

impl Viewport {
    /// Scrolling arithmetic stays within `usize`.
    pub open spec fn no_overflow(&self) -> bool {
        &&& self.view_start + self.page_size <= usize::MAX
        &&& (self.page_size > 0 || self.selected_row < usize::MAX)
    }

    pub fn new() -> (r: Self)
        ensures
            r.view_start == 0,
            r.selected_row == 0,
            r.page_size == 50,
            r.column_offset == 0,
            r.selected_col == 0,
            r.selection_mode == SelectionMode::Row,
            r.terminal_width == 0,
            r.frozen_cols == 0,
            r.col_width_overrides@.len() == 0,
            r.rendered_rows == 0,
    {
        Viewport {
            view_start: 0,
            selected_row: 0,
            page_size: 50,
            column_offset: 0,
            selected_col: 0,
            selection_mode: SelectionMode::Row,
            terminal_width: 0,
            frozen_cols: 0,
            col_width_overrides: Vec::new(),
            rendered_rows: 0,
        }
    }

    /// Row index of the selected row relative to the top of the visible view.
    pub fn selected_row_in_view(&self) -> (r: usize)
        ensures
            r == if self.selected_row >= self.view_start { self.selected_row - self.view_start } else { 0 },
    {
        self.selected_row.saturating_sub(self.view_start)
    }

    /// Keep the selected row visible by scrolling the view.
    pub fn adjust_view(&mut self)
        requires
            old(self).selected_row < old(self).view_start || old(self).no_overflow(),
        ensures
            final(self).view_start == adjust_spec(old(self).view_start as int, old(self).selected_row as int, old(self).page_size as int),
            final(self).selected_row == old(self).selected_row,
            final(self).page_size == old(self).page_size,
            final(self).column_offset == old(self).column_offset,
            final(self).selected_col == old(self).selected_col,
            final(self).selection_mode == old(self).selection_mode,
            final(self).frozen_cols == old(self).frozen_cols,
            final(self).terminal_width == old(self).terminal_width,
            final(self).col_width_overrides@ == old(self).col_width_overrides@,
            final(self).rendered_rows == old(self).rendered_rows,
    {
        if self.selected_row < self.view_start {
            self.view_start = self.selected_row;
        } else if self.selected_row >= self.view_start + self.page_size {
            self.view_start = self.selected_row - self.page_size + 1;
        }
    }

    /// Keep the selected column visible by scrolling the column offset.
    /// Uses `visible_col_count` computed from schema + terminal_width.
    pub fn adjust_column_view_with(&mut self, visible: usize)
        requires
            old(self).selected_col < old(self).column_offset || visible == 0
                || old(self).column_offset + visible <= usize::MAX,
        ensures
            final(self).column_offset == adjust_column_spec(old(self).column_offset as int, old(self).selected_col as int, visible as int),
            final(self).selected_col == old(self).selected_col,
            final(self).view_start == old(self).view_start,
            final(self).selected_row == old(self).selected_row,
            final(self).page_size == old(self).page_size,
            final(self).selection_mode == old(self).selection_mode,
            final(self).frozen_cols == old(self).frozen_cols,
            final(self).terminal_width == old(self).terminal_width,
            final(self).col_width_overrides@ == old(self).col_width_overrides@,
            final(self).rendered_rows == old(self).rendered_rows,
    {
        if self.selected_col < self.column_offset {
            self.column_offset = self.selected_col;
        } else if visible > 0 && self.selected_col >= self.column_offset + visible {
            self.column_offset = self.selected_col - visible + 1;
        }
    }

    /// Move the cursor down `n` rows, stopping at the last row when the total
    /// is known (`total_rows > 0`), then scroll to keep it visible.
    pub fn move_cursor_down(&mut self, n: usize, total_rows: usize)
        requires
            old(self).selected_row + n <= usize::MAX,
            old(self).view_start + old(self).page_size <= usize::MAX,
            old(self).page_size > 0 || down_target(old(self).selected_row as int, n as int, total_rows as int) < usize::MAX,
        ensures
            final(self).selected_row == down_target(old(self).selected_row as int, n as int, total_rows as int),
            final(self).view_start == adjust_spec(old(self).view_start as int, final(self).selected_row as int, old(self).page_size as int),
            final(self).page_size == old(self).page_size,
            final(self).column_offset == old(self).column_offset,
            final(self).selected_col == old(self).selected_col,
            final(self).selection_mode == old(self).selection_mode,
            final(self).frozen_cols == old(self).frozen_cols,
            final(self).terminal_width == old(self).terminal_width,
            final(self).col_width_overrides@ == old(self).col_width_overrides@,
            final(self).rendered_rows == old(self).rendered_rows,
    {
        if total_rows == 0 {
            self.selected_row = self.selected_row + n;
        } else {
            let target = self.selected_row + n;
            self.selected_row = if target < total_rows - 1 { target } else { total_rows - 1 };
        }
        self.adjust_view();
    }

    /// Move the cursor up `n` rows (not past the first), then scroll to keep it visible.
    pub fn move_cursor_up(&mut self, n: usize)
        requires
            old(self).no_overflow(),
        ensures
            final(self).selected_row == up_target(old(self).selected_row as int, n as int),
            final(self).view_start == adjust_spec(old(self).view_start as int, final(self).selected_row as int, old(self).page_size as int),
            final(self).page_size == old(self).page_size,
            final(self).column_offset == old(self).column_offset,
            final(self).selected_col == old(self).selected_col,
            final(self).selection_mode == old(self).selection_mode,
            final(self).frozen_cols == old(self).frozen_cols,
            final(self).terminal_width == old(self).terminal_width,
            final(self).col_width_overrides@ == old(self).col_width_overrides@,
            final(self).rendered_rows == old(self).rendered_rows,
    {
        self.selected_row = self.selected_row.saturating_sub(n);
        self.adjust_view();
    }
}

/// Law: after scrolling, the selected row is inside the visible window of
/// `page` rows (for a non-empty window), and scrolling again changes nothing.
pub proof fn law_adjust_shows_selection(start: int, sel: int, page: int)
    requires
        page > 0,
    ensures
        adjust_spec(start, sel, page) <= sel < adjust_spec(start, sel, page) + page,
        adjust_spec(adjust_spec(start, sel, page), sel, page) == adjust_spec(start, sel, page),
{
}

/// Law: moving the cursor down `n` rows and then up `n` rows returns it to
/// the row it started on, whenever the move down was not stopped by the last
/// row (the total is unknown, or the start is more than `n` rows above the end).
pub proof fn law_down_then_up_returns(sel: int, n: int, total: int)
    requires
        0 <= sel,
        0 <= n,
        total == 0 || sel + n < total,
    ensures
        up_target(down_target(sel, n, total), n) == sel,
{
}

/// Law: moving up never leaves the table and never moves down; moving up
/// from a row at least `n` from the top moves exactly `n` rows.
pub proof fn law_up_stays_in_table(sel: int, n: int)
    requires
        0 <= sel,
        0 <= n,
    ensures
        0 <= up_target(sel, n) <= sel,
        sel >= n ==> up_target(sel, n) == sel - n,
{
}

/// Law: after scrolling columns, the selected column is among the `visible`
/// columns from the offset (for a positive count), and scrolling again changes nothing.
pub proof fn law_adjust_column_shows_selection(offset: int, sel: int, visible: int)
    requires
        visible > 0,
    ensures
        adjust_column_spec(offset, sel, visible) <= sel < adjust_column_spec(offset, sel, visible) + visible,
        adjust_column_spec(adjust_column_spec(offset, sel, visible), sel, visible) == adjust_column_spec(offset, sel, visible),
{
}

/// Column widths computed for one sample of rows of one page of data, kept
/// so they are not computed again on every frame.
pub struct ColWidthCache {
    pub generation: u64,
    pub sample_start: usize,
    pub sample_end: usize,
    pub headers: Vec<String>,
    pub col_widths: Vec<u16>,
}

impl ColWidthCache {
    /// Whether the cache holds the widths for this page (its generation)
    /// and this sample of rows.
    pub fn is_hit(&self, generation: u64, sample_start: usize, sample_end: usize) -> (r: bool)
        ensures
            r == (self.generation == generation && self.sample_start == sample_start
                && self.sample_end == sample_end),
    {
        self.generation == generation && self.sample_start == sample_start && self.sample_end == sample_end
    }
}

/// Filter state: the filter being typed, the active filter expression and
/// the autocomplete list shown while typing.
pub struct FilterState {
    pub input: String,
    /// Cursor position in `input`, counted in characters.
    pub cursor_pos: usize,
    pub active_filter: Option<String>,
    pub autocomplete_suggestions: Vec<String>,
    pub autocomplete_index: usize,
    pub autocomplete_active: bool,
}

impl FilterState {
    pub fn new() -> (r: Self)
        ensures
            r.input@ == Seq::<char>::empty(),
            r.cursor_pos == 0,
            r.active_filter is None,
            r.autocomplete_suggestions@.len() == 0,
            r.autocomplete_index == 0,
            !r.autocomplete_active,
    {
        FilterState {
            input: String::new(),
            cursor_pos: 0,
            active_filter: None,
            autocomplete_suggestions: Vec::new(),
            autocomplete_index: 0,
            autocomplete_active: false,
        }
    }

    /// Byte offset in `input` corresponding to `cursor_pos` (char index).
    pub fn cursor_byte_pos(&self) -> (r: usize)
        ensures
            r == crate::text::byte_offset_spec(self.input@, crate::input::clamp(self.cursor_pos as int, self.input@.len() as int)),
    {
        crate::text::byte_offset(self.input.as_str(), self.cursor_pos)
    }

    pub fn insert_at_cursor(&mut self, c: char)
        requires
            old(self).cursor_pos < usize::MAX,
        ensures
            final(self).input@ == crate::input::insert_spec(old(self).input@, old(self).cursor_pos as int, c),
            final(self).cursor_pos == old(self).cursor_pos + 1,
            final(self).active_filter == old(self).active_filter,
    {
        self.input = crate::input::insert_char_at(self.input.as_str(), self.cursor_pos, c);
        self.cursor_pos = self.cursor_pos + 1;
    }

    /// Delete the character before the cursor. Returns `true` if anything was removed.
    pub fn delete_before_cursor(&mut self) -> (r: bool)
        requires
            old(self).cursor_pos <= old(self).input@.len(),
        ensures
            r == (old(self).cursor_pos > 0),
            r ==> final(self).input@ == old(self).input@.remove(old(self).cursor_pos - 1),
            r ==> final(self).cursor_pos == old(self).cursor_pos - 1,
            !r ==> final(self).input@ == old(self).input@ && final(self).cursor_pos == 0,
            final(self).active_filter == old(self).active_filter,
    {
        if self.cursor_pos == 0 {
            return false;
        }
        self.cursor_pos = self.cursor_pos - 1;
        self.input = crate::input::remove_char_at(self.input.as_str(), self.cursor_pos);
        true
    }

    pub fn move_cursor_left(&mut self)
        ensures
            final(self).cursor_pos == if old(self).cursor_pos > 0 { old(self).cursor_pos - 1 } else { 0 },
            final(self).input@ == old(self).input@,
    {
        self.cursor_pos = self.cursor_pos.saturating_sub(1);
    }

    pub fn move_cursor_right(&mut self)
        ensures
            final(self).cursor_pos == if old(self).cursor_pos < old(self).input@.len() {
                old(self).cursor_pos + 1
            } else {
                old(self).cursor_pos as int
            },
            final(self).input@ == old(self).input@,
    {
        let len = crate::text::char_count(self.input.as_str());
        if self.cursor_pos < len {
            self.cursor_pos = self.cursor_pos + 1;
        }
    }

    pub fn move_cursor_to_start(&mut self)
        ensures
            final(self).cursor_pos == 0,
            final(self).input@ == old(self).input@,
    {
        self.cursor_pos = 0;
    }

    pub fn move_cursor_to_end(&mut self)
        ensures
            final(self).cursor_pos == old(self).input@.len(),
            final(self).input@ == old(self).input@,
    {
        self.cursor_pos = crate::text::char_count(self.input.as_str());
    }
}

/// Sorted ascending (repeats allowed).
pub open spec fn sorted(s: Seq<usize>) -> bool {
    forall|i: int, j: int| 0 <= i <= j < s.len() ==> s[i] <= s[j]
}

/// The first index whose value is at least `x` (`s.len()` when there is none).
pub open spec fn lower_bound_spec(s: Seq<usize>, x: int) -> int
    decreases s.len(),
{
    if s.len() == 0 {
        0
    } else if s[0] >= x {
        0
    } else {
        1 + lower_bound_spec(s.drop_first(), x)
    }
}

/// `lower_bound_spec` is the index `i` before which every value is below `x`
/// and at which (if any) the value is at least `x`.
pub proof fn lemma_lower_bound_at(s: Seq<usize>, x: int, i: int)
    requires
        0 <= i <= s.len(),
        forall|j: int| 0 <= j < i ==> s[j] < x,
        i < s.len() ==> s[i] >= x,
    ensures
        lower_bound_spec(s, x) == i,
    decreases s.len(),
{
    if s.len() > 0 && i > 0 {
        assert forall|j: int| 0 <= j < i - 1 implies s.drop_first()[j] < x by {
            assert(s.drop_first()[j] == s[j + 1]);
        }
        lemma_lower_bound_at(s.drop_first(), x, i - 1);
    }
}

/// Characterisation of `lower_bound_spec`.
pub proof fn lemma_lower_bound(s: Seq<usize>, x: int)
    ensures
        0 <= lower_bound_spec(s, x) <= s.len(),
        forall|j: int| 0 <= j < lower_bound_spec(s, x) ==> s[j] < x,
        lower_bound_spec(s, x) < s.len() ==> s[lower_bound_spec(s, x)] >= x,
    decreases s.len(),
{
    if s.len() > 0 && s[0] < x {
        lemma_lower_bound(s.drop_first(), x);
        assert forall|j: int| 0 <= j < lower_bound_spec(s, x) implies s[j] < x by {
            if j > 0 { assert(s[j] == s.drop_first()[j - 1]); }
        }
    }
}

/// The next match after `cur`, wrapping to the first match.
pub open spec fn next_match_spec(s: Seq<usize>, cur: int) -> Option<(usize, usize)> {
    if s.len() == 0 {
        None
    } else {
        let i = lower_bound_spec(s, cur + 1);
        if i < s.len() { Some((i as usize, s[i])) } else { Some((0usize, s[0])) }
    }
}

/// The previous match before `cur`, wrapping to the last match.
pub open spec fn prev_match_spec(s: Seq<usize>, cur: int) -> Option<(usize, usize)> {
    if s.len() == 0 {
        None
    } else {
        let i = lower_bound_spec(s, cur);
        if i > 0 { Some(((i - 1) as usize, s[i - 1])) } else { Some(((s.len() - 1) as usize, s[s.len() - 1])) }
    }
}

/// Binary search for the first index whose value is at least `x`.
pub fn lower_bound(v: &Vec<usize>, x: usize) -> (r: usize)
    requires
        sorted(v@),
    ensures
        r == lower_bound_spec(v@, x as int),
        r <= v@.len(),
{
    let mut lo: usize = 0;
    let mut hi: usize = v.len();
    while lo < hi
        invariant
            sorted(v@),
            0 <= lo <= hi <= v@.len(),
            forall|j: int| 0 <= j < lo ==> v@[j] < x,
            forall|j: int| hi <= j < v@.len() ==> v@[j] >= x,
        decreases hi - lo,
    {
        let mid = lo + (hi - lo) / 2;
        if v[mid] < x {
            lo = mid + 1;
        } else {
            hi = mid;
        }
    }
    proof { lemma_lower_bound_at(v@, x as int, lo as int); }
    lo
}

/// Search state: active search term for highlighting and n/N navigation.
/// Search always uses regex (plain text is valid regex).
pub struct SearchState {
    pub active_search: Option<String>,
    pub search_mode: SearchMode,
    pub match_count: Option<usize>,
    pub match_index: Option<usize>,
    /// Cached list of all matching row indices (sorted ascending).
    pub match_rows: Vec<usize>,
}

impl SearchState {
    pub fn new() -> (r: Self)
        ensures
            r.active_search is None,
            r.search_mode == SearchMode::Plain,
            r.match_count is None,
            r.match_index is None,
            r.match_rows@.len() == 0,
    {
        SearchState {
            active_search: None,
            search_mode: SearchMode::Plain,
            match_count: None,
            match_index: None,
            match_rows: Vec::new(),
        }
    }

    /// Find the next match after `current_row` (wraps around): the
    /// position in `match_rows` and the row.
    pub fn next_match(&self, current_row: usize) -> (r: Option<(usize, usize)>)
        requires
            sorted(self.match_rows@),
            current_row < usize::MAX,
        ensures
            r == next_match_spec(self.match_rows@, current_row as int),
    {
        next_row_after(&self.match_rows, current_row)
    }

    /// Find the previous match before `current_row` (wraps around): the
    /// position in `match_rows` and the row.
    pub fn prev_match(&self, current_row: usize) -> (r: Option<(usize, usize)>)
        requires
            sorted(self.match_rows@),
        ensures
            r == prev_match_spec(self.match_rows@, current_row as int),
    {
        prev_row_before(&self.match_rows, current_row)
    }
}

/// The first listed row after `current` (wrapping to the first one), with
/// its position in the sorted list.
pub fn next_row_after(rows: &Vec<usize>, current: usize) -> (r: Option<(usize, usize)>)
    requires
        sorted(rows@),
        current < usize::MAX,
    ensures
        r == next_match_spec(rows@, current as int),
{
    if rows.len() == 0 {
        return None;
    }
    let idx = lower_bound(rows, current + 1);
    if idx < rows.len() {
        Some((idx, rows[idx]))
    } else {
        Some((0, rows[0]))
    }
}

/// The last listed row before `current` (wrapping to the last one), with
/// its position in the sorted list.
pub fn prev_row_before(rows: &Vec<usize>, current: usize) -> (r: Option<(usize, usize)>)
    requires
        sorted(rows@),
    ensures
        r == prev_match_spec(rows@, current as int),
{
    if rows.len() == 0 {
        return None;
    }
    let idx = lower_bound(rows, current);
    if idx > 0 {
        Some((idx - 1, rows[idx - 1]))
    } else {
        let last = rows.len() - 1;
        Some((last, rows[last]))
    }
}

/// Strictly increasing: sorted with no repeats.
pub open spec fn strictly_increasing(s: Seq<usize>) -> bool {
    forall|i: int, j: int| 0 <= i < j < s.len() ==> s[i] < s[j]
}

/// Law: when the current row is one of the matches, jumping to the next
/// match and then to the previous one comes back to it (wrapping included).
pub proof fn law_next_then_prev_returns(s: Seq<usize>, k: int)
    requires
        strictly_increasing(s),
        0 <= k < s.len(),
    ensures
        next_match_spec(s, s[k] as int) matches Some((_, n)) && prev_match_spec(s, n as int) == Some((k as usize, s[k])),
{
    lemma_lower_bound_at(s, s[k] + 1, k + 1);
    if k + 1 < s.len() {
        let n = s[k + 1];
        assert forall|j: int| 0 <= j < k + 1 implies s[j] < n by {
            if j < k + 1 { assert(s[j] < s[k + 1]); }
        }
        lemma_lower_bound_at(s, n as int, k + 1);
    } else {
        lemma_lower_bound_at(s, s[0] as int, 0);
    }
}

/// Whether column `i` is hidden.
pub open spec fn is_hidden(hidden: Seq<bool>, i: int) -> bool {
    0 <= i < hidden.len() && hidden[i]
}

/// The first visible column in `from..=max_col`.
pub open spec fn first_visible_from(hidden: Seq<bool>, from: int, max_col: int) -> Option<int>
    decreases max_col + 1 - from,
{
    if from > max_col {
        None
    } else if !is_hidden(hidden, from) {
        Some(from)
    } else {
        first_visible_from(hidden, from + 1, max_col)
    }
}

/// The last visible column in `0..=upto`.
pub open spec fn last_visible_upto(hidden: Seq<bool>, upto: int) -> Option<int>
    decreases upto + 1,
{
    if upto < 0 {
        None
    } else if !is_hidden(hidden, upto) {
        Some(upto)
    } else {
        last_visible_upto(hidden, upto - 1)
    }
}

/// The next visible column in the direction (+1 or -1), or `current` when there is none.
pub open spec fn next_visible_spec(current: int, direction: int, hidden: Seq<bool>, max_col: int) -> int {
    if direction > 0 {
        match first_visible_from(hidden, current + 1, max_col) {
            Some(i) => i,
            None => current,
        }
    } else if current - 1 > max_col {
        current
    } else {
        match last_visible_upto(hidden, current - 1) {
            Some(i) => i,
            None => current,
        }
    }
}

/// Find the next visible (non-hidden) column in the given direction
/// (+1: right, -1: left), up to `max_col`.
/// Returns `current` if no visible column is found.
pub fn next_visible_col(current: usize, direction: isize, hidden: &[bool], max_col: usize) -> (r: usize)
    requires
        direction == 1 || direction == -1,
        current < isize::MAX,
    ensures
        r == next_visible_spec(current as int, direction as int, hidden@, max_col as int),
{
    if direction > 0 {
        if current >= max_col {
            return current;
        }
        let mut col: usize = current + 1;
        while col < max_col
            invariant
                direction == 1,
                current < col <= max_col,
                first_visible_from(hidden@, col as int, max_col as int) == first_visible_from(hidden@, current + 1, max_col as int),
            decreases max_col - col,
        {
            let h = if col < hidden.len() { hidden[col] } else { false };
            if !h {
                return col;
            }
            col = col + 1;
        }
        let h = if col < hidden.len() { hidden[col] } else { false };
        if !h {
            return col;
        }
        assert(first_visible_from(hidden@, col + 1, max_col as int) is None);
        current
    } else {
        if current == 0 || current - 1 > max_col {
            return current;
        }
        let mut col: usize = current - 1;
        while col > 0
            invariant
                direction == -1,
                col < current,
                current - 1 <= max_col,
                last_visible_upto(hidden@, col as int) == last_visible_upto(hidden@, current - 1),
            decreases col,
        {
            let h = if col < hidden.len() { hidden[col] } else { false };
            if !h {
                return col;
            }
            col = col - 1;
        }
        let h = if col < hidden.len() { hidden[col] } else { false };
        if !h {
            return col;
        }
        assert(last_visible_upto(hidden@, col - 1) is None);
        current
    }
}

/// The first visible column up to `max_col`, or 0 when all are hidden.
pub open spec fn first_visible_spec(hidden: Seq<bool>, max_col: int) -> int {
    match first_visible_from(hidden, 0, max_col) {
        Some(i) => i,
        None => 0,
    }
}

/// Find the first visible (non-hidden) column, up to `max_col`.
pub fn first_visible_col(hidden: &[bool], max_col: usize) -> (r: usize)
    ensures
        r == first_visible_spec(hidden@, max_col as int),
{
    let mut i: usize = 0;
    while i < max_col
        invariant
            i <= max_col,
            first_visible_from(hidden@, i as int, max_col as int) == first_visible_from(hidden@, 0, max_col as int),
        decreases max_col - i,
    {
        let h = if i < hidden.len() { hidden[i] } else { false };
        if !h {
            return i;
        }
        i = i + 1;
    }
    let h = if i < hidden.len() { hidden[i] } else { false };
    if !h {
        return i;
    }
    assert(first_visible_from(hidden@, i + 1, max_col as int) is None);
    0
}

/// What `first_visible_from` returns is visible and in range.
pub proof fn lemma_first_visible_from(hidden: Seq<bool>, from: int, max_col: int)
    ensures
        first_visible_from(hidden, from, max_col) matches Some(i) ==> from <= i <= max_col && !is_hidden(hidden, i),
        first_visible_from(hidden, from, max_col) is None ==> forall|j: int| from <= j <= max_col ==> is_hidden(hidden, j),
    decreases max_col + 1 - from,
{
    if from <= max_col && is_hidden(hidden, from) {
        lemma_first_visible_from(hidden, from + 1, max_col);
        if first_visible_from(hidden, from, max_col) is None {
            assert forall|j: int| from <= j <= max_col implies is_hidden(hidden, j) by {
                if j > from { }
            }
        }
    }
}

/// Law: the column that `first_visible_col` picks is visible whenever any
/// column up to `max_col` is, and moving right from it lands on a visible
/// column (or stays put).
pub proof fn law_first_visible_is_visible(hidden: Seq<bool>, max_col: int, some_visible: int)
    requires
        0 <= some_visible <= max_col,
        !is_hidden(hidden, some_visible),
    ensures
        !is_hidden(hidden, first_visible_spec(hidden, max_col)),
        !is_hidden(hidden, next_visible_spec(first_visible_spec(hidden, max_col), 1, hidden, max_col)),
{
    lemma_first_visible_from(hidden, 0, max_col);
    let f = first_visible_spec(hidden, max_col);
    lemma_first_visible_from(hidden, f + 1, max_col);
}

} // verus!
