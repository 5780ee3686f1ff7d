//! Normal mode: what each key does to the table view, and the work it
//! leaves to the caller (fetching rows, talking to the query engine,
//! switching modes).
use vstd::prelude::*;

use crate::event::{order_of, toggle_spec, SortOrder, SortState};
use crate::handlers::keys::Key;
use crate::state::{
    adjust_spec, down_target, first_visible_col, first_visible_spec, lower_bound,
    lower_bound_spec, lemma_lower_bound, lemma_lower_bound_at, next_match_spec, next_row_after,
    next_visible_col, next_visible_spec, prev_match_spec, prev_row_before, sorted,
    strictly_increasing, SearchMode, SearchState, SelectionMode, Viewport,
};
use crate::text::{decimal, push_decimal, push_str, strings_view};

verus! {

/// What a key means in normal mode.
#[derive(Debug, Clone, Copy, PartialEq, Eq, Structural)]
pub enum NormalCommand {
    Quit,
    ToggleSelectionMode,
    Down,
    Up,
    HalfPageDown,
    HalfPageUp,
    PageDown,
    PageUp,
    Top,
    Bottom,
    Left,
    Right,
    FirstColumn,
    CycleSort,
    ResetView,
    Stats,
    ColumnJump,
    Search,
    ColumnFilter,
    Escape,
    SqlPad,
    NextMatch,
    PrevMatch,
    GoToRow,
    ToggleMark,
    ClearMarks,
    NextMark,
    PrevMark,
    HidePicker,
    ToggleFreeze,
    ToggleWrap,
    Help,
    NextTab,
    PrevTab,
    Nothing,
}

/// The command of a character key pressed without Control.
pub open spec fn char_command(c: char) -> NormalCommand {
    if c == 'q' { NormalCommand::Quit }
    else if c == 'j' { NormalCommand::Down }
    else if c == 'k' { NormalCommand::Up }
    else if c == 'g' { NormalCommand::Top }
    else if c == 'G' { NormalCommand::Bottom }
    else if c == 'h' { NormalCommand::Left }
    else if c == 'l' { NormalCommand::Right }
    else if c == '0' { NormalCommand::FirstColumn }
    else if c == 's' { NormalCommand::CycleSort }
    else if c == 'r' { NormalCommand::ResetView }
    else if c == 'S' { NormalCommand::Stats }
    else if c == '/' { NormalCommand::Search }
    else if c == 'f' { NormalCommand::ColumnFilter }
    else if c == 'e' { NormalCommand::SqlPad }
    else if c == 'n' { NormalCommand::NextMatch }
    else if c == 'N' { NormalCommand::PrevMatch }
    else if c == ':' { NormalCommand::GoToRow }
    else if c == 'm' { NormalCommand::ToggleMark }
    else if c == 'M' { NormalCommand::ClearMarks }
    else if c == '}' { NormalCommand::NextMark }
    else if c == '{' { NormalCommand::PrevMark }
    else if c == 'H' { NormalCommand::HidePicker }
    else if c == 'F' { NormalCommand::ToggleFreeze }
    else if c == 'W' { NormalCommand::ToggleWrap }
    else if c == '?' { NormalCommand::Help }
    else if c == ']' { NormalCommand::NextTab }
    else if c == '[' { NormalCommand::PrevTab }
    else { NormalCommand::Nothing }
}

/// The command of a key in normal mode; `ctrl` tells whether Control was held.
pub open spec fn normal_command_spec(key: Key, ctrl: bool) -> NormalCommand {
    match key {
        Key::Char(c) => {
            if c == 'q' { NormalCommand::Quit }
            else if ctrl && c == 'c' { NormalCommand::Quit }
            else if ctrl && c == 'd' { NormalCommand::HalfPageDown }
            else if ctrl && c == 'u' { NormalCommand::HalfPageUp }
            else if ctrl && c == 'f' { NormalCommand::ColumnJump }
            else { char_command(c) }
        },
        Key::Tab => NormalCommand::ToggleSelectionMode,
        Key::Down => NormalCommand::Down,
        Key::Up => NormalCommand::Up,
        Key::PageDown => NormalCommand::PageDown,
        Key::PageUp => NormalCommand::PageUp,
        Key::Left => NormalCommand::Left,
        Key::Right => NormalCommand::Right,
        Key::Esc => NormalCommand::Escape,
        _ => NormalCommand::Nothing,
    }
}

fn char_command_of(c: char) -> (r: NormalCommand)
    ensures
        r == char_command(c),
{
    if c == 'q' { NormalCommand::Quit }
    else if c == 'j' { NormalCommand::Down }
    else if c == 'k' { NormalCommand::Up }
    else if c == 'g' { NormalCommand::Top }
    else if c == 'G' { NormalCommand::Bottom }
    else if c == 'h' { NormalCommand::Left }
    else if c == 'l' { NormalCommand::Right }
    else if c == '0' { NormalCommand::FirstColumn }
    else if c == 's' { NormalCommand::CycleSort }
    else if c == 'r' { NormalCommand::ResetView }
    else if c == 'S' { NormalCommand::Stats }
    else if c == '/' { NormalCommand::Search }
    else if c == 'f' { NormalCommand::ColumnFilter }
    else if c == 'e' { NormalCommand::SqlPad }
    else if c == 'n' { NormalCommand::NextMatch }
    else if c == 'N' { NormalCommand::PrevMatch }
    else if c == ':' { NormalCommand::GoToRow }
    else if c == 'm' { NormalCommand::ToggleMark }
    else if c == 'M' { NormalCommand::ClearMarks }
    else if c == '}' { NormalCommand::NextMark }
    else if c == '{' { NormalCommand::PrevMark }
    else if c == 'H' { NormalCommand::HidePicker }
    else if c == 'F' { NormalCommand::ToggleFreeze }
    else if c == 'W' { NormalCommand::ToggleWrap }
    else if c == '?' { NormalCommand::Help }
    else if c == ']' { NormalCommand::NextTab }
    else if c == '[' { NormalCommand::PrevTab }
    else { NormalCommand::Nothing }
}

/// Map a key press to its normal-mode command.
pub fn normal_command(key: Key, ctrl: bool) -> (r: NormalCommand)
    ensures
        r == normal_command_spec(key, ctrl),
{
    match key {
        Key::Char(c) => {
            if c == 'q' { NormalCommand::Quit }
            else if ctrl && c == 'c' { NormalCommand::Quit }
            else if ctrl && c == 'd' { NormalCommand::HalfPageDown }
            else if ctrl && c == 'u' { NormalCommand::HalfPageUp }
            else if ctrl && c == 'f' { NormalCommand::ColumnJump }
            else { char_command_of(c) }
        },
        Key::Tab => NormalCommand::ToggleSelectionMode,
        Key::Down => NormalCommand::Down,
        Key::Up => NormalCommand::Up,
        Key::PageDown => NormalCommand::PageDown,
        Key::PageUp => NormalCommand::PageUp,
        Key::Left => NormalCommand::Left,
        Key::Right => NormalCommand::Right,
        Key::Esc => NormalCommand::Escape,
        _ => NormalCommand::Nothing,
    }
}

/// What the table view of one tab holds that normal-mode keys read and change.
pub struct TabView {
    pub viewport: Viewport,
    /// Rows in the (filtered) result; 0 while unknown.
    pub total_rows: usize,
    /// The column names, once the schema is known.
    pub field_names: Option<Vec<String>>,
    pub hidden_columns: Vec<bool>,
    pub search: SearchState,
    pub active_filter: Option<String>,
    pub sort_state: SortState,
    /// Marked rows, ascending and without repeats.
    pub marked_rows: Vec<usize>,
}

/// The character view of an optional string.
pub open spec fn opt_view(o: Option<String>) -> Option<Seq<char>> {
    match o {
        Some(s) => Some(s@),
        None => None,
    }
}

/// The names of an optional list of names.
pub open spec fn names_view(o: Option<Vec<String>>) -> Option<Seq<Seq<char>>> {
    match o {
        Some(v) => Some(strings_view(v@)),
        None => None,
    }
}

/// The last column index (0 when there are no columns or no schema yet).
pub open spec fn max_col_of(names: Option<Vec<String>>) -> int {
    match names {
        Some(v) => if v@.len() > 0 { v@.len() - 1 } else { 0 },
        None => 0,
    }
}

/// Two search states agree in everything the view shows.
pub open spec fn same_search(a: SearchState, b: SearchState) -> bool {
    &&& opt_view(a.active_search) == opt_view(b.active_search)
    &&& a.search_mode == b.search_mode
    &&& a.match_count == b.match_count
    &&& a.match_index == b.match_index
    &&& a.match_rows@ == b.match_rows@
}

/// Two viewports agree in every row position.
pub open spec fn same_rows(a: Viewport, b: Viewport) -> bool {
    &&& a.view_start == b.view_start
    &&& a.selected_row == b.selected_row
    &&& a.page_size == b.page_size
    &&& a.terminal_width == b.terminal_width
}

/// Two viewports agree in every column position.
pub open spec fn same_cols(a: Viewport, b: Viewport) -> bool {
    &&& a.column_offset == b.column_offset
    &&& a.selected_col == b.selected_col
    &&& a.selection_mode == b.selection_mode
    &&& a.frozen_cols == b.frozen_cols
}

/// `b` is `a` with the cursor moved to row `sel` and the view scrolled to show it.
pub open spec fn moved_to(a: Viewport, b: Viewport, sel: int) -> bool {
    &&& b.selected_row == sel
    &&& b.view_start == adjust_spec(a.view_start as int, sel, a.page_size as int)
    &&& b.page_size == a.page_size
    &&& b.terminal_width == a.terminal_width
    &&& same_cols(a, b)
}

impl TabView {
    /// The view's invariant.
    pub open spec fn wf(&self) -> bool {
        &&& self.viewport.page_size > 0
        &&& self.viewport.view_start + self.viewport.page_size <= usize::MAX
        &&& self.sort_state.wf()
        &&& sorted(self.search.match_rows@)
        &&& strictly_increasing(self.marked_rows@)
        &&& forall|i: int| 0 <= i < self.search.match_rows@.len() ==> self.search.match_rows@[i] < usize::MAX
        &&& forall|i: int| 0 <= i < self.marked_rows@.len() ==> self.marked_rows@[i] < usize::MAX
    }

    /// What the keys may use without overflow: room below the cursor for a
    /// page, and column positions that fit in an `isize`.
    pub open spec fn in_range(&self) -> bool {
        &&& self.viewport.selected_row + self.viewport.page_size < usize::MAX
        &&& self.viewport.column_offset < isize::MAX
        &&& self.viewport.selected_col < isize::MAX
    }

    /// What command `cmd` may use without overflow: the moves need the whole
    /// of `in_range`, marking the cursor's row needs a row number below the
    /// largest, and the other commands need nothing.
    pub open spec fn fits_command(&self, cmd: NormalCommand) -> bool {
        match cmd {
            NormalCommand::Down | NormalCommand::Up | NormalCommand::HalfPageDown
            | NormalCommand::HalfPageUp | NormalCommand::PageDown | NormalCommand::PageUp
            | NormalCommand::Top | NormalCommand::Bottom | NormalCommand::Left
            | NormalCommand::Right | NormalCommand::FirstColumn | NormalCommand::NextMatch
            | NormalCommand::PrevMatch | NormalCommand::NextMark
            | NormalCommand::PrevMark => self.in_range(),
            NormalCommand::ToggleMark => self.viewport.selected_row < usize::MAX,
            _ => true,
        }
    }

    /// Everything but the viewport is the same in `self` and `other`.
    pub open spec fn same_data(&self, other: &TabView) -> bool {
        &&& self.total_rows == other.total_rows
        &&& names_view(self.field_names) == names_view(other.field_names)
        &&& self.hidden_columns@ == other.hidden_columns@
        &&& same_search(self.search, other.search)
        &&& opt_view(self.active_filter) == opt_view(other.active_filter)
        &&& self.sort_state@ == other.sort_state@
        &&& self.marked_rows@ == other.marked_rows@
    }

    /// A fresh view: nothing loaded, nothing marked, searched or filtered.
    pub fn new() -> (r: Self)
        ensures
            r.wf(),
            r.total_rows == 0,
            r.field_names is None,
            r.hidden_columns@.len() == 0,
            r.active_filter is None,
            r.search.active_search is None,
            r.sort_state@.len() == 0,
            r.marked_rows@.len() == 0,
            r.viewport.selected_row == 0,
            r.viewport.view_start == 0,
            r.viewport.page_size == 50,
            r.viewport.column_offset == 0,
            r.viewport.selected_col == 0,
            r.viewport.selection_mode == SelectionMode::Row,
            r.viewport.terminal_width == 0,
            r.viewport.frozen_cols == 0,
            r.viewport.col_width_overrides@.len() == 0,
            r.viewport.rendered_rows == 0,
            r.search.search_mode == SearchMode::Plain,
            r.search.match_count is None,
            r.search.match_index is None,
            r.search.match_rows@.len() == 0,
    {
        TabView {
            viewport: Viewport::new(),
            total_rows: 0,
            field_names: None,
            hidden_columns: Vec::new(),
            search: SearchState::new(),
            active_filter: None,
            sort_state: SortState::default(),
            marked_rows: Vec::new(),
        }
    }
}

/// The work a normal-mode key leaves to the caller.
pub enum NormalEffect {
    Nothing,
    /// Leave the program.
    Quit,
    /// Fetch rows around the cursor if the buffer does not cover it.
    EnsureBuffer,
    /// Scroll the columns so that the selected column is on screen.
    AdjustColumnView,
    /// Send the new sort order to the query engine.
    ApplySort(SortState),
    /// Reset the engine's filter and sort, forget cached column widths and
    /// fetch rows around the cursor.
    ResetView,
    OpenStats,
    /// Open the column finder over the column names.
    OpenColumnJump,
    /// Open the search prompt.
    StartSearch,
    /// Open the filter prompt with the given text.
    StartFilter(String),
    /// Remove the engine's filter.
    ResetFilter,
    OpenSql,
    /// Open the row-number prompt (digits only).
    StartGoTo,
    /// Open the column picker with these columns ticked.
    OpenColumnPicker(Vec<bool>),
    /// Flip line wrapping and forget cached column widths.
    ToggleWrap,
    OpenHelp,
    /// Switch to the tab this many places away (wrapping).
    SwitchTab(isize),
}

/// The outcome of a normal-mode key: the work left and the new status line
/// message, if the key sets one.
pub struct NormalOutcome {
    pub effect: NormalEffect,
    pub status: Option<String>,
}

/// " (wrapped)" after a jump that went round the end, else nothing.
pub open spec fn wrapped_suffix(w: bool) -> Seq<char> {
    if w { " (wrapped)"@ } else { Seq::empty() }
}

/// "Match at row N" with the wrap note.
pub open spec fn match_message(row: nat, wrapped: bool) -> Seq<char> {
    "Match at row "@ + decimal(row + 1) + wrapped_suffix(wrapped)
}

/// "Mark I/N" with the wrap note.
pub open spec fn mark_message(idx: nat, total: nat, wrapped: bool) -> Seq<char> {
    "Mark "@ + decimal(idx + 1) + "/"@ + decimal(total) + wrapped_suffix(wrapped)
}

/// The message after marking or unmarking a row.
pub open spec fn mark_toggle_message(unmarked: bool, row: nat, total: nat) -> Seq<char> {
    (if unmarked { "Unmarked row "@ } else { "Marked row "@ }) + decimal(row + 1) + " ("@
        + decimal(total) + " marked)"@
}

/// The message after a sort key on column `name`.
pub open spec fn sort_message(name: Seq<char>, order: Option<SortOrder>) -> Seq<char> {
    match order {
        Some(SortOrder::Ascending) => "Sort: "@ + name + " asc"@,
        Some(SortOrder::Descending) => "Sort: "@ + name + " desc"@,
        None => "Sort cleared: "@ + name,
    }
}

/// The filter prompt's text for a column: `"name" = `.
pub open spec fn column_filter_text(name: Seq<char>) -> Seq<char> {
    seq!['"'] + name + "\" = "@
}

fn text(s: &str) -> (r: String)
    ensures
        r@ == s@,
{
    s.to_owned()
}

fn suffix_wrapped(m: &mut String, w: bool)
    ensures
        final(m)@ == old(m)@ + wrapped_suffix(w),
{
    if w {
        push_str(m, " (wrapped)");
    } else {
        assert(old(m)@ + wrapped_suffix(w) =~= old(m)@);
    }
}

/// `new` holds the marks of `old` with `row`'s mark flipped.
pub open spec fn mark_toggled(old: Seq<usize>, new: Seq<usize>, row: usize) -> bool {
    forall|x: usize| new.contains(x) <==> (if x == row { !old.contains(row) } else { old.contains(x) })
}

/// Two ascending lists without repeats that hold the same rows are the same list.
pub proof fn lemma_same_marks_same_list(a: Seq<usize>, c: Seq<usize>)
    requires
        strictly_increasing(a),
        strictly_increasing(c),
        forall|x: usize| a.contains(x) <==> c.contains(x),
    ensures
        a == c,
    decreases a.len(),
{
    if a.len() == 0 {
        if c.len() > 0 {
            assert(c.contains(c[0]));
        }
        assert(a =~= c);
    } else {
        assert(a.contains(a[0]));
        assert(c.len() > 0);
        assert(c.contains(c[0]));
        let ka = choose|k: int| 0 <= k < a.len() && a[k] == c[0];
        let kc = choose|k: int| 0 <= k < c.len() && c[k] == a[0];
        assert(a[0] <= a[ka]);
        assert(c[0] <= c[kc]);
        assert(a[0] == c[0]);
        let a1 = a.drop_first();
        let c1 = c.drop_first();
        assert forall|x: usize| a1.contains(x) <==> c1.contains(x) by {
            if a1.contains(x) {
                let k = choose|k: int| 0 <= k < a1.len() && a1[k] == x;
                assert(a[k + 1] == x && a[0] < a[k + 1]);
                assert(c.contains(x));
                let j = choose|j: int| 0 <= j < c.len() && c[j] == x;
                assert(j != 0);
                assert(c1[j - 1] == x);
            }
            if c1.contains(x) {
                let k = choose|k: int| 0 <= k < c1.len() && c1[k] == x;
                assert(c[k + 1] == x && c[0] < c[k + 1]);
                assert(a.contains(x));
                let j = choose|j: int| 0 <= j < a.len() && a[j] == x;
                assert(j != 0);
                assert(a1[j - 1] == x);
            }
        }
        lemma_same_marks_same_list(a1, c1);
        assert(a =~= c) by {
            assert forall|i: int| 0 <= i < a.len() implies a[i] == c[i] by {
                if i > 0 {
                    assert(a[i] == a1[i - 1]);
                    assert(c[i] == c1[i - 1]);
                }
            }
        }
    }
}

/// Law: toggling the mark of the same row twice gives back the same marks.
pub proof fn law_toggle_mark_twice(a: Seq<usize>, b: Seq<usize>, c: Seq<usize>, row: usize)
    requires
        strictly_increasing(a),
        strictly_increasing(c),
        mark_toggled(a, b, row),
        mark_toggled(b, c, row),
    ensures
        c == a,
{
    assert forall|x: usize| a.contains(x) <==> c.contains(x) by {
        if x == row {
            assert(b.contains(row) == !a.contains(row));
        }
    }
    lemma_same_marks_same_list(a, c);
}

/// Add `row` to the marks, or take it out if it is there; returns whether it was.
pub fn toggle_mark(marks: &mut Vec<usize>, row: usize) -> (was: bool)
    requires
        strictly_increasing(old(marks)@),
    ensures
        was == old(marks)@.contains(row),
        strictly_increasing(final(marks)@),
        forall|x: usize| final(marks)@.contains(x) <==> (if x == row { !was } else { old(marks)@.contains(x) }),
        mark_toggled(old(marks)@, final(marks)@, row),
        final(marks)@.len() == if was { old(marks)@.len() as int - 1 } else { old(marks)@.len() as int + 1 },
{
    let ghost s = marks@;
    let i = lower_bound(marks, row);
    proof { lemma_lower_bound(s, row as int); }
    if i < marks.len() && marks[i] == row {
        marks.remove(i);
        assert(s.contains(row));
        assert forall|x: usize| marks@.contains(x) <==> (if x == row { false } else { s.contains(x) }) by {
            if marks@.contains(x) {
                let k = choose|k: int| 0 <= k < marks@.len() && marks@[k] == x;
                if k < i { assert(marks@[k] == s[k]); } else { assert(marks@[k] == s[k + 1]); }
            }
            if x != row && s.contains(x) {
                let k = choose|k: int| 0 <= k < s.len() && s[k] == x;
                if k < i { assert(marks@[k] == x); } else { assert(k != i); assert(marks@[k - 1] == x); }
            }
        }
        assert forall|a: int, b: int| 0 <= a < b < marks@.len() implies marks@[a] < marks@[b] by {
            let a2 = if a < i { a } else { a + 1 };
            let b2 = if b < i { b } else { b + 1 };
            assert(marks@[a] == s[a2] && marks@[b] == s[b2]);
        }
        true
    } else {
        marks.insert(i, row);
        assert(!s.contains(row)) by {
            if s.contains(row) {
                let k = choose|k: int| 0 <= k < s.len() && s[k] == row;
                if k < i { assert(s[k] < row); } else if k > i { assert(s[i as int] < s[k]); assert(s[i as int] >= row); }
            }
        }
        assert forall|x: usize| marks@.contains(x) <==> (if x == row { true } else { s.contains(x) }) by {
            if x == row { assert(marks@[i as int] == row); }
            if marks@.contains(x) && x != row {
                let k = choose|k: int| 0 <= k < marks@.len() && marks@[k] == x;
                if k < i { assert(marks@[k] == s[k]); } else if k > i { assert(marks@[k] == s[k - 1]); }
            }
            if x != row && s.contains(x) {
                let k = choose|k: int| 0 <= k < s.len() && s[k] == x;
                if k < i { assert(marks@[k] == x); } else { assert(marks@[k + 1] == x); }
            }
        }
        assert forall|a: int, b: int| 0 <= a < b < marks@.len() implies marks@[a] < marks@[b] by {
            if b < i {
                assert(marks@[a] == s[a] && marks@[b] == s[b]);
            } else if b == i {
                assert(marks@[a] == s[a]);
            } else if a < i {
                assert(marks@[a] == s[a] && marks@[b] == s[b - 1]);
                assert(s[b - 1] >= row);
                if b - 1 == i { } else { assert(s[i as int] < s[b - 1]); }
            } else if a == i {
                assert(marks@[b] == s[b - 1]);
                if b - 1 == i { assert(s[i as int] >= row); assert(s[i as int] != row); } else { assert(s[i as int] < s[b - 1]); assert(s[i as int] != row); }
            } else {
                assert(marks@[a] == s[a - 1] && marks@[b] == s[b - 1]);
            }
        }
        false
    }
}

/// The message of an outcome, as characters.
pub open spec fn status_view(r: NormalOutcome) -> Option<Seq<char>> {
    opt_view(r.status)
}

/// Nothing changes and nothing is left to do but `effect`.
pub open spec fn only(a: TabView, b: TabView, r: NormalOutcome) -> bool {
    &&& a.same_data(&b)
    &&& same_rows(a.viewport, b.viewport)
    &&& same_cols(a.viewport, b.viewport)
    &&& r.status is None
}

/// The cursor moved to row `sel` (view scrolled to show it), rows are to be
/// fetched if needed, nothing else changed.
pub open spec fn row_step(a: TabView, b: TabView, r: NormalOutcome, sel: int) -> bool {
    &&& a.same_data(&b)
    &&& moved_to(a.viewport, b.viewport, sel)
    &&& r.effect is EnsureBuffer
    &&& r.status is None
}

/// The column offset and selected column after a horizontal move, and
/// whether the caller must then scroll to the selected column.
pub open spec fn column_move(cmd: NormalCommand, vp: Viewport, hidden: Seq<bool>, names: Option<Vec<String>>) -> (int, int, bool) {
    let off = vp.column_offset as int;
    let sel = vp.selected_col as int;
    let max = max_col_of(names);
    let frozen = vp.frozen_cols as int;
    match cmd {
        NormalCommand::Left => match vp.selection_mode {
            SelectionMode::Row => if off > frozen {
                let n = next_visible_spec(off, -1, hidden, max);
                (if n > frozen { n } else { frozen }, sel, false)
            } else {
                (off, sel, false)
            },
            SelectionMode::Column => if names is Some {
                (off, next_visible_spec(sel, -1, hidden, max), true)
            } else {
                (off, sel, false)
            },
        },
        NormalCommand::Right => if names is Some {
            match vp.selection_mode {
                SelectionMode::Row => (next_visible_spec(off, 1, hidden, max), sel, false),
                SelectionMode::Column => (off, next_visible_spec(sel, 1, hidden, max), true),
            }
        } else {
            (off, sel, false)
        },
        NormalCommand::FirstColumn => {
            let f = first_visible_spec(hidden, max);
            match vp.selection_mode {
                SelectionMode::Row => (f, sel, false),
                SelectionMode::Column => (off, f, true),
            }
        },
        _ => (off, sel, false),
    }
}

/// The column under the cursor's name, when there are columns.
pub open spec fn cursor_column(names: Option<Vec<String>>, sel: int) -> Option<Seq<char>> {
    match names {
        Some(v) => if v@.len() > 0 {
            Some(v@[if sel < v@.len() { sel } else { v@.len() - 1 }]@)
        } else {
            None
        },
        None => None,
    }
}

/// The column picker's ticks: the hidden columns when they match the
/// schema, else none.
pub open spec fn picker_ticks(hidden: Seq<bool>, n: nat) -> Seq<bool> {
    if hidden.len() == n { hidden } else { Seq::new(n, |i: int| false) }
}

/// What a normal-mode command does to the view, and what it leaves to do.
pub open spec fn normal_step(cmd: NormalCommand, a: TabView, b: TabView, r: NormalOutcome, has_tabs: bool, wrap: bool) -> bool {
    let vp = a.viewport;
    let sel = vp.selected_row as int;
    let page = vp.page_size as int;
    match cmd {
        NormalCommand::Quit => only(a, b, r) && r.effect is Quit,
        NormalCommand::ToggleSelectionMode => {
            &&& a.same_data(&b)
            &&& same_rows(vp, b.viewport)
            &&& b.viewport.column_offset == vp.column_offset
            &&& b.viewport.frozen_cols == vp.frozen_cols
            &&& match vp.selection_mode {
                SelectionMode::Row => b.viewport.selection_mode == SelectionMode::Column
                    && b.viewport.selected_col == vp.column_offset,
                SelectionMode::Column => b.viewport.selection_mode == SelectionMode::Row
                    && b.viewport.selected_col == vp.selected_col,
            }
            &&& r.effect is Nothing
            &&& r.status is None
        },
        NormalCommand::Down => row_step(a, b, r, down_target(sel, 1, a.total_rows as int)),
        NormalCommand::Up => row_step(a, b, r, if sel >= 1 { sel - 1 } else { 0 }),
        NormalCommand::HalfPageDown => row_step(a, b, r, down_target(sel, page / 2, a.total_rows as int)),
        NormalCommand::HalfPageUp => row_step(a, b, r, if sel >= page / 2 { sel - page / 2 } else { 0 }),
        NormalCommand::PageDown => row_step(a, b, r, down_target(sel, page, a.total_rows as int)),
        NormalCommand::PageUp => row_step(a, b, r, if sel >= page { sel - page } else { 0 }),
        NormalCommand::Top => row_step(a, b, r, 0),
        NormalCommand::Bottom => if a.total_rows > 0 {
            row_step(a, b, r, a.total_rows - 1)
        } else {
            only(a, b, r) && r.effect is Nothing
        },
        NormalCommand::Left | NormalCommand::Right | NormalCommand::FirstColumn => {
            let m = column_move(cmd, vp, a.hidden_columns@, a.field_names);
            &&& a.same_data(&b)
            &&& same_rows(vp, b.viewport)
            &&& b.viewport.column_offset == m.0
            &&& b.viewport.selected_col == m.1
            &&& b.viewport.selection_mode == vp.selection_mode
            &&& b.viewport.frozen_cols == vp.frozen_cols
            &&& (if m.2 { r.effect is AdjustColumnView } else { r.effect is Nothing })
            &&& r.status is None
        },
        NormalCommand::CycleSort => match cursor_column(a.field_names, vp.selected_col as int) {
            Some(name) => {
                &&& b.sort_state@ == toggle_spec(a.sort_state@, name)
                &&& b.sort_state.wf()
                &&& b.total_rows == a.total_rows
                &&& names_view(b.field_names) == names_view(a.field_names)
                &&& b.hidden_columns@ == a.hidden_columns@
                &&& same_search(a.search, b.search)
                &&& opt_view(b.active_filter) == opt_view(a.active_filter)
                &&& b.marked_rows@ == a.marked_rows@
                &&& same_rows(vp, b.viewport) && same_cols(vp, b.viewport)
                &&& r.effect matches NormalEffect::ApplySort(s) && s@ == b.sort_state@
                &&& status_view(r) == Some(sort_message(name, order_of(b.sort_state@, name)))
            },
            None => only(a, b, r) && r.effect is Nothing,
        },
        NormalCommand::ResetView => {
            &&& b.total_rows == a.total_rows
            &&& names_view(b.field_names) == names_view(a.field_names)
            &&& b.hidden_columns@ == Seq::new(a.hidden_columns@.len(), |i: int| false)
            &&& b.search.active_search is None
            &&& b.search.search_mode == SearchMode::Plain
            &&& b.search.match_count is None
            &&& b.search.match_index is None
            &&& b.search.match_rows@.len() == 0
            &&& b.active_filter is None
            &&& b.sort_state@.len() == 0
            &&& b.marked_rows@ == a.marked_rows@
            &&& b.viewport.view_start == 0
            &&& b.viewport.selected_row == 0
            &&& b.viewport.column_offset == 0
            &&& b.viewport.selected_col == 0
            &&& b.viewport.page_size == vp.page_size
            &&& b.viewport.selection_mode == vp.selection_mode
            &&& b.viewport.frozen_cols == vp.frozen_cols
            &&& r.effect is ResetView
            &&& status_view(r) == Some("View reset"@)
        },
        NormalCommand::Stats => only(a, b, r) && r.effect is OpenStats,
        NormalCommand::ColumnJump => only(a, b, r)
            && (if a.field_names is Some { r.effect is OpenColumnJump } else { r.effect is Nothing }),
        NormalCommand::Search => only(a, b, r) && r.effect is StartSearch,
        NormalCommand::ColumnFilter => only(a, b, r) && match cursor_column(a.field_names, vp.selected_col as int) {
            Some(name) => r.effect matches NormalEffect::StartFilter(t) && t@ == column_filter_text(name),
            None => r.effect is Nothing,
        },
        NormalCommand::Escape => if a.search.active_search is Some {
            &&& b.search.active_search is None
            &&& b.search.match_count is None
            &&& b.search.match_index is None
            &&& b.search.match_rows@.len() == 0
            &&& b.search.search_mode == a.search.search_mode
            &&& opt_view(b.active_filter) == opt_view(a.active_filter)
            &&& b.total_rows == a.total_rows
            &&& names_view(b.field_names) == names_view(a.field_names)
            &&& b.hidden_columns@ == a.hidden_columns@
            &&& b.sort_state@ == a.sort_state@
            &&& b.marked_rows@ == a.marked_rows@
            &&& same_rows(vp, b.viewport) && same_cols(vp, b.viewport)
            &&& r.effect is Nothing
            &&& status_view(r) == Some("Search cleared"@)
        } else if a.active_filter is Some {
            &&& b.active_filter is None
            &&& same_search(a.search, b.search)
            &&& b.total_rows == a.total_rows
            &&& names_view(b.field_names) == names_view(a.field_names)
            &&& b.hidden_columns@ == a.hidden_columns@
            &&& b.sort_state@ == a.sort_state@
            &&& b.marked_rows@ == a.marked_rows@
            &&& same_rows(vp, b.viewport) && same_cols(vp, b.viewport)
            &&& r.effect is ResetFilter
            &&& r.status is None
        } else {
            only(a, b, r) && r.effect is Nothing
        },
        NormalCommand::SqlPad => only(a, b, r) && r.effect is OpenSql,
        NormalCommand::NextMatch | NormalCommand::PrevMatch => if a.search.active_search is Some {
            let found = if cmd == NormalCommand::NextMatch {
                next_match_spec(a.search.match_rows@, sel)
            } else {
                prev_match_spec(a.search.match_rows@, sel)
            };
            match found {
                Some((idx, row)) => {
                    &&& moved_to(vp, b.viewport, row as int)
                    &&& b.search.match_index == Some((idx + 1) as usize)
                    &&& opt_view(b.search.active_search) == opt_view(a.search.active_search)
                    &&& b.search.match_count == a.search.match_count
                    &&& b.search.match_rows@ == a.search.match_rows@
                    &&& b.search.search_mode == a.search.search_mode
                    &&& opt_view(b.active_filter) == opt_view(a.active_filter)
                    &&& b.total_rows == a.total_rows
                    &&& names_view(b.field_names) == names_view(a.field_names)
                    &&& b.hidden_columns@ == a.hidden_columns@
                    &&& b.sort_state@ == a.sort_state@
                    &&& b.marked_rows@ == a.marked_rows@
                    &&& r.effect is EnsureBuffer
                    &&& status_view(r) == Some(match_message(row as nat,
                        if cmd == NormalCommand::NextMatch { row <= sel } else { row >= sel }))
                },
                None => {
                    &&& a.same_data(&b) && same_rows(vp, b.viewport) && same_cols(vp, b.viewport)
                    &&& r.effect is Nothing
                    &&& status_view(r) == Some("No match found"@)
                },
            }
        } else {
            only(a, b, r) && r.effect is Nothing
        },
        NormalCommand::GoToRow => only(a, b, r) && r.effect is StartGoTo,
        NormalCommand::ToggleMark => {
            let was = a.marked_rows@.contains(vp.selected_row);
            &&& strictly_increasing(b.marked_rows@)
            &&& forall|x: usize| b.marked_rows@.contains(x) <==> (if x == vp.selected_row { !was } else { a.marked_rows@.contains(x) })
            &&& b.total_rows == a.total_rows
            &&& names_view(b.field_names) == names_view(a.field_names)
            &&& b.hidden_columns@ == a.hidden_columns@
            &&& same_search(a.search, b.search)
            &&& opt_view(b.active_filter) == opt_view(a.active_filter)
            &&& b.sort_state@ == a.sort_state@
            &&& same_rows(vp, b.viewport) && same_cols(vp, b.viewport)
            &&& r.effect is Nothing
            &&& status_view(r) == Some(mark_toggle_message(was, vp.selected_row as nat, b.marked_rows@.len()))
        },
        NormalCommand::ClearMarks => {
            &&& b.marked_rows@.len() == 0
            &&& b.total_rows == a.total_rows
            &&& names_view(b.field_names) == names_view(a.field_names)
            &&& b.hidden_columns@ == a.hidden_columns@
            &&& same_search(a.search, b.search)
            &&& opt_view(b.active_filter) == opt_view(a.active_filter)
            &&& b.sort_state@ == a.sort_state@
            &&& same_rows(vp, b.viewport) && same_cols(vp, b.viewport)
            &&& r.effect is Nothing
            &&& status_view(r) == Some(if a.marked_rows@.len() > 0 {
                "Cleared "@ + decimal(a.marked_rows@.len()) + " mark(s)"@
            } else {
                "No marks to clear"@
            })
        },
        NormalCommand::NextMark | NormalCommand::PrevMark => {
            let found = if cmd == NormalCommand::NextMark {
                next_match_spec(a.marked_rows@, sel)
            } else {
                prev_match_spec(a.marked_rows@, sel)
            };
            match found {
                Some((idx, row)) => {
                    &&& a.same_data(&b)
                    &&& moved_to(vp, b.viewport, row as int)
                    &&& r.effect is EnsureBuffer
                    &&& status_view(r) == Some(mark_message(idx as nat, a.marked_rows@.len(),
                        if cmd == NormalCommand::NextMark { row <= sel } else { row >= sel }))
                },
                None => {
                    &&& a.same_data(&b) && same_rows(vp, b.viewport) && same_cols(vp, b.viewport)
                    &&& r.effect is Nothing
                    &&& status_view(r) == Some("No marks"@)
                },
            }
        },
        NormalCommand::HidePicker => only(a, b, r) && match a.field_names {
            Some(v) => r.effect matches NormalEffect::OpenColumnPicker(t)
                && t@ == picker_ticks(a.hidden_columns@, v@.len()),
            None => r.effect is Nothing,
        },
        NormalCommand::ToggleFreeze => {
            &&& a.same_data(&b)
            &&& same_rows(vp, b.viewport)
            &&& b.viewport.column_offset == vp.column_offset
            &&& b.viewport.selected_col == vp.selected_col
            &&& b.viewport.selection_mode == vp.selection_mode
            &&& r.effect is Nothing
            &&& if vp.frozen_cols > 0 {
                b.viewport.frozen_cols == 0 && status_view(r) == Some("Columns unfrozen"@)
            } else if vp.column_offset > 0 {
                b.viewport.frozen_cols == vp.column_offset
                    && status_view(r) == Some("Froze "@ + decimal(vp.column_offset as nat) + " column(s)"@)
            } else {
                b.viewport.frozen_cols == 0
                    && status_view(r) == Some("Scroll right first, then freeze"@)
            }
        },
        NormalCommand::ToggleWrap => {
            &&& a.same_data(&b) && same_rows(vp, b.viewport) && same_cols(vp, b.viewport)
            &&& r.effect is ToggleWrap
            &&& status_view(r) == Some(if wrap { "Wrap: off"@ } else { "Wrap: on"@ })
        },
        NormalCommand::Help => only(a, b, r) && r.effect is OpenHelp,
        NormalCommand::NextTab => only(a, b, r)
            && (if has_tabs { r.effect matches NormalEffect::SwitchTab(d) && d == 1 } else { r.effect is Nothing }),
        NormalCommand::PrevTab => only(a, b, r)
            && (if has_tabs { r.effect matches NormalEffect::SwitchTab(d) && d == -1 } else { r.effect is Nothing }),
        NormalCommand::Nothing => only(a, b, r) && r.effect is Nothing,
    }
}

fn plain(effect: NormalEffect) -> (r: NormalOutcome)
    ensures
        r.effect == effect,
        r.status is None,
{
    NormalOutcome { effect, status: None }
}

fn with_status(effect: NormalEffect, message: String) -> (r: NormalOutcome)
    ensures
        r.effect == effect,
        status_view(r) == Some(message@),
{
    NormalOutcome { effect, status: Some(message) }
}

/// The last column index of the schema, as `max_col_of` says.
fn max_col(names: &Option<Vec<String>>) -> (r: usize)
    ensures
        r == max_col_of(*names),
{
    match names {
        Some(v) => if v.len() > 0 { v.len() - 1 } else { 0 },
        None => 0,
    }
}

/// Vertical moves.
fn step_rows(tab: &mut TabView, cmd: NormalCommand, has_tabs: bool, wrap: bool) -> (r: NormalOutcome)
    requires
        old(tab).wf(),
        old(tab).in_range(),
        cmd == NormalCommand::Down || cmd == NormalCommand::Up || cmd == NormalCommand::HalfPageDown
            || cmd == NormalCommand::HalfPageUp || cmd == NormalCommand::PageDown
            || cmd == NormalCommand::PageUp || cmd == NormalCommand::Top || cmd == NormalCommand::Bottom,
    ensures
        final(tab).wf(),
        normal_step(cmd, *old(tab), *final(tab), r, has_tabs, wrap),
        final(tab).viewport.col_width_overrides@ == old(tab).viewport.col_width_overrides@,
        final(tab).viewport.rendered_rows == old(tab).viewport.rendered_rows,
{
    let total = tab.total_rows;
    let page = tab.viewport.page_size;
    match cmd {
        NormalCommand::Down => tab.viewport.move_cursor_down(1, total),
        NormalCommand::Up => tab.viewport.move_cursor_up(1),
        NormalCommand::HalfPageDown => tab.viewport.move_cursor_down(page / 2, total),
        NormalCommand::HalfPageUp => tab.viewport.move_cursor_up(page / 2),
        NormalCommand::PageDown => tab.viewport.move_cursor_down(page, total),
        NormalCommand::PageUp => tab.viewport.move_cursor_up(page),
        NormalCommand::Top => {
            tab.viewport.selected_row = 0;
            tab.viewport.adjust_view();
        },
        _ => {
            if total == 0 {
                return plain(NormalEffect::Nothing);
            }
            tab.viewport.selected_row = total - 1;
            tab.viewport.adjust_view();
        },
    }
    plain(NormalEffect::EnsureBuffer)
}

/// Horizontal moves.
fn step_columns(tab: &mut TabView, cmd: NormalCommand, has_tabs: bool, wrap: bool) -> (r: NormalOutcome)
    requires
        old(tab).wf(),
        old(tab).in_range(),
        cmd == NormalCommand::Left || cmd == NormalCommand::Right || cmd == NormalCommand::FirstColumn,
    ensures
        final(tab).wf(),
        normal_step(cmd, *old(tab), *final(tab), r, has_tabs, wrap),
        final(tab).viewport.col_width_overrides@ == old(tab).viewport.col_width_overrides@,
        final(tab).viewport.rendered_rows == old(tab).viewport.rendered_rows,
{
    let max = max_col(&tab.field_names);
    let has_schema = tab.field_names.is_some();
    let off = tab.viewport.column_offset;
    let sel = tab.viewport.selected_col;
    let frozen = tab.viewport.frozen_cols;
    let mode = tab.viewport.selection_mode;
    match cmd {
        NormalCommand::Left => match mode {
            SelectionMode::Row => {
                if off > frozen {
                    let n = next_visible_col(off, -1, tab.hidden_columns.as_slice(), max);
                    tab.viewport.column_offset = if n > frozen { n } else { frozen };
                }
                plain(NormalEffect::Nothing)
            },
            SelectionMode::Column => {
                if has_schema {
                    tab.viewport.selected_col = next_visible_col(sel, -1, tab.hidden_columns.as_slice(), max);
                    plain(NormalEffect::AdjustColumnView)
                } else {
                    plain(NormalEffect::Nothing)
                }
            },
        },
        NormalCommand::Right => {
            if !has_schema {
                return plain(NormalEffect::Nothing);
            }
            match mode {
                SelectionMode::Row => {
                    tab.viewport.column_offset = next_visible_col(off, 1, tab.hidden_columns.as_slice(), max);
                    plain(NormalEffect::Nothing)
                },
                SelectionMode::Column => {
                    tab.viewport.selected_col = next_visible_col(sel, 1, tab.hidden_columns.as_slice(), max);
                    plain(NormalEffect::AdjustColumnView)
                },
            }
        },
        _ => {
            let first = first_visible_col(tab.hidden_columns.as_slice(), max);
            match mode {
                SelectionMode::Row => {
                    tab.viewport.column_offset = first;
                    plain(NormalEffect::Nothing)
                },
                SelectionMode::Column => {
                    tab.viewport.selected_col = first;
                    plain(NormalEffect::AdjustColumnView)
                },
            }
        },
    }
}

/// A strictly increasing list is sorted.
pub proof fn lemma_strict_sorted(s: Seq<usize>)
    requires
        strictly_increasing(s),
    ensures
        sorted(s),
{
}

/// The index of the cursor's column: the selected column, or the last one
/// when the selection lies beyond the schema.
fn cursor_index(names: &Vec<String>, sel: usize) -> (r: usize)
    requires
        names@.len() > 0,
    ensures
        r == if sel < names@.len() { sel as int } else { names@.len() - 1 },
{
    if sel < names.len() { sel } else { names.len() - 1 }
}

/// Sort by the cursor's column: add it ascending, flip it to descending, or
/// drop it.
fn step_sort(tab: &mut TabView, has_tabs: bool, wrap: bool) -> (r: NormalOutcome)
    requires
        old(tab).wf(),
    ensures
        final(tab).wf(),
        normal_step(NormalCommand::CycleSort, *old(tab), *final(tab), r, has_tabs, wrap),
        final(tab).viewport.col_width_overrides@ == old(tab).viewport.col_width_overrides@,
        final(tab).viewport.rendered_rows == old(tab).viewport.rendered_rows,
{
    let name = match &tab.field_names {
        Some(v) => {
            if v.len() == 0 {
                return plain(NormalEffect::Nothing);
            }
            let idx = cursor_index(v, tab.viewport.selected_col);
            v[idx].as_str().to_owned()
        },
        None => return plain(NormalEffect::Nothing),
    };
    tab.sort_state.toggle(name.as_str());
    let mut m = String::new();
    match tab.sort_state.order_for(name.as_str()) {
        Some(SortOrder::Ascending) => {
            push_str(&mut m, "Sort: ");
            push_str(&mut m, name.as_str());
            push_str(&mut m, " asc");
        },
        Some(SortOrder::Descending) => {
            push_str(&mut m, "Sort: ");
            push_str(&mut m, name.as_str());
            push_str(&mut m, " desc");
        },
        None => {
            push_str(&mut m, "Sort cleared: ");
            push_str(&mut m, name.as_str());
        },
    }
    assert(m@ =~= sort_message(name@, order_of(tab.sort_state@, name@)));
    let applied = tab.sort_state.clone();
    with_status(NormalEffect::ApplySort(applied), m)
}

/// `n` columns, none of them ticked.
fn all_false(n: usize) -> (r: Vec<bool>)
    ensures
        r@ == Seq::new(n as nat, |i: int| false),
{
    let mut v: Vec<bool> = Vec::new();
    let mut i: usize = 0;
    while i < n
        invariant
            i <= n,
            v@ == Seq::new(i as nat, |k: int| false),
        decreases n - i,
    {
        v.push(false);
        i += 1;
        assert(v@ =~= Seq::new(i as nat, |k: int| false));
    }
    v
}

/// A copy of a list of flags.
fn copy_flags(src: &Vec<bool>) -> (r: Vec<bool>)
    ensures
        r@ == src@,
{
    let mut v: Vec<bool> = Vec::new();
    let mut i: usize = 0;
    while i < src.len()
        invariant
            i <= src@.len(),
            v@ == src@.take(i as int),
        decreases src@.len() - i,
    {
        v.push(src[i]);
        i += 1;
        assert(v@ =~= src@.take(i as int));
    }
    assert(src@.take(src@.len() as int) =~= src@);
    v
}

/// Reset the view: no search, filter, sort or hidden column, cursor home.
fn step_reset(tab: &mut TabView, has_tabs: bool, wrap: bool) -> (r: NormalOutcome)
    requires
        old(tab).wf(),
    ensures
        final(tab).wf(),
        normal_step(NormalCommand::ResetView, *old(tab), *final(tab), r, has_tabs, wrap),
        final(tab).viewport.col_width_overrides@ == old(tab).viewport.col_width_overrides@,
        final(tab).viewport.rendered_rows == old(tab).viewport.rendered_rows,
{
    tab.search = SearchState::new();
    tab.active_filter = None;
    tab.sort_state.clear();
    let n = tab.hidden_columns.len();
    tab.hidden_columns = all_false(n);
    tab.viewport.view_start = 0;
    tab.viewport.selected_row = 0;
    tab.viewport.column_offset = 0;
    tab.viewport.selected_col = 0;
    with_status(NormalEffect::ResetView, text("View reset"))
}

/// Esc: clear the search if there is one, else the filter.
fn step_escape(tab: &mut TabView, has_tabs: bool, wrap: bool) -> (r: NormalOutcome)
    requires
        old(tab).wf(),
    ensures
        final(tab).wf(),
        normal_step(NormalCommand::Escape, *old(tab), *final(tab), r, has_tabs, wrap),
        final(tab).viewport.col_width_overrides@ == old(tab).viewport.col_width_overrides@,
        final(tab).viewport.rendered_rows == old(tab).viewport.rendered_rows,
{
    if tab.search.active_search.is_some() {
        tab.search.active_search = None;
        tab.search.match_count = None;
        tab.search.match_index = None;
        tab.search.match_rows = Vec::new();
        with_status(NormalEffect::Nothing, text("Search cleared"))
    } else if tab.active_filter.is_some() {
        tab.active_filter = None;
        plain(NormalEffect::ResetFilter)
    } else {
        plain(NormalEffect::Nothing)
    }
}

/// n / N: jump to the next or previous search match.
fn step_match(tab: &mut TabView, cmd: NormalCommand, has_tabs: bool, wrap: bool) -> (r: NormalOutcome)
    requires
        old(tab).wf(),
        old(tab).in_range(),
        cmd == NormalCommand::NextMatch || cmd == NormalCommand::PrevMatch,
    ensures
        final(tab).wf(),
        normal_step(cmd, *old(tab), *final(tab), r, has_tabs, wrap),
        final(tab).viewport.col_width_overrides@ == old(tab).viewport.col_width_overrides@,
        final(tab).viewport.rendered_rows == old(tab).viewport.rendered_rows,
{
    if tab.search.active_search.is_none() {
        return plain(NormalEffect::Nothing);
    }
    let cur = tab.viewport.selected_row;
    let next = cmd == NormalCommand::NextMatch;
    let found = if next { tab.search.next_match(cur) } else { tab.search.prev_match(cur) };
    proof {
        lemma_lower_bound(tab.search.match_rows@, cur + 1);
        lemma_lower_bound(tab.search.match_rows@, cur as int);
    }
    let nrows = tab.search.match_rows.len();
    match found {
        Some((idx, row)) => {
            assert(idx < nrows);
            tab.search.match_index = Some(idx + 1);
            tab.viewport.selected_row = row;
            tab.viewport.adjust_view();
            let wrapped = if next { row <= cur } else { row >= cur };
            let mut m = String::new();
            push_str(&mut m, "Match at row ");
            push_decimal(&mut m, row + 1);
            suffix_wrapped(&mut m, wrapped);
            assert(m@ =~= match_message(row as nat, wrapped));
            with_status(NormalEffect::EnsureBuffer, m)
        },
        None => with_status(NormalEffect::Nothing, text("No match found")),
    }
}

/// } / {: jump to the next or previous marked row.
fn step_mark_nav(tab: &mut TabView, cmd: NormalCommand, has_tabs: bool, wrap: bool) -> (r: NormalOutcome)
    requires
        old(tab).wf(),
        old(tab).in_range(),
        cmd == NormalCommand::NextMark || cmd == NormalCommand::PrevMark,
    ensures
        final(tab).wf(),
        normal_step(cmd, *old(tab), *final(tab), r, has_tabs, wrap),
        final(tab).viewport.col_width_overrides@ == old(tab).viewport.col_width_overrides@,
        final(tab).viewport.rendered_rows == old(tab).viewport.rendered_rows,
{
    let cur = tab.viewport.selected_row;
    let next = cmd == NormalCommand::NextMark;
    proof {
        lemma_strict_sorted(tab.marked_rows@);
        lemma_lower_bound(tab.marked_rows@, cur + 1);
        lemma_lower_bound(tab.marked_rows@, cur as int);
    }
    let found = if next { next_row_after(&tab.marked_rows, cur) } else { prev_row_before(&tab.marked_rows, cur) };
    match found {
        Some((idx, row)) => {
            let total = tab.marked_rows.len();
            tab.viewport.selected_row = row;
            tab.viewport.adjust_view();
            let wrapped = if next { row <= cur } else { row >= cur };
            let mut m = String::new();
            push_str(&mut m, "Mark ");
            push_decimal(&mut m, idx + 1);
            push_str(&mut m, "/");
            push_decimal(&mut m, total);
            suffix_wrapped(&mut m, wrapped);
            assert(m@ =~= mark_message(idx as nat, total as nat, wrapped));
            with_status(NormalEffect::EnsureBuffer, m)
        },
        None => with_status(NormalEffect::Nothing, text("No marks")),
    }
}

/// m / M: mark or unmark the cursor's row, or clear all marks.
fn step_marks(tab: &mut TabView, cmd: NormalCommand, has_tabs: bool, wrap: bool) -> (r: NormalOutcome)
    requires
        old(tab).wf(),
        old(tab).fits_command(cmd),
        cmd == NormalCommand::ToggleMark || cmd == NormalCommand::ClearMarks,
    ensures
        final(tab).wf(),
        normal_step(cmd, *old(tab), *final(tab), r, has_tabs, wrap),
        final(tab).viewport.col_width_overrides@ == old(tab).viewport.col_width_overrides@,
        final(tab).viewport.rendered_rows == old(tab).viewport.rendered_rows,
{
    if cmd == NormalCommand::ToggleMark {
        let row = tab.viewport.selected_row;
        let was = toggle_mark(&mut tab.marked_rows, row);
        proof {
            assert forall|i: int| 0 <= i < tab.marked_rows@.len() implies tab.marked_rows@[i] < usize::MAX by {
                let x = tab.marked_rows@[i];
                assert(tab.marked_rows@.contains(x));
                if x != row {
                    assert(old(tab).marked_rows@.contains(x));
                }
            }
        }
        let total = tab.marked_rows.len();
        let mut m = String::new();
        if was {
            push_str(&mut m, "Unmarked row ");
        } else {
            push_str(&mut m, "Marked row ");
        }
        push_decimal(&mut m, row + 1);
        push_str(&mut m, " (");
        push_decimal(&mut m, total);
        push_str(&mut m, " marked)");
        assert(m@ =~= mark_toggle_message(was, row as nat, total as nat));
        with_status(NormalEffect::Nothing, m)
    } else {
        let count = tab.marked_rows.len();
        if count > 0 {
            tab.marked_rows = Vec::new();
            let mut m = String::new();
            push_str(&mut m, "Cleared ");
            push_decimal(&mut m, count);
            push_str(&mut m, " mark(s)");
            assert(m@ =~= "Cleared "@ + decimal(count as nat) + " mark(s)"@);
            with_status(NormalEffect::Nothing, m)
        } else {
            with_status(NormalEffect::Nothing, text("No marks to clear"))
        }
    }
}

/// F: freeze the columns left of the offset, or unfreeze.
fn step_freeze(tab: &mut TabView, has_tabs: bool, wrap: bool) -> (r: NormalOutcome)
    requires
        old(tab).wf(),
    ensures
        final(tab).wf(),
        normal_step(NormalCommand::ToggleFreeze, *old(tab), *final(tab), r, has_tabs, wrap),
        final(tab).viewport.col_width_overrides@ == old(tab).viewport.col_width_overrides@,
        final(tab).viewport.rendered_rows == old(tab).viewport.rendered_rows,
{
    let frozen = tab.viewport.frozen_cols;
    let offset = tab.viewport.column_offset;
    if frozen > 0 {
        tab.viewport.frozen_cols = 0;
        with_status(NormalEffect::Nothing, text("Columns unfrozen"))
    } else if offset > 0 {
        tab.viewport.frozen_cols = offset;
        let mut m = String::new();
        push_str(&mut m, "Froze ");
        push_decimal(&mut m, offset);
        push_str(&mut m, " column(s)");
        assert(m@ =~= "Froze "@ + decimal(offset as nat) + " column(s)"@);
        with_status(NormalEffect::Nothing, m)
    } else {
        with_status(NormalEffect::Nothing, text("Scroll right first, then freeze"))
    }
}

/// f: open the filter prompt with `"column" = ` for the cursor's column.
fn step_column_filter(tab: &TabView) -> (r: NormalOutcome)
    ensures
        r.status is None,
        match cursor_column(tab.field_names, tab.viewport.selected_col as int) {
            Some(name) => r.effect matches NormalEffect::StartFilter(t) && t@ == column_filter_text(name),
            None => r.effect is Nothing,
        },
{
    match &tab.field_names {
        Some(v) => {
            if v.len() == 0 {
                return plain(NormalEffect::Nothing);
            }
            let idx = cursor_index(v, tab.viewport.selected_col);
            let mut t = String::new();
            push_str(&mut t, "\"");
            push_str(&mut t, v[idx].as_str());
            push_str(&mut t, "\" = ");
            proof { reveal_strlit("\""); }
            assert(t@ =~= column_filter_text(v@[idx as int]@));
            plain(NormalEffect::StartFilter(t))
        },
        None => plain(NormalEffect::Nothing),
    }
}

/// H: open the column picker, ticking the hidden columns.
fn step_hide_picker(tab: &TabView) -> (r: NormalOutcome)
    ensures
        r.status is None,
        match tab.field_names {
            Some(v) => r.effect matches NormalEffect::OpenColumnPicker(t)
                && t@ == picker_ticks(tab.hidden_columns@, v@.len()),
            None => r.effect is Nothing,
        },
{
    match &tab.field_names {
        Some(v) => {
            let ticks = if tab.hidden_columns.len() == v.len() {
                copy_flags(&tab.hidden_columns)
            } else {
                all_false(v.len())
            };
            plain(NormalEffect::OpenColumnPicker(ticks))
        },
        None => plain(NormalEffect::Nothing),
    }
}

impl TabView {
    /// Whether command `cmd` can be applied to this view without overflow.
    pub fn command_fits(&self, cmd: NormalCommand) -> (b: bool)
        ensures
            b == self.fits_command(cmd),
    {
        let vp = &self.viewport;
        let in_range = vp.selected_row < usize::MAX - vp.page_size
            && vp.column_offset < isize::MAX as usize
            && vp.selected_col < isize::MAX as usize;
        match cmd {
            NormalCommand::Down | NormalCommand::Up | NormalCommand::HalfPageDown
            | NormalCommand::HalfPageUp | NormalCommand::PageDown | NormalCommand::PageUp
            | NormalCommand::Top | NormalCommand::Bottom | NormalCommand::Left
            | NormalCommand::Right | NormalCommand::FirstColumn | NormalCommand::NextMatch
            | NormalCommand::PrevMatch | NormalCommand::NextMark
            | NormalCommand::PrevMark => in_range,
            NormalCommand::ToggleMark => vp.selected_row < usize::MAX,
            _ => true,
        }
    }
}

/// Law: pressing the mark key twice on the same view gives back the marks it
/// started with, and leaves the cursor, the columns and the data as they were.
pub proof fn law_mark_key_twice(
    a: TabView,
    b: TabView,
    c: TabView,
    r1: NormalOutcome,
    r2: NormalOutcome,
    has_tabs: bool,
    wrap: bool,
)
    requires
        a.wf(),
        normal_step(NormalCommand::ToggleMark, a, b, r1, has_tabs, wrap),
        normal_step(NormalCommand::ToggleMark, b, c, r2, has_tabs, wrap),
    ensures
        c.marked_rows@ == a.marked_rows@,
        same_rows(a.viewport, c.viewport),
        same_cols(a.viewport, c.viewport),
        c.total_rows == a.total_rows,
        c.sort_state@ == a.sort_state@,
        same_search(a.search, c.search),
        opt_view(c.active_filter) == opt_view(a.active_filter),
{
    let row = a.viewport.selected_row;
    assert(b.viewport.selected_row == row);
    assert forall|x: usize| a.marked_rows@.contains(x) <==> c.marked_rows@.contains(x) by {
        if x == row {
            assert(b.marked_rows@.contains(row) == !a.marked_rows@.contains(row));
        }
    }
    lemma_same_marks_same_list(a.marked_rows@, c.marked_rows@);
}

/// Apply a normal-mode command to the view. `has_tabs` tells whether more
/// than one tab is open and `wrap` whether lines are wrapped now.
pub fn apply_normal(tab: &mut TabView, cmd: NormalCommand, has_tabs: bool, wrap: bool) -> (r: NormalOutcome)
    requires
        old(tab).wf(),
        old(tab).fits_command(cmd),
    ensures
        final(tab).wf(),
        normal_step(cmd, *old(tab), *final(tab), r, has_tabs, wrap),
        final(tab).viewport.col_width_overrides@ == old(tab).viewport.col_width_overrides@,
        final(tab).viewport.rendered_rows == old(tab).viewport.rendered_rows,
{
    match cmd {
        NormalCommand::Quit => plain(NormalEffect::Quit),
        NormalCommand::ToggleSelectionMode => {
            match tab.viewport.selection_mode {
                SelectionMode::Row => {
                    tab.viewport.selected_col = tab.viewport.column_offset;
                    tab.viewport.selection_mode = SelectionMode::Column;
                },
                SelectionMode::Column => {
                    tab.viewport.selection_mode = SelectionMode::Row;
                },
            }
            plain(NormalEffect::Nothing)
        },
        NormalCommand::Down | NormalCommand::Up | NormalCommand::HalfPageDown | NormalCommand::HalfPageUp
        | NormalCommand::PageDown | NormalCommand::PageUp | NormalCommand::Top | NormalCommand::Bottom => {
            step_rows(tab, cmd, has_tabs, wrap)
        },
        NormalCommand::Left | NormalCommand::Right | NormalCommand::FirstColumn => {
            step_columns(tab, cmd, has_tabs, wrap)
        },
        NormalCommand::CycleSort => step_sort(tab, has_tabs, wrap),
        NormalCommand::ResetView => step_reset(tab, has_tabs, wrap),
        NormalCommand::Stats => plain(NormalEffect::OpenStats),
        NormalCommand::ColumnJump => {
            if tab.field_names.is_some() {
                plain(NormalEffect::OpenColumnJump)
            } else {
                plain(NormalEffect::Nothing)
            }
        },
        NormalCommand::Search => plain(NormalEffect::StartSearch),
        NormalCommand::ColumnFilter => step_column_filter(tab),
        NormalCommand::Escape => step_escape(tab, has_tabs, wrap),
        NormalCommand::SqlPad => plain(NormalEffect::OpenSql),
        NormalCommand::NextMatch | NormalCommand::PrevMatch => step_match(tab, cmd, has_tabs, wrap),
        NormalCommand::GoToRow => plain(NormalEffect::StartGoTo),
        NormalCommand::ToggleMark | NormalCommand::ClearMarks => step_marks(tab, cmd, has_tabs, wrap),
        NormalCommand::NextMark | NormalCommand::PrevMark => step_mark_nav(tab, cmd, has_tabs, wrap),
        NormalCommand::HidePicker => step_hide_picker(tab),
        NormalCommand::ToggleFreeze => step_freeze(tab, has_tabs, wrap),
        NormalCommand::ToggleWrap => {
            let m = if wrap { text("Wrap: off") } else { text("Wrap: on") };
            with_status(NormalEffect::ToggleWrap, m)
        },
        NormalCommand::Help => plain(NormalEffect::OpenHelp),
        NormalCommand::NextTab => if has_tabs { plain(NormalEffect::SwitchTab(1)) } else { plain(NormalEffect::Nothing) },
        NormalCommand::PrevTab => if has_tabs { plain(NormalEffect::SwitchTab(-1)) } else { plain(NormalEffect::Nothing) },
        NormalCommand::Nothing => plain(NormalEffect::Nothing),
    }
}

} // verus!
