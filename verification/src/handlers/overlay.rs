//! Overlays: scrolling the statistics table, applying the column picker's
//! choice, and jumping to a column found by name.
use vstd::prelude::*;

use crate::handlers::keys::Key;
use crate::handlers::normal::TabView;
use crate::state::{first_visible_col, first_visible_spec, is_hidden};
use crate::text::{decimal, push_decimal, push_str};

verus! {

/// What a key does in the statistics overlay.
#[derive(Debug, Clone, Copy, PartialEq, Eq, Structural)]
pub enum StatsCommand {
    Close,
    Down,
    Up,
    Top,
    Bottom,
    HalfDown,
    HalfUp,
    Nothing,
}

/// The command of a key in the statistics overlay.
pub open spec fn stats_command_spec(key: Key, ctrl: bool) -> StatsCommand {
    match key {
        Key::Esc => StatsCommand::Close,
        Key::Down => StatsCommand::Down,
        Key::Up => StatsCommand::Up,
        Key::Char(c) => if c == 'j' {
            StatsCommand::Down
        } else if c == 'k' {
            StatsCommand::Up
        } else if c == 'g' {
            StatsCommand::Top
        } else if c == 'G' {
            StatsCommand::Bottom
        } else if c == 'd' && ctrl {
            StatsCommand::HalfDown
        } else if c == 'u' && ctrl {
            StatsCommand::HalfUp
        } else {
            StatsCommand::Nothing
        },
        _ => StatsCommand::Nothing,
    }
}

/// Map a key to its statistics-overlay command.
pub fn stats_command(key: Key, ctrl: bool) -> (r: StatsCommand)
    ensures
        r == stats_command_spec(key, ctrl),
{
    match key {
        Key::Esc => StatsCommand::Close,
        Key::Down => StatsCommand::Down,
        Key::Up => StatsCommand::Up,
        Key::Char(c) => if c == 'j' {
            StatsCommand::Down
        } else if c == 'k' {
            StatsCommand::Up
        } else if c == 'g' {
            StatsCommand::Top
        } else if c == 'G' {
            StatsCommand::Bottom
        } else if c == 'd' && ctrl {
            StatsCommand::HalfDown
        } else if c == 'u' && ctrl {
            StatsCommand::HalfUp
        } else {
            StatsCommand::Nothing
        },
        _ => StatsCommand::Nothing,
    }
}

/// The scroll offset after a command, for `total` statistics rows of which
/// `visible` (at least 1) fit: the offset stays within `0..=total - visible`.
pub open spec fn stats_scroll_spec(cmd: StatsCommand, offset: int, total: int, visible: int) -> int {
    let vis = if visible >= 1 { visible } else { 1 };
    let max_scroll = if total >= vis { total - vis } else { 0 };
    let half = if vis / 2 >= 1 { vis / 2 } else { 1 };
    match cmd {
        StatsCommand::Down => if total > 0 {
            if offset + 1 <= max_scroll { offset + 1 } else { max_scroll }
        } else {
            offset
        },
        StatsCommand::Up => if offset >= 1 { offset - 1 } else { 0 },
        StatsCommand::Top => 0,
        StatsCommand::Bottom => max_scroll,
        StatsCommand::HalfDown => if total > 0 {
            if offset + half <= max_scroll { offset + half } else { max_scroll }
        } else {
            offset
        },
        StatsCommand::HalfUp => if offset >= half { offset - half } else { 0 },
        _ => offset,
    }
}

/// Scroll the statistics table.
pub fn stats_scroll(cmd: StatsCommand, offset: usize, total_rows: usize, visible_rows: usize) -> (r: usize)
    requires
        offset + visible_rows + 1 <= usize::MAX,
    ensures
        r == stats_scroll_spec(cmd, offset as int, total_rows as int, visible_rows as int),
{
    let vis = if visible_rows >= 1 { visible_rows } else { 1 };
    let max_scroll = if total_rows >= vis { total_rows - vis } else { 0 };
    let half = if vis / 2 >= 1 { vis / 2 } else { 1 };
    match cmd {
        StatsCommand::Down => if total_rows > 0 {
            if offset + 1 <= max_scroll { offset + 1 } else { max_scroll }
        } else {
            offset
        },
        StatsCommand::Up => if offset >= 1 { offset - 1 } else { 0 },
        StatsCommand::Top => 0,
        StatsCommand::Bottom => max_scroll,
        StatsCommand::HalfDown => if total_rows > 0 {
            if offset + half <= max_scroll { offset + half } else { max_scroll }
        } else {
            offset
        },
        StatsCommand::HalfUp => if offset >= half { offset - half } else { 0 },
        _ => offset,
    }
}

/// How many columns are hidden.
pub open spec fn hidden_count(h: Seq<bool>) -> nat
    decreases h.len(),
{
    if h.len() == 0 { 0 } else { hidden_count(h.drop_last()) + if h.last() { 1nat } else { 0nat } }
}

fn count_hidden(h: &Vec<bool>) -> (r: usize)
    ensures
        r == hidden_count(h@),
{
    let mut n: usize = 0;
    let mut i: usize = 0;
    while i < h.len()
        invariant
            i <= h@.len(),
            n == hidden_count(h@.take(i as int)),
            n <= i,
        decreases h@.len() - i,
    {
        proof { assert(h@.take(i + 1).drop_last() =~= h@.take(i as int)); }
        if h[i] {
            n = n + 1;
        }
        i += 1;
    }
    assert(h@.take(h@.len() as int) =~= h@);
    n
}

/// A column position moved off a hidden column: to the first shown one.
pub open spec fn off_hidden(pos: int, hidden: Seq<bool>) -> int {
    if is_hidden(hidden, pos) {
        first_visible_spec(hidden, if hidden.len() >= 1 { hidden.len() - 1 } else { 0 })
    } else {
        pos
    }
}

/// Hide the picked columns: the selected column and the column offset move
/// to the first shown column if theirs is now hidden. Returns the status
/// message.
pub fn confirm_hidden_columns(tab: &mut TabView, selected: Vec<bool>) -> (r: String)
    requires
        old(tab).wf(),
    ensures
        final(tab).wf(),
        final(tab).hidden_columns@ == selected@,
        final(tab).viewport.selected_col == off_hidden(old(tab).viewport.selected_col as int, selected@),
        final(tab).viewport.column_offset == off_hidden(old(tab).viewport.column_offset as int, selected@),
        final(tab).viewport.selected_row == old(tab).viewport.selected_row,
        final(tab).viewport.view_start == old(tab).viewport.view_start,
        final(tab).viewport.page_size == old(tab).viewport.page_size,
        r@ == if hidden_count(selected@) > 0 {
            decimal(hidden_count(selected@)) + " column(s) hidden"@
        } else {
            "All columns visible"@
        },
{
    let max_col = if selected.len() >= 1 { selected.len() - 1 } else { 0 };
    tab.hidden_columns = selected;
    let sel = tab.viewport.selected_col;
    if sel < tab.hidden_columns.len() && tab.hidden_columns[sel] {
        tab.viewport.selected_col = first_visible_col(tab.hidden_columns.as_slice(), max_col);
    }
    let off = tab.viewport.column_offset;
    if off < tab.hidden_columns.len() && tab.hidden_columns[off] {
        tab.viewport.column_offset = first_visible_col(tab.hidden_columns.as_slice(), max_col);
    }
    let n = count_hidden(&tab.hidden_columns);
    if n > 0 {
        let mut m = String::new();
        push_decimal(&mut m, n);
        push_str(&mut m, " column(s) hidden");
        assert(m@ =~= decimal(n as nat) + " column(s) hidden"@);
        m
    } else {
        "All columns visible".to_owned()
    }
}

/// The name listed for column `idx` (the first entry with that index), or
/// nothing.
pub open spec fn name_of(all: Seq<(usize, String)>, idx: usize, from: int) -> Seq<char>
    decreases all.len() - from,
{
    if from < 0 || from >= all.len() {
        Seq::empty()
    } else if all[from].0 == idx {
        all[from].1@
    } else {
        name_of(all, idx, from + 1)
    }
}

/// Jump to a column chosen in the column finder: it becomes both the first
/// scrolled column and the selected one. Returns the status message.
pub fn jump_to_column(tab: &mut TabView, all_columns: &Vec<(usize, String)>, col_idx: usize) -> (r: String)
    requires
        old(tab).wf(),
    ensures
        final(tab).wf(),
        final(tab).viewport.column_offset == col_idx,
        final(tab).viewport.selected_col == col_idx,
        final(tab).viewport.selected_row == old(tab).viewport.selected_row,
        final(tab).viewport.view_start == old(tab).viewport.view_start,
        final(tab).hidden_columns@ == old(tab).hidden_columns@,
        r@ == "Jumped to column: "@ + name_of(all_columns@, col_idx, 0),
{
    let m = jumped_message(all_columns, col_idx);
    tab.viewport.column_offset = col_idx;
    tab.viewport.selected_col = col_idx;
    m
}

fn jumped_message(all_columns: &Vec<(usize, String)>, col_idx: usize) -> (r: String)
    ensures
        r@ == "Jumped to column: "@ + name_of(all_columns@, col_idx, 0),
{
    let mut i: usize = 0;
    while i < all_columns.len()
        invariant
            i <= all_columns@.len(),
            name_of(all_columns@, col_idx, 0) == name_of(all_columns@, col_idx, i as int),
        decreases all_columns@.len() - i,
    {
        if all_columns[i].0 == col_idx {
            let mut m = String::new();
            push_str(&mut m, "Jumped to column: ");
            push_str(&mut m, all_columns[i].1.as_str());
            return m;
        }
        i += 1;
    }
    let mut m = String::new();
    push_str(&mut m, "Jumped to column: ");
    assert(m@ =~= "Jumped to column: "@ + name_of(all_columns@, col_idx, 0));
    m
}

} // verus!
