//! What the table view decides before it draws: whether the rows in view
//! are held at all, how each row is marked, and how each cell stands out.
use vstd::prelude::*;

use crate::cell_filter::{cell_matches_filter, cell_matches_spec, NumOrder, SimpleFilter};
use crate::event::str_eq;
use crate::layout::{str_width, unicode_str_width};
use crate::text::{ascii_lower_char, chars_of};

verus! {

/// Whether the rows in view lie wholly outside the rows held in memory, so
/// that a loading notice stands in for the table.
pub open spec fn outside_buffer_spec(view_start: int, page_size: int, buffer_offset: int, buffer_rows: int) -> bool {
    view_start >= buffer_offset + buffer_rows || view_start + page_size <= buffer_offset
}

/// Whether the view shows no row of the buffer.
pub fn viewport_outside_buffer(view_start: usize, page_size: usize, buffer_offset: usize, buffer_rows: usize) -> (r: bool)
    requires
        buffer_offset + buffer_rows <= usize::MAX,
        view_start + page_size <= usize::MAX,
    ensures
        r == outside_buffer_spec(view_start as int, page_size as int, buffer_offset as int, buffer_rows as int),
{
    view_start >= buffer_offset + buffer_rows || view_start + page_size <= buffer_offset
}

/// How a row is marked: the selected row (unless whole columns are being
/// selected) and the rows the user marked.
#[derive(Clone, Copy, Debug, PartialEq, Eq, Structural)]
pub enum RowLook {
    SelectedMarked,
    Selected,
    Marked,
    Plain,
}

/// The look of a row from whether it is the selected one, whether columns
/// are being selected, and whether it is marked.
pub open spec fn row_look_spec(is_selected: bool, col_select_active: bool, marked: bool) -> RowLook {
    let highlight = is_selected && !col_select_active;
    if highlight && marked {
        RowLook::SelectedMarked
    } else if highlight {
        RowLook::Selected
    } else if marked {
        RowLook::Marked
    } else {
        RowLook::Plain
    }
}

fn holds_row(rows: &Vec<usize>, row: usize) -> (r: bool)
    ensures
        r == rows@.contains(row),
{
    let mut i: usize = 0;
    while i < rows.len()
        invariant
            i <= rows@.len(),
            forall|j: int| 0 <= j < i ==> rows@[j] != row,
        decreases rows@.len() - i,
    {
        if rows[i] == row {
            assert(rows@[i as int] == row);
            return true;
        }
        i += 1;
    }
    false
}

/// The look of the row at `data_row` of the buffer, which starts at row
/// `buffer_offset`; `marked_rows` holds the marked rows' absolute numbers.
pub fn row_look(
    data_row: usize,
    selected_data_row: usize,
    col_select_active: bool,
    buffer_offset: usize,
    marked_rows: &Vec<usize>,
) -> (r: RowLook)
    requires
        buffer_offset + data_row <= usize::MAX,
    ensures
        r == row_look_spec(
            data_row == selected_data_row,
            col_select_active,
            marked_rows@.contains((buffer_offset + data_row) as usize),
        ),
{
    let marked = holds_row(marked_rows, buffer_offset + data_row);
    let highlight = data_row == selected_data_row && !col_select_active;
    if highlight && marked {
        RowLook::SelectedMarked
    } else if highlight {
        RowLook::Selected
    } else if marked {
        RowLook::Marked
    } else {
        RowLook::Plain
    }
}

/// The three characters drawn before a row.
pub open spec fn row_prefix_spec(look: RowLook) -> Seq<char> {
    match look {
        RowLook::SelectedMarked => "*> "@,
        RowLook::Selected => ">> "@,
        RowLook::Marked => " * "@,
        RowLook::Plain => "   "@,
    }
}

/// The prefix drawn before a row of the given look.
pub fn row_prefix(look: RowLook) -> (r: &'static str)
    ensures
        r@ == row_prefix_spec(look),
{
    match look {
        RowLook::SelectedMarked => "*> ",
        RowLook::Selected => ">> ",
        RowLook::Marked => " * ",
        RowLook::Plain => "   ",
    }
}

/// The buffer row of the current search match: `match_index` counts the
/// matches from 1, `match_rows` holds their absolute rows; `None` when there
/// is no current match or it lies before the buffer.
pub open spec fn current_match_spec(match_index: Option<usize>, rows: Seq<usize>, buffer_offset: usize) -> Option<usize> {
    match match_index {
        Some(i) => if 1 <= i && i - 1 < rows.len() && rows[i - 1] >= buffer_offset {
            Some((rows[i - 1] - buffer_offset) as usize)
        } else {
            None
        },
        None => None,
    }
}

/// The buffer row of the current search match.
pub fn current_match_row(match_index: Option<usize>, match_rows: &Vec<usize>, buffer_offset: usize) -> (r: Option<usize>)
    ensures
        r == current_match_spec(match_index, match_rows@, buffer_offset),
{
    match match_index {
        Some(i) => {
            if i >= 1 && i - 1 < match_rows.len() {
                let abs = match_rows[i - 1];
                if abs >= buffer_offset {
                    Some(abs - buffer_offset)
                } else {
                    None
                }
            } else {
                None
            }
        },
        None => None,
    }
}

/// Two texts are equal when ASCII letters are compared without case.
pub open spec fn ascii_eq_ignore_case(a: Seq<char>, b: Seq<char>) -> bool {
    &&& a.len() == b.len()
    &&& forall|i: int| 0 <= i < a.len() ==> ascii_lower_char(a[i]) == ascii_lower_char(b[i])
}

fn lower_code(c: char) -> (r: u32)
    ensures
        r == ascii_lower_char(c) as u32,
{
    let x = c as u32;
    if 65 <= x && x <= 90 {
        x + 32
    } else {
        x
    }
}

/// Whether two texts are equal when ASCII letters are compared without case.
pub fn eq_ignore_ascii_case(a: &str, b: &str) -> (r: bool)
    ensures
        r == ascii_eq_ignore_case(a@, b@),
{
    let ca = chars_of(a);
    let cb = chars_of(b);
    if ca.len() != cb.len() {
        return false;
    }
    let mut i: usize = 0;
    while i < ca.len()
        invariant
            ca@ == a@,
            cb@ == b@,
            ca@.len() == cb@.len(),
            i <= ca@.len(),
            forall|j: int| 0 <= j < i ==> ascii_lower_char(a@[j]) == ascii_lower_char(b@[j]),
        decreases ca@.len() - i,
    {
        let x = lower_code(ca[i]);
        let y = lower_code(cb[i]);
        if x != y {
            assert(ascii_lower_char(a@[i as int]) != ascii_lower_char(b@[i as int]));
            return false;
        }
        i += 1;
    }
    true
}

/// The first column whose name equals `column` without regard to ASCII case.
pub fn highlight_column(names: &Vec<String>, column: &str) -> (r: Option<usize>)
    ensures
        r matches Some(i) ==> i < names@.len() && ascii_eq_ignore_case(names@[i as int]@, column@)
            && forall|j: int| 0 <= j < i ==> !ascii_eq_ignore_case(#[trigger] names@[j]@, column@),
        r is None ==> forall|j: int| 0 <= j < names@.len() ==> !ascii_eq_ignore_case(#[trigger] names@[j]@, column@),
{
    let mut i: usize = 0;
    while i < names.len()
        invariant
            i <= names@.len(),
            forall|j: int| 0 <= j < i ==> !ascii_eq_ignore_case(#[trigger] names@[j]@, column@),
        decreases names@.len() - i,
    {
        if eq_ignore_ascii_case(names[i].as_str(), column) {
            return Some(i);
        }
        i += 1;
    }
    None
}

/// How a search match shows in a cell.
#[derive(Clone, Copy, Debug, PartialEq, Eq, Structural)]
pub enum MatchLook {
    NoMatch,
    Current,
    Other,
}

/// How a cell stands out: whether it shows `NULL`, whether the active filter
/// picks it out, and how a search match shows in it.
#[derive(Clone, Copy, Debug, PartialEq, Eq, Structural)]
pub struct CellLook {
    pub null: bool,
    pub filter_hit: bool,
    pub search: MatchLook,
}

/// An `IS NULL` filter.
pub open spec fn is_null_filter(f: SimpleFilter) -> bool {
    f.op@ == "IS"@ && ascii_eq_ignore_case(f.value@, "NULL"@)
}

/// The look of one cell. `col_selected`: its column is selected;
/// `highlighted`: its column is the filter's column; `search_hit`: whether
/// the active search matches the cell's text (`None` when no search is
/// active); `current_row`: its row holds the current search match. A null
/// cell never shows a search match, and a filter marks it only when the
/// filter is `IS NULL`.
pub open spec fn cell_look_spec(
    col_selected: bool,
    highlighted: bool,
    is_null: bool,
    text: Seq<char>,
    filter: Option<SimpleFilter>,
    numeric: Option<NumOrder>,
    search_hit: Option<bool>,
    current_row: bool,
) -> CellLook {
    if is_null {
        CellLook {
            null: true,
            filter_hit: !col_selected && highlighted && (filter matches Some(f) && is_null_filter(f)),
            search: MatchLook::NoMatch,
        }
    } else {
        CellLook {
            null: false,
            filter_hit: !col_selected && highlighted && (filter matches Some(f)
                && cell_matches_spec(text, f.op@, f.value@, f.value_lower@, numeric)),
            search: if search_hit == Some(true) {
                if current_row { MatchLook::Current } else { MatchLook::Other }
            } else {
                MatchLook::NoMatch
            },
        }
    }
}

/// Decide how one cell stands out.
pub fn cell_look(
    col_selected: bool,
    highlighted: bool,
    is_null: bool,
    text: &str,
    filter: &Option<SimpleFilter>,
    numeric: Option<NumOrder>,
    search_hit: Option<bool>,
    current_row: bool,
) -> (r: CellLook)
    ensures
        r == cell_look_spec(col_selected, highlighted, is_null, text@, *filter, numeric, search_hit, current_row),
{
    if is_null {
        let hit = if !col_selected && highlighted {
            match filter {
                Some(f) => str_eq(f.op.as_str(), "IS") && eq_ignore_ascii_case(f.value.as_str(), "NULL"),
                None => false,
            }
        } else {
            false
        };
        return CellLook { null: true, filter_hit: hit, search: MatchLook::NoMatch };
    }
    let hit = if !col_selected && highlighted {
        match filter {
            Some(f) => cell_matches_filter(text, f, numeric),
            None => false,
        }
    } else {
        false
    };
    let search = match search_hit {
        Some(true) => if current_row { MatchLook::Current } else { MatchLook::Other },
        _ => MatchLook::NoMatch,
    };
    CellLook { null: false, filter_hit: hit, search }
}

/// How a cell of the statistics table shows: a null, the column's data type
/// as the engine names it in place of the summary's type text, a column
/// name (drawn in the name colour), or as it is.
#[derive(Clone, Copy, Debug, PartialEq, Eq, Structural)]
pub enum StatsCellLook {
    Null,
    TypeOverride,
    Name,
    Plain,
}

/// The look of a statistics cell in column `col`; `has_override` tells
/// whether the row has a data type to show in the type column.
pub open spec fn stats_cell_spec(
    col: usize,
    is_null: bool,
    name_col: Option<usize>,
    type_col: Option<usize>,
    has_override: bool,
) -> StatsCellLook {
    if is_null {
        StatsCellLook::Null
    } else if type_col == Some(col) && has_override {
        StatsCellLook::TypeOverride
    } else if name_col == Some(col) {
        StatsCellLook::Name
    } else {
        StatsCellLook::Plain
    }
}

/// Decide how a statistics cell shows.
pub fn stats_cell_look(
    col: usize,
    is_null: bool,
    name_col: Option<usize>,
    type_col: Option<usize>,
    has_override: bool,
) -> (r: StatsCellLook)
    ensures
        r == stats_cell_spec(col, is_null, name_col, type_col, has_override),
{
    if is_null {
        return StatsCellLook::Null;
    }
    let is_type_col = match type_col {
        Some(t) => t == col,
        None => false,
    };
    if is_type_col && has_override {
        return StatsCellLook::TypeOverride;
    }
    let is_name_col = match name_col {
        Some(n) => n == col,
        None => false,
    };
    if is_name_col {
        StatsCellLook::Name
    } else {
        StatsCellLook::Plain
    }
}

/// The widest data type among the rows `lo..hi` that have one (0 when none
/// has), each width taken as a `u16`.
pub open spec fn widest_override(overrides: Seq<Option<String>>, lo: int, hi: int) -> int
    decreases hi - lo,
{
    if hi <= lo {
        0
    } else {
        let m = widest_override(overrides, lo, hi - 1);
        let w = match overrides[hi - 1] {
            Some(t) => (unicode_str_width(t@) as u16) as int,
            None => 0,
        };
        if w > m { w } else { m }
    }
}

/// The least width of the statistics table's type column: the widest data
/// type shown among the rows on screen (`height` rows from `scroll_offset`).
/// `None` when no row on screen has one.
pub fn type_column_min(overrides: &Vec<Option<String>>, scroll_offset: usize, height: usize) -> (r: Option<u16>)
    requires
        scroll_offset + height <= usize::MAX,
    ensures
        ({
            let hi = if scroll_offset + height <= overrides@.len() { scroll_offset + height } else { overrides@.len() as int };
            let w = widest_override(overrides@, scroll_offset as int, hi);
            &&& w > 0 ==> r == Some(w as u16)
            &&& w <= 0 ==> r is None
        }),
{
    let end = if scroll_offset + height <= overrides.len() { scroll_offset + height } else { overrides.len() };
    let mut widest: u16 = 0;
    let mut row: usize = scroll_offset;
    if scroll_offset < end {
        while row < end
            invariant
                scroll_offset <= row <= end,
                end <= overrides@.len(),
                widest as int == widest_override(overrides@, scroll_offset as int, row as int),
            decreases end - row,
        {
            match &overrides[row] {
                Some(t) => {
                    let w = str_width(t.as_str()) as u16;
                    if w > widest {
                        widest = w;
                    }
                },
                None => {},
            }
            row += 1;
        }
    }
    if widest > 0 {
        Some(widest)
    } else {
        None
    }
}

} // verus!
