//! Mouse clicks: which column, row or tab a click lands on.
use vstd::prelude::*;

verus! {

/// The shown column whose span (its width plus 2) holds `x`, walking the
/// shown columns (from position `k` on) from `col_x`.
pub open spec fn column_at(widths: Seq<u16>, cols: Seq<usize>, k: int, col_x: int, x: int) -> Option<usize>
    decreases cols.len() - k,
{
    if k < 0 || k >= cols.len() {
        None
    } else {
        let total = widths[cols[k] as int] + 2;
        if col_x <= x < col_x + total {
            Some(cols[k])
        } else {
            column_at(widths, cols, k + 1, col_x + total, x)
        }
    }
}

/// The total span of the shown columns from position `k` on.
pub open spec fn span_from(widths: Seq<u16>, cols: Seq<usize>, k: int) -> int
    decreases cols.len() - k,
{
    if k < 0 || k >= cols.len() {
        0
    } else {
        widths[cols[k] as int] + 2 + span_from(widths, cols, k + 1)
    }
}

pub proof fn lemma_span_nonneg(widths: Seq<u16>, cols: Seq<usize>, k: int)
    ensures
        span_from(widths, cols, k) >= 0,
    decreases cols.len() - k,
{
    if 0 <= k < cols.len() {
        lemma_span_nonneg(widths, cols, k + 1);
    }
}

proof fn lemma_labels_nonneg(name_lens: Seq<usize>, i: int)
    ensures
        labels_span(name_lens, i) >= 0,
    decreases name_lens.len() - i,
{
    if 0 <= i < name_lens.len() {
        lemma_labels_nonneg(name_lens, i + 1);
    }
}

/// The column under `x`, for shown columns `cols` starting at screen
/// column `start_x`.
pub fn hit_test_column(col_widths: &[u16], cols: &Vec<usize>, start_x: u16, x: u16) -> (r: Option<usize>)
    requires
        forall|k: int| 0 <= k < cols@.len() ==> cols@[k] < col_widths@.len(),
        start_x + span_from(col_widths@, cols@, 0) <= u16::MAX,
    ensures
        r == column_at(col_widths@, cols@, 0, start_x as int, x as int),
{
    let mut col_x: u16 = start_x;
    let mut k: usize = 0;
    while k < cols.len()
        invariant
            k <= cols@.len(),
            forall|j: int| 0 <= j < cols@.len() ==> cols@[j] < col_widths@.len(),
            col_x + span_from(col_widths@, cols@, k as int) <= u16::MAX,
            column_at(col_widths@, cols@, 0, start_x as int, x as int)
                == column_at(col_widths@, cols@, k as int, col_x as int, x as int),
        decreases cols@.len() - k,
    {
        let c = cols[k];
        proof { lemma_span_nonneg(col_widths@, cols@, k + 1); }
        let total = col_widths[c] + 2;
        if x >= col_x && x < col_x + total {
            return Some(c);
        }
        col_x = col_x + total;
        k += 1;
    }
    None
}

/// The data row a click on table row `rel_y` (0 is the header) lands on,
/// when there are rows and it is one of them.
pub fn clicked_row(rel_y: u16, view_start: usize, total_rows: usize) -> (r: Option<usize>)
    requires
        view_start + rel_y <= usize::MAX,
    ensures
        ({
            let row = view_start + (if rel_y >= 1 { rel_y - 1 } else { 0 });
            if total_rows > 0 && row < total_rows { r == Some(row as usize) } else { r is None }
        }),
{
    let off: usize = if rel_y >= 1 { (rel_y - 1) as usize } else { 0 };
    let row = view_start + off;
    if total_rows > 0 && row < total_rows { Some(row) } else { None }
}

/// The tab whose label (its name's byte length plus 2, then one separator
/// column) holds `x`, from label `i` on starting at `tab_x`.
pub open spec fn tab_at(name_lens: Seq<usize>, i: int, tab_x: int, x: int) -> Option<usize>
    decreases name_lens.len() - i,
{
    if i < 0 || i >= name_lens.len() {
        None
    } else {
        let w = name_lens[i] + 2;
        if tab_x <= x < tab_x + w { Some(i as usize) } else { tab_at(name_lens, i + 1, tab_x + w + 1, x) }
    }
}

/// The width of the labels from `i` on, separators included.
pub open spec fn labels_span(name_lens: Seq<usize>, i: int) -> int
    decreases name_lens.len() - i,
{
    if i < 0 || i >= name_lens.len() { 0 } else { name_lens[i] + 3 + labels_span(name_lens, i + 1) }
}

/// The tab under `x` in the tab bar, given each tab's name length in bytes.
pub fn hit_test_tab(name_lens: &Vec<usize>, x: u16) -> (r: Option<usize>)
    requires
        labels_span(name_lens@, 0) <= u16::MAX,
    ensures
        r == tab_at(name_lens@, 0, 0, x as int),
{
    let mut tab_x: u16 = 0;
    let mut i: usize = 0;
    while i < name_lens.len()
        invariant
            i <= name_lens@.len(),
            tab_x + labels_span(name_lens@, i as int) <= u16::MAX,
            tab_at(name_lens@, 0, 0, x as int) == tab_at(name_lens@, i as int, tab_x as int, x as int),
        decreases name_lens@.len() - i,
    {
        proof { lemma_labels_nonneg(name_lens@, i + 1); }
        let w = (name_lens[i] + 2) as u16;
        if x >= tab_x && x < tab_x + w {
            return Some(i);
        }
        tab_x = tab_x + w + 1;
        i += 1;
    }
    None
}

} // verus!
