//! Table layout: the row-number gutter, sort indicators in headers, which
//! columns fit on screen, and fitting cell text to a column's width.
use vstd::prelude::*;

use crate::event::{position_spec, order_of, SortOrder, SortState};
use crate::text::{chars_of, push_char, push_str, strings_view};

verus! {

/// The widest a column is drawn by default.
pub const DEFAULT_MAX_COL_WIDTH: u16 = 50;

/// The width of the row prefix (`">> "` or three spaces).
pub const ROW_PREFIX_WIDTH: usize = 3;

/// The number of decimal digits of `n` (1 for 0).
pub open spec fn digit_count(n: nat) -> nat
    decreases n,
{
    if n < 10 { 1 } else { 1 + digit_count(n / 10) }
}

/// The row-number gutter's width: the digits of the row count plus one
/// column of separation (2 when there are no rows).
pub fn gutter_width(total_rows: usize) -> (r: usize)
    ensures
        r == if total_rows == 0 { 2 } else { digit_count(total_rows as nat) + 1 },
{
    if total_rows == 0 {
        return 2;
    }
    proof { lemma_digit_count_small(total_rows as nat); }
    let mut n = total_rows;
    let mut digits: usize = 1;
    while n >= 10
        invariant
            1 <= digits,
            digits + digit_count(n as nat) == digit_count(total_rows as nat) + 1,
            digit_count(total_rows as nat) < usize::MAX,
        decreases n,
    {
        n = n / 10;
        digits = digits + 1;
    }
    digits + 1
}

/// A positive number has at most as many digits as its value, and fewer
/// from 10 on.
pub proof fn lemma_digit_count_small(n: nat)
    requires
        n >= 1,
    ensures
        digit_count(n) <= n,
        n >= 10 ==> digit_count(n) < n,
    decreases n,
{
    if n >= 10 {
        lemma_digit_count_small(n / 10);
    }
}

/// The character `subscript_digit` gives: a subscript digit below 10, else `?`.
pub open spec fn subscript_spec(n: nat) -> char {
    if n < 10 { (0x2080 + n) as char } else { '?' }
}

/// The subscript digit for `n` (`₀`..`₉`), or `?` when `n` has more than one digit.
pub fn subscript_digit(n: usize) -> (r: char)
    ensures
        r == subscript_spec(n as nat),
{
    if n == 0 { '\u{2080}' }
    else if n == 1 { '\u{2081}' }
    else if n == 2 { '\u{2082}' }
    else if n == 3 { '\u{2083}' }
    else if n == 4 { '\u{2084}' }
    else if n == 5 { '\u{2085}' }
    else if n == 6 { '\u{2086}' }
    else if n == 7 { '\u{2087}' }
    else if n == 8 { '\u{2088}' }
    else if n == 9 { '\u{2089}' }
    else { '?' }
}

/// The arrow of a sort direction.
pub open spec fn arrow_of(o: SortOrder) -> Seq<char> {
    match o {
        SortOrder::Ascending => "\u{25b2}"@,
        SortOrder::Descending => "\u{25bc}"@,
    }
}

/// The suffix of a column header: a space and the direction's arrow when the
/// column is sorted, followed (when several columns are sorted) by the
/// column's 1-based rank as a subscript; nothing when it is not sorted.
pub open spec fn sort_indicator_spec(s: Seq<(Seq<char>, SortOrder)>, col: Seq<char>, multi: bool) -> Seq<char> {
    match position_spec(s, col) {
        Some(pos) => match order_of(s, col) {
            Some(o) => seq![' '] + arrow_of(o) + (if multi { seq![subscript_spec((pos + 1) as nat)] } else { Seq::empty() }),
            None => Seq::empty(),
        },
        None => Seq::empty(),
    }
}

/// Build the sort indicator suffix for a column header.
pub fn sort_indicator_string(state: &SortState, col_name: &str, multi: bool) -> (r: String)
    ensures
        r@ == sort_indicator_spec(state@, col_name@, multi),
{
    let mut s = String::new();
    match state.position(col_name) {
        Some(pos) => {
            match state.order_for(col_name) {
                Some(order) => {
                    push_char(&mut s, ' ');
                    push_str(&mut s, order.indicator());
                    if multi {
                        let n = state.specs().len();
                        assert(pos < usize::MAX) by {
                            crate::event::lemma_position_in(state@, col_name@);
                        }
                        push_char(&mut s, subscript_digit(pos + 1));
                    }
                    assert(s@ =~= sort_indicator_spec(state@, col_name@, multi));
                },
                None => {},
            }
        },
        None => {},
    }
    s
}

/// Whether column `i` is hidden (columns beyond the flags are shown).
pub open spec fn hidden_at(hidden: Option<Seq<bool>>, i: int) -> bool {
    match hidden {
        Some(h) => 0 <= i < h.len() && h[i],
        None => false,
    }
}

/// The columns to try, in order: the frozen ones, then those from the
/// offset on (skipping the frozen ones).
pub open spec fn candidate_columns(n: nat, offset: nat, frozen: nat) -> Seq<usize> {
    let f = if frozen < n { frozen } else { n };
    let start = if offset > frozen { offset } else { frozen };
    Seq::new(f, |i: int| i as usize) + (if start < n {
        Seq::new((n - start) as nat, |i: int| (start + i) as usize)
    } else {
        Seq::empty()
    })
}

/// Take candidate columns (from position `k` on) while they fit: hidden
/// columns are skipped, each shown column takes its width plus 2, and the
/// first column that does not fit ends the list (the first shown column is
/// always taken).
pub open spec fn fit_columns(
    widths: Seq<u16>,
    hidden: Option<Seq<bool>>,
    available: int,
    cand: Seq<usize>,
    k: int,
    used: int,
    acc: Seq<usize>,
) -> Seq<usize>
    decreases cand.len() - k,
{
    if k < 0 || k >= cand.len() {
        acc
    } else {
        let i = cand[k] as int;
        if hidden_at(hidden, i) {
            fit_columns(widths, hidden, available, cand, k + 1, used, acc)
        } else {
            let total = widths[i] + 2;
            if used + total > available && acc.len() > 0 {
                acc
            } else {
                fit_columns(widths, hidden, available, cand, k + 1, used + total, acc.push(i as usize))
            }
        }
    }
}

/// The columns that fit in `available_width`, with `left_margin` used before
/// the first, `frozen_cols` leftmost columns pinned, and the rest from
/// `column_offset` on.
pub open spec fn visible_columns_spec(
    widths: Seq<u16>,
    available: int,
    offset: nat,
    left_margin: int,
    hidden: Option<Seq<bool>>,
    frozen: nat,
) -> Seq<usize> {
    fit_columns(widths, hidden, available, candidate_columns(widths.len(), offset, frozen), 0, left_margin, Seq::empty())
}

/// The flags as a sequence, if any.
pub open spec fn flags_view(hidden: Option<&[bool]>) -> Option<Seq<bool>> {
    match hidden {
        Some(h) => Some(h@),
        None => None,
    }
}

fn is_hidden_col(hidden: Option<&[bool]>, i: usize) -> (r: bool)
    ensures
        r == hidden_at(flags_view(hidden), i as int),
{
    match hidden {
        Some(h) => i < h.len() && h[i],
        None => false,
    }
}

/// Determine which columns fit in the available width, starting from `column_offset`.
/// `left_margin` is the width used before the first column (e.g. 3 for row prefix ">> ").
/// `hidden` optionally specifies which columns are hidden and should be skipped.
pub fn visible_columns(
    col_widths: &[u16],
    available_width: usize,
    column_offset: usize,
    left_margin: usize,
    hidden: Option<&[bool]>,
) -> (r: Vec<usize>)
    requires
        left_margin + 0x20002 <= usize::MAX,
        available_width + 0x10001 <= usize::MAX,
    ensures
        r@ == visible_columns_spec(col_widths@, available_width as int, column_offset as nat,
            left_margin as int, flags_view(hidden), 0),
{
    visible_columns_with_freeze(col_widths, available_width, column_offset, left_margin, hidden, 0)
}

/// Like `visible_columns`, with the `frozen_cols` leftmost columns pinned
/// before the scrolled ones.
pub fn visible_columns_with_freeze(
    col_widths: &[u16],
    available_width: usize,
    column_offset: usize,
    left_margin: usize,
    hidden: Option<&[bool]>,
    frozen_cols: usize,
) -> (r: Vec<usize>)
    requires
        left_margin + 0x20002 <= usize::MAX,
        available_width + 0x10001 <= usize::MAX,
    ensures
        r@ == visible_columns_spec(col_widths@, available_width as int, column_offset as nat,
            left_margin as int, flags_view(hidden), frozen_cols as nat),
{
    let n = col_widths.len();
    let ghost w = col_widths@;
    let ghost hv = flags_view(hidden);
    let ghost cand = candidate_columns(n as nat, column_offset as nat, frozen_cols as nat);
    let ghost target = fit_columns(w, hv, available_width as int, cand, 0, left_margin as int, Seq::empty());
    let f = if frozen_cols < n { frozen_cols } else { n };
    let start = if column_offset > frozen_cols { column_offset } else { frozen_cols };
    let mut visible: Vec<usize> = Vec::new();
    let mut used: usize = left_margin;
    // Position in the candidate list: the frozen part first.
    let mut i: usize = 0;
    while i < f
        invariant
            f <= n,
            n == w.len(),
            i <= f,
            cand == candidate_columns(n as nat, column_offset as nat, frozen_cols as nat),
            f == (if frozen_cols < n { frozen_cols } else { n }),
            target == fit_columns(w, hv, available_width as int, cand, 0, left_margin as int, Seq::empty()),
            fit_columns(w, hv, available_width as int, cand, i as int, used as int, visible@) == target,
            visible@.len() == 0 ==> used == left_margin,
            used <= available_width || (visible@.len() <= 1 && used <= left_margin + 0x10001),
            left_margin + 0x20002 <= usize::MAX,
            available_width + 0x10001 <= usize::MAX,
            w == col_widths@,
            hv == flags_view(hidden),
        decreases f - i,
    {
        assert(cand[i as int] == i);
        if !is_hidden_col(hidden, i) {
            let total = col_widths[i] as usize + 2;
            if used + total > available_width && visible.len() > 0 {
                return visible;
            }
            visible.push(i);
            used = used + total;
        }
        i += 1;
    }
    let mut j: usize = start;
    while j < n
        invariant
            f <= n,
            n == w.len(),
            start <= j <= n || (start > n && j == start),
            start == (if column_offset > frozen_cols { column_offset } else { frozen_cols }),
            cand == candidate_columns(n as nat, column_offset as nat, frozen_cols as nat),
            f == (if frozen_cols < n { frozen_cols } else { n }),
            target == fit_columns(w, hv, available_width as int, cand, 0, left_margin as int, Seq::empty()),
            fit_columns(w, hv, available_width as int, cand, f + j - start, used as int, visible@) == target,
            visible@.len() == 0 ==> used == left_margin,
            used <= available_width || (visible@.len() <= 1 && used <= left_margin + 0x10001),
            left_margin + 0x20002 <= usize::MAX,
            available_width + 0x10001 <= usize::MAX,
            w == col_widths@,
            hv == flags_view(hidden),
        decreases n - j,
    {
        assert(cand[f + j - start] == j);
        if !is_hidden_col(hidden, j) {
            let total = col_widths[j] as usize + 2;
            if used + total > available_width && visible.len() > 0 {
                return visible;
            }
            visible.push(j);
            used = used + total;
        }
        j += 1;
    }
    assert(f + j - start >= cand.len() || start >= n);
    visible
}

/// What `UnicodeWidthChar::width` gives for a character.
pub uninterp spec fn unicode_char_width(c: char) -> Option<usize>;

/// What `UnicodeWidthStr::width` gives for a string.
pub uninterp spec fn unicode_str_width(s: Seq<char>) -> usize;

/// `unicode_width::UnicodeWidthChar::width`: the display width of a
/// character, `None` for a control character. The contract names the
/// result and states what the crate's source shows plainly: printable ASCII
/// is one column wide, the C0 and C1 control characters have no width, and
/// no character is wider than three columns. The width tables are not
/// restated.
#[verifier::external_body]
fn char_width(c: char) -> (r: Option<usize>)
    ensures
        r == unicode_char_width(c),
        0x20 <= (c as u32) < 0x7F ==> r == Some(1usize),
        (c as u32) < 0x20 || 0x7F <= (c as u32) < 0xA0 ==> r is None,
        r matches Some(w) ==> w <= 3,
{
    unicode_width::UnicodeWidthChar::width(c)
}

/// `unicode_width::UnicodeWidthStr::width`: the display width of a string.
/// The contract names the result and states only that the empty string
/// has no width; how characters combine (emoji sequences and the like) is
/// left unsaid.
#[verifier::external_body]
pub(crate) fn str_width(s: &str) -> (r: usize)
    ensures
        r == unicode_str_width(s@),
        s@.len() == 0 ==> r == 0,
{
    unicode_width::UnicodeWidthStr::width(s)
}

/// The columns a character takes (control characters none).
pub open spec fn cell_width(c: char) -> nat {
    match unicode_char_width(c) {
        Some(w) => w as nat,
        None => 0,
    }
}

fn width_of(c: char) -> (r: usize)
    ensures
        r == cell_width(c),
        r <= 3,
{
    match char_width(c) {
        Some(w) => w,
        None => 0,
    }
}

/// Wrapping from character `k` on, with the finished `lines`, the current
/// `line` and its width `w`: a character that would take the line past
/// `width` starts a new line (unless the line is empty).
pub open spec fn wrap_from(text: Seq<char>, width: nat, k: int, lines: Seq<Seq<char>>, line: Seq<char>, w: nat) -> Seq<Seq<char>>
    decreases text.len() - k,
{
    if k < 0 || k >= text.len() {
        lines.push(line)
    } else {
        let cw = cell_width(text[k]);
        if w + cw > width && w > 0 {
            wrap_from(text, width, k + 1, lines.push(line), seq![text[k]], cw)
        } else {
            wrap_from(text, width, k + 1, lines, line.push(text[k]), w + cw)
        }
    }
}

/// The lines of `text` wrapped at `width` display columns (the text as one
/// line when the width is 0).
pub open spec fn wrap_lines_spec(text: Seq<char>, width: nat) -> Seq<Seq<char>> {
    if width == 0 { seq![text] } else { wrap_from(text, width, 0, Seq::empty(), Seq::empty(), 0) }
}

/// Split text into lines that each fit within `width` display columns.
pub fn wrap_lines(text: &str, width: usize) -> (r: Vec<String>)
    requires
        width + 3 <= usize::MAX,
    ensures
        strings_view(r@) == wrap_lines_spec(text@, width as nat),
{
    if width == 0 {
        let mut v: Vec<String> = Vec::new();
        v.push(text.to_owned());
        assert(strings_view(v@) =~= seq![text@]);
        return v;
    }
    let cs = chars_of(text);
    let mut lines: Vec<String> = Vec::new();
    let mut line = String::new();
    let mut w: usize = 0;
    let mut k: usize = 0;
    assert(strings_view(lines@) =~= Seq::<Seq<char>>::empty());
    while k < cs.len()
        invariant
            k <= cs@.len(),
            cs@ == text@,
            width > 0,
            width + 3 <= usize::MAX,
            w <= width || w <= 3,
            wrap_from(text@, width as nat, k as int, strings_view(lines@), line@, w as nat)
                == wrap_from(text@, width as nat, 0, Seq::empty(), Seq::empty(), 0),
        decreases cs@.len() - k,
    {
        let c = cs[k];
        let cw = width_of(c);
        if w + cw > width && w > 0 {
            let ghost before = strings_view(lines@);
            lines.push(line);
            assert(strings_view(lines@) =~= before.push(line@));
            line = String::new();
            push_char(&mut line, c);
            assert(line@ =~= seq![c]);
            w = cw;
        } else {
            push_char(&mut line, c);
            w = w + cw;
        }
        k += 1;
    }
    let ghost before = strings_view(lines@);
    lines.push(line);
    assert(strings_view(lines@) =~= before.push(line@));
    lines
}

/// `s` padded with spaces on the right to `n` characters.
pub open spec fn pad_right(s: Seq<char>, n: nat) -> Seq<char> {
    if s.len() < n { s + Seq::new((n - s.len()) as nat, |i: int| ' ') } else { s }
}

/// How many leading characters of `s` (from `k` on, `w` columns used so
/// far) fit in `limit` columns.
pub open spec fn fit_prefix(s: Seq<char>, limit: nat, k: int, w: nat) -> int
    decreases s.len() - k,
{
    if k < 0 || k >= s.len() {
        k
    } else if w + cell_width(s[k]) > limit {
        k
    } else {
        fit_prefix(s, limit, k + 1, w + cell_width(s[k]))
    }
}

/// How many leading characters fit in `limit` columns.
fn fit_count(cs: &Vec<char>, limit: usize) -> (r: usize)
    requires
        limit + 4 <= usize::MAX,
    ensures
        r == fit_prefix(cs@, limit as nat, 0, 0),
        r <= cs@.len(),
{
    let mut w: usize = 0;
    let mut k: usize = 0;
    while k < cs.len()
        invariant
            k <= cs@.len(),
            w <= limit,
            limit + 4 <= usize::MAX,
            fit_prefix(cs@, limit as nat, k as int, w as nat) == fit_prefix(cs@, limit as nat, 0, 0),
        decreases cs@.len() - k,
    {
        let cw = width_of(cs[k]);
        if w + cw > limit {
            return k;
        }
        w = w + cw;
        k += 1;
    }
    k
}

/// A value fitted to a column `width` wide: padded with spaces when its
/// display width fits, else cut to fit `width - 1` columns and ended with
/// an ellipsis.
pub open spec fn truncate_spec(value: Seq<char>, width: nat) -> Seq<char> {
    if unicode_str_width(value) <= width {
        pad_right(value, width)
    } else {
        let limit: nat = if width >= 1 { (width - 1) as nat } else { 0 };
        value.take(fit_prefix(value, limit, 0, 0)).push('\u{2026}')
    }
}

/// Truncate a string to fit within `width` characters, appending ellipsis if needed.
pub fn truncate_to_width(value: &str, width: usize) -> (r: String)
    requires
        width + 3 <= usize::MAX,
    ensures
        r@ == truncate_spec(value@, width as nat),
{
    let cs = chars_of(value);
    if str_width(value) <= width {
        let mut s = value.to_owned();
        let n = cs.len();
        if n < width {
            let mut i: usize = n;
            while i < width
                invariant
                    n <= i <= width,
                    n == value@.len(),
                    s@ == value@ + Seq::new((i - n) as nat, |j: int| ' '),
                decreases width - i,
            {
                push_char(&mut s, ' ');
                i += 1;
                assert(s@ =~= value@ + Seq::new((i - n) as nat, |j: int| ' '));
            }
        }
        return s;
    }
    let limit = if width >= 1 { width - 1 } else { 0 };
    let k = fit_count(&cs, limit);
    let mut s = crate::text::string_from_range(&cs, 0, k);
    assert(cs@.subrange(0, k as int) =~= value@.take(k as int));
    push_char(&mut s, '\u{2026}');
    s
}

/// A value kept within `lo..=hi`.
pub open spec fn clamp_spec(v: int, lo: int, hi: int) -> int {
    if v < lo { lo } else if v > hi { hi } else { v }
}

/// A column's width: the wider of its header and its widest sampled value,
/// kept within `4..=max_width` (widths are counted in `u16`, as the
/// display widths are converted).
pub open spec fn column_width_spec(header_w: usize, value_ws: Seq<usize>, max_width: u16) -> int {
    let widest = max_width_of(value_ws.map_values(|w: usize| (w as u16) as int), value_ws.len() as int);
    clamp_spec(if (header_w as u16) as int >= widest { (header_w as u16) as int } else { widest }, 4, max_width as int)
}

/// The largest of the first `n` values (0 when there are none).
pub open spec fn max_width_of(ws: Seq<int>, n: int) -> int
    decreases n,
{
    if n <= 0 {
        0
    } else {
        let m = max_width_of(ws, n - 1);
        if ws[n - 1] > m { ws[n - 1] } else { m }
    }
}

/// The width of a column from its header and its sampled values.
pub fn column_width(header: &str, values: &Vec<String>, max_width: u16) -> (r: u16)
    requires
        max_width >= 4,
    ensures
        r as int == column_width_spec(unicode_str_width(header@),
            values@.map_values(|v: String| unicode_str_width(v@)), max_width),
{
    let ghost ws = values@.map_values(|v: String| unicode_str_width(v@));
    let ghost ws16 = ws.map_values(|w: usize| (w as u16) as int);
    let hw = str_width(header) as u16;
    let mut widest: u16 = 0;
    let mut i: usize = 0;
    while i < values.len()
        invariant
            i <= values@.len(),
            ws == values@.map_values(|v: String| unicode_str_width(v@)),
            ws16 == ws.map_values(|w: usize| (w as u16) as int),
            widest as int == max_width_of(ws16, i as int),
        decreases values@.len() - i,
    {
        let w = str_width(values[i].as_str()) as u16;
        assert(ws16[i as int] == w as int);
        if w > widest {
            widest = w;
        }
        i += 1;
    }
    let m = if hw >= widest { hw } else { widest };
    if m < 4 { 4 } else if m > max_width { max_width } else { m }
}

/// Raise columns to given minimum widths (pairs of column and width; pairs
/// beyond the columns are ignored), each kept within `4..=max_width`.
pub fn apply_width_mins(widths: &mut Vec<u16>, mins: &[(usize, u16)], max_width: u16)
    requires
        max_width >= 4,
    ensures
        final(widths)@.len() == old(widths)@.len(),
        final(widths)@ == mins_applied(old(widths)@, mins@, max_width, mins@.len() as int),
{
    let mut k: usize = 0;
    while k < mins.len()
        invariant
            k <= mins@.len(),
            max_width >= 4,
            widths@.len() == old(widths)@.len(),
            widths@ == mins_applied(old(widths)@, mins@, max_width, k as int),
        decreases mins@.len() - k,
    {
        let (c, m) = mins[k];
        if c < widths.len() {
            let w = widths[c];
            let raised = if w >= m { w } else { m };
            let v = if raised < 4 { 4 } else if raised > max_width { max_width } else { raised };
            widths.set(c, v);
        }
        k += 1;
    }
}

/// The widths after the first `n` minimum-width pairs.
pub open spec fn mins_applied(ws: Seq<u16>, mins: Seq<(usize, u16)>, max_width: u16, n: int) -> Seq<u16>
    decreases n,
{
    if n <= 0 {
        ws
    } else {
        let prev = mins_applied(ws, mins, max_width, n - 1);
        let (c, m) = mins[n - 1];
        if (c as int) < prev.len() {
            let w = prev[c as int];
            let raised = if w >= m { w } else { m };
            prev.update(c as int, clamp_spec(raised as int, 4, max_width as int) as u16)
        } else {
            prev
        }
    }
}

/// Where the separator after the frozen columns goes: one column left of
/// the end of the shown frozen columns (`None` when nothing is frozen).
pub open spec fn frozen_separator_spec(start_x: int, cols: Seq<usize>, widths: Seq<u16>, frozen: nat, k: int) -> int
    decreases cols.len() - k,
{
    if k < 0 || k >= cols.len() || cols[k] >= frozen {
        start_x
    } else {
        frozen_separator_spec(start_x + widths[cols[k] as int] + 2, cols, widths, frozen, k + 1)
    }
}

/// The separator's column after the frozen columns.
pub fn frozen_separator_x(start_x: u16, cols: &Vec<usize>, widths: &[u16], frozen: usize) -> (r: Option<u16>)
    requires
        forall|k: int| 0 <= k < cols@.len() ==> cols@[k] < widths@.len(),
        start_x + crate::handlers::mouse::span_from(widths@, cols@, 0) <= u16::MAX,
    ensures
        frozen == 0 ==> r is None,
        frozen > 0 ==> ({
            let end = frozen_separator_spec(start_x as int, cols@, widths@, frozen as nat, 0);
            r == Some((if end >= 1 { end - 1 } else { 0 }) as u16)
        }),
{
    if frozen == 0 {
        return None;
    }
    let mut x = start_x;
    let mut k: usize = 0;
    while k < cols.len() && cols[k] < frozen
        invariant
            k <= cols@.len(),
            forall|j: int| 0 <= j < cols@.len() ==> cols@[j] < widths@.len(),
            x + crate::handlers::mouse::span_from(widths@, cols@, k as int) <= u16::MAX,
            frozen_separator_spec(start_x as int, cols@, widths@, frozen as nat, 0)
                == frozen_separator_spec(x as int, cols@, widths@, frozen as nat, k as int),
        decreases cols@.len() - k,
    {
        proof { crate::handlers::mouse::lemma_span_nonneg(widths@, cols@, k + 1); }
        x = x + widths[cols[k]] + 2;
        k += 1;
    }
    Some(if x >= 1 { x - 1 } else { 0 })
}

/// How many lines a wrapped row takes: the most lines any of its cells
/// wraps to, at least one.
pub open spec fn row_height_spec(cells: Seq<Seq<char>>, widths: Seq<usize>, n: int) -> int
    decreases n,
{
    if n <= 0 {
        1
    } else {
        let h = row_height_spec(cells, widths, n - 1);
        let l = wrap_lines_spec(cells[n - 1], widths[n - 1] as nat).len() as int;
        if l > h { l } else { h }
    }
}

/// The lines a row takes when its cells are wrapped to their widths.
pub fn row_height(cells: &Vec<String>, widths: &Vec<usize>) -> (r: usize)
    requires
        cells@.len() == widths@.len(),
        forall|i: int| 0 <= i < widths@.len() ==> widths@[i] + 3 <= usize::MAX,
    ensures
        r as int == row_height_spec(strings_view(cells@), widths@, cells@.len() as int),
{
    let mut h: usize = 1;
    let mut i: usize = 0;
    while i < cells.len()
        invariant
            i <= cells@.len(),
            cells@.len() == widths@.len(),
            forall|j: int| 0 <= j < widths@.len() ==> widths@[j] + 3 <= usize::MAX,
            h as int == row_height_spec(strings_view(cells@), widths@, i as int),
        decreases cells@.len() - i,
    {
        let lines = wrap_lines(cells[i].as_str(), widths[i]);
        assert(strings_view(cells@)[i as int] == cells@[i as int]@);
        assert(lines@.len() == strings_view(lines@).len());
        if lines.len() > h {
            h = lines.len();
        }
        i += 1;
    }
    h
}

/// How many rows start on screen: rows are drawn one after another while
/// their first line is within the `lines` available.
pub open spec fn rows_fitting(heights: Seq<usize>, lines: int, used: int, k: int) -> int
    decreases heights.len() - k,
{
    if k < 0 || k >= heights.len() || used >= lines {
        if k < 0 { 0 } else { k }
    } else {
        rows_fitting(heights, lines, used + heights[k], k + 1)
    }
}

/// Count the rows that start within `lines` screen lines.
pub fn rows_rendered(heights: &Vec<usize>, lines: usize) -> (r: usize)
    ensures
        r as int == rows_fitting(heights@, lines as int, 0, 0),
{
    let mut used: usize = 0;
    let mut k: usize = 0;
    while k < heights.len() && used < lines
        invariant
            k <= heights@.len(),
            used <= lines,
            rows_fitting(heights@, lines as int, 0, 0) == rows_fitting(heights@, lines as int, used as int, k as int),
        decreases heights@.len() - k,
    {
        let h = heights[k];
        let ghost before = used as int;
        used = if h >= lines - used { lines } else { used + h };
        assert(rows_fitting(heights@, lines as int, before, k as int)
            == rows_fitting(heights@, lines as int, before + h, k + 1));
        if used == lines {
            assert(rows_fitting(heights@, lines as int, before + h, k + 1) == k + 1);
            assert(rows_fitting(heights@, lines as int, used as int, k + 1) == k + 1);
        }
        k += 1;
    }
    k
}

/// The cells of each row, as characters.
pub open spec fn rows_view(rows: Seq<Vec<String>>) -> Seq<Seq<Seq<char>>> {
    rows.map_values(|row: Vec<String>| strings_view(row@))
}

/// The lines row `k` of `rows` takes: the height of its wrapped cells when
/// wrapping, else one.
pub open spec fn drawn_height(rows: Seq<Seq<Seq<char>>>, widths: Seq<usize>, k: int, wrap: bool) -> int {
    if wrap { row_height_spec(rows[k], widths, widths.len() as int) } else { 1 }
}

/// The heights of the rows drawn from row `k` on when `used` of the `lines`
/// screen lines are taken: a row is drawn while its first line is on screen.
pub open spec fn drawn_heights_spec(rows: Seq<Seq<Seq<char>>>, widths: Seq<usize>, lines: int, wrap: bool, used: int, k: int) -> Seq<int>
    decreases rows.len() - k,
{
    if k < 0 || k >= rows.len() || used >= lines {
        Seq::empty()
    } else {
        let h = drawn_height(rows, widths, k, wrap);
        seq![h] + drawn_heights_spec(rows, widths, lines, wrap, used + h, k + 1)
    }
}

/// The heights of the rows drawn in `lines` screen lines, given the cells
/// of the rows from the first one shown on, each row's cells in the order
/// of `widths`, the widths the cells are wrapped to.
pub fn drawn_row_heights(rows: &Vec<Vec<String>>, widths: &Vec<usize>, lines: usize, wrap: bool) -> (r: Vec<usize>)
    requires
        forall|i: int| 0 <= i < widths@.len() ==> widths@[i] + 3 <= usize::MAX,
        wrap ==> forall|k: int| 0 <= k < rows@.len() ==> rows@[k]@.len() == widths@.len(),
    ensures
        r@.map_values(|h: usize| h as int) == drawn_heights_spec(rows_view(rows@), widths@, lines as int, wrap, 0, 0),
{
    let ghost rv = rows_view(rows@);
    let mut r: Vec<usize> = Vec::new();
    let mut used: usize = 0;
    let mut k: usize = 0;
    while k < rows.len() && used < lines
        invariant
            rv == rows_view(rows@),
            k <= rows@.len(),
            forall|i: int| 0 <= i < widths@.len() ==> widths@[i] + 3 <= usize::MAX,
            wrap ==> forall|j: int| 0 <= j < rows@.len() ==> rows@[j]@.len() == widths@.len(),
            drawn_heights_spec(rv, widths@, lines as int, wrap, 0, 0)
                == r@.map_values(|h: usize| h as int) + drawn_heights_spec(rv, widths@, lines as int, wrap, used as int, k as int),
        decreases rows@.len() - k,
    {
        let h = if wrap {
            assert(rv[k as int] == strings_view(rows@[k as int]@));
            row_height(&rows[k], widths)
        } else {
            1
        };
        assert(h as int == drawn_height(rv, widths@, k as int, wrap));
        let ghost before = used as int;
        let ghost old_r = r@;
        r.push(h);
        used = used.saturating_add(h);
        let ghost rest = drawn_heights_spec(rv, widths@, lines as int, wrap, before + h, k + 1);
        assert(drawn_heights_spec(rv, widths@, lines as int, wrap, before, k as int) == seq![h as int] + rest);
        proof {
            if before + h > usize::MAX {
                assert(rest == drawn_heights_spec(rv, widths@, lines as int, wrap, used as int, k + 1));
            }
        }
        assert(r@.map_values(|x: usize| x as int) =~= old_r.map_values(|x: usize| x as int) + seq![h as int]);
        assert(old_r.map_values(|x: usize| x as int) + (seq![h as int] + rest)
            =~= old_r.map_values(|x: usize| x as int) + seq![h as int] + rest);
        k += 1;
    }
    r
}

/// How many columns fit on screen now, at least one: the visible columns of
/// the widths when there are any (`None` when no data is loaded yet).
pub fn visible_column_count(
    col_widths: Option<&[u16]>,
    available_width: usize,
    column_offset: usize,
    left_margin: usize,
    hidden: Option<&[bool]>,
) -> (r: usize)
    requires
        left_margin + 0x20002 <= usize::MAX,
        available_width + 0x10001 <= usize::MAX,
    ensures
        r == match col_widths {
            Some(w) => {
                let n = visible_columns_spec(w@, available_width as int, column_offset as nat,
                    left_margin as int, flags_view(hidden), 0).len();
                if n > 1 { n } else { 1 }
            },
            None => 1,
        },
{
    match col_widths {
        Some(w) => {
            let cols = visible_columns(w, available_width, column_offset, left_margin, hidden);
            if cols.len() > 1 { cols.len() } else { 1 }
        },
        None => 1,
    }
}

} // verus!
