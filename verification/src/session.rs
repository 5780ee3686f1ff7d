//! The explorer's bookkeeping between the screen and the query engine:
//! when to fetch rows, which rows to fetch, the page size for the terminal,
//! switching tabs, what the engine's replies do to a tab, and exporting
//! marked rows.
use vstd::prelude::*;

use crate::handlers::normal::TabView;
use crate::state::{adjust_spec, sorted};
use crate::text::{decimal, push_char, push_decimal, push_str, strings_view, join_with, join_strings, unicode_trim_start};

verus! {

/// How many pages of rows one fetch brings.
pub const BUFFER_MULTIPLIER: usize = 5;

/// Whether rows must be fetched so that the buffer covers the cursor: it
/// does not cover it, or the cursor is within a page of the buffer's start
/// (when there are rows before it) or of its end (when there are rows after
/// it). A fetch already under way is waited for unless the cursor is
/// outside the buffer.
pub open spec fn needs_fetch_spec(sel: int, buffer_offset: int, buffer_rows: int, total: int, page: int, pending: bool) -> bool {
    let end = buffer_offset + buffer_rows;
    let outside = sel < buffer_offset || sel >= end;
    if pending && !outside {
        false
    } else {
        outside || (buffer_offset > 0 && sel < buffer_offset + page) || (end < total && sel + page >= end)
    }
}

/// Decide whether to fetch rows around the cursor.
pub fn needs_fetch(selected_row: usize, buffer_offset: usize, buffer_rows: usize, total_rows: usize, page_size: usize, fetch_pending: bool) -> (r: bool)
    requires
        buffer_offset + buffer_rows <= usize::MAX,
        buffer_offset + page_size <= usize::MAX,
        selected_row + page_size <= usize::MAX,
    ensures
        r == needs_fetch_spec(selected_row as int, buffer_offset as int, buffer_rows as int, total_rows as int, page_size as int, fetch_pending),
{
    let end = buffer_offset + buffer_rows;
    let outside = selected_row < buffer_offset || selected_row >= end;
    if fetch_pending && !outside {
        return false;
    }
    outside || (buffer_offset > 0 && selected_row < buffer_offset + page_size)
        || (end < total_rows && selected_row + page_size >= end)
}

/// The rows to fetch around a row: `BUFFER_MULTIPLIER` pages, centred on it
/// where possible. Returns (offset, limit).
pub fn fetch_window(center_row: usize, page_size: usize) -> (r: (usize, usize))
    requires
        page_size * 5 <= usize::MAX,
    ensures
        r.1 == page_size * 5,
        r.0 == if center_row >= r.1 / 2 { center_row - r.1 / 2 } else { 0 },
{
    let size = page_size * BUFFER_MULTIPLIER;
    let half = size / 2;
    (if center_row >= half { center_row - half } else { 0 }, size)
}

/// Law: once the rows fetched around the cursor (`fetch_window`, cut to the
/// rows there are) have arrived, the buffer holds the cursor and no further
/// fetch is asked for.
pub proof fn law_fetched_window_suffices(center: int, page: int, total: int)
    requires
        0 < page,
        0 <= center < total,
    ensures
        ({
            let size = page * 5;
            let off = if center >= size / 2 { center - size / 2 } else { 0 };
            let len = if size <= total - off { size } else { total - off };
            &&& off <= center < off + len
            &&& !needs_fetch_spec(center, off, len, total, page, false)
        }),
{
    let size = page * 5;
    assert(2 * page <= size / 2 <= size - 2 * page) by (nonlinear_arith)
        requires
            size == page * 5,
            0 < page,
    ;
}

/// The data rows that fit in a terminal `height` rows high: what is left
/// after the status bar, the tab bar (when several tabs are open) and the
/// header row, at least one.
pub fn page_size_for(height: u16, has_tabs: bool) -> (r: usize)
    ensures
        r == if height as int - (if has_tabs { 4int } else { 3int }) >= 1 {
            height as int - (if has_tabs { 4int } else { 3int })
        } else {
            1
        },
{
    let chrome: usize = if has_tabs { 3 } else { 2 };
    let h = height as usize;
    let rest = if h >= chrome + 1 { h - (chrome + 1) } else { 0 };
    if rest >= 1 { rest } else { 1 }
}

/// The tab `delta` places away from `active`, wrapping around.
pub fn switch_tab_index(active: usize, len: usize, delta: isize) -> (r: usize)
    requires
        len > 0,
        active < len,
    ensures
        r == (active as int + delta as int) % (len as int),
        r < len,
{
    if delta >= 0 {
        let d = delta as usize;
        let x = d % len;
        proof {
            vstd::arithmetic::div_mod::lemma_mod_bound(d as int, len as int);
            vstd::arithmetic::div_mod::lemma_add_mod_noop_right(active as int, d as int, len as int);
        }
        if active >= len - x {
            proof { lemma_mod_wrap_once(active + x, len as int); }
            active - (len - x)
        } else {
            proof { vstd::arithmetic::div_mod::lemma_small_mod((active + x) as nat, len as nat); }
            active + x
        }
    } else {
        let m = ((-(delta + 1)) as usize) + 1;
        let k = m % len;
        proof {
            vstd::arithmetic::div_mod::lemma_mod_bound(m as int, len as int);
            assert(m == -(delta as int));
            lemma_sub_mod(active as int, m as int, len as int);
        }
        if active >= k {
            proof { vstd::arithmetic::div_mod::lemma_small_mod((active - k) as nat, len as nat); }
            active - k
        } else {
            proof { vstd::arithmetic::div_mod::lemma_small_mod((active + (len - k)) as nat, len as nat); }
            active + (len - k)
        }
    }
}

/// A sum below twice the modulus wraps at most once.
proof fn lemma_mod_wrap_once(s: int, len: int)
    requires
        len > 0,
        len <= s < 2 * len,
    ensures
        s % len == s - len,
{
    vstd::arithmetic::div_mod::lemma_mod_multiples_vanish(1, s - len, len);
    vstd::arithmetic::div_mod::lemma_small_mod((s - len) as nat, len as nat);
}

/// Subtracting `m` modulo `len` is adding `len - m % len`, or taking
/// `m % len` away when that stays at or above 0.
proof fn lemma_sub_mod(a: int, m: int, len: int)
    requires
        len > 0,
        0 <= a < len,
        m >= 1,
    ensures
        (a + (len - m % len)) % len == (a - m) % len,
        (a - m % len) % len == (a - m) % len,
{
    vstd::arithmetic::div_mod::lemma_fundamental_div_mod(m, len);
    let q = m / len;
    let k = m % len;
    assert(a - m == len * (-(q + 1)) + (a + (len - k))) by (nonlinear_arith)
        requires
            m == len * q + k,
    {}
    assert(a - m == len * (-q) + (a - k)) by (nonlinear_arith)
        requires
            m == len * q + k,
    {}
    vstd::arithmetic::div_mod::lemma_mod_multiples_vanish(-(q + 1), a + (len - k), len);
    vstd::arithmetic::div_mod::lemma_mod_multiples_vanish(-q, a - k, len);
}

/// The position of the view's first row in the buffer (0 when the view
/// starts before it).
pub fn view_offset_in_buffer(view_start: usize, buffer_offset: usize) -> (r: usize)
    ensures
        r == if view_start >= buffer_offset { view_start - buffer_offset } else { 0 },
{
    if view_start >= buffer_offset { view_start - buffer_offset } else { 0 }
}

/// Where data row `target` stands in a buffer holding `buffer_rows` rows from
/// row `buffer_offset` on; `None` when the buffer does not hold it.
pub fn buffer_row(target: usize, buffer_offset: usize, buffer_rows: usize) -> (r: Option<usize>)
    ensures
        r == if buffer_offset <= target < buffer_offset + buffer_rows {
            Some((target - buffer_offset) as usize)
        } else {
            None
        },
{
    if target < buffer_offset || target - buffer_offset >= buffer_rows {
        None
    } else {
        Some(target - buffer_offset)
    }
}

/// How many buffered rows the view shows: those from the view's start on,
/// at most a page (none when nothing is buffered).
pub fn visible_row_count(view_start: usize, buffer_offset: usize, buffer_rows: Option<usize>, page_size: usize) -> (r: usize)
    ensures
        match buffer_rows {
            Some(n) => {
                let off = if view_start >= buffer_offset { view_start - buffer_offset } else { 0 };
                let avail = if n >= off { n - off } else { 0 };
                r == if avail <= page_size { avail as int } else { page_size as int }
            },
            None => r == 0,
        },
{
    match buffer_rows {
        Some(n) => {
            let off = view_offset_in_buffer(view_start, buffer_offset);
            let avail = if n >= off { n - off } else { 0 };
            if avail <= page_size { avail } else { page_size }
        },
        None => 0,
    }
}

/// The spinner's frames.
pub open spec fn spinner_frames() -> Seq<char> {
    seq!['\u{280b}', '\u{2819}', '\u{2839}', '\u{2838}', '\u{283c}', '\u{2834}', '\u{2826}', '\u{2827}', '\u{2807}', '\u{280f}']
}

/// The spinner frame for a tick.
pub fn spinner_char(tick: usize) -> (r: char)
    ensures
        r == spinner_frames()[(tick % 10) as int],
{
    let i = tick % 10;
    if i == 0 { '\u{280b}' }
    else if i == 1 { '\u{2819}' }
    else if i == 2 { '\u{2839}' }
    else if i == 3 { '\u{2838}' }
    else if i == 4 { '\u{283c}' }
    else if i == 5 { '\u{2834}' }
    else if i == 6 { '\u{2826}' }
    else if i == 7 { '\u{2827}' }
    else if i == 8 { '\u{2807}' }
    else { '\u{280f}' }
}

/// `str::trim_start`: the slice without leading white space, white space
/// being the characters of the Unicode `White_Space` property, as std
/// documents it.
#[verifier::external_body]
fn trim_start(s: &str) -> (r: &str)
    ensures
        r@ == unicode_trim_start(s@),
{
    s.trim_start()
}

/// `p` is a prefix of `s`.
pub open spec fn starts_with(s: Seq<char>, p: Seq<char>) -> bool {
    p.len() <= s.len() && s.take(p.len() as int) == p
}

fn has_prefix(s: &str, p: &str) -> (r: bool)
    ensures
        r == starts_with(s@, p@),
{
    let sc = crate::text::chars_of(s);
    let pc = crate::text::chars_of(p);
    if pc.len() > sc.len() {
        return false;
    }
    let mut i: usize = 0;
    while i < pc.len()
        invariant
            i <= pc@.len() <= sc@.len(),
            sc@ == s@,
            pc@ == p@,
            forall|j: int| 0 <= j < i ==> sc@[j] == pc@[j],
        decreases pc@.len() - i,
    {
        if sc[i] != pc[i] {
            assert(s@.take(p@.len() as int)[i as int] != p@[i as int]);
            return false;
        }
        i += 1;
    }
    assert(s@.take(p@.len() as int) =~= p@);
    true
}

/// Whether a statement asks for column statistics (`SUMMARIZE ...`, in any
/// case, after leading white space).
pub fn is_summarize(sql: &str) -> (r: bool)
    ensures
        r == starts_with(crate::text::unicode_upper(unicode_trim_start(sql@)), "SUMMARIZE"@),
{
    let upper = crate::text::to_upper(trim_start(sql));
    has_prefix(upper.as_str(), "SUMMARIZE")
}

/// The statement that computes column statistics of a table.
pub fn summarize_sql(table: Option<&str>) -> (r: String)
    ensures
        r@ == "SUMMARIZE "@ + match table { Some(t) => t@, None => "data"@ },
{
    let mut s = String::new();
    push_str(&mut s, "SUMMARIZE ");
    match table {
        Some(t) => push_str(&mut s, t),
        None => push_str(&mut s, "data"),
    }
    s
}

/// "N matches found", or "No matches found".
pub fn matches_message(count: usize) -> (r: String)
    ensures
        r@ == if count > 0 { decimal(count as nat) + " matches found"@ } else { "No matches found"@ },
{
    if count > 0 {
        let mut s = String::new();
        push_decimal(&mut s, count);
        push_str(&mut s, " matches found");
        assert(s@ =~= decimal(count as nat) + " matches found"@);
        s
    } else {
        "No matches found".to_owned()
    }
}

/// A message made of a prefix, a number and a suffix.
pub fn counted_message(prefix: &str, n: usize, suffix: &str) -> (r: String)
    ensures
        r@ == prefix@ + decimal(n as nat) + suffix@,
{
    let mut s = String::new();
    push_str(&mut s, prefix);
    push_decimal(&mut s, n);
    push_str(&mut s, suffix);
    assert(s@ =~= prefix@ + decimal(n as nat) + suffix@);
    s
}

/// A message made of a prefix and a text.
pub fn text_message(prefix: &str, text: &str) -> (r: String)
    ensures
        r@ == prefix@ + text@,
{
    let mut s = String::new();
    push_str(&mut s, prefix);
    push_str(&mut s, text);
    s
}

/// Whether an engine error reports a filter it could not use (the filter
/// is then dropped).
pub fn is_invalid_filter_error(msg: &str) -> (r: bool)
    ensures
        r == starts_with(msg@, "Invalid filter:"@),
{
    has_prefix(msg, "Invalid filter:")
}

/// A filter's new row count: the cursor and view go back to the top.
pub fn on_filter_result(tab: &mut TabView, total_rows: usize, cleared: bool)
    requires
        old(tab).wf(),
    ensures
        final(tab).wf(),
        final(tab).total_rows == total_rows,
        final(tab).viewport.selected_row == 0,
        final(tab).viewport.view_start == 0,
        cleared ==> final(tab).active_filter is None,
        !cleared ==> crate::handlers::normal::opt_view(final(tab).active_filter) == crate::handlers::normal::opt_view(old(tab).active_filter),
        final(tab).search.match_rows@ == old(tab).search.match_rows@,
        final(tab).marked_rows@ == old(tab).marked_rows@,
        final(tab).sort_state@ == old(tab).sort_state@,
{
    tab.total_rows = total_rows;
    tab.viewport.selected_row = 0;
    tab.viewport.view_start = 0;
    if cleared {
        tab.active_filter = None;
    }
}

/// After the data changed order or content: forget the matches of an active
/// search and return the term to search for again (`None` when no search is
/// active).
pub fn refresh_search(tab: &mut TabView) -> (r: Option<String>)
    requires
        old(tab).wf(),
    ensures
        final(tab).wf(),
        match old(tab).search.active_search {
            Some(t) => r matches Some(x) && x@ == t@ && final(tab).search.match_rows@.len() == 0
                && final(tab).search.match_count is None && final(tab).search.match_index is None,
            None => r is None && final(tab).search.match_rows@ == old(tab).search.match_rows@,
        },
        crate::handlers::normal::opt_view(final(tab).search.active_search) == crate::handlers::normal::opt_view(old(tab).search.active_search),
        final(tab).viewport == old(tab).viewport,
        final(tab).marked_rows@ == old(tab).marked_rows@,
{
    let term = match &tab.search.active_search {
        Some(t) => t.as_str().to_owned(),
        None => return None,
    };
    tab.search.match_rows = Vec::new();
    tab.search.match_count = None;
    tab.search.match_index = None;
    Some(term)
}

/// The search found these rows.
pub fn on_matches(tab: &mut TabView, rows: Vec<usize>)
    requires
        old(tab).wf(),
        sorted(rows@),
        forall|i: int| 0 <= i < rows@.len() ==> rows@[i] < usize::MAX,
    ensures
        final(tab).wf(),
        final(tab).search.match_rows@ == rows@,
        final(tab).search.match_count == Some(rows@.len() as usize),
        final(tab).viewport == old(tab).viewport,
{
    let n = rows.len();
    tab.search.match_count = Some(n);
    tab.search.match_rows = rows;
}

/// A CSV field: quoted (with quotes doubled) when it holds a comma, a quote
/// or a line break; a missing value is empty.
pub open spec fn csv_field_spec(v: Option<Seq<char>>) -> Seq<char> {
    match v {
        Some(s) => if s.contains(',') || s.contains('"') || s.contains('\n') {
            seq!['"'] + doubled_quotes(s) + seq!['"']
        } else {
            s
        },
        None => Seq::empty(),
    }
}

/// The text with each double quote doubled.
pub open spec fn doubled_quotes(s: Seq<char>) -> Seq<char>
    decreases s.len(),
{
    if s.len() == 0 {
        Seq::empty()
    } else {
        doubled_quotes(s.drop_last()) + (if s.last() == '"' { seq!['"', '"'] } else { seq![s.last()] })
    }
}

/// Reading back the inside of a quoted CSV field: each pair of double quotes
/// stands for one; a lone double quote would end the field (`None`).
pub open spec fn undoubled(t: Seq<char>) -> Option<Seq<char>>
    decreases t.len(),
{
    if t.len() == 0 {
        Some(Seq::empty())
    } else if t[0] == '"' {
        if t.len() >= 2 && t[1] == '"' {
            match undoubled(t.skip(2)) {
                Some(r) => Some(seq!['"'] + r),
                None => None,
            }
        } else {
            None
        }
    } else {
        match undoubled(t.drop_first()) {
            Some(r) => Some(seq![t[0]] + r),
            None => None,
        }
    }
}

/// Reading back a text that reads back, followed by any text.
proof fn lemma_undoubled_append(x: Seq<char>, y: Seq<char>)
    requires
        undoubled(x) is Some,
    ensures
        undoubled(x + y) == match undoubled(y) {
            Some(w) => Some(undoubled(x).unwrap() + w),
            None => None::<Seq<char>>,
        },
    decreases x.len(),
{
    if x.len() == 0 {
        assert(x + y =~= y);
        assert(undoubled(x).unwrap() + seq![] =~= seq![]);
        match undoubled(y) {
            Some(w) => assert(Seq::<char>::empty() + w =~= w),
            None => {},
        }
    } else if x[0] == '"' {
        lemma_undoubled_append(x.skip(2), y);
        assert((x + y).skip(2) =~= x.skip(2) + y);
        assert((x + y)[1] == x[1]);
        match undoubled(y) {
            Some(w) => assert(seq!['"'] + undoubled(x.skip(2)).unwrap() + w
                =~= seq!['"'] + (undoubled(x.skip(2)).unwrap() + w)),
            None => {},
        }
    } else {
        lemma_undoubled_append(x.drop_first(), y);
        assert((x + y).drop_first() =~= x.drop_first() + y);
        match undoubled(y) {
            Some(w) => assert(seq![x[0]] + undoubled(x.drop_first()).unwrap() + w
                =~= seq![x[0]] + (undoubled(x.drop_first()).unwrap() + w)),
            None => {},
        }
    }
}

/// Doubling the quotes of a text reads back as the text.
proof fn lemma_doubled_reads_back(s: Seq<char>)
    ensures
        undoubled(doubled_quotes(s)) == Some(s),
    decreases s.len(),
{
    if s.len() > 0 {
        lemma_doubled_reads_back(s.drop_last());
        let tail = if s.last() == '"' { seq!['"', '"'] } else { seq![s.last()] };
        let one = seq![s.last()];
        if s.last() == '"' {
            assert(tail.skip(2) =~= Seq::<char>::empty());
            assert(undoubled(tail.skip(2)) == Some(Seq::<char>::empty()));
            assert(tail[0] == '"' && tail[1] == '"' && tail.len() == 2);
            assert(undoubled(tail) == Some(seq!['"'] + Seq::<char>::empty()));
        } else {
            assert(tail.drop_first() =~= Seq::<char>::empty());
            assert(undoubled(tail.drop_first()) == Some(Seq::<char>::empty()));
            assert(tail[0] == s.last() && tail.len() == 1);
            assert(undoubled(tail) == Some(seq![s.last()] + Seq::<char>::empty()));
        }
        assert(seq![s.last()] + Seq::<char>::empty() =~= one);
        lemma_undoubled_append(doubled_quotes(s.drop_last()), tail);
        assert(s.drop_last() + one =~= s);
    }
}

/// Law: a CSV field stays one field of one record. A comma, a double quote
/// or a line break in the value puts the whole field in double quotes,
/// between which the doubled quotes read back as the value; so a comma or a
/// line break in a field always stands inside its quotes. A value with none
/// of them is written as it is, and a missing value as nothing.
pub proof fn law_csv_field_reads_back(s: Seq<char>)
    ensures
        csv_field_spec(None) == Seq::<char>::empty(),
        (s.contains(',') || s.contains('"') || s.contains('\n')) ==> {
            let f = csv_field_spec(Some(s));
            &&& f.len() >= 2
            &&& f[0] == '"'
            &&& f.last() == '"'
            &&& undoubled(f.subrange(1, f.len() - 1)) == Some(s)
        },
        !(s.contains(',') || s.contains('"') || s.contains('\n')) ==> csv_field_spec(Some(s)) == s,
        csv_field_spec(Some(s)).contains(',') || csv_field_spec(Some(s)).contains('\n')
            ==> csv_field_spec(Some(s))[0] == '"',
{
    if s.contains(',') || s.contains('"') || s.contains('\n') {
        let f = csv_field_spec(Some(s));
        let d = doubled_quotes(s);
        assert(f.subrange(1, f.len() - 1) =~= d);
        lemma_doubled_reads_back(s);
    }
}

fn has_char(cs: &Vec<char>, c: char) -> (r: bool)
    ensures
        r == cs@.contains(c),
{
    let mut i: usize = 0;
    while i < cs.len()
        invariant
            i <= cs@.len(),
            forall|j: int| 0 <= j < i ==> cs@[j] != c,
        decreases cs@.len() - i,
    {
        if cs[i] == c {
            return true;
        }
        i += 1;
    }
    false
}

/// One CSV field.
pub fn csv_field(v: Option<&str>) -> (r: String)
    ensures
        r@ == csv_field_spec(crate::query::opt_str(v)),
{
    match v {
        Some(s) => {
            let cs = crate::text::chars_of(s);
            if has_char(&cs, ',') || has_char(&cs, '"') || has_char(&cs, '\n') {
                let mut out = String::new();
                push_char(&mut out, '"');
                let mut i: usize = 0;
                while i < cs.len()
                    invariant
                        i <= cs@.len(),
                        cs@ == s@,
                        out@ == seq!['"'] + doubled_quotes(s@.take(i as int)),
                    decreases cs@.len() - i,
                {
                    proof { assert(s@.take(i + 1).drop_last() =~= s@.take(i as int)); }
                    if cs[i] == '"' {
                        push_char(&mut out, '"');
                        push_char(&mut out, '"');
                    } else {
                        push_char(&mut out, cs[i]);
                    }
                    assert(out@ =~= seq!['"'] + doubled_quotes(s@.take(i + 1)));
                    i += 1;
                }
                push_char(&mut out, '"');
                assert(s@.take(cs@.len() as int) =~= s@);
                out
            } else {
                s.to_owned()
            }
        },
        None => String::new(),
    }
}

/// The marked rows that the buffer holds, as buffer positions, in order.
pub open spec fn buffered_marks(marks: Seq<usize>, buffer_offset: int, batch_rows: int, n: int) -> Seq<usize>
    decreases n,
{
    if n <= 0 {
        Seq::empty()
    } else {
        let prev = buffered_marks(marks, buffer_offset, batch_rows, n - 1);
        let m = marks[n - 1] as int;
        if m >= buffer_offset && m - buffer_offset < batch_rows { prev.push((m - buffer_offset) as usize) } else { prev }
    }
}

/// The buffer positions of the marked rows it holds (marks in ascending order).
pub fn marked_buffer_rows(marks: &Vec<usize>, buffer_offset: usize, batch_rows: usize) -> (r: Vec<usize>)
    ensures
        r@ == buffered_marks(marks@, buffer_offset as int, batch_rows as int, marks@.len() as int),
{
    let mut out: Vec<usize> = Vec::new();
    let mut i: usize = 0;
    while i < marks.len()
        invariant
            i <= marks@.len(),
            out@ == buffered_marks(marks@, buffer_offset as int, batch_rows as int, i as int),
        decreases marks@.len() - i,
    {
        let m = marks[i];
        if m >= buffer_offset && m - buffer_offset < batch_rows {
            out.push(m - buffer_offset);
        }
        i += 1;
    }
    out
}

/// The CSV line of one row.
pub open spec fn csv_line(cells: Seq<Option<Seq<char>>>) -> Seq<char> {
    join_with(cells.map_values(|c: Option<Seq<char>>| csv_field_spec(c)), ","@)
}

/// The cells of a row as optional texts.
pub open spec fn cells_view(cells: Seq<Option<String>>) -> Seq<Option<Seq<char>>> {
    cells.map_values(|o: Option<String>| match o { Some(s) => Some(s@), None => None })
}

/// A CSV document: the header line of column names (joined as they are),
/// then one line per row, each line ended by a line break.
pub open spec fn csv_document_spec(header: Seq<Seq<char>>, rows: Seq<Seq<Option<Seq<char>>>>) -> Seq<char>
    decreases rows.len(),
{
    if rows.len() == 0 {
        join_with(header, ","@) + seq!['\n']
    } else {
        csv_document_spec(header, rows.drop_last()) + csv_line(rows.last()) + seq!['\n']
    }
}

/// Build the CSV export of some rows (a missing cell is empty).
pub fn csv_document(header: &Vec<String>, rows: &Vec<Vec<Option<String>>>) -> (r: String)
    ensures
        r@ == csv_document_spec(strings_view(header@), rows@.map_values(|r: Vec<Option<String>>| cells_view(r@))),
{
    let ghost rv = rows@.map_values(|r: Vec<Option<String>>| cells_view(r@));
    let mut out = join_strings(header, ",");
    push_char(&mut out, '\n');
    let mut i: usize = 0;
    assert(rv.take(0) =~= Seq::<Seq<Option<Seq<char>>>>::empty());
    while i < rows.len()
        invariant
            i <= rows@.len(),
            rv == rows@.map_values(|r: Vec<Option<String>>| cells_view(r@)),
            out@ == csv_document_spec(strings_view(header@), rv.take(i as int)),
        decreases rows@.len() - i,
    {
        let row = &rows[i];
        let mut fields: Vec<String> = Vec::new();
        let mut j: usize = 0;
        while j < row.len()
            invariant
                j <= row@.len(),
                strings_view(fields@) == cells_view(row@).take(j as int).map_values(|c: Option<Seq<char>>| csv_field_spec(c)),
            decreases row@.len() - j,
        {
            let f = match &row[j] {
                Some(s) => csv_field(Some(s.as_str())),
                None => csv_field(None),
            };
            let ghost prev = strings_view(fields@);
            fields.push(f);
            assert(strings_view(fields@) =~= prev.push(f@));
            assert(cells_view(row@).take(j + 1).map_values(|c: Option<Seq<char>>| csv_field_spec(c))
                =~= cells_view(row@).take(j as int).map_values(|c: Option<Seq<char>>| csv_field_spec(c)).push(
                    csv_field_spec(cells_view(row@)[j as int])));
            j += 1;
        }
        assert(cells_view(row@).take(row@.len() as int) =~= cells_view(row@));
        let line = join_strings(&fields, ",");
        push_str(&mut out, line.as_str());
        push_char(&mut out, '\n');
        proof {
            assert(rv.take(i + 1).drop_last() =~= rv.take(i as int));
            assert(rv.take(i + 1).last() == cells_view(rows@[i as int]@));
        }
        assert(out@ =~= csv_document_spec(strings_view(header@), rv.take(i + 1)));
        i += 1;
    }
    assert(rv.take(rows@.len() as int) =~= rv);
    out
}

} // verus!
