//! Reading a simple filter expression (`column op value`) and testing one
//! cell against it, so that the cells a filter selects can be highlighted
//! without asking the query engine.
use vstd::prelude::*;

use crate::event::str_eq;
use crate::text::{
    boundary_index, byte_offset_spec, char_index_at_byte, chars_of, find_chars, find_spec,
    all_ascii, ascii_upper_char, lemma_boundary_in, string_from_range, to_lower, to_upper,
    trim, unicode_lower, unicode_trim, unicode_upper,
};

verus! {

/// A filter of the form `column op value`.
pub struct SimpleFilter {
    pub column: String,
    pub op: String,
    pub value: String,
    /// The value lower-cased, for `ILIKE`.
    pub value_lower: String,
}

/// The column name of the left side of a filter: the trimmed text without
/// its double quotes when it is quoted; `None` when it is empty or an
/// unquoted name with a space.
pub open spec fn unquote_column_spec(s: Seq<char>) -> Option<Seq<char>> {
    let t = unicode_trim(s);
    if t.len() == 0 {
        None
    } else if t[0] == '"' && t.last() == '"' && t.len() >= 2 {
        Some(t.subrange(1, t.len() - 1))
    } else if t.contains(' ') {
        None
    } else {
        Some(t)
    }
}

/// The value of the right side of a filter: the trimmed text without its
/// single quotes when it is quoted.
pub open spec fn unquote_value_spec(s: Seq<char>) -> Seq<char> {
    let t = unicode_trim(s);
    if t.len() >= 2 && t[0] == '\'' && t.last() == '\'' {
        t.subrange(1, t.len() - 1)
    } else {
        t
    }
}

fn contains_char(cs: &Vec<char>, c: char) -> (r: bool)
    ensures
        r == cs@.contains(c),
{
    let mut i: usize = 0;
    while i < cs.len()
        invariant
            i <= cs@.len(),
            forall|j: int| 0 <= j < i ==> cs@[j] != c,
        decreases cs@.len() - i,
    {
        if cs[i] == c {
            return true;
        }
        i += 1;
    }
    false
}

/// Read a column name.
pub fn unquote_column(s: &str) -> (r: Option<String>)
    ensures
        match unquote_column_spec(s@) {
            Some(c) => r matches Some(x) && x@ == c,
            None => r is None,
        },
{
    let t = trim(s);
    let cs = chars_of(t);
    let n = cs.len();
    if n == 0 {
        return None;
    }
    if cs[0] == '"' && cs[n - 1] == '"' && n >= 2 {
        return Some(string_from_range(&cs, 1, n - 1));
    }
    if contains_char(&cs, ' ') {
        return None;
    }
    Some(t.to_owned())
}

/// Read a value.
pub fn unquote_value(s: &str) -> (r: String)
    ensures
        r@ == unquote_value_spec(s@),
{
    let t = trim(s);
    let cs = chars_of(t);
    let n = cs.len();
    if n >= 2 && cs[0] == '\'' && cs[n - 1] == '\'' {
        string_from_range(&cs, 1, n - 1)
    } else {
        t.to_owned()
    }
}

/// The keyword operators, in the order they are looked for.
pub open spec fn kw_op(i: int) -> Seq<char> {
    if i == 0 { "ILIKE"@ } else if i == 1 { "LIKE"@ } else if i == 2 { "IS NOT"@ } else { "IS"@ }
}

/// A keyword operator with a space on each side, as it is looked for.
pub open spec fn kw_pattern(i: int) -> Seq<char> {
    if i == 0 { " ILIKE "@ } else if i == 1 { " LIKE "@ } else if i == 2 { " IS NOT "@ } else { " IS "@ }
}

/// The comparison operators, in the order they are looked for.
pub open spec fn compare_op(i: int) -> Seq<char> {
    if i == 0 { "!="@ }
    else if i == 1 { "<>"@ }
    else if i == 2 { "<="@ }
    else if i == 3 { ">="@ }
    else if i == 4 { "="@ }
    else if i == 5 { "<"@ }
    else { ">"@ }
}

fn kw_op_str(i: usize) -> (r: &'static str)
    ensures
        r@ == kw_op(i as int),
{
    if i == 0 { "ILIKE" } else if i == 1 { "LIKE" } else if i == 2 { "IS NOT" } else { "IS" }
}

fn kw_pattern_str(i: usize) -> (r: &'static str)
    ensures
        r@ == kw_pattern(i as int),
{
    if i == 0 { " ILIKE " } else if i == 1 { " LIKE " } else if i == 2 { " IS NOT " } else { " IS " }
}

fn compare_op_str(i: usize) -> (r: &'static str)
    ensures
        r@ == compare_op(i as int),
{
    if i == 0 { "!=" }
    else if i == 1 { "<>" }
    else if i == 2 { "<=" }
    else if i == 3 { ">=" }
    else if i == 4 { "=" }
    else if i == 5 { "<" }
    else { ">" }
}

/// The expression has a conjunction, a disjunction or a parenthesis, so it
/// is not a simple filter.
pub open spec fn compound(t: Seq<char>, u: Seq<char>) -> bool {
    find_spec(u, " AND "@) is Some || find_spec(u, " OR "@) is Some || t.contains('(')
}

/// The first keyword operator, from the `i`-th on, that occurs in the
/// upper-cased text: its number and where it occurs.
pub open spec fn kw_hit(u: Seq<char>, i: int) -> Option<(int, int)>
    decreases 4 - i,
{
    if i < 0 || i >= 4 {
        None
    } else {
        match find_spec(u, kw_pattern(i)) {
            Some(k) => Some((i, k)),
            None => kw_hit(u, i + 1),
        }
    }
}

/// Where a keyword found at character `k` of the upper-cased text splits
/// the trimmed text: the byte offsets (in the upper-cased text) of the
/// keyword's start and end, read back as character indices of the trimmed
/// text; `None` when either is not a character boundary there.
pub open spec fn kw_split(t: Seq<char>, u: Seq<char>, i: int, k: int) -> Option<(int, int)> {
    let b1 = byte_offset_spec(u, k);
    let b2 = byte_offset_spec(u, k + kw_pattern(i).len());
    match (boundary_index(t, b1 as int, 0), boundary_index(t, b2 as int, 0)) {
        (Some(c1), Some(c2)) => Some((c1, c2)),
        _ => None,
    }
}

/// The byte positions found in the upper-cased text can be used on the
/// trimmed text (they always can when upper-casing keeps every
/// character's encoded length).
pub open spec fn slices_ok(t: Seq<char>, u: Seq<char>) -> bool {
    compound(t, u) || match kw_hit(u, 0) {
        Some((i, k)) => kw_split(t, u, i, k) is Some,
        None => true,
    }
}

/// The comparison operators from the `i`-th on: the first that occurs with
/// text on both sides gives the filter; its left side must be a column.
pub open spec fn op_hit(t: Seq<char>, i: int) -> Option<(Seq<char>, Seq<char>, Seq<char>)>
    decreases 7 - i,
{
    if i < 0 || i >= 7 {
        None
    } else {
        match find_spec(t, compare_op(i)) {
            None => op_hit(t, i + 1),
            Some(k) => {
                let col = unicode_trim(t.take(k));
                let val = unicode_trim(t.skip(k + compare_op(i).len()));
                if col.len() == 0 || val.len() == 0 {
                    op_hit(t, i + 1)
                } else {
                    match unquote_column_spec(col) {
                        Some(c) => Some((c, compare_op(i), unquote_value_spec(val))),
                        None => None,
                    }
                }
            },
        }
    }
}

/// The filter read from trimmed text `t` whose upper-cased form is `u`:
/// (column, operator, value), or `None` when it is not a simple filter.
pub open spec fn parse_spec(t: Seq<char>, u: Seq<char>) -> Option<(Seq<char>, Seq<char>, Seq<char>)> {
    if compound(t, u) {
        None
    } else {
        match kw_hit(u, 0) {
            Some((i, k)) => match kw_split(t, u, i, k) {
                Some((c1, c2)) => match unquote_column_spec(unicode_trim(t.take(c1))) {
                    Some(c) => Some((c, kw_op(i), unquote_value_spec(unicode_trim(t.skip(c2))))),
                    None => None,
                },
                None => None,
            },
            None => op_hit(t, 0),
        }
    }
}

/// The filter built from a parse result.
pub open spec fn filter_matches_parse(r: Option<SimpleFilter>, p: Option<(Seq<char>, Seq<char>, Seq<char>)>) -> bool {
    match p {
        Some((c, o, v)) => r matches Some(f) && f.column@ == c && f.op@ == o && f.value@ == v
            && f.value_lower@ == unicode_lower(v),
        None => r is None,
    }
}

fn make_filter(column: String, op: &str, value: String) -> (r: SimpleFilter)
    ensures
        r.column@ == column@,
        r.op@ == op@,
        r.value@ == value@,
        r.value_lower@ == unicode_lower(value@),
{
    let value_lower = to_lower(value.as_str());
    SimpleFilter { column, op: op.to_owned(), value, value_lower }
}

/// Where keyword `i` first occurs in the upper-cased text, from keyword `i` on.
fn find_kw(uc: &Vec<char>) -> (r: Option<(usize, usize)>)
    ensures
        match r {
            Some((i, k)) => kw_hit(uc@, 0) == Some((i as int, k as int)),
            None => kw_hit(uc@, 0) is None,
        },
{
    let mut i: usize = 0;
    while i < 4
        invariant
            i <= 4,
            kw_hit(uc@, 0) == kw_hit(uc@, i as int),
        decreases 4 - i,
    {
        let pat = chars_of(kw_pattern_str(i));
        match find_chars(uc, &pat) {
            Some(k) => return Some((i, k)),
            None => {},
        }
        i += 1;
    }
    None
}

/// Read a simple filter from its trimmed text and the upper-cased form of
/// that text.
pub fn parse_simple_filter_cased(trimmed: &str, upper: &str) -> (r: Option<SimpleFilter>)
    requires
        slices_ok(trimmed@, upper@),
    ensures
        filter_matches_parse(r, parse_spec(trimmed@, upper@)),
{
    let tc = chars_of(trimmed);
    let uc = chars_of(upper);
    let and_pat = chars_of(" AND ");
    let or_pat = chars_of(" OR ");
    if find_chars(&uc, &and_pat).is_some() || find_chars(&uc, &or_pat).is_some() || contains_char(&tc, '(') {
        return None;
    }
    match find_kw(&uc) {
        Some((i, k)) => parse_kw(trimmed, upper, &tc, &uc, i, k),
        None => parse_ops(trimmed, &tc),
    }
}

/// The byte offsets in the upper-cased text of the start and end of
/// keyword `i` found at character `k`.
fn kw_bytes(upper: &str, uc: &Vec<char>, i: usize, k: usize) -> (r: (usize, usize))
    requires
        uc@ == upper@,
        i < 4,
        k + kw_pattern(i as int).len() <= uc@.len(),
    ensures
        r.0 == byte_offset_spec(upper@, k as int),
        r.1 == byte_offset_spec(upper@, k + kw_pattern(i as int).len()),
{
    let pat = kw_pattern_str(i);
    let plen = char_count(pat);
    let n = uc.len();
    let b1 = crate::text::byte_offset(upper, k);
    let b2 = crate::text::byte_offset(upper, k + plen);
    (b1, b2)
}

/// The keyword-operator part of the parse.
#[verifier::rlimit(50)]
fn parse_kw(trimmed: &str, upper: &str, tc: &Vec<char>, uc: &Vec<char>, i: usize, k: usize) -> (r: Option<SimpleFilter>)
    requires
        tc@ == trimmed@,
        uc@ == upper@,
        kw_hit(upper@, 0) == Some((i as int, k as int)),
        kw_split(trimmed@, upper@, i as int, k as int) is Some,
    ensures
        filter_matches_parse(r, match kw_split(trimmed@, upper@, i as int, k as int) {
            Some((c1, c2)) => match unquote_column_spec(unicode_trim(trimmed@.take(c1))) {
                Some(c) => Some((c, kw_op(i as int), unquote_value_spec(unicode_trim(trimmed@.skip(c2))))),
                None => None,
            },
            None => None,
        }),
{
    proof {
        lemma_kw_hit_found(upper@, 0);
        crate::text::lemma_find_spec_occurs(upper@, kw_pattern(i as int));
    }
    let (b1, b2) = kw_bytes(upper, uc, i, k);
    let c1 = match char_index_at_byte(tc, b1) {
        Some(c) => c,
        None => return None,
    };
    let c2 = match char_index_at_byte(tc, b2) {
        Some(c) => c,
        None => return None,
    };
    proof {
        lemma_boundary_in(tc@, b1 as int, 0);
        lemma_boundary_in(tc@, b2 as int, 0);
    }
    let col_part = string_from_range(tc, 0, c1);
    let val_part = string_from_range(tc, c2, tc.len());
    proof {
        assert(tc@.subrange(0, c1 as int) =~= trimmed@.take(c1 as int));
        assert(tc@.subrange(c2 as int, tc@.len() as int) =~= trimmed@.skip(c2 as int));
    }
    let column = match unquote_column(trim(col_part.as_str())) {
        Some(c) => c,
        None => return None,
    };
    let value = unquote_value(trim(val_part.as_str()));
    Some(make_filter(column, kw_op_str(i), value))
}

/// A keyword hit names a keyword that was found where it says.
proof fn lemma_kw_hit_found(u: Seq<char>, i: int)
    requires
        0 <= i,
    ensures
        kw_hit(u, i) matches Some((j, k)) ==> i <= j < 4 && find_spec(u, kw_pattern(j)) == Some(k),
    decreases 4 - i,
{
    if i < 4 && find_spec(u, kw_pattern(i)) is None {
        lemma_kw_hit_found(u, i + 1);
    }
}

fn char_count(s: &str) -> (r: usize)
    ensures
        r == s@.len(),
{
    crate::text::char_count(s)
}

/// The comparison-operator part of the parse.
#[verifier::rlimit(50)]
fn parse_ops(trimmed: &str, tc: &Vec<char>) -> (r: Option<SimpleFilter>)
    requires
        tc@ == trimmed@,
    ensures
        filter_matches_parse(r, op_hit(trimmed@, 0)),
{
    let n = tc.len();
    let mut i: usize = 0;
    while i < 7
        invariant
            i <= 7,
            tc@ == trimmed@,
            n == tc@.len(),
            op_hit(trimmed@, 0) == op_hit(trimmed@, i as int),
        decreases 7 - i,
    {
        let op = compare_op_str(i);
        let pat = chars_of(op);
        match find_chars(tc, &pat) {
            Some(k) => {
                let olen = pat.len();
                let col_part = string_from_range(tc, 0, k);
                let val_part = string_from_range(tc, k + olen, n);
                proof {
                    assert(tc@.subrange(0, k as int) =~= trimmed@.take(k as int));
                    assert(tc@.subrange(k + olen, n as int) =~= trimmed@.skip(k + olen));
                }
                let col = trim(col_part.as_str());
                let val = trim(val_part.as_str());
                if !col.is_empty() && !val.is_empty() {
                    let column = match unquote_column(col) {
                        Some(c) => c,
                        None => return None,
                    };
                    let value = unquote_value(val);
                    return Some(make_filter(column, op, value));
                }
            },
            None => {},
        }
        i += 1;
    }
    None
}

/// Read a filter expression as a simple `column op value` filter: `None`
/// when it is not one. A keyword operator is looked for in the upper-cased
/// text and the text is cut at the byte positions found there; where those
/// positions do not fall on character boundaries of the text (upper-casing
/// changed some character's encoded length before them) the expression is
/// not read either.
pub fn parse_simple_filter(filter: &str) -> (r: Option<SimpleFilter>)
    ensures
        ({
            let t = unicode_trim(filter@);
            let u = unicode_upper(t);
            if slices_ok(t, u) { filter_matches_parse(r, parse_spec(t, u)) } else { r is None }
        }),
        all_ascii(unicode_trim(filter@)) ==> unicode_upper(unicode_trim(filter@))
            == unicode_trim(filter@).map_values(|c: char| ascii_upper_char(c)),
{
    let trimmed = trim(filter);
    let upper = to_upper(trimmed);
    if !slices_fit(trimmed, upper.as_str()) {
        return None;
    }
    parse_simple_filter_cased(trimmed, upper.as_str())
}

/// Whether `slices_ok` holds.
fn slices_fit(trimmed: &str, upper: &str) -> (r: bool)
    ensures
        r == slices_ok(trimmed@, upper@),
{
    let tc = chars_of(trimmed);
    let uc = chars_of(upper);
    let and_pat = chars_of(" AND ");
    let or_pat = chars_of(" OR ");
    if find_chars(&uc, &and_pat).is_some() || find_chars(&uc, &or_pat).is_some() || contains_char(&tc, '(') {
        return true;
    }
    match find_kw(&uc) {
        Some((i, k)) => {
            proof {
                lemma_kw_hit_found(upper@, 0);
                crate::text::lemma_find_spec_occurs(upper@, kw_pattern(i as int));
            }
            let (b1, b2) = kw_bytes(upper, &uc, i, k);
            char_index_at_byte(&tc, b1).is_some() && char_index_at_byte(&tc, b2).is_some()
        },
        None => true,
    }
}

/// `%` in a `LIKE` pattern: any run of characters.
pub open spec fn pct() -> u8 {
    37u8
}

/// `_` in a `LIKE` pattern: any one character.
pub open spec fn underscore() -> u8 {
    95u8
}

/// SQL `LIKE`: text from byte `i` on matches pattern from byte `j` on,
/// where `%` matches any run of bytes, `_` any one byte, and every other
/// byte itself.
pub open spec fn like_from(t: Seq<u8>, p: Seq<u8>, i: int, j: int) -> bool
    decreases (t.len() - i) + (p.len() - j),
{
    if i < 0 || j < 0 || i > t.len() || j > p.len() {
        false
    } else if j == p.len() {
        i == t.len()
    } else if p[j] == pct() {
        like_from(t, p, i, j + 1) || (i < t.len() && like_from(t, p, i + 1, j))
    } else {
        i < t.len() && (p[j] == underscore() || p[j] == t[i]) && like_from(t, p, i + 1, j + 1)
    }
}

/// The pattern from `j` on is all `%`.
pub open spec fn all_pct(p: Seq<u8>, j: int) -> bool
    decreases p.len() - j,
{
    if j < 0 || j >= p.len() { true } else { p[j] == pct() && all_pct(p, j + 1) }
}

/// How the matcher runs: it walks text and pattern together, remembers the
/// last `%` it passed (`sp`, negative when none, and the text position `st`
/// it was tried at), and on a mismatch retries that `%` one byte further
/// on. A pattern byte equal to the text byte is taken as that byte, even
/// when it is a `%`. At the end of the text the rest of the pattern must be
/// all `%`.
pub open spec fn greedy(t: Seq<u8>, p: Seq<u8>, ti: int, pi: int, st: int, sp: int) -> bool
    decreases (if sp < 0 { t.len() + 2int } else { t.len() - st }), (t.len() - ti) + (p.len() - pi),
{
    if !(0 <= ti <= t.len() && 0 <= pi <= p.len() && (sp < 0 || (0 <= st <= ti && 0 <= sp < pi))) {
        false
    } else if ti < t.len() {
        if pi < p.len() && (p[pi] == underscore() || p[pi] == t[ti]) {
            greedy(t, p, ti + 1, pi + 1, st, sp)
        } else if pi < p.len() && p[pi] == pct() {
            greedy(t, p, ti, pi + 1, ti, pi)
        } else if sp >= 0 {
            greedy(t, p, st + 1, sp + 1, st + 1, sp)
        } else {
            false
        }
    } else {
        all_pct(p, pi)
    }
}

/// Match bytes against a `LIKE` pattern.
pub fn like_match(text: &[u8], pattern: &[u8]) -> (r: bool)
    ensures
        r == greedy(text@, pattern@, 0, 0, 0, -1),
        !text@.contains(pct()) ==> r == like_from(text@, pattern@, 0, 0),
{
    proof { law_like_greedy(text@, pattern@); }
    let n = text.len();
    let m = pattern.len();
    let mut t: usize = 0;
    let mut p: usize = 0;
    let mut star_t: usize = usize::MAX;
    let mut star_p: usize = usize::MAX;
    while t < n
        invariant
            n == text@.len(),
            m == pattern@.len(),
            t <= n,
            p <= m,
            star_p == usize::MAX || (star_t <= t && star_p < p),
            greedy(text@, pattern@, t as int, p as int,
                if star_p == usize::MAX { 0 } else { star_t as int },
                if star_p == usize::MAX { -1 } else { star_p as int })
                == greedy(text@, pattern@, 0, 0, 0, -1),
            !text@.contains(pct()) ==> greedy(text@, pattern@, 0, 0, 0, -1) == like_from(text@, pattern@, 0, 0),
        decreases (if star_p == usize::MAX { n + 2 } else { n - star_t }), (n - t) + (m - p),
    {
        if p < m && (pattern[p] == 95u8 || pattern[p] == text[t]) {
            t += 1;
            p += 1;
        } else if p < m && pattern[p] == 37u8 {
            star_t = t;
            star_p = p;
            p += 1;
        } else if star_p != usize::MAX {
            star_t += 1;
            t = star_t;
            p = star_p + 1;
        } else {
            return false;
        }
    }
    while p < m && pattern[p] == 37u8
        invariant
            n == text@.len(),
            m == pattern@.len(),
            t == n,
            p <= m,
            all_pct(pattern@, p as int) == greedy(text@, pattern@, 0, 0, 0, -1),
            !text@.contains(pct()) ==> greedy(text@, pattern@, 0, 0, 0, -1) == like_from(text@, pattern@, 0, 0),
        decreases m - p,
    {
        p += 1;
    }
    p == m
}

/// Walking from `i` on, the first `k` at or after `i` at which the text
/// matches the pattern from `j` on.
pub open spec fn any_from(t: Seq<u8>, p: Seq<u8>, k: int, j: int) -> bool
    decreases t.len() - k,
{
    if k < 0 || k > t.len() {
        false
    } else {
        like_from(t, p, k, j) || (k < t.len() && any_from(t, p, k + 1, j))
    }
}

/// Pattern byte `j + q` is not `%` and matches text byte `i + q`.
pub open spec fn seg_at(t: Seq<u8>, p: Seq<u8>, i: int, j: int, q: int) -> bool {
    p[j + q] != pct() && i + q < t.len() && (p[j + q] == underscore() || p[j + q] == t[i + q])
}

/// Bytes `j..j+len` of the pattern hold no `%` and match the text from `i`.
pub open spec fn seg(t: Seq<u8>, p: Seq<u8>, i: int, j: int, len: int) -> bool {
    forall|q: int| 0 <= q < len ==> #[trigger] seg_at(t, p, i, j, q)
}

/// Pattern byte `j + q` is not `%`.
pub open spec fn no_pct_at(p: Seq<u8>, j: int, q: int) -> bool {
    p[j + q] != pct()
}

/// Pattern bytes `j..j+len` hold no `%`.
pub open spec fn no_pct(p: Seq<u8>, j: int, len: int) -> bool {
    forall|q: int| 0 <= q < len ==> #[trigger] no_pct_at(p, j, q)
}

/// A `%` matches any run: the text from `i` matches from the `%` on exactly
/// when some later position matches what follows the `%`.
proof fn lemma_percent(t: Seq<u8>, p: Seq<u8>, i: int, j: int)
    requires
        0 <= i <= t.len(),
        0 <= j < p.len(),
        p[j] == pct(),
    ensures
        like_from(t, p, i, j) == any_from(t, p, i, j + 1),
    decreases t.len() - i,
{
    if i < t.len() {
        lemma_percent(t, p, i + 1, j);
    }
}

/// Matching a stretch without `%`: it matches byte by byte, then the rest.
proof fn lemma_seg(t: Seq<u8>, p: Seq<u8>, i: int, j: int, len: int)
    requires
        0 <= i <= t.len(),
        0 <= j,
        0 <= len,
        j + len <= p.len(),
        no_pct(p, j, len),
    ensures
        like_from(t, p, i, j) == (seg(t, p, i, j, len) && like_from(t, p, i + len, j + len)),
    decreases len,
{
    if len > 0 {
        assert(no_pct_at(p, j, 0));
        assert(no_pct(p, j + 1, len - 1)) by {
            assert forall|q: int| 0 <= q < len - 1 implies #[trigger] no_pct_at(p, j + 1, q) by {
                assert(no_pct_at(p, j, q + 1));
            }
        }
        if i < t.len() {
            lemma_seg(t, p, i + 1, j + 1, len - 1);
            if seg(t, p, i, j, len) {
                lemma_seg_tail(t, p, i, j, len);
                assert(seg_at(t, p, i, j, 0));
            }
            if like_from(t, p, i, j) && seg(t, p, i + 1, j + 1, len - 1) {
                assert forall|q: int| 0 <= q < len implies #[trigger] seg_at(t, p, i, j, q) by {
                    if q > 0 {
                        assert(seg_at(t, p, i + 1, j + 1, q - 1));
                    }
                }
            }
        } else {
            assert(!seg(t, p, i, j, len)) by {
                if seg(t, p, i, j, len) {
                    assert(seg_at(t, p, i, j, 0));
                }
            }
        }
    } else {
        assert(seg(t, p, i, j, 0));
    }
}

/// Dropping the first byte of a matched stretch leaves a matched stretch.
proof fn lemma_seg_tail(t: Seq<u8>, p: Seq<u8>, i: int, j: int, len: int)
    requires
        len > 0,
        seg(t, p, i, j, len),
    ensures
        seg(t, p, i + 1, j + 1, len - 1),
{
    assert forall|q: int| 0 <= q < len - 1 implies #[trigger] seg_at(t, p, i + 1, j + 1, q) by {
        assert(seg_at(t, p, i, j, q + 1));
    }
}

/// A match at a later position is a match from an earlier one.
proof fn lemma_any_from_later(t: Seq<u8>, p: Seq<u8>, a: int, b: int, j: int)
    requires
        0 <= a <= b <= t.len(),
        any_from(t, p, b, j),
    ensures
        any_from(t, p, a, j),
    decreases b - a,
{
    if a < b {
        lemma_any_from_later(t, p, a + 1, b, j);
    }
}

/// A position from which the text matches.
proof fn lemma_any_witness(t: Seq<u8>, p: Seq<u8>, a: int, j: int) -> (k: int)
    requires
        any_from(t, p, a, j),
    ensures
        a <= k <= t.len(),
        like_from(t, p, k, j),
    decreases t.len() - a,
{
    if like_from(t, p, a, j) {
        a
    } else {
        lemma_any_witness(t, p, a + 1, j)
    }
}

/// At the end of the text, a pattern matches exactly when the rest is all `%`.
proof fn lemma_end(t: Seq<u8>, p: Seq<u8>, j: int)
    requires
        0 <= j <= p.len(),
    ensures
        like_from(t, p, t.len() as int, j) == all_pct(p, j),
    decreases p.len() - j,
{
    if j < p.len() {
        lemma_end(t, p, j + 1);
    }
}

/// When no later position matches, `any_from` is the match at its start.
proof fn lemma_any_only_first(t: Seq<u8>, p: Seq<u8>, a: int, j: int)
    requires
        0 <= a <= t.len(),
        forall|k: int| a < k <= t.len() ==> !#[trigger] like_from(t, p, k, j),
    ensures
        any_from(t, p, a, j) == like_from(t, p, a, j),
    decreases t.len() - a,
{
    if a < t.len() {
        lemma_any_only_first(t, p, a + 1, j);
    }
}

/// Moving past a `%` at `pi` after a stretch matched from `st`: matching
/// from any position at or after `st` after the earlier `%` is the same as
/// matching from any position at or after `ti` after this one.
proof fn lemma_shift(t: Seq<u8>, p: Seq<u8>, ti: int, pi: int, st: int, sp: int)
    requires
        0 <= sp < pi < p.len(),
        p[pi] == pct(),
        0 <= st <= ti <= t.len(),
        ti - st == pi - sp - 1,
        no_pct(p, sp + 1, pi - sp - 1),
        seg(t, p, st, sp + 1, pi - sp - 1),
    ensures
        any_from(t, p, st, sp + 1) == any_from(t, p, ti, pi + 1),
{
    let len = pi - sp - 1;
    lemma_seg(t, p, st, sp + 1, len);
    lemma_percent(t, p, ti, pi);
    if any_from(t, p, ti, pi + 1) {
        assert(like_from(t, p, st, sp + 1));
    }
    if any_from(t, p, st, sp + 1) {
        let k = lemma_any_witness(t, p, st, sp + 1);
        lemma_seg(t, p, k, sp + 1, len);
        if len > 0 {
            assert(k + (len - 1) < t.len()) by {
                assert(seg_at(t, p, k, sp + 1, len - 1));
            }
        }
        lemma_percent(t, p, k + len, pi);
        lemma_any_from_later(t, p, ti, k + len, pi + 1);
    }
}

/// The matcher with a remembered `%` computes whether some position at or
/// after `st` matches what follows that `%`, for text without `%`.
proof fn lemma_greedy_star(t: Seq<u8>, p: Seq<u8>, ti: int, pi: int, st: int, sp: int)
    requires
        !t.contains(pct()),
        0 <= sp < pi <= p.len(),
        p[sp] == pct(),
        0 <= st <= ti <= t.len(),
        ti - st == pi - sp - 1,
        no_pct(p, sp + 1, pi - sp - 1),
        seg(t, p, st, sp + 1, pi - sp - 1),
    ensures
        greedy(t, p, ti, pi, st, sp) == any_from(t, p, st, sp + 1),
    decreases t.len() - st, (t.len() - ti) + (p.len() - pi),
{
    let len = pi - sp - 1;
    if ti < t.len() {
        if pi < p.len() && (p[pi] == underscore() || p[pi] == t[ti]) {
            assert(p[pi] != pct()) by {
                if p[pi] == pct() && p[pi] == t[ti] { assert(t.contains(pct())); }
            }
            assert(no_pct(p, sp + 1, len + 1)) by {
                assert forall|q: int| 0 <= q < len + 1 implies #[trigger] no_pct_at(p, sp + 1, q) by {
                    if q == len { assert(sp + 1 + q == pi); }
                }
            }
            assert(seg(t, p, st, sp + 1, len + 1)) by {
                assert forall|q: int| 0 <= q < len + 1 implies #[trigger] seg_at(t, p, st, sp + 1, q) by {
                    if q == len { assert(sp + 1 + q == pi && st + q == ti); }
                }
            }
            lemma_greedy_star(t, p, ti + 1, pi + 1, st, sp);
        } else if pi < p.len() && p[pi] == pct() {
            assert(no_pct(p, pi + 1, 0));
            assert(seg(t, p, ti, pi + 1, 0));
            lemma_greedy_star(t, p, ti, pi + 1, ti, pi);
            lemma_shift(t, p, ti, pi, st, sp);
        } else {
            assert(no_pct(p, sp + 1, 0));
            assert(seg(t, p, st + 1, sp + 1, 0));
            lemma_greedy_star(t, p, st + 1, sp + 1, st + 1, sp);
            lemma_seg(t, p, st, sp + 1, len);
            assert(!like_from(t, p, ti, pi));
        }
    } else {
        lemma_seg(t, p, st, sp + 1, len);
        lemma_end(t, p, pi);
        assert forall|k: int| st < k <= t.len() implies !#[trigger] like_from(t, p, k, sp + 1) by {
            lemma_seg(t, p, k, sp + 1, len);
            if len > 0 && seg(t, p, k, sp + 1, len) {
                assert(seg_at(t, p, k, sp + 1, len - 1));
            }
        }
        lemma_any_only_first(t, p, st, sp + 1);
    }
}

/// Before any `%` is passed, the matcher computes the match itself, for
/// text without `%`.
proof fn lemma_greedy_plain(t: Seq<u8>, p: Seq<u8>, ti: int, pi: int)
    requires
        !t.contains(pct()),
        0 <= ti <= t.len(),
        0 <= pi <= p.len(),
    ensures
        greedy(t, p, ti, pi, 0, -1) == like_from(t, p, ti, pi),
    decreases (t.len() - ti) + (p.len() - pi),
{
    if ti < t.len() {
        if pi < p.len() && (p[pi] == underscore() || p[pi] == t[ti]) {
            assert(p[pi] != pct()) by {
                if p[pi] == pct() && p[pi] == t[ti] { assert(t.contains(pct())); }
            }
            lemma_greedy_plain(t, p, ti + 1, pi + 1);
        } else if pi < p.len() && p[pi] == pct() {
            assert(no_pct(p, pi + 1, 0));
            assert(seg(t, p, ti, pi + 1, 0));
            lemma_greedy_star(t, p, ti, pi + 1, ti, pi);
            lemma_percent(t, p, ti, pi);
        }
    } else {
        lemma_end(t, p, pi);
    }
}

/// Law: on text without `%`, the matcher agrees with SQL `LIKE`.
pub proof fn law_like_greedy(t: Seq<u8>, p: Seq<u8>)
    ensures
        !t.contains(pct()) ==> greedy(t, p, 0, 0, 0, -1) == like_from(t, p, 0, 0),
{
    if !t.contains(pct()) {
        lemma_greedy_plain(t, p, 0, 0);
    }
}

/// Whether text matches a `LIKE` pattern, both taken as UTF-8 bytes.
pub open spec fn like_text(text: Seq<char>, pattern: Seq<char>) -> bool {
    greedy(vstd::utf8::encode_utf8(text), vstd::utf8::encode_utf8(pattern), 0, 0, 0, -1)
}

/// `LIKE` (case-sensitive) or `ILIKE` (the text lower-cased, against the
/// lower-cased pattern `pattern_lower`).
pub fn sql_like_match(text: &str, pattern: &str, pattern_lower: &str, case_sensitive: bool) -> (r: bool)
    ensures
        case_sensitive ==> r == like_text(text@, pattern@),
        !case_sensitive ==> r == like_text(unicode_lower(text@), pattern_lower@),
{
    if case_sensitive {
        like_match(text.as_bytes(), pattern.as_bytes())
    } else {
        let text_lower = to_lower(text);
        like_match(text_lower.as_str().as_bytes(), pattern_lower.as_bytes())
    }
}

/// How a cell's number compares with the filter's number, when both parse
/// as numbers (`Unordered` when either is not a number, such as NaN).
#[derive(Debug, Clone, Copy, PartialEq, Eq, Structural)]
pub enum NumOrder {
    Less,
    Equal,
    Greater,
    Unordered,
}

/// `a` comes before `b` in character order.
pub open spec fn text_lt(a: Seq<char>, b: Seq<char>) -> bool
    decreases a.len(),
{
    if b.len() == 0 {
        false
    } else if a.len() == 0 {
        true
    } else if a[0] != b[0] {
        (a[0] as u32) < (b[0] as u32)
    } else {
        text_lt(a.drop_first(), b.drop_first())
    }
}

/// Whether `a` comes before `b` in character order.
fn chars_lt(a: &Vec<char>, b: &Vec<char>) -> (r: bool)
    ensures
        r == text_lt(a@, b@),
{
    let mut i: usize = 0;
    assert(a@.skip(0) =~= a@ && b@.skip(0) =~= b@);
    while i < a.len() && i < b.len()
        invariant
            i <= a@.len(),
            i <= b@.len(),
            text_lt(a@, b@) == text_lt(a@.skip(i as int), b@.skip(i as int)),
        decreases a@.len() - i,
    {
        proof {
            assert(a@.skip(i as int)[0] == a@[i as int]);
            assert(b@.skip(i as int)[0] == b@[i as int]);
            assert(a@.skip(i as int).drop_first() =~= a@.skip(i + 1));
            assert(b@.skip(i as int).drop_first() =~= b@.skip(i + 1));
        }
        if a[i] != b[i] {
            return (a[i] as u32) < (b[i] as u32);
        }
        i += 1;
    }
    proof {
        assert(a@.skip(i as int).len() == a@.len() - i);
        assert(b@.skip(i as int).len() == b@.len() - i);
    }
    i < b.len()
}

/// No text comes before itself.
pub proof fn lemma_text_lt_irreflexive(a: Seq<char>)
    ensures
        !text_lt(a, a),
    decreases a.len(),
{
    if a.len() > 0 {
        lemma_text_lt_irreflexive(a.drop_first());
    }
}

/// Of two texts at most one comes before the other, and of two different
/// texts exactly one does.
pub proof fn lemma_text_lt_total(a: Seq<char>, b: Seq<char>)
    ensures
        !(text_lt(a, b) && text_lt(b, a)),
        a != b ==> text_lt(a, b) || text_lt(b, a),
    decreases a.len(),
{
    if a.len() > 0 && b.len() > 0 && a[0] == b[0] {
        lemma_text_lt_total(a.drop_first(), b.drop_first());
        if a.drop_first() == b.drop_first() {
            assert(a =~= seq![a[0]] + a.drop_first());
            assert(b =~= seq![b[0]] + b.drop_first());
        }
    } else if a.len() == 0 && b.len() == 0 {
        assert(a =~= b);
    } else if a.len() > 0 && b.len() > 0 {
        vstd::utf8::char_u32_cast(a[0], a[0] as u32);
        vstd::utf8::char_u32_cast(b[0], b[0] as u32);
    }
}

/// Whether one cell's text passes a simple filter. `numeric` is how the
/// cell's number compares with the filter value's number when both read as
/// numbers, `None` when either does not. Ordering comparisons use the
/// numbers when there are, else the character order of the texts.
pub open spec fn cell_matches_spec(cell: Seq<char>, op: Seq<char>, value: Seq<char>, value_lower: Seq<char>, numeric: Option<NumOrder>) -> bool {
    if op == "="@ {
        cell == value
    } else if op == "!="@ || op == "<>"@ {
        cell != value
    } else if op == ">"@ || op == "<"@ || op == ">="@ || op == "<="@ {
        match numeric {
            Some(o) => if op == ">"@ {
                o == NumOrder::Greater
            } else if op == "<"@ {
                o == NumOrder::Less
            } else if op == ">="@ {
                o == NumOrder::Greater || o == NumOrder::Equal
            } else {
                o == NumOrder::Less || o == NumOrder::Equal
            },
            None => if op == ">"@ {
                text_lt(value, cell)
            } else if op == "<"@ {
                text_lt(cell, value)
            } else if op == ">="@ {
                !text_lt(cell, value)
            } else {
                !text_lt(value, cell)
            },
        }
    } else if op == "LIKE"@ {
        like_text(cell, value)
    } else if op == "ILIKE"@ {
        like_text(unicode_lower(cell), value_lower)
    } else if op == "IS NOT"@ {
        unicode_upper(value) == "NULL"@
    } else {
        false
    }
}

/// Whether a non-null cell's text passes a simple filter (a null cell is
/// decided by the caller).
pub fn cell_matches_filter(cell_text: &str, filter: &SimpleFilter, numeric: Option<NumOrder>) -> (r: bool)
    ensures
        r == cell_matches_spec(cell_text@, filter.op@, filter.value@, filter.value_lower@, numeric),
{
    let op = filter.op.as_str();
    let value = filter.value.as_str();
    if str_eq(op, "=") {
        str_eq(cell_text, value)
    } else if str_eq(op, "!=") || str_eq(op, "<>") {
        !str_eq(cell_text, value)
    } else if str_eq(op, ">") || str_eq(op, "<") || str_eq(op, ">=") || str_eq(op, "<=") {
        match numeric {
            Some(o) => {
                if str_eq(op, ">") {
                    o == NumOrder::Greater
                } else if str_eq(op, "<") {
                    o == NumOrder::Less
                } else if str_eq(op, ">=") {
                    o == NumOrder::Greater || o == NumOrder::Equal
                } else {
                    o == NumOrder::Less || o == NumOrder::Equal
                }
            },
            None => {
                let c = chars_of(cell_text);
                let v = chars_of(value);
                if str_eq(op, ">") {
                    chars_lt(&v, &c)
                } else if str_eq(op, "<") {
                    chars_lt(&c, &v)
                } else if str_eq(op, ">=") {
                    !chars_lt(&c, &v)
                } else {
                    !chars_lt(&v, &c)
                }
            },
        }
    } else if str_eq(op, "LIKE") {
        sql_like_match(cell_text, value, filter.value_lower.as_str(), true)
    } else if str_eq(op, "ILIKE") {
        sql_like_match(cell_text, value, filter.value_lower.as_str(), false)
    } else if str_eq(op, "IS NOT") {
        let upper = to_upper(value);
        str_eq(upper.as_str(), "NULL")
    } else {
        false
    }
}

/// Law: the ordering operators of a filter are a strict order and its
/// complement. `<` and `>=` never both hold and `>` and `<=` never both hold,
/// nor do `<` and `>`; unless the numbers are unordered, one of each pair
/// holds. So `<` and `>` leave out a cell equal to the value, and `<=` and
/// `>=` take it in. Unordered numbers pass no ordering operator.
pub proof fn law_ordering_operators(cell: Seq<char>, value: Seq<char>, value_lower: Seq<char>, numeric: Option<NumOrder>)
    ensures
        !(cell_matches_spec(cell, "<"@, value, value_lower, numeric) && cell_matches_spec(cell, ">="@, value, value_lower, numeric)),
        !(cell_matches_spec(cell, ">"@, value, value_lower, numeric) && cell_matches_spec(cell, "<="@, value, value_lower, numeric)),
        !(cell_matches_spec(cell, "<"@, value, value_lower, numeric) && cell_matches_spec(cell, ">"@, value, value_lower, numeric)),
        numeric != Some(NumOrder::Unordered) ==> {
            &&& cell_matches_spec(cell, "<"@, value, value_lower, numeric) || cell_matches_spec(cell, ">="@, value, value_lower, numeric)
            &&& cell_matches_spec(cell, ">"@, value, value_lower, numeric) || cell_matches_spec(cell, "<="@, value, value_lower, numeric)
        },
        numeric == Some(NumOrder::Equal) || (numeric is None && cell == value) ==> {
            &&& !cell_matches_spec(cell, "<"@, value, value_lower, numeric)
            &&& !cell_matches_spec(cell, ">"@, value, value_lower, numeric)
            &&& cell_matches_spec(cell, "<="@, value, value_lower, numeric)
            &&& cell_matches_spec(cell, ">="@, value, value_lower, numeric)
        },
        numeric == Some(NumOrder::Unordered) ==> {
            &&& !cell_matches_spec(cell, "<"@, value, value_lower, numeric)
            &&& !cell_matches_spec(cell, ">"@, value, value_lower, numeric)
            &&& !cell_matches_spec(cell, "<="@, value, value_lower, numeric)
            &&& !cell_matches_spec(cell, ">="@, value, value_lower, numeric)
        },
{
    reveal_strlit("<");
    reveal_strlit(">");
    reveal_strlit("<=");
    reveal_strlit(">=");
    reveal_strlit("=");
    reveal_strlit("!=");
    reveal_strlit("<>");
    let lt = "<"@;
    let gt = ">"@;
    let le = "<="@;
    let ge = ">="@;
    assert(lt != "="@ && lt != "!="@ && lt != "<>"@ && lt != gt && lt != le && lt != ge) by {
        assert(lt[0] != "="@[0] && lt.len() != "!="@.len() && lt.len() != "<>"@.len() && lt[0] != gt[0]);
        assert(lt.len() != le.len() && lt.len() != ge.len());
    }
    assert(gt != "="@ && gt != "!="@ && gt != "<>"@ && gt != le && gt != ge) by {
        assert(gt[0] != "="@[0] && gt.len() != "!="@.len() && gt.len() != "<>"@.len());
        assert(gt.len() != le.len() && gt.len() != ge.len());
    }
    assert(le != "="@ && le != "!="@ && le != "<>"@ && le != ge) by {
        assert(le.len() != "="@.len() && le[0] != "!="@[0] && le[1] != "<>"@[1] && le[0] != ge[0]);
    }
    assert(ge != "="@ && ge != "!="@ && ge != "<>"@) by {
        assert(ge.len() != "="@.len() && ge[0] != "!="@[0] && ge[0] != "<>"@[0]);
    }
    lemma_text_lt_total(cell, value);
    lemma_text_lt_irreflexive(cell);
}

} // verus!
