//! Filter input: `$column` references, their autocompletion and expansion,
//! and the row number typed in go-to mode.
use vstd::prelude::*;

use crate::mode::InputVariant;
use crate::text::{
    byte_offset, byte_offset_spec, chars_of, decimal, push_char, push_decimal, push_str,
    string_from_range, strings_view, to_lower, unicode_lower,
};

verus! {

/// ASCII letter or `_`: may start a bare `$name`.
pub open spec fn ident_start(c: char) -> bool {
    ('a' <= c <= 'z') || ('A' <= c <= 'Z') || c == '_'
}

/// ASCII letter, digit or `_`: may continue a bare `$name`.
pub open spec fn ident_char(c: char) -> bool {
    ident_start(c) || ('0' <= c <= '9')
}

/// Every character may continue a bare name.
pub open spec fn all_ident(s: Seq<char>) -> bool {
    forall|i: int| 0 <= i < s.len() ==> ident_char(s[i])
}

/// The last index of `c` in `s`, if any.
pub open spec fn last_index_of(s: Seq<char>, c: char) -> Option<int>
    decreases s.len(),
{
    if s.len() == 0 {
        None
    } else if s.last() == c {
        Some(s.len() - 1)
    } else {
        last_index_of(s.drop_last(), c)
    }
}

/// The partial column name after the last `$` that is still being typed,
/// with the byte offset of that `$`; `None` when the text after it is not a
/// name in progress.
pub open spec fn dollar_prefix_spec(s: Seq<char>) -> Option<(Seq<char>, nat)> {
    match last_index_of(s, '$') {
        None => None,
        Some(k) => {
            let after = s.skip(k + 1);
            let pos = byte_offset_spec(s, k);
            if after.len() == 0 {
                Some((Seq::empty(), pos))
            } else if after[0] == '"' {
                if after.drop_first().contains('"') { None } else { Some((after.drop_first(), pos)) }
            } else if ident_start(after[0]) && all_ident(after) {
                Some((after, pos))
            } else {
                None
            }
        },
    }
}

/// The last index of `c` in `cs`.
fn rfind_char(cs: &Vec<char>, c: char) -> (r: Option<usize>)
    ensures
        match r {
            Some(k) => last_index_of(cs@, c) == Some(k as int),
            None => last_index_of(cs@, c) is None,
        },
{
    let mut i = cs.len();
    assert(cs@.take(cs@.len() as int) =~= cs@);
    while i > 0
        invariant
            i <= cs@.len(),
            last_index_of(cs@.take(i as int), c) == last_index_of(cs@, c),
        decreases i,
    {
        proof { assert(cs@.take(i as int).drop_last() =~= cs@.take(i - 1)); }
        if cs[i - 1] == c {
            return Some(i - 1);
        }
        i -= 1;
    }
    None
}

/// Whether `c` occurs in `cs` from index `from` on.
fn contains_char_from(cs: &Vec<char>, c: char, from: usize) -> (r: bool)
    requires
        from <= cs@.len(),
    ensures
        r == cs@.skip(from as int).contains(c),
{
    let mut i = from;
    while i < cs.len()
        invariant
            from <= i <= cs@.len(),
            forall|j: int| from <= j < i ==> cs@[j] != c,
        decreases cs.len() - i,
    {
        if cs[i] == c {
            assert(cs@.skip(from as int)[i - from] == c);
            return true;
        }
        i += 1;
    }
    assert forall|j: int| 0 <= j < cs@.skip(from as int).len() implies cs@.skip(from as int)[j] != c by {
        assert(cs@.skip(from as int)[j] == cs@[j + from]);
    }
    false
}

/// Find the `$name` being typed at the end of the input: its partial name
/// and the byte offset of its `$`.
pub fn find_dollar_prefix(input: &str) -> (r: Option<(String, usize)>)
    ensures
        match dollar_prefix_spec(input@) {
            Some((name, pos)) => r matches Some((n, p)) && n@ == name && p == pos,
            None => r is None,
        },
{
    let cs = chars_of(input);
    let k = match rfind_char(&cs, '$') {
        Some(k) => k,
        None => return None,
    };
    proof { lemma_last_index_range(cs@, '$'); }
    let pos = byte_offset(input, k);
    let n = cs.len();
    if k + 1 == n {
        proof { assert(input@.skip(k + 1) =~= Seq::<char>::empty()); }
        return Some((String::new(), pos));
    }
    let ghost after = input@.skip(k + 1);
    assert(after[0] == cs@[k + 1]);
    if cs[k + 1] == '"' {
        proof { assert(after.drop_first() =~= cs@.skip(k + 2)); }
        if contains_char_from(&cs, '"', k + 2) {
            return None;
        }
        let rest = string_from_range(&cs, k + 2, n);
        proof { assert(cs@.subrange(k + 2, n as int) =~= after.drop_first()); }
        return Some((rest, pos));
    }
    let first = cs[k + 1];
    if !(('a' <= first && first <= 'z') || ('A' <= first && first <= 'Z') || first == '_') {
        assert(after.len() > 0 && after[0] == first && after[0] != '"' && !ident_start(after[0]));
        return None;
    }
    let mut i = k + 2;
    while i < n
        invariant
            k + 2 <= i <= n,
            n == cs@.len(),
            cs@ == input@,
            after == input@.skip(k + 1),
            last_index_of(input@, '$') == Some(k as int),
            after.len() > 0 && after[0] != '"',
            forall|j: int| k + 1 <= j < i ==> ident_char(cs@[j]),
        decreases n - i,
    {
        let c = cs[i];
        if !(('a' <= c && c <= 'z') || ('A' <= c && c <= 'Z') || c == '_' || ('0' <= c && c <= '9')) {
            assert(after[i - k - 1] == c);
            assert(!ident_char(after[i - k - 1]));
            assert(!all_ident(after));
            return None;
        }
        i += 1;
    }
    assert forall|j: int| 0 <= j < after.len() implies ident_char(after[j]) by {
        assert(after[j] == cs@[j + k + 1]);
    }
    let name = string_from_range(&cs, k + 1, n);
    proof { assert(cs@.subrange(k + 1, n as int) =~= after); }
    Some((name, pos))
}

/// A last index lies inside the sequence.
pub proof fn lemma_last_index_range(s: Seq<char>, c: char)
    ensures
        last_index_of(s, c) matches Some(k) ==> 0 <= k < s.len() && s[k] == c,
    decreases s.len(),
{
    if s.len() > 0 && s.last() != c {
        lemma_last_index_range(s.drop_last(), c);
    }
}

/// How a character that is not part of a `$` reference is copied: each
/// byte of its UTF-8 encoding becomes the character with that code (so
/// ASCII is copied as is).
pub open spec fn byte_chars(c: char) -> Seq<char> {
    vstd::utf8::encode_scalar(c as u32).map_values(|b: u8| b as char)
}

/// Appends `byte_chars(c)`.
fn push_byte_chars(out: &mut String, c: char)
    ensures
        final(out)@ == old(out)@ + byte_chars(c),
{
    let v = c as u32;
    proof { vstd::utf8::char_is_scalar(c); }
    if v < 0x80 {
        push_char(out, ((v & 0x7F) as u8) as char);
    } else if v < 0x800 {
        push_char(out, (0xC0u8 | ((v >> 6) & 0x1F) as u8) as char);
        push_char(out, (0x80u8 | (v & 0x3F) as u8) as char);
    } else if v < 0x10000 {
        push_char(out, (0xE0u8 | ((v >> 12) & 0x0F) as u8) as char);
        push_char(out, (0x80u8 | ((v >> 6) & 0x3F) as u8) as char);
        push_char(out, (0x80u8 | (v & 0x3F) as u8) as char);
    } else {
        push_char(out, (0xF0u8 | ((v >> 18) & 0x7) as u8) as char);
        push_char(out, (0x80u8 | ((v >> 12) & 0x3F) as u8) as char);
        push_char(out, (0x80u8 | ((v >> 6) & 0x3F) as u8) as char);
        push_char(out, (0x80u8 | (v & 0x3F) as u8) as char);
    }
    assert(final(out)@ =~= old(out)@ + byte_chars(c));
}

fn is_ident_char(c: char) -> (r: bool)
    ensures
        r == ident_char(c),
{
    ('a' <= c && c <= 'z') || ('A' <= c && c <= 'Z') || c == '_' || ('0' <= c && c <= '9')
}

/// The first index at or after `k` holding `c`.
pub open spec fn find_from(s: Seq<char>, k: int, c: char) -> Option<int>
    decreases s.len() - k,
{
    if k < 0 || k >= s.len() {
        None
    } else if s[k] == c {
        Some(k)
    } else {
        find_from(s, k + 1, c)
    }
}

/// The end of the run of name characters starting at `k`.
pub open spec fn ident_end(s: Seq<char>, k: int) -> int
    decreases s.len() - k,
{
    if 0 <= k < s.len() && ident_char(s[k]) { ident_end(s, k + 1) } else { k }
}

pub proof fn lemma_find_from(s: Seq<char>, k: int, c: char)
    requires
        0 <= k,
    ensures
        find_from(s, k, c) matches Some(j) ==> k <= j < s.len() && s[j] == c
            && forall|m: int| k <= m < j ==> s[m] != c,
        find_from(s, k, c) is None ==> forall|m: int| k <= m < s.len() ==> s[m] != c,
    decreases s.len() - k,
{
    if 0 <= k < s.len() && s[k] != c {
        lemma_find_from(s, k + 1, c);
    }
}

pub proof fn lemma_ident_end(s: Seq<char>, k: int)
    ensures
        k <= ident_end(s, k),
        0 <= k <= s.len() ==> ident_end(s, k) <= s.len(),
    decreases s.len() - k,
{
    if 0 <= k < s.len() && ident_char(s[k]) {
        lemma_ident_end(s, k + 1);
    }
}

/// The expansion of `s` from character `i` on: `$name` and `$"name"`
/// references become quoted column names `"name"`, a `$"` without a closing
/// quote quotes the rest of the text, and every other character is copied
/// as the characters of its UTF-8 bytes.
pub open spec fn expand_from(s: Seq<char>, i: int) -> Seq<char>
    decreases s.len() - i,
{
    if i < 0 || i >= s.len() {
        Seq::empty()
    } else if s[i] == '$' && i + 1 < s.len() && s[i + 1] == '"' {
        match find_from(s, i + 2, '"') {
            Some(j) => {
                proof { lemma_find_from(s, i + 2, '"'); }
                seq!['"'] + s.subrange(i + 2, j) + seq!['"'] + expand_from(s, j + 1)
            },
            None => seq!['"'] + s.subrange(i + 2, s.len() as int) + seq!['"'],
        }
    } else if s[i] == '$' && i + 1 < s.len() && ident_start(s[i + 1]) {
        let e = ident_end(s, i + 1);
        proof { lemma_ident_end(s, i + 1); }
        seq!['"'] + s.subrange(i + 1, e) + seq!['"'] + expand_from(s, e)
    } else {
        byte_chars(s[i]) + expand_from(s, i + 1)
    }
}

/// Expand `$name` and `$"name"` references into quoted column names.
pub fn expand_dollar_refs(input: &str) -> (r: String)
    ensures
        r@ == expand_from(input@, 0),
{
    let cs = chars_of(input);
    let n = cs.len();
    let mut out = String::new();
    let mut i: usize = 0;
    while i < n
        invariant
            cs@ == input@,
            n == cs@.len(),
            i <= n,
            out@ + expand_from(cs@, i as int) == expand_from(cs@, 0),
        decreases n - i,
    {
        let ghost s = cs@;
        if cs[i] == '$' && i + 1 < n {
            if cs[i + 1] == '"' {
                let mut j = i + 2;
                while j < n && cs[j] != '"'
                    invariant
                        i + 2 <= j <= n,
                        n == cs@.len(),
                        find_from(cs@, j as int, '"') == find_from(cs@, i + 2, '"'),
                    decreases n - j,
                {
                    j += 1;
                }
                push_char(&mut out, '"');
                let name = string_from_range(&cs, i + 2, j);
                push_str(&mut out, name.as_str());
                push_char(&mut out, '"');
                if j < n {
                    assert(find_from(s, i + 2, '"') == Some(j as int));
                    assert(out@ + expand_from(s, j + 1) =~= expand_from(s, 0));
                    i = j + 1;
                    continue;
                } else {
                    assert(find_from(s, i + 2, '"') is None);
                    assert(out@ =~= expand_from(s, 0));
                    assert(expand_from(s, n as int) =~= Seq::<char>::empty());
                    i = n;
                    continue;
                }
            }
            let first = cs[i + 1];
            if ('a' <= first && first <= 'z') || ('A' <= first && first <= 'Z') || first == '_' {
                let start = i + 1;
                let mut end = start;
                while end < n && is_ident_char(cs[end])
                    invariant
                        start <= end <= n,
                        n == cs@.len(),
                        ident_end(cs@, end as int) == ident_end(cs@, start as int),
                    decreases n - end,
                {
                    end += 1;
                }
                assert(ident_end(s, start as int) == end as int);
                push_char(&mut out, '"');
                let name = string_from_range(&cs, start, end);
                push_str(&mut out, name.as_str());
                push_char(&mut out, '"');
                assert(out@ + expand_from(s, end as int) =~= expand_from(s, 0));
                i = end;
                continue;
            }
        }
        push_byte_chars(&mut out, cs[i]);
        assert(out@ + expand_from(s, i + 1) =~= expand_from(s, 0));
        i += 1;
    }
    assert(expand_from(cs@, i as int) =~= Seq::<char>::empty());
    assert(out@ =~= expand_from(cs@, 0));
    out
}

/// An ASCII character is copied as itself.
pub proof fn lemma_byte_chars_ascii(c: char)
    requires
        (c as u32) < 128,
    ensures
        byte_chars(c) == seq![c],
{
    let v = c as u32;
    assert((v & 0x7F) as u8 == v) by (bit_vector)
        requires v < 128;
    assert(byte_chars(c) =~= seq![c]);
}

/// Law: ASCII text without `$` passes through expansion unchanged.
pub proof fn law_expand_plain_ascii(s: Seq<char>, i: int)
    requires
        0 <= i,
        forall|k: int| 0 <= k < s.len() ==> s[k] != '$' && (s[k] as u32) < 128,
    ensures
        expand_from(s, i) == if i < s.len() { s.skip(i) } else { Seq::<char>::empty() },
    decreases s.len() - i,
{
    if i < s.len() {
        law_expand_plain_ascii(s, i + 1);
        lemma_byte_chars_ascii(s[i]);
        assert(s.skip(i) =~= seq![s[i]] + (if i + 1 < s.len() { s.skip(i + 1) } else { Seq::<char>::empty() }));
    }
}

/// Law: a bare reference is quoted: `$name` followed by a character that
/// cannot continue a name becomes `"name"` followed by the rest.
pub proof fn law_expand_bare_reference(s: Seq<char>, name_end: int)
    requires
        s.len() >= 2,
        s[0] == '$',
        ident_start(s[1]),
        2 <= name_end <= s.len(),
        forall|k: int| 1 <= k < name_end ==> ident_char(s[k]),
        name_end < s.len() ==> !ident_char(s[name_end]),
    ensures
        expand_from(s, 0) == seq!['"'] + s.subrange(1, name_end) + seq!['"'] + expand_from(s, name_end),
{
    assert(ident_end(s, 1) == name_end) by {
        lemma_ident_end_at(s, 1, name_end);
    }
}

pub proof fn lemma_ident_end_at(s: Seq<char>, k: int, e: int)
    requires
        0 <= k <= e <= s.len(),
        forall|m: int| k <= m < e ==> ident_char(s[m]),
        e < s.len() ==> !ident_char(s[e]),
    ensures
        ident_end(s, k) == e,
    decreases e - k,
{
    if k < e {
        lemma_ident_end_at(s, k + 1, e);
    }
}

/// `p` is a prefix of `s`.
pub open spec fn is_prefix(p: Seq<char>, s: Seq<char>) -> bool {
    p.len() <= s.len() && s.take(p.len() as int) == p
}

/// Whether `s` starts with the characters `p`.
fn has_prefix(s: &str, p: &Vec<char>) -> (r: bool)
    ensures
        r == is_prefix(p@, s@),
{
    let cs = chars_of(s);
    if p.len() > cs.len() {
        return false;
    }
    let mut i: usize = 0;
    while i < p.len()
        invariant
            i <= p@.len() <= cs@.len(),
            cs@ == s@,
            forall|j: int| 0 <= j < i ==> cs@[j] == p@[j],
        decreases p@.len() - i,
    {
        if cs[i] != p[i] {
            assert(s@.take(p@.len() as int)[i as int] != p@[i as int]);
            return false;
        }
        i += 1;
    }
    assert(s@.take(p@.len() as int) =~= p@);
    true
}

/// The names among the first `n` pairs whose lower-cased form starts with
/// `partial`, in order.
pub open spec fn suggestions_upto(
    partial: Seq<char>,
    names: Seq<Seq<char>>,
    lowers: Seq<Seq<char>>,
    n: int,
) -> Seq<Seq<char>>
    decreases n,
{
    if n <= 0 {
        Seq::empty()
    } else {
        let prev = suggestions_upto(partial, names, lowers, n - 1);
        if is_prefix(partial, lowers[n - 1]) { prev.push(names[n - 1]) } else { prev }
    }
}

/// The number of (name, lower-cased name) pairs: the shorter of the two lists.
pub open spec fn pair_count(a: nat, b: nat) -> int {
    if a <= b { a as int } else { b as int }
}

/// The column names offered while a `$name` is being typed: `None` when the
/// input does not end in a reference; otherwise the names whose lower-cased
/// form (given in `names_lower`, pair by pair) starts with the lower-cased
/// partial name.
pub fn autocomplete_suggestions(input: &str, names: &Vec<String>, names_lower: &Vec<String>) -> (r:
    Option<Vec<String>>)
    ensures
        match dollar_prefix_spec(input@) {
            None => r is None,
            Some((partial, _)) => r matches Some(v) && strings_view(v@) == suggestions_upto(
                unicode_lower(partial),
                strings_view(names@),
                strings_view(names_lower@),
                pair_count(names@.len(), names_lower@.len()),
            ),
        },
{
    let (partial, _start) = match find_dollar_prefix(input) {
        Some(v) => v,
        None => return None,
    };
    let lower = to_lower(partial.as_str());
    let pl = chars_of(lower.as_str());
    let n = if names.len() <= names_lower.len() { names.len() } else { names_lower.len() };
    let ghost gn = strings_view(names@);
    let ghost gl = strings_view(names_lower@);
    let mut out: Vec<String> = Vec::new();
    let mut i: usize = 0;
    while i < n
        invariant
            i <= n,
            n as int == pair_count(names@.len(), names_lower@.len()),
            n <= names@.len() && n <= names_lower@.len(),
            gn == strings_view(names@),
            gl == strings_view(names_lower@),
            pl@ == unicode_lower(partial@),
            strings_view(out@) == suggestions_upto(pl@, gn, gl, i as int),
        decreases n - i,
    {
        assert(gl[i as int] == names_lower@[i as int]@);
        assert(gn[i as int] == names@[i as int]@);
        if has_prefix(names_lower[i].as_str(), &pl) {
            let name = names[i].as_str().to_owned();
            out.push(name);
            assert(strings_view(out@) =~= suggestions_upto(pl@, gn, gl, i as int).push(gn[i as int]));
        }
        i += 1;
    }
    Some(out)
}

/// The text that completes a reference to column `name`: `$name`, or
/// `$"name"` when the name holds a space or a double quote.
pub open spec fn completion_spec(name: Seq<char>) -> Seq<char> {
    if name.contains(' ') || name.contains('"') {
        seq!['$', '"'] + name + seq!['"']
    } else {
        seq!['$'] + name
    }
}

/// Whether `c` occurs in `s`.
fn contains_char(s: &str, c: char) -> (r: bool)
    ensures
        r == s@.contains(c),
{
    let cs = chars_of(s);
    let r = contains_char_from(&cs, c, 0);
    assert(cs@.skip(0) =~= cs@);
    r
}

/// Replace the `$name` being typed at the end of `input` by a complete
/// reference to `name`: `None` (nothing to replace) when the input does not
/// end in a reference.
pub fn apply_autocomplete(input: &str, name: &str) -> (r: Option<String>)
    ensures
        match dollar_prefix_spec(input@) {
            None => r is None,
            Some(_) => r matches Some(s) && last_index_of(input@, '$') matches Some(k)
                && s@ == input@.take(k) + completion_spec(name@),
        },
{
    if find_dollar_prefix(input).is_none() {
        return None;
    }
    let cs = chars_of(input);
    let k = match rfind_char(&cs, '$') {
        Some(k) => k,
        None => return None,
    };
    proof { lemma_last_index_range(cs@, '$'); }
    let mut out = string_from_range(&cs, 0, k);
    proof { assert(cs@.subrange(0, k as int) =~= input@.take(k as int)); }
    if contains_char(name, ' ') || contains_char(name, '"') {
        push_char(&mut out, '$');
        push_char(&mut out, '"');
        push_str(&mut out, name);
        push_char(&mut out, '"');
    } else {
        push_char(&mut out, '$');
        push_str(&mut out, name);
    }
    assert(out@ =~= input@.take(k as int) + completion_spec(name@));
    Some(out)
}

/// Every character is an ASCII digit.
pub open spec fn all_digits(s: Seq<char>) -> bool {
    forall|i: int| 0 <= i < s.len() ==> '0' <= #[trigger] s[i] <= '9'
}

/// The value of a string of decimal digits.
pub open spec fn digits_value(s: Seq<char>) -> nat
    decreases s.len(),
{
    if s.len() == 0 {
        0
    } else {
        digits_value(s.drop_last()) * 10 + ((s.last() as u32) - ('0' as u32)) as nat
    }
}

/// The digits of an unsigned integer literal: an optional `+` followed by
/// at least one ASCII digit.
pub open spec fn unsigned_digits(s: Seq<char>) -> Option<Seq<char>> {
    let d = if s.len() > 0 && s[0] == '+' { s.drop_first() } else { s };
    if d.len() > 0 && all_digits(d) { Some(d) } else { None }
}

/// What `str::parse::<usize>` gives: the value of the digits, when the text
/// is an unsigned literal whose value fits in a `usize`.
pub open spec fn parse_usize_spec(s: Seq<char>) -> Option<nat> {
    match unsigned_digits(s) {
        Some(d) => if digits_value(d) <= usize::MAX { Some(digits_value(d)) } else { None },
        None => None,
    }
}

/// A longer prefix of digits is worth at least as much.
pub proof fn lemma_digits_value_grows(d: Seq<char>, i: int, j: int)
    requires
        0 <= i <= j <= d.len(),
        all_digits(d),
    ensures
        digits_value(d.take(i)) <= digits_value(d.take(j)),
    decreases j - i,
{
    if i < j {
        lemma_digits_value_grows(d, i, j - 1);
        assert(d.take(j).drop_last() =~= d.take(j - 1));
    }
}

/// Parse a row number as `str::parse::<usize>` does.
pub fn parse_usize(s: &str) -> (r: Option<usize>)
    ensures
        match parse_usize_spec(s@) {
            Some(v) => r == Some(v as usize),
            None => r is None,
        },
{
    let cs = chars_of(s);
    let start: usize = if cs.len() > 0 && cs[0] == '+' { 1 } else { 0 };
    let ghost d = if s@.len() > 0 && s@[0] == '+' { s@.drop_first() } else { s@ };
    assert(d =~= cs@.skip(start as int));
    if start >= cs.len() {
        return None;
    }
    let mut i = start;
    let mut v: usize = 0;
    while i < cs.len()
        invariant
            start <= i <= cs@.len(),
            start < cs@.len(),
            cs@ == s@,
            d == cs@.skip(start as int),
            d == (if s@.len() > 0 && s@[0] == '+' { s@.drop_first() } else { s@ }),
            forall|j: int| start <= j < i ==> '0' <= #[trigger] cs@[j] <= '9',
            v as nat == digits_value(d.take(i - start)),
        decreases cs@.len() - i,
    {
        let c = cs[i];
        if !('0' <= c && c <= '9') {
            assert(!all_digits(d)) by {
                assert(d[i - start] == c);
            }
            return None;
        }
        let digit = (c as u32 - '0' as u32) as usize;
        proof {
            assert(d.take(i - start + 1).drop_last() =~= d.take(i - start));
            assert(d.take(i - start + 1).last() == c);
        }
        match v.checked_mul(10) {
            None => {
                proof { self::lemma_overflow_stays(d, i - start + 1, start, cs@); }
                return None;
            }
            Some(m) => match m.checked_add(digit) {
                None => {
                    proof { self::lemma_overflow_stays(d, i - start + 1, start, cs@); }
                    return None;
                }
                Some(nv) => {
                    v = nv;
                }
            },
        }
        i += 1;
    }
    assert(d.take(cs@.len() - start) =~= d);
    assert(all_digits(d)) by {
        assert forall|j: int| 0 <= j < d.len() implies '0' <= #[trigger] d[j] <= '9' by {
            assert(d[j] == cs@[j + start]);
        }
    }
    Some(v)
}

/// When a prefix of the digits is already too large, the whole literal does
/// not parse: either a later character is not a digit or the value overflows.
proof fn lemma_overflow_stays(d: Seq<char>, m: int, start: usize, cs: Seq<char>)
    requires
        0 < m <= d.len(),
        d == cs.skip(start as int),
        digits_value(d.take(m)) > usize::MAX,
    ensures
        !(all_digits(d) && digits_value(d) <= usize::MAX),
{
    if all_digits(d) {
        lemma_digits_value_grows(d, m, d.len() as int);
        assert(d.take(d.len() as int) =~= d);
    }
}

/// What pressing Enter on a row number does: jump to the (0-based) row, or
/// stay in the prompt with a message.
pub enum GotoOutcome {
    Jump { row: usize, message: String },
    Stay { message: String },
}

/// "Jumped to row N".
pub open spec fn jumped_message(n: nat) -> Seq<char> {
    "Jumped to row "@ + decimal(n)
}

/// "Row must be between 1 and TOTAL".
pub open spec fn range_message(total: nat) -> Seq<char> {
    "Row must be between 1 and "@ + decimal(total)
}

/// Decide what a typed row number does: an empty prompt asks for a number,
/// text that is not a number is refused, a number outside `1..=total` (any
/// positive number when the row count is still unknown, `total == 0`) is
/// refused with the valid range, and any other number jumps to its row.
pub fn goto_row(input: &str, total: usize) -> (r: GotoOutcome)
    ensures
        input@.len() == 0 ==> (r matches GotoOutcome::Stay { message } && message@
            == "Enter a row number"@),
        input@.len() > 0 ==> match parse_usize_spec(input@) {
            None => r matches GotoOutcome::Stay { message } && message@ == "Invalid row number"@,
            Some(n) => if n >= 1 && (total == 0 || n <= total) {
                r matches GotoOutcome::Jump { row, message } && row == n - 1
                    && message@ == jumped_message(n)
            } else {
                r matches GotoOutcome::Stay { message } && message@ == range_message(total as nat)
            },
        },
{
    if input.is_empty() {
        let mut m = String::new();
        push_str(&mut m, "Enter a row number");
        assert(m@ =~= "Enter a row number"@);
        return GotoOutcome::Stay { message: m };
    }
    match parse_usize(input) {
        None => {
            let mut m = String::new();
            push_str(&mut m, "Invalid row number");
            assert(m@ =~= "Invalid row number"@);
            GotoOutcome::Stay { message: m }
        },
        Some(n) => {
            if n >= 1 && (total == 0 || n <= total) {
                let mut m = String::new();
                push_str(&mut m, "Jumped to row ");
                push_decimal(&mut m, n);
                assert(m@ =~= jumped_message(n as nat));
                GotoOutcome::Jump { row: n - 1, message: m }
            } else {
                let mut m = String::new();
                push_str(&mut m, "Row must be between 1 and ");
                push_decimal(&mut m, total);
                assert(m@ =~= range_message(total as nat));
                GotoOutcome::Stay { message: m }
            }
        },
    }
}

/// What pressing Enter in an input prompt does.
pub enum EnterOutcome {
    /// Apply the filter (its `$` references already expanded).
    Filter(String),
    /// Start a search for the text.
    Search(String),
    /// Jump to a row, show the message and leave the prompt.
    Jump { row: usize, message: String },
    /// Show the message and stay in the prompt.
    Stay(String),
    /// Nothing to do but leave the prompt.
    Leave,
}

/// Decide what Enter does in a prompt of the given kind with the given text.
pub fn input_enter(variant: InputVariant, text: &str, total_rows: usize) -> (r: EnterOutcome)
    ensures
        text@.len() == 0 && variant != InputVariant::GoToRow ==> r is Leave,
        text@.len() > 0 && variant == InputVariant::Filter ==> (r matches EnterOutcome::Filter(f)
            && f@ == expand_from(text@, 0)),
        text@.len() > 0 && variant == InputVariant::Search ==> (r matches EnterOutcome::Search(t)
            && t@ == text@),
        variant == InputVariant::GoToRow ==> match goto_row_spec(text@, total_rows as nat) {
            (Some(row), m) => r matches EnterOutcome::Jump { row: rr, message } && rr == row
                && message@ == m,
            (None, m) => r matches EnterOutcome::Stay(message) && message@ == m,
        },
{
    match variant {
        InputVariant::GoToRow => match goto_row(text, total_rows) {
            GotoOutcome::Jump { row, message } => EnterOutcome::Jump { row, message },
            GotoOutcome::Stay { message } => EnterOutcome::Stay(message),
        },
        InputVariant::Filter => {
            if text.is_empty() {
                EnterOutcome::Leave
            } else {
                EnterOutcome::Filter(expand_dollar_refs(text))
            }
        },
        InputVariant::Search => {
            if text.is_empty() {
                EnterOutcome::Leave
            } else {
                EnterOutcome::Search(text.to_owned())
            }
        },
    }
}

/// The row (if any) and the message of a go-to prompt, as `goto_row` decides.
pub open spec fn goto_row_spec(input: Seq<char>, total: nat) -> (Option<nat>, Seq<char>) {
    if input.len() == 0 {
        (None, "Enter a row number"@)
    } else {
        match parse_usize_spec(input) {
            None => (None, "Invalid row number"@),
            Some(n) => if n >= 1 && (total == 0 || n <= total) {
                (Some((n - 1) as nat), jumped_message(n))
            } else {
                (None, range_message(total))
            },
        }
    }
}

} // verus!
