//! Character-level string helpers shared by the library: building
//! `String`s from characters, decimal rendering of integers, and the
//! case conversions and trimming that std provides.
use vstd::prelude::*;

verus! {

/// Appends one character to a string (`String::push`).
#[verifier::external_body]
pub(crate) fn push_char(s: &mut String, c: char)
    ensures
        final(s)@ == old(s)@.push(c),
{
    s.push(c);
}

/// Appends a string slice to a string (`String::push_str`).
#[verifier::external_body]
pub(crate) fn push_str(s: &mut String, t: &str)
    ensures
        final(s)@ == old(s)@ + t@,
{
    s.push_str(t);
}

/// The character sequences of a list of strings.
pub open spec fn strings_view(v: Seq<String>) -> Seq<Seq<char>> {
    v.map_values(|s: String| s@)
}

/// The characters of a string slice, in order.
pub fn chars_of(s: &str) -> (r: Vec<char>)
    ensures
        r@ == s@,
{
    let mut r: Vec<char> = Vec::new();
    for c in it: s.chars()
        invariant
            r@ == it.seq().take(it.index() as int),
    {
        r.push(c);
    }
    r
}

/// A string holding exactly the characters `cs[lo..hi]`.
pub fn string_from_range(cs: &Vec<char>, lo: usize, hi: usize) -> (r: String)
    requires
        lo <= hi <= cs@.len(),
    ensures
        r@ == cs@.subrange(lo as int, hi as int),
{
    let mut r = String::new();
    let mut i = lo;
    while i < hi
        invariant
            lo <= i <= hi <= cs@.len(),
            r@ == cs@.subrange(lo as int, i as int),
        decreases hi - i,
    {
        push_char(&mut r, cs[i]);
        i += 1;
    }
    r
}

/// The decimal digit character for `d`.
pub open spec fn digit_char(d: nat) -> char {
    if d == 0 { '0' }
    else if d == 1 { '1' }
    else if d == 2 { '2' }
    else if d == 3 { '3' }
    else if d == 4 { '4' }
    else if d == 5 { '5' }
    else if d == 6 { '6' }
    else if d == 7 { '7' }
    else if d == 8 { '8' }
    else { '9' }
}

/// The decimal rendering of `n`, without leading zeros (as `{}` formats it).
pub open spec fn decimal(n: nat) -> Seq<char>
    decreases n,
{
    if n < 10 {
        seq![digit_char(n)]
    } else {
        decimal(n / 10).push(digit_char(n % 10))
    }
}

fn digit_to_char(d: usize) -> (c: char)
    requires
        d < 10,
    ensures
        c == digit_char(d as nat),
{
    if d == 0 { '0' }
    else if d == 1 { '1' }
    else if d == 2 { '2' }
    else if d == 3 { '3' }
    else if d == 4 { '4' }
    else if d == 5 { '5' }
    else if d == 6 { '6' }
    else if d == 7 { '7' }
    else if d == 8 { '8' }
    else { '9' }
}

/// Appends the decimal rendering of `n` to `s`.
pub fn push_decimal(s: &mut String, n: usize)
    ensures
        final(s)@ == old(s)@ + decimal(n as nat),
    decreases n,
{
    if n < 10 {
        push_char(s, digit_to_char(n));
    } else {
        push_decimal(s, n / 10);
        push_char(s, digit_to_char(n % 10));
    }
}

/// What `str::to_lowercase` returns for a string.
pub uninterp spec fn unicode_lower(s: Seq<char>) -> Seq<char>;

/// What `str::to_uppercase` returns for a string.
pub uninterp spec fn unicode_upper(s: Seq<char>) -> Seq<char>;

/// A character of the Unicode `White_Space` property, the white space that
/// `str::trim` and its kin strip (and `char::is_whitespace` accepts).
pub open spec fn is_white_space(c: char) -> bool {
    let u = c as u32;
    ||| 0x9 <= u <= 0xD
    ||| u == 0x20
    ||| u == 0x85
    ||| u == 0xA0
    ||| u == 0x1680
    ||| 0x2000 <= u <= 0x200A
    ||| u == 0x2028
    ||| u == 0x2029
    ||| u == 0x202F
    ||| u == 0x205F
    ||| u == 0x3000
}

/// `s` without its leading white space (what `str::trim_start` returns).
pub open spec fn unicode_trim_start(s: Seq<char>) -> Seq<char>
    decreases s.len(),
{
    if s.len() > 0 && is_white_space(s[0]) {
        unicode_trim_start(s.drop_first())
    } else {
        s
    }
}

/// `s` without its trailing white space (what `str::trim_end` returns).
pub open spec fn unicode_trim_end(s: Seq<char>) -> Seq<char>
    decreases s.len(),
{
    if s.len() > 0 && is_white_space(s.last()) {
        unicode_trim_end(s.drop_last())
    } else {
        s
    }
}

/// `s` without leading and trailing white space (what `str::trim` returns).
pub open spec fn unicode_trim(s: Seq<char>) -> Seq<char> {
    unicode_trim_end(unicode_trim_start(s))
}

/// ASCII lower-casing of one character (what `char::to_ascii_lowercase` does).
pub open spec fn ascii_lower_char(c: char) -> char {
    if 'A' <= c <= 'Z' { ((c as u32) + 32) as char } else { c }
}

/// ASCII upper-casing of one character (what `char::to_ascii_uppercase` does).
pub open spec fn ascii_upper_char(c: char) -> char {
    if 'a' <= c <= 'z' { ((c as u32) - 32) as char } else { c }
}

/// Every character is ASCII.
pub open spec fn all_ascii(s: Seq<char>) -> bool {
    forall|i: int| 0 <= i < s.len() ==> (s[i] as u32) < 128
}

/// `str::to_lowercase`. Its documentation fixes the result as the Unicode
/// lowercase mapping of each character; the contract names that result and
/// states the part of it that is plain to read: on ASCII input each
/// character is mapped as `to_ascii_lowercase` maps it.
#[verifier::external_body]
pub(crate) fn to_lower(s: &str) -> (r: String)
    ensures
        r@ == unicode_lower(s@),
        all_ascii(s@) ==> r@ == s@.map_values(|c: char| ascii_lower_char(c)),
{
    s.to_lowercase()
}

/// `str::to_uppercase`. Like `to_lower`: the result is named, and on ASCII
/// input each character is mapped as `to_ascii_uppercase` maps it.
#[verifier::external_body]
pub(crate) fn to_upper(s: &str) -> (r: String)
    ensures
        r@ == unicode_upper(s@),
        all_ascii(s@) ==> r@ == s@.map_values(|c: char| ascii_upper_char(c)),
{
    s.to_uppercase()
}

/// `str::trim`: the slice without leading and trailing white space, white
/// space being the characters of the Unicode `White_Space` property, as std
/// documents it.
#[verifier::external_body]
pub(crate) fn trim(s: &str) -> (r: &str)
    ensures
        r@ == unicode_trim(s@),
{
    s.trim()
}

/// `a` occurs in `s` starting at character `i`.
pub open spec fn occurs_at(s: Seq<char>, a: Seq<char>, i: int) -> bool {
    0 <= i && i + a.len() <= s.len() && s.subrange(i, i + a.len()) == a
}

/// The first character index at which `a` occurs in `s` (`str::find`, by characters).
pub open spec fn find_spec(s: Seq<char>, a: Seq<char>) -> Option<int> {
    if exists|i: int| occurs_at(s, a, i) {
        Some(choose|i: int| occurs_at(s, a, i) && forall|j: int| 0 <= j < i ==> !occurs_at(s, a, j))
    } else {
        None
    }
}

/// What `find_spec` finds is an occurrence.
pub proof fn lemma_find_spec_occurs(s: Seq<char>, a: Seq<char>)
    ensures
        find_spec(s, a) matches Some(i) ==> occurs_at(s, a, i) && 0 <= i && i + a.len() <= s.len(),
{
    if exists|i: int| occurs_at(s, a, i) {
        let w = choose|i: int| occurs_at(s, a, i) && forall|j: int| 0 <= j < i ==> !occurs_at(s, a, j);
        lemma_first_occurrence_exists(s, a);
        assert(occurs_at(s, a, w));
    }
}

/// When `a` occurs in `s`, it has a first occurrence.
pub proof fn lemma_first_occurrence_exists(s: Seq<char>, a: Seq<char>)
    requires
        exists|i: int| occurs_at(s, a, i),
    ensures
        exists|i: int| occurs_at(s, a, i) && forall|j: int| 0 <= j < i ==> !occurs_at(s, a, j),
{
    let i0 = choose|i: int| occurs_at(s, a, i);
    let f = |i: int| occurs_at(s, a, i);
    lemma_least(f, i0, i0);
    let w = choose|i: int| 0 <= i && #[trigger] f(i) && forall|j: int| 0 <= j < i ==> !#[trigger] f(j);
    assert(occurs_at(s, a, w) && forall|j: int| 0 <= j < w ==> !occurs_at(s, a, j)) by {
        assert forall|j: int| 0 <= j < w implies !occurs_at(s, a, j) by {
            assert(!f(j));
        }
    }
}

/// A property that holds somewhere from 0 on holds at a least such place.
pub proof fn lemma_least(f: spec_fn(int) -> bool, i0: int, k: int)
    requires
        0 <= i0,
        f(i0),
        0 <= k <= i0,
        forall|j: int| k < j < i0 ==> !#[trigger] f(j),
    ensures
        exists|i: int| 0 <= i && #[trigger] f(i) && forall|j: int| 0 <= j < i ==> !#[trigger] f(j),
    decreases i0, k,
{
    if forall|j: int| 0 <= j < i0 ==> !#[trigger] f(j) {
        assert(0 <= i0 && f(i0) && forall|j: int| 0 <= j < i0 ==> !#[trigger] f(j));
    } else if f(k) && k < i0 {
        lemma_least(f, k, k);
    } else if k > 0 {
        lemma_least(f, i0, k - 1);
    } else {
        let j = choose|j: int| 0 <= j < i0 && #[trigger] f(j);
        assert(false);
    }
}

/// `find_spec` picks the first occurrence.
pub proof fn lemma_find_spec_first(s: Seq<char>, a: Seq<char>, i: int)
    requires
        occurs_at(s, a, i),
        forall|j: int| 0 <= j < i ==> !occurs_at(s, a, j),
    ensures
        find_spec(s, a) == Some(i),
{
    let w = choose|w: int| occurs_at(s, a, w) && forall|j: int| 0 <= j < w ==> !occurs_at(s, a, j);
    assert(occurs_at(s, a, w) && forall|j: int| 0 <= j < w ==> !occurs_at(s, a, j));
    if w < i {
        assert(!occurs_at(s, a, w));
    }
    if w > i {
        assert(!occurs_at(s, a, i));
    }
}

/// Whether `a` occurs in `s` at character `i` (checks character by character).
pub fn matches_at(s: &Vec<char>, a: &Vec<char>, i: usize) -> (r: bool)
    ensures
        r == occurs_at(s@, a@, i as int),
{
    if i > s.len() || a.len() > s.len() - i {
        return false;
    }
    let mut k: usize = 0;
    while k < a.len()
        invariant
            i <= s@.len(),
            i + a@.len() <= s@.len(),
            k <= a@.len(),
            forall|m: int| 0 <= m < k ==> s@[i + m] == a@[m],
        decreases a.len() - k,
    {
        assert(i + k < s.len());
        if s[i + k] != a[k] {
            assert(s@.subrange(i as int, i + a@.len())[k as int] != a@[k as int]);
            return false;
        }
        k += 1;
    }
    assert(s@.subrange(i as int, i + a@.len()) =~= a@);
    true
}

/// The first character index of `a` in `s`, or `None` (`str::find`, by characters).
pub fn find_chars(s: &Vec<char>, a: &Vec<char>) -> (r: Option<usize>)
    ensures
        match r {
            Some(i) => find_spec(s@, a@) == Some(i as int) && occurs_at(s@, a@, i as int),
            None => find_spec(s@, a@) is None,
        },
{
    if a.len() > s.len() {
        assert forall|j: int| !occurs_at(s@, a@, j) by {}
        return None;
    }
    let last = s.len() - a.len();
    let mut i: usize = 0;
    while i < last
        invariant
            last == s@.len() - a@.len(),
            i <= last,
            forall|j: int| 0 <= j < i ==> !occurs_at(s@, a@, j),
        decreases last - i,
    {
        if matches_at(s, a, i) {
            proof {
                lemma_find_spec_first(s@, a@, i as int);
            }
            return Some(i);
        }
        i += 1;
    }
    if matches_at(s, a, last) {
        proof {
            lemma_find_spec_first(s@, a@, last as int);
        }
        return Some(last);
    }
    assert forall|j: int| !occurs_at(s@, a@, j) by {
        if 0 <= j && j < i {
        }
    }
    None
}

/// UTF-8 encoding distributes over concatenation.
pub proof fn lemma_encode_concat(a: Seq<char>, b: Seq<char>)
    ensures
        vstd::utf8::encode_utf8(a + b) == vstd::utf8::encode_utf8(a) + vstd::utf8::encode_utf8(b),
    decreases a.len(),
{
    if a.len() == 0 {
        assert(a + b =~= b);
        assert(vstd::utf8::encode_utf8(a) =~= Seq::<u8>::empty());
        assert(Seq::<u8>::empty() + vstd::utf8::encode_utf8(b) =~= vstd::utf8::encode_utf8(b));
    } else {
        lemma_encode_concat(a.drop_first(), b);
        assert((a + b).drop_first() =~= a.drop_first() + b);
        assert((a + b)[0] == a[0]);
        let e0 = vstd::utf8::encode_scalar(a[0] as u32);
        assert(vstd::utf8::encode_utf8(a + b) == e0 + vstd::utf8::encode_utf8(a.drop_first() + b));
        assert(e0 + (vstd::utf8::encode_utf8(a.drop_first()) + vstd::utf8::encode_utf8(b))
            =~= (e0 + vstd::utf8::encode_utf8(a.drop_first())) + vstd::utf8::encode_utf8(b));
    }
}

/// Number of UTF-8 bytes of the first `k` characters of `s`.
pub open spec fn byte_offset_spec(s: Seq<char>, k: int) -> nat {
    vstd::utf8::encode_utf8(s.take(k)).len()
}

/// The byte length of one character's UTF-8 encoding (`char::len_utf8`).
pub fn char_utf8_len(c: char) -> (r: usize)
    ensures
        r == vstd::utf8::encode_scalar(c as u32).len(),
        1 <= r <= 4,
{
    let v = c as u32;
    if v < 0x80 {
        1
    } else if v < 0x800 {
        2
    } else if v < 0x10000 {
        proof { assert(!(0xD800 <= v <= 0xDFFF)) by { vstd::utf8::char_is_scalar(c); } }
        3
    } else {
        4
    }
}

/// Extending a prefix by one character adds that character's encoding length.
pub proof fn lemma_byte_offset_step(s: Seq<char>, k: int)
    requires
        0 <= k < s.len(),
    ensures
        byte_offset_spec(s, k + 1) == byte_offset_spec(s, k) + vstd::utf8::encode_scalar(s[k] as u32).len(),
        byte_offset_spec(s, k + 1) <= vstd::utf8::encode_utf8(s).len(),
{
    assert(s.take(k + 1) =~= s.take(k) + seq![s[k]]);
    lemma_encode_concat(s.take(k), seq![s[k]]);
    let one = seq![s[k]];
    assert(one.drop_first() =~= Seq::<char>::empty());
    assert(vstd::utf8::encode_utf8(Seq::<char>::empty()) =~= Seq::<u8>::empty());
    assert(vstd::utf8::encode_utf8(one) == vstd::utf8::encode_scalar(one[0] as u32) + vstd::utf8::encode_utf8(one.drop_first()));
    assert(vstd::utf8::encode_utf8(one) =~= vstd::utf8::encode_scalar(s[k] as u32));
    assert(s =~= s.take(k + 1) + s.skip(k + 1));
    lemma_encode_concat(s.take(k + 1), s.skip(k + 1));
}

/// Byte offset of the `k`-th character of `s` (the string's length when `k`
/// is past the end), as `char_indices().nth(k)` finds it.
pub fn byte_offset(s: &str, k: usize) -> (r: usize)
    ensures
        r == byte_offset_spec(s@, if k < s@.len() { k as int } else { s@.len() as int }),
{
    let bytes = s.as_bytes();
    let total = bytes.len();
    let mut pos: usize = 0;
    let mut i: usize = 0;
    let ghost sv = s@;
    proof { assert(sv.take(0) =~= Seq::<char>::empty()); }
    for c in it: s.chars()
        invariant
            sv == s@,
            it.seq() == sv,
            i == it.index(),
            i <= sv.len(),
            total == vstd::utf8::encode_utf8(sv).len(),
            i <= k,
            pos == byte_offset_spec(sv, i as int),
    {
        if i == k {
            return pos;
        }
        proof { lemma_byte_offset_step(sv, i as int); }
        let l = char_utf8_len(c);
        pos = pos + l;
        i = i + 1;
    }
    assert(sv.take(sv.len() as int) =~= sv);
    pos
}

/// Number of characters of a string slice (`chars().count()`).
pub fn char_count(s: &str) -> (r: usize)
    ensures
        r == s@.len(),
{
    chars_of(s).len()
}

/// The parts joined with `sep` between neighbours.
pub open spec fn join_with(parts: Seq<Seq<char>>, sep: Seq<char>) -> Seq<char>
    decreases parts.len(),
{
    if parts.len() == 0 {
        Seq::empty()
    } else if parts.len() == 1 {
        parts[0]
    } else {
        join_with(parts.drop_last(), sep) + sep + parts.last()
    }
}

/// `parts.join(sep)`.
pub fn join_strings(parts: &Vec<String>, sep: &str) -> (r: String)
    ensures
        r@ == join_with(strings_view(parts@), sep@),
{
    let ghost v = strings_view(parts@);
    let mut out = String::new();
    let mut i: usize = 0;
    while i < parts.len()
        invariant
            i <= parts@.len(),
            v == strings_view(parts@),
            out@ == join_with(v.take(i as int), sep@),
        decreases parts@.len() - i,
    {
        proof {
            assert(v.take(i + 1).drop_last() =~= v.take(i as int));
            assert(v.take(i + 1).last() == parts@[i as int]@);
        }
        if i > 0 {
            push_str(&mut out, sep);
        }
        push_str(&mut out, parts[i].as_str());
        proof {
            if i == 0 {
                assert(out@ =~= join_with(v.take(1), sep@));
            }
        }
        i += 1;
    }
    assert(v.take(parts@.len() as int) =~= v);
    out
}

/// `"name"`: a name in double quotes.
pub open spec fn quoted(name: Seq<char>) -> Seq<char> {
    seq!['"'] + name + seq!['"']
}

/// Appends `"t"` to `s`.
pub fn push_quoted(s: &mut String, t: &str)
    ensures
        final(s)@ == old(s)@ + quoted(t@),
{
    push_char(s, '"');
    push_str(s, t);
    push_char(s, '"');
    assert(final(s)@ =~= old(s)@ + quoted(t@));
}

/// The character index of `s` that starts at byte `b`, if `b` falls on a
/// character boundary (from character `c` on).
pub open spec fn boundary_index(s: Seq<char>, b: int, c: int) -> Option<int>
    decreases s.len() - c,
{
    if c < 0 || c > s.len() {
        None
    } else if byte_offset_spec(s, c) == b {
        Some(c)
    } else if c == s.len() {
        None
    } else {
        boundary_index(s, b, c + 1)
    }
}

/// The character index at byte `b` of `s`, if `b` is a character boundary.
pub fn char_index_at_byte(s: &Vec<char>, b: usize) -> (r: Option<usize>)
    ensures
        match boundary_index(s@, b as int, 0) {
            Some(c) => r == Some(c as usize),
            None => r is None,
        },
{
    let mut c: usize = 0;
    let mut pos: usize = 0;
    proof { assert(s@.take(0) =~= Seq::<char>::empty()); }
    while c < s.len()
        invariant
            c <= s@.len(),
            pos == byte_offset_spec(s@, c as int),
            boundary_index(s@, b as int, 0) == boundary_index(s@, b as int, c as int),
        decreases s@.len() - c,
    {
        if pos == b {
            return Some(c);
        }
        proof {
            lemma_byte_offset_step(s@, c as int);
            assert(s@.take(c + 1) + s@.skip(c + 1) =~= s@);
            lemma_encode_concat(s@.take(c + 1), s@.skip(c + 1));
        }
        let l = char_utf8_len(s[c]);
        if pos > b || l > b - pos {
            proof { lemma_no_boundary_after(s@, b as int, c as int + 1); }
            return None;
        }
        pos = pos + l;
        c += 1;
    }
    if pos == b {
        Some(c)
    } else {
        None
    }
}

/// Byte offsets grow with the character index.
pub proof fn lemma_offsets_grow(s: Seq<char>, c: int, d: int)
    requires
        0 <= c <= d <= s.len(),
    ensures
        byte_offset_spec(s, c) <= byte_offset_spec(s, d),
        c < d ==> byte_offset_spec(s, c) < byte_offset_spec(s, d),
    decreases d - c,
{
    if c < d {
        lemma_offsets_grow(s, c, d - 1);
        lemma_byte_offset_step(s, d - 1);
        vstd::utf8::char_is_scalar(s[d - 1]);
    }
}

/// Once the offsets have passed `b`, no later character starts at `b`.
pub proof fn lemma_no_boundary_after(s: Seq<char>, b: int, c: int)
    requires
        0 <= c <= s.len(),
        byte_offset_spec(s, c) > b,
    ensures
        boundary_index(s, b, c) is None,
    decreases s.len() - c,
{
    if c < s.len() {
        lemma_offsets_grow(s, c, c + 1);
        lemma_no_boundary_after(s, b, c + 1);
    }
}

/// A boundary index lies within the text.
pub proof fn lemma_boundary_in(s: Seq<char>, b: int, c: int)
    requires
        0 <= c,
    ensures
        boundary_index(s, b, c) matches Some(x) ==> c <= x <= s.len(),
    decreases s.len() - c,
{
    if c < s.len() && byte_offset_spec(s, c) != b {
        lemma_boundary_in(s, b, c + 1);
    }
}

} // verus!
