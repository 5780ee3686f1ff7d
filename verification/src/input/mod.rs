//! Cursor-based single-line text editing, input history and autocomplete.
use vstd::prelude::*;

use crate::text::{byte_offset, byte_offset_spec, char_count, chars_of, push_char};

pub mod autocomplete;
pub mod history;

verus! {

/// `k` clamped to the length `len`.
pub open spec fn clamp(k: int, len: int) -> int {
    if k < len { k } else { len }
}

/// The text after inserting `c` before character `k` (at the end when `k` is past it).
pub open spec fn insert_spec(s: Seq<char>, k: int, c: char) -> Seq<char> {
    s.take(clamp(k, s.len() as int)).push(c) + s.skip(clamp(k, s.len() as int))
}

/// A new string: `s` with `c` inserted before character `k` (at the end when `k` is past it).
pub(crate) fn insert_char_at(s: &str, k: usize, c: char) -> (r: String)
    ensures
        r@ == insert_spec(s@, k as int, c),
{
    let cs = chars_of(s);
    let stop = if k < cs.len() { k } else { cs.len() };
    let mut r = String::new();
    let mut i: usize = 0;
    while i < stop
        invariant
            cs@ == s@,
            stop == clamp(k as int, s@.len() as int),
            i <= stop,
            r@ == s@.take(i as int),
        decreases stop - i,
    {
        push_char(&mut r, cs[i]);
        i += 1;
        assert(r@ =~= s@.take(i as int));
    }
    push_char(&mut r, c);
    let mut j: usize = stop;
    while j < cs.len()
        invariant
            cs@ == s@,
            stop == clamp(k as int, s@.len() as int),
            stop <= j <= s@.len(),
            r@ == s@.take(stop as int).push(c) + s@.subrange(stop as int, j as int),
        decreases cs.len() - j,
    {
        push_char(&mut r, cs[j]);
        j += 1;
        assert(r@ =~= s@.take(stop as int).push(c) + s@.subrange(stop as int, j as int));
    }
    assert(s@.subrange(stop as int, s@.len() as int) =~= s@.skip(stop as int));
    r
}

/// A new string: `s` without its character at index `k`.
pub(crate) fn remove_char_at(s: &str, k: usize) -> (r: String)
    requires
        k < s@.len(),
    ensures
        r@ == s@.remove(k as int),
{
    let cs = chars_of(s);
    let mut r = String::new();
    let mut i: usize = 0;
    while i < cs.len()
        invariant
            cs@ == s@,
            k < s@.len(),
            i <= s@.len(),
            r@ == if i <= k { s@.take(i as int) } else { s@.take(i as int).remove(k as int) },
        decreases cs.len() - i,
    {
        if i != k {
            push_char(&mut r, cs[i]);
        }
        proof {
            if i < k {
                assert(r@ =~= s@.take(i + 1));
            } else if i == k {
                assert(s@.take(i + 1).remove(k as int) =~= s@.take(i as int));
            } else {
                assert(r@ =~= s@.take(i + 1).remove(k as int));
            }
        }
        i += 1;
    }
    assert(s@.take(s@.len() as int) =~= s@);
    r
}

/// How a text input restricts what may be typed.
#[derive(Debug, Clone, Copy, PartialEq, Eq, Structural)]
pub enum CharFilter {
    /// Only the ASCII digits `0`..`9` are accepted.
    AsciiDigit,
}

/// Whether a filter lets `c` through.
pub open spec fn filter_accepts(f: Option<CharFilter>, c: char) -> bool {
    match f {
        None => true,
        Some(CharFilter::AsciiDigit) => '0' <= c <= '9',
    }
}

/// Reusable cursor-based text input with optional character filtering.
pub struct TextInput {
    pub input: String,
    /// Cursor position, counted in characters.
    pub cursor_pos: usize,
    pub char_filter: Option<CharFilter>,
}

impl TextInput {
    /// The cursor stands within the text or just after it.
    pub open spec fn wf(&self) -> bool {
        self.cursor_pos <= self.input@.len()
    }

    pub fn new() -> (r: Self)
        ensures
            r.input@ == Seq::<char>::empty(),
            r.cursor_pos == 0,
            r.char_filter is None,
    {
        TextInput { input: String::new(), cursor_pos: 0, char_filter: None }
    }

    pub fn with_char_filter(filter: CharFilter) -> (r: Self)
        ensures
            r.input@ == Seq::<char>::empty(),
            r.cursor_pos == 0,
            r.char_filter == Some(filter),
    {
        TextInput { input: String::new(), cursor_pos: 0, char_filter: Some(filter) }
    }

    /// Byte offset in `input` corresponding to `cursor_pos` (char index).
    pub fn cursor_byte_pos(&self) -> (r: usize)
        ensures
            r == byte_offset_spec(self.input@, clamp(self.cursor_pos as int, self.input@.len() as int)),
    {
        byte_offset(self.input.as_str(), self.cursor_pos)
    }

    /// Insert `c` at the cursor and move the cursor past it, unless the
    /// filter refuses the character.
    pub fn insert_char(&mut self, c: char)
        requires
            old(self).wf() || old(self).cursor_pos < usize::MAX,
        ensures
            filter_accepts(old(self).char_filter, c) ==> {
                &&& final(self).input@ == insert_spec(old(self).input@, old(self).cursor_pos as int, c)
                &&& final(self).cursor_pos == old(self).cursor_pos + 1
            },
            !filter_accepts(old(self).char_filter, c) ==> {
                &&& final(self).input@ == old(self).input@
                &&& final(self).cursor_pos == old(self).cursor_pos
            },
            final(self).char_filter == old(self).char_filter,
    {
        if let Some(filter) = self.char_filter {
            match filter {
                CharFilter::AsciiDigit => {
                    if !('0' <= c && c <= '9') {
                        return;
                    }
                }
            }
        }
        let grown = insert_char_at(self.input.as_str(), self.cursor_pos, c);
        // The grown text's length is itself a `usize`, so a cursor within the
        // text has room to step past the new character.
        let grown_len = char_count(grown.as_str());
        assert(self.cursor_pos < usize::MAX) by {
            if self.cursor_pos <= self.input@.len() {
                assert(grown_len == self.input@.len() + 1);
            }
        }
        self.input = grown;
        self.cursor_pos = self.cursor_pos + 1;
    }

    /// Delete the character before the cursor. Returns `true` if anything was removed.
    pub fn delete_before_cursor(&mut self) -> (r: bool)
        requires
            old(self).wf(),
        ensures
            r == (old(self).cursor_pos > 0),
            r ==> final(self).input@ == old(self).input@.remove(old(self).cursor_pos - 1),
            r ==> final(self).cursor_pos == old(self).cursor_pos - 1,
            !r ==> final(self).input@ == old(self).input@ && final(self).cursor_pos == 0,
            final(self).char_filter == old(self).char_filter,
            final(self).wf(),
    {
        if self.cursor_pos == 0 {
            return false;
        }
        self.cursor_pos = self.cursor_pos - 1;
        self.input = remove_char_at(self.input.as_str(), self.cursor_pos);
        true
    }

    pub fn move_cursor_left(&mut self)
        ensures
            final(self).cursor_pos == if old(self).cursor_pos > 0 { old(self).cursor_pos - 1 } else { 0 },
            final(self).input@ == old(self).input@,
            final(self).char_filter == old(self).char_filter,
    {
        self.cursor_pos = self.cursor_pos.saturating_sub(1);
    }

    pub fn move_cursor_right(&mut self)
        ensures
            final(self).cursor_pos == if old(self).cursor_pos < old(self).input@.len() {
                old(self).cursor_pos + 1
            } else {
                old(self).cursor_pos as int
            },
            final(self).input@ == old(self).input@,
            final(self).char_filter == old(self).char_filter,
    {
        let len = char_count(self.input.as_str());
        if self.cursor_pos < len {
            self.cursor_pos = self.cursor_pos + 1;
        }
    }

    pub fn move_cursor_to_start(&mut self)
        ensures
            final(self).cursor_pos == 0,
            final(self).input@ == old(self).input@,
            final(self).char_filter == old(self).char_filter,
    {
        self.cursor_pos = 0;
    }

    pub fn move_cursor_to_end(&mut self)
        ensures
            final(self).cursor_pos == old(self).input@.len(),
            final(self).input@ == old(self).input@,
            final(self).char_filter == old(self).char_filter,
    {
        self.cursor_pos = char_count(self.input.as_str());
    }

    pub fn clear(&mut self)
        ensures
            final(self).input@ == Seq::<char>::empty(),
            final(self).cursor_pos == 0,
            final(self).char_filter == old(self).char_filter,
    {
        self.input = String::new();
        self.cursor_pos = 0;
    }

    /// Replace the text and put the cursor at its end.
    pub fn set(&mut self, text: &str)
        ensures
            final(self).input@ == text@,
            final(self).cursor_pos == text@.len(),
            final(self).char_filter == old(self).char_filter,
    {
        self.input = text.to_owned();
        self.cursor_pos = char_count(text);
    }

    pub fn is_empty(&self) -> (r: bool)
        ensures
            r == (self.input@.len() == 0),
    {
        self.input.as_str().is_empty()
    }
}

/// Law: on a text with the cursor inside it or at its end, typing a character
/// the filter lets through and then deleting before the cursor gives back the
/// text and cursor one started with, and the delete reports a removal.
pub proof fn law_type_then_delete_restores(a: TextInput, b: TextInput, c: TextInput, ch: char, removed: bool)
    requires
        a.wf(),
        filter_accepts(a.char_filter, ch),
        b.input@ == insert_spec(a.input@, a.cursor_pos as int, ch),
        b.cursor_pos == a.cursor_pos + 1,
        removed == (b.cursor_pos > 0),
        removed ==> c.input@ == b.input@.remove(b.cursor_pos - 1),
        removed ==> c.cursor_pos == b.cursor_pos - 1,
    ensures
        removed,
        c.input@ == a.input@,
        c.cursor_pos == a.cursor_pos,
{
    law_insert_then_delete_restores(a.input@, a.cursor_pos as int, ch);
}

/// Law: inserting a character at the cursor and deleting the character
/// before the cursor gives back the text and cursor one started with.
pub proof fn law_insert_then_delete_restores(s: Seq<char>, k: int, c: char)
    requires
        0 <= k <= s.len(),
    ensures
        insert_spec(s, k, c).remove(k) == s,
        insert_spec(s, k, c).len() == s.len() + 1,
{
    assert(clamp(k, s.len() as int) == k);
    assert(insert_spec(s, k, c).remove(k) =~= s);
}

} // verus!
