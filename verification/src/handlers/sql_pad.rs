//! The SQL scratchpad: a small multi-line editor (at most five lines) whose
//! text is sent to the query engine.
use vstd::prelude::*;

use crate::handlers::keys::Key;
use crate::text::{
    boundary_index, char_index_at_byte, chars_of, join_strings, join_with, lemma_boundary_in,
    push_char, push_str, string_from_range, strings_view, trim, unicode_trim,
};

verus! {

/// The most lines the scratchpad holds.
pub const MAX_SQL_LINES: usize = 5;

/// What a key does in the scratchpad.
#[derive(Debug, Clone, Copy, PartialEq, Eq, Structural)]
pub enum SqlCommand {
    Execute,
    ResultToTab,
    Newline,
    Leave,
    Backspace,
    Left,
    Right,
    Up,
    Down,
    Insert(char),
    Nothing,
}

/// The command of a key in the scratchpad (F5, Ctrl-e and Ctrl-Enter run
/// the text, Ctrl-t opens the result in a tab).
pub open spec fn sql_command_spec(key: Key, ctrl: bool) -> SqlCommand {
    match key {
        Key::F(n) => if n == 5 { SqlCommand::Execute } else { SqlCommand::Nothing },
        Key::Char(c) => if ctrl && c == 'e' {
            SqlCommand::Execute
        } else if ctrl && c == 't' {
            SqlCommand::ResultToTab
        } else {
            SqlCommand::Insert(c)
        },
        Key::Enter => if ctrl { SqlCommand::Execute } else { SqlCommand::Newline },
        Key::Esc => SqlCommand::Leave,
        Key::Backspace => SqlCommand::Backspace,
        Key::Left => SqlCommand::Left,
        Key::Right => SqlCommand::Right,
        Key::Up => SqlCommand::Up,
        Key::Down => SqlCommand::Down,
        _ => SqlCommand::Nothing,
    }
}

/// Map a key to its scratchpad command.
pub fn sql_command(key: Key, ctrl: bool) -> (r: SqlCommand)
    ensures
        r == sql_command_spec(key, ctrl),
{
    match key {
        Key::F(n) => if n == 5 { SqlCommand::Execute } else { SqlCommand::Nothing },
        Key::Char(c) => if ctrl && c == 'e' {
            SqlCommand::Execute
        } else if ctrl && c == 't' {
            SqlCommand::ResultToTab
        } else {
            SqlCommand::Insert(c)
        },
        Key::Enter => if ctrl { SqlCommand::Execute } else { SqlCommand::Newline },
        Key::Esc => SqlCommand::Leave,
        Key::Backspace => SqlCommand::Backspace,
        Key::Left => SqlCommand::Left,
        Key::Right => SqlCommand::Right,
        Key::Up => SqlCommand::Up,
        Key::Down => SqlCommand::Down,
        _ => SqlCommand::Nothing,
    }
}

/// The number of bytes of a line's UTF-8 encoding.
pub open spec fn byte_len(s: Seq<char>) -> nat {
    vstd::utf8::encode_utf8(s).len()
}

/// The character index at byte `b` of a line, if `b` is a boundary.
pub open spec fn char_at_byte(s: Seq<char>, b: int) -> Option<int> {
    boundary_index(s, b, 0)
}

/// The scratchpad's text and cursor. The cursor column counts bytes of the
/// cursor's line and moves by one per character.
pub struct SqlEditor {
    pub lines: Vec<String>,
    pub cursor_row: usize,
    pub cursor_col: usize,
}

/// The smaller of two integers.
pub open spec fn min_int(a: int, b: int) -> int {
    if a <= b { a } else { b }
}

/// What an editing command does to (lines, row, column).
pub open spec fn edit_spec(cmd: SqlCommand, lines: Seq<Seq<char>>, row: int, col: int) -> (Seq<Seq<char>>, int, int) {
    let line = lines[row];
    match cmd {
        SqlCommand::Newline => if lines.len() < MAX_SQL_LINES {
            match char_at_byte(line, col) {
                Some(c) => (lines.update(row, line.take(c)).insert(row + 1, line.skip(c)), row + 1, 0),
                None => (lines, row, col),
            }
        } else {
            (lines, row, col)
        },
        SqlCommand::Backspace => if col > 0 {
            match char_at_byte(line, col - 1) {
                Some(c) => (lines.update(row, line.remove(c)), row, col - 1),
                None => (lines, row, col),
            }
        } else if row > 0 {
            (lines.remove(row).update(row - 1, lines[row - 1] + line), row - 1, byte_len(lines[row - 1]) as int)
        } else {
            (lines, row, col)
        },
        SqlCommand::Left => if col > 0 {
            (lines, row, col - 1)
        } else if row > 0 {
            (lines, row - 1, byte_len(lines[row - 1]) as int)
        } else {
            (lines, row, col)
        },
        SqlCommand::Right => if col < byte_len(line) {
            (lines, row, col + 1)
        } else if row + 1 < lines.len() {
            (lines, row + 1, 0)
        } else {
            (lines, row, col)
        },
        SqlCommand::Up => if row > 0 {
            (lines, row - 1, min_int(col, byte_len(lines[row - 1]) as int))
        } else {
            (lines, row, col)
        },
        SqlCommand::Down => if row + 1 < lines.len() {
            (lines, row + 1, min_int(col, byte_len(lines[row + 1]) as int))
        } else {
            (lines, row, col)
        },
        SqlCommand::Insert(ch) => match char_at_byte(line, col) {
            Some(c) => (lines.update(row, line.take(c).push(ch) + line.skip(c)), row, col + 1),
            None => (lines, row, col),
        },
        _ => (lines, row, col),
    }
}

/// Where a command cuts the cursor's line, the cut falls on a character
/// boundary (elsewhere the edit has no meaning).
pub open spec fn edit_ok(cmd: SqlCommand, lines: Seq<Seq<char>>, row: int, col: int) -> bool {
    let line = lines[row];
    match cmd {
        SqlCommand::Newline => lines.len() < MAX_SQL_LINES ==> char_at_byte(line, col) is Some,
        SqlCommand::Backspace => col > 0 ==> (char_at_byte(line, col - 1) matches Some(c) && c < line.len()),
        SqlCommand::Insert(_) => char_at_byte(line, col) is Some,
        _ => true,
    }
}

impl SqlEditor {
    /// One empty line, cursor at its start.
    pub fn new() -> (r: Self)
        ensures
            strings_view(r.lines@) == seq![Seq::<char>::empty()],
            r.cursor_row == 0,
            r.cursor_col == 0,
            r.wf(),
    {
        let mut lines: Vec<String> = Vec::new();
        lines.push(String::new());
        assert(strings_view(lines@) =~= seq![Seq::<char>::empty()]);
        SqlEditor { lines, cursor_row: 0, cursor_col: 0 }
    }

    /// There is a line, and the cursor is on one.
    pub open spec fn wf(&self) -> bool {
        self.lines@.len() >= 1 && self.cursor_row < self.lines@.len()
    }

    /// The lines' characters.
    pub open spec fn text_lines(&self) -> Seq<Seq<char>> {
        strings_view(self.lines@)
    }

    /// Apply an editing command (the others change nothing here).
    pub fn edit(&mut self, cmd: SqlCommand)
        requires
            old(self).wf(),
            edit_ok(cmd, old(self).text_lines(), old(self).cursor_row as int, old(self).cursor_col as int),
            old(self).cursor_col < usize::MAX,
        ensures
            final(self).wf(),
            final(self).text_lines() == edit_spec(cmd, old(self).text_lines(), old(self).cursor_row as int, old(self).cursor_col as int).0,
            final(self).cursor_row == edit_spec(cmd, old(self).text_lines(), old(self).cursor_row as int, old(self).cursor_col as int).1,
            final(self).cursor_col == edit_spec(cmd, old(self).text_lines(), old(self).cursor_row as int, old(self).cursor_col as int).2,
    {
        let ghost v = self.text_lines();
        let row = self.cursor_row;
        let col = self.cursor_col;
        let count = self.lines.len();
        assert(v[row as int] == self.lines@[row as int]@);
        match cmd {
            SqlCommand::Newline => {
                if self.lines.len() < MAX_SQL_LINES {
                    let cs = chars_of(self.lines[row].as_str());
                    assert(cs@ == v[row as int]);
                    match char_index_at_byte(&cs, col) {
                        Some(c) => {
                            proof { lemma_boundary_in(cs@, col as int, 0); }
                            let kept = string_from_range(&cs, 0, c);
                            let rest = string_from_range(&cs, c, cs.len());
                            self.lines.set(row, kept);
                            self.lines.insert(row + 1, rest);
                            self.cursor_row = row + 1;
                            self.cursor_col = 0;
                            assert(cs@.subrange(0, c as int) =~= v[row as int].take(c as int));
                            assert(cs@.subrange(c as int, cs@.len() as int) =~= v[row as int].skip(c as int));
                            assert(self.text_lines() =~= v.update(row as int, v[row as int].take(c as int)).insert(row + 1, v[row as int].skip(c as int)));
                        },
                        None => {
                            assert((self.text_lines(), self.cursor_row as int, self.cursor_col as int)
                                == edit_spec(cmd, v, row as int, col as int));
                        },
                    }
                } else {
                    assert((self.text_lines(), self.cursor_row as int, self.cursor_col as int)
                        == edit_spec(cmd, v, row as int, col as int));
                }
            },
            SqlCommand::Backspace => {
                if col > 0 {
                    let cs = chars_of(self.lines[row].as_str());
                    assert(cs@ == v[row as int]);
                    proof { lemma_boundary_in(cs@, col - 1, 0); }
                    match char_index_at_byte(&cs, col - 1) {
                        Some(c) => {
                            let n = cs.len();
                            assert(c < n);
                            let mut nl = string_from_range(&cs, 0, c);
                            let tail = string_from_range(&cs, c + 1, cs.len());
                            push_str(&mut nl, tail.as_str());
                            assert(nl@ =~= v[row as int].remove(c as int));
                            self.lines.set(row, nl);
                            self.cursor_col = col - 1;
                            assert(self.text_lines() =~= v.update(row as int, v[row as int].remove(c as int)));
                        },
                        None => {},
                    }
                } else if row > 0 {
                    let current = self.lines.remove(row);
                    let prev_len = self.lines[row - 1].as_str().as_bytes().len();
                    let mut joined = self.lines[row - 1].as_str().to_owned();
                    push_str(&mut joined, current.as_str());
                    self.lines.set(row - 1, joined);
                    self.cursor_row = row - 1;
                    self.cursor_col = prev_len;
                    assert(self.text_lines() =~= v.remove(row as int).update(row - 1, v[row - 1] + v[row as int]));
                }
            },
            SqlCommand::Left => {
                if col > 0 {
                    self.cursor_col = col - 1;
                } else if row > 0 {
                    self.cursor_row = row - 1;
                    self.cursor_col = self.lines[row - 1].as_str().as_bytes().len();
                }
            },
            SqlCommand::Right => {
                let len = self.lines[row].as_str().as_bytes().len();
                if col < len {
                    self.cursor_col = col + 1;
                } else if row + 1 < self.lines.len() {
                    self.cursor_row = row + 1;
                    self.cursor_col = 0;
                }
            },
            SqlCommand::Up => {
                if row > 0 {
                    self.cursor_row = row - 1;
                    let len = self.lines[row - 1].as_str().as_bytes().len();
                    self.cursor_col = if col <= len { col } else { len };
                }
            },
            SqlCommand::Down => {
                if row + 1 < self.lines.len() {
                    self.cursor_row = row + 1;
                    let len = self.lines[row + 1].as_str().as_bytes().len();
                    self.cursor_col = if col <= len { col } else { len };
                }
            },
            SqlCommand::Insert(ch) => {
                let cs = chars_of(self.lines[row].as_str());
                assert(cs@ == v[row as int]);
                let n0 = cs.len();
                match char_index_at_byte(&cs, col) {
                    Some(c) => {
                        proof { lemma_boundary_in(cs@, col as int, 0); }
                        let mut nl = string_from_range(&cs, 0, c);
                        push_char(&mut nl, ch);
                        let tail = string_from_range(&cs, c, cs.len());
                        push_str(&mut nl, tail.as_str());
                        assert(nl@ =~= v[row as int].take(c as int).push(ch) + v[row as int].skip(c as int));
                        self.lines.set(row, nl);
                        self.cursor_col = col + 1;
                        assert(self.text_lines() =~= v.update(row as int, v[row as int].take(c as int).push(ch) + v[row as int].skip(c as int)));
                    },
                    None => {},
                }
            },
            _ => {},
        }
    }

    /// The statement to run: the lines joined by line breaks, trimmed;
    /// `None` when that is empty.
    pub fn statement(&self) -> (r: Option<String>)
        ensures
            ({
                let t = unicode_trim(join_with(self.text_lines(), seq!['\n']));
                if t.len() > 0 { r matches Some(s) && s@ == t } else { r is None }
            }),
    {
        let joined = join_strings(&self.lines, "\n");
        proof { reveal_strlit("\n"); }
        assert("\n"@ =~= seq!['\n']);
        let t = trim(joined.as_str());
        if t.is_empty() {
            None
        } else {
            Some(t.to_owned())
        }
    }
}

} // verus!
