//! Keys as the handlers see them.
use vstd::prelude::*;

verus! {

/// A key press, without its modifiers.
#[derive(Debug, Clone, Copy, PartialEq, Eq, Structural)]
pub enum Key {
    Char(char),
    Tab,
    Enter,
    Esc,
    Backspace,
    Up,
    Down,
    Left,
    Right,
    Home,
    End,
    PageUp,
    PageDown,
    /// A function key, by number.
    F(u8),
    Other,
}

} // verus!
