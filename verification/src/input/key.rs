//! Keys as the editor sees them.
use vstd::prelude::*;

verus! {

/// A key of the keyboard, without modifiers.
#[derive(Debug, Clone, Copy, PartialEq, Eq, Hash, Structural)]
pub enum Key {
    Char(char),
    Down,
    Up,
    Right,
    Left,
    Enter,
    Esc,
    Backspace,
    /// Any other key.
    Other,
}

} // verus!
