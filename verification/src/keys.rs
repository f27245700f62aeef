//! The keys that the pages react to.

use vstd::prelude::*;

verus! {

/// A key press.
#[derive(Clone, Copy, PartialEq, Eq, Debug, Structural)]
pub enum Key {
    Up,
    Down,
    Left,
    Right,
    Enter,
    Esc,
    Tab,
    PageUp,
    PageDown,
    End,
    /// A character, whatever modifiers are held.
    Char(char),
    /// Any other key.
    Other,
}

} // verus!
