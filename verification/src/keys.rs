//! The keys that the session and its views react to.

use vstd::prelude::*;

verus! {

/// One key press, as far as the session tells keys apart.
#[derive(Debug, Clone, Copy, PartialEq, Eq, Structural)]
pub enum KeyCode {
    Backspace,
    Enter,
    Left,
    Right,
    Up,
    Down,
    Tab,
    BackTab,
    Esc,
    Char(char),
    /// Any key that no view reacts to.
    Other,
}

impl KeyCode {
    /// The key asks to quit or to close: `q` or `Q`.
    pub open spec fn is_quit(self) -> bool {
        self == KeyCode::Char('q') || self == KeyCode::Char('Q')
    }

    /// Whether the key asks to quit or to close.
    pub fn quits(self) -> (r: bool)
        ensures
            r == self.is_quit(),
    {
        match self {
            KeyCode::Char(c) => c == 'q' || c == 'Q',
            _ => false,
        }
    }
}

} // verus!
