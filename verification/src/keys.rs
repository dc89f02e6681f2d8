//! Key presses as the interactive views read them.
use vstd::prelude::*;

verus! {

/// The key that was pressed.
#[derive(Debug, Clone, Copy, PartialEq, Eq, Structural)]
pub enum Key {
    Char(char),
    Esc,
    Enter,
    Tab,
    Up,
    Down,
    Left,
    Right,
    Home,
    End,
    PageUp,
    PageDown,
    Other,
}

/// A key press, and whether Control was held.
#[derive(Debug, Clone, Copy, PartialEq, Eq, Structural)]
pub struct KeyPress {
    pub key: Key,
    pub ctrl: bool,
}

/// Whether the press quits a view: `q`, Esc or Ctrl-C.
pub open spec fn is_quit(k: KeyPress) -> bool {
    k.key == Key::Char('q') || k.key == Key::Esc || (k.key == Key::Char('c') && k.ctrl)
}

pub fn quits(k: KeyPress) -> (r: bool)
    ensures
        r == is_quit(k),
{
    match k.key {
        Key::Char('q') | Key::Esc => true,
        Key::Char('c') => k.ctrl,
        _ => false,
    }
}

} // verus!
