//! Key presses as the terminal screens read them.
use vstd::prelude::*;

verus! {

/// The key of a key press.
#[derive(Clone, Copy, PartialEq, Eq, Structural, Debug)]
pub enum Key {
    Char(char),
    Up,
    Down,
    Enter,
    Esc,
    Tab,
    Other,
}

/// A key press: its key, whether Control was among the modifiers held, and
/// whether Control was the only one.
#[derive(Clone, Copy, PartialEq, Eq, Structural, Debug)]
pub struct KeyPress {
    pub key: Key,
    pub control: bool,
    pub control_only: bool,
}

} // verus!
