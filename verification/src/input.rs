//! Keyboard input as the widgets read it.
use vstd::prelude::*;

verus! {

/// A key on the keyboard.
#[derive(Debug, Clone, Copy, PartialEq, Eq, Structural)]
pub enum KeyCode {
    Backspace,
    Enter,
    Left,
    Right,
    Up,
    Down,
    Home,
    End,
    PageUp,
    PageDown,
    Tab,
    BackTab,
    Delete,
    Insert,
    F(u8),
    Char(char),
    Null,
    Esc,
    /// Any other key.
    Other,
}

/// Modifier keys held down, one bit each.
#[derive(Debug, Clone, Copy, PartialEq, Eq, Structural)]
pub struct KeyModifiers {
    pub bits: u8,
}

impl KeyModifiers {
    pub fn none() -> (r: Self)
        ensures
            r.bits == 0,
    {
        KeyModifiers { bits: 0 }
    }

    pub fn shift() -> (r: Self)
        ensures
            r.bits == 1,
    {
        KeyModifiers { bits: 1 }
    }

    pub fn control() -> (r: Self)
        ensures
            r.bits == 2,
    {
        KeyModifiers { bits: 2 }
    }

    pub fn alt() -> (r: Self)
        ensures
            r.bits == 4,
    {
        KeyModifiers { bits: 4 }
    }

    pub fn from_bits(bits: u8) -> (r: Self)
        ensures
            r.bits == bits,
    {
        KeyModifiers { bits }
    }

    pub open spec fn has(self, other: Self) -> bool {
        self.bits & other.bits == other.bits
    }

    /// Whether every modifier of `other` is held.
    pub fn contains(&self, other: Self) -> (r: bool)
        ensures
            r == self.has(other),
    {
        self.bits & other.bits == other.bits
    }

    pub open spec fn shift_held(self) -> bool {
        self.has(KeyModifiers { bits: 1 })
    }

    pub open spec fn control_held(self) -> bool {
        self.has(KeyModifiers { bits: 2 })
    }
}

} // verus!
