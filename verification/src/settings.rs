//! A small mutable settings record shared between windows of a
//! configuration dialog.

use vstd::prelude::*;

verus! {

/// One adjustable integer setting.
#[derive(Clone, Debug, PartialEq, Eq, Structural)]
pub struct Settings {
    pub value: i32,
}

impl Settings {
    /// A settings record holding `value`.
    pub fn new(value: i32) -> (s: Settings)
        ensures
            s.value == value,
    {
        Settings { value }
    }

    /// Replaces the stored value.
    pub fn set_value(&mut self, value: i32)
        ensures
            final(self).value == value,
    {
        self.value = value;
    }

    /// The stored value.
    pub fn get_value(&self) -> (v: i32)
        ensures
            v == self.value,
    {
        self.value
    }
}

} // verus!
