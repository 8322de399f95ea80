//! The state of the sixteen-key hexadecimal keypad, as the interpreter reads it.
use vstd::prelude::*;

verus! {

/// The keypad: which of the keys 0 to F are held down, and the key reported by
/// the last poll of the host's input (0 when none; keys are then numbered from
/// 1, so that 0 can stand for "nothing").
pub struct Keyboard {
    pub key_clicked: u8,
    pub pressed: [bool; 16],
}

impl Keyboard {
    /// A keypad with no key held and none reported.
    pub fn new() -> (k: Keyboard)
        ensures
            k.key_clicked == 0,
            forall|i: int| 0 <= i < 16 ==> !#[trigger] k.pressed@[i],
    {
        Keyboard { key_clicked: 0, pressed: [false; 16] }
    }

    /// Whether key `key` (0 to F) is held down; a value above F names no key.
    pub fn is_key_pressed(&self, key: u8) -> (r: bool)
        ensures
            r == (key < 16 && self.pressed@[key as int]),
    {
        if key < 16 {
            self.pressed[key as usize]
        } else {
            false
        }
    }
}

} // verus!
