use vstd::prelude::*;

verus! {

/// The single-key input latch: holds at most one currently pressed key
/// code, replaced wholesale on every host update.
pub struct Keyboard {
    key_pressed: Option<u8>,
}

impl View for Keyboard {
    type V = Option<u8>;

    closed spec fn view(&self) -> Option<u8> {
        self.key_pressed
    }
}

impl Keyboard {
    /// Creates the latch, holding no key.
    pub fn new() -> (r: Keyboard)
        ensures
            r@ is None,
    {
        Keyboard { key_pressed: None }
    }

    /// True exactly when the latch holds `key_code`.
    pub fn is_key_pressed(&self, key_code: u8) -> (r: bool)
        ensures
            r == (self@ == Some(key_code)),
    {
        if let Some(key) = self.key_pressed {
            key == key_code
        } else {
            false
        }
    }

    /// Replaces the latch wholesale.
    pub fn set_key_pressed(&mut self, key: Option<u8>)
        ensures
            final(self)@ == key,
    {
        self.key_pressed = key;
    }

    /// Returns the latched key without clearing it: repeated calls return
    /// the same value until the latch is replaced.
    pub fn get_key_pressed(&self) -> (r: Option<u8>)
        ensures
            r == self@,
    {
        self.key_pressed
    }
}

} // verus!
