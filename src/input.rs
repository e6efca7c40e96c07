//! Keyboard state handed over by the host once per frame.

use vstd::prelude::*;

verus! {

/// The keys that the game reads.
#[derive(Clone, Copy, Debug, PartialEq, Eq, Structural)]
pub enum Key {
    Enter,
    Escape,
    Up,
    Down,
    Space,
    W,
    A,
    S,
    D,
}

/// Whether `keys` holds `key`.
pub fn has_key(keys: &Vec<Key>, key: Key) -> (r: bool)
    ensures
        r == keys@.contains(key),
{
    let mut i: usize = 0;
    while i < keys.len()
        invariant
            i <= keys@.len(),
            forall|j: int| 0 <= j < i ==> keys@[j] != key,
        decreases keys@.len() - i,
    {
        if keys[i] == key {
            assert(keys@[i as int] == key);
            return true;
        }
        i = i + 1;
    }
    false
}

/// Keys held and keys pressed during the current frame. A press is
/// reported once per frame: reading it marks it caught.
pub struct KbdMan {
    /// Keys pressed during this frame.
    pub keypress: Vec<Key>,
    /// Keys held down.
    pub keys: Vec<Key>,
    /// Presses already reported during this frame.
    pub caught: Vec<Key>,
}

impl KbdMan {
    /// `key` was pressed this frame and its press is not yet reported.
    pub open spec fn fresh_press(&self, key: Key) -> bool {
        self.keypress@.contains(key) && !self.caught@.contains(key)
    }

    /// No key held or pressed.
    pub fn new() -> (r: KbdMan)
        ensures
            r.keypress@.len() == 0,
            r.keys@.len() == 0,
            r.caught@.len() == 0,
    {
        KbdMan { keypress: Vec::new(), keys: Vec::new(), caught: Vec::new() }
    }

    /// Starts a frame with the keys held (`down`) and pressed (`pressed`).
    pub fn update(&mut self, down: Vec<Key>, pressed: Vec<Key>)
        ensures
            final(self).keys@ == down@,
            final(self).keypress@ == pressed@,
            final(self).caught@.len() == 0,
    {
        self.keys = down;
        self.keypress = pressed;
        self.caught = Vec::new();
    }

    /// Whether `key` was pressed this frame and not yet reported; a press
    /// reported here is caught.
    pub fn keypress(&mut self, key: Key) -> (r: bool)
        ensures
            r == old(self).fresh_press(key),
            final(self).keypress@ == old(self).keypress@,
            final(self).keys@ == old(self).keys@,
            final(self).caught@ == (if r {
                old(self).caught@.push(key)
            } else {
                old(self).caught@
            }),
    {
        if has_key(&self.keypress, key) && !has_key(&self.caught, key) {
            self.caught.push(key);
            true
        } else {
            false
        }
    }

    /// Whether `key` was pressed this frame, reported or not; the press is
    /// caught.
    pub fn keypress_unchecked(&mut self, key: Key) -> (r: bool)
        ensures
            r == old(self).keypress@.contains(key),
            final(self).keypress@ == old(self).keypress@,
            final(self).keys@ == old(self).keys@,
            final(self).caught@ == (if r {
                old(self).caught@.push(key)
            } else {
                old(self).caught@
            }),
    {
        if has_key(&self.keypress, key) {
            self.caught.push(key);
            true
        } else {
            false
        }
    }

    /// Whether `key` was pressed this frame and not yet reported, without
    /// catching it.
    pub fn keypress_peek(&mut self, key: Key) -> (r: bool)
        ensures
            r == old(self).fresh_press(key),
            *final(self) == *old(self),
    {
        has_key(&self.keypress, key) && !has_key(&self.caught, key)
    }

    /// Whether `key` was pressed this frame, without catching it.
    pub fn keypress_peek_unchecked(&mut self, key: Key) -> (r: bool)
        ensures
            r == old(self).keypress@.contains(key),
            *final(self) == *old(self),
    {
        has_key(&self.keypress, key)
    }

    /// Whether `key` is held down.
    pub fn keydown(&mut self, key: Key) -> (r: bool)
        ensures
            r == old(self).keys@.contains(key),
            *final(self) == *old(self),
    {
        has_key(&self.keys, key)
    }
}

/// All input devices the game reads.
pub struct InputMan {
    pub kbd: KbdMan,
}

impl InputMan {
    /// Input with no key held or pressed.
    pub fn new() -> (r: InputMan)
        ensures
            r.kbd.keypress@.len() == 0,
            r.kbd.keys@.len() == 0,
            r.kbd.caught@.len() == 0,
    {
        InputMan { kbd: KbdMan::new() }
    }
}

} // verus!
