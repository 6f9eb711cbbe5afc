//! The logical state of the sixteen keys of the hexadecimal keypad.

use vstd::prelude::*;

verus! {

/// Number of keys on the keypad; valid key codes are `0..KEYS`.
pub const KEYS: u8 = 16;

/// Whether key `k` reads as held down: codes outside `0..KEYS` never do.
pub open spec fn key_down(keys: Seq<bool>, k: int) -> bool {
    0 <= k < KEYS && keys[k]
}

/// The key states after setting key `k` to `down`; codes outside `0..KEYS`
/// leave them unchanged.
pub open spec fn with_key(keys: Seq<bool>, k: int, down: bool) -> Seq<bool> {
    if 0 <= k < KEYS {
        keys.update(k, down)
    } else {
        keys
    }
}

/// Every key released.
pub open spec fn all_up() -> Seq<bool> {
    Seq::new(KEYS as nat, |i: int| false)
}

/// A key reads as down right after it is pressed, and as up right after it
/// is released; a key that was never touched reads as up.
pub proof fn lemma_press_release(keys: Seq<bool>, k: int)
    requires
        keys.len() == KEYS,
        0 <= k < KEYS,
    ensures
        key_down(with_key(keys, k, true), k),
        !key_down(with_key(keys, k, false), k),
        !key_down(all_up(), k),
{
}

/// Pressed / released state of each key, indexed by key code.
#[derive(Debug)]
pub struct KeyState {
    down: Vec<bool>,
}

impl View for KeyState {
    type V = Seq<bool>;

    closed spec fn view(&self) -> Seq<bool> {
        self.down@
    }
}

impl KeyState {
    /// One state per key.
    pub open spec fn wf(&self) -> bool {
        self@.len() == KEYS
    }

    /// All keys released.
    pub fn new() -> (r: KeyState)
        ensures
            r.wf(),
            r@ == all_up(),
    {
        let r = KeyState { down: vec![false; KEYS as usize] };
        assert(r@ =~= all_up());
        r
    }

    /// Marks `key` as held down; a code outside `0..KEYS` is ignored.
    pub fn press(&mut self, key: u8)
        requires
            old(self).wf(),
        ensures
            final(self).wf(),
            final(self)@ == with_key(old(self)@, key as int, true),
    {
        if key < KEYS {
            self.down.set(key as usize, true);
        }
    }

    /// Marks `key` as released; a code outside `0..KEYS` is ignored.
    pub fn release(&mut self, key: u8)
        requires
            old(self).wf(),
        ensures
            final(self).wf(),
            final(self)@ == with_key(old(self)@, key as int, false),
    {
        if key < KEYS {
            self.down.set(key as usize, false);
        }
    }

    /// Whether `key` is held down; `false` for any code outside `0..KEYS`.
    pub fn is_pressed(&self, key: u8) -> (r: bool)
        requires
            self.wf(),
        ensures
            r == key_down(self@, key as int),
    {
        key < KEYS && self.down[key as usize]
    }
}

} // verus!
