//! Keypad state: a fixed 16-entry vector of pressed/released flags, filled by
//! an external input collaborator once per scheduler tick.
use vstd::prelude::*;

use crate::state::KeyboardKey;
use crate::state::NUM_KEYS;
use crate::state::key_index;

verus! {

pub struct KeyboardState {
    pub keys: Vec<bool>,
}

impl KeyboardState {
    pub fn new() -> (k: KeyboardState)
        ensures
            k.keys@.len() == NUM_KEYS,
            forall|i: int| 0 <= i < NUM_KEYS ==> !k.keys@[i],
    {
        let mut keys: Vec<bool> = Vec::new();
        let mut i: usize = 0;
        while i < NUM_KEYS
            invariant
                i <= NUM_KEYS,
                keys@.len() == i,
                forall|j: int| 0 <= j < i ==> !keys@[j],
            decreases NUM_KEYS - i,
        {
            keys.push(false);
            i = i + 1;
        }
        KeyboardState { keys }
    }

    pub fn get_key_state(&self, key: KeyboardKey) -> (r: bool)
        requires
            self.keys@.len() == NUM_KEYS,
            key != KeyboardKey::Total,
        ensures
            r == self.keys@[key_index(key)],
    {
        self.keys[key.index()]
    }

    /// The state of the key whose symbol is `key`; a symbol outside the keypad
    /// is never pressed.
    pub fn get_key_state_u8(&self, key: u8) -> (r: bool)
        requires
            self.keys@.len() == NUM_KEYS,
        ensures
            r == (key < NUM_KEYS && self.keys@[key as int]),
    {
        if key >= NUM_KEYS as u8 {
            false
        } else {
            self.keys[key as usize]
        }
    }

    pub fn set_key_state(&mut self, key: KeyboardKey, state: bool)
        requires
            old(self).keys@.len() == NUM_KEYS,
            key != KeyboardKey::Total,
        ensures
            final(self).keys@ == old(self).keys@.update(key_index(key), state),
    {
        let i = key.index();
        self.keys[i] = state;
    }
}

/// A source of keypad input; the run loop hands it the keypad vector to fill
/// once per tick. Implementations live outside the verified library.
pub trait InputBackend {
    fn process_input(&mut self, keyboard_state: &mut KeyboardState);
}

} // verus!
