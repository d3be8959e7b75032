//! The machine's view of the 16-key input pad. The environment reports
//! which key codes are currently held; the machine only ever asks whether a
//! given key is down and which key, if any, to hand to an awaiting program.

use vstd::prelude::*;

verus! {

/// Capability the execution engine needs from an input device: membership
/// queries over the currently held key codes, and at most one held key,
/// chosen as the first in whatever order the environment reports them.
pub trait Input: Send {
    /// The key codes currently reported held, in the environment's order.
    spec fn keys(&self) -> Seq<u8>;

    /// Whether `key` is currently held.
    fn is_pressed(&self, key: u8) -> (r: bool)
        ensures
            r == self.keys().contains(key),
    ;

    /// At most one currently held key: the first reported one.
    fn get_pressed_key(&self) -> (r: Option<u8>)
        ensures
            r == if self.keys().len() == 0 {
                Option::<u8>::None
            } else {
                Option::<u8>::Some(self.keys()[0])
            },
    ;
}

/// The concrete pad state the machine owns: a plain list of held key
/// codes, replaced wholesale by the environment between cycles.
pub struct KeypadState {
    pressed: Vec<u8>,
}

impl KeypadState {
    /// A fresh pad with no key held.
    pub fn new() -> (k: KeypadState)
        ensures
            k.keys() == Seq::<u8>::empty(),
    {
        KeypadState { pressed: Vec::new() }
    }

    /// Replace the held-key list with what the environment reports now.
    pub fn set_keys(&mut self, keys: Vec<u8>)
        ensures
            final(self).keys() == keys@,
    {
        self.pressed = keys;
    }
}

impl Input for KeypadState {
    closed spec fn keys(&self) -> Seq<u8> {
        self.pressed@
    }

    fn is_pressed(&self, key: u8) -> (r: bool) {
        let mut i: usize = 0;
        while i < self.pressed.len()
            invariant
                i <= self.pressed.len(),
                forall|j: int| 0 <= j < i ==> self.pressed@[j] != key,
            decreases self.pressed.len() - i,
        {
            if self.pressed[i] == key {
                return true;
            }
            i = i + 1;
        }
        false
    }

    fn get_pressed_key(&self) -> (r: Option<u8>) {
        if self.pressed.len() == 0 {
            None
        } else {
            Some(self.pressed[0])
        }
    }
}

} // verus!
