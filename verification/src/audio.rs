//! The machine's view of its tone generator: a single "tone requested"
//! flag. Waveform synthesis and playback are the environment's concern.

use vstd::prelude::*;

verus! {

/// Shared audio state; the machine raises `playing` when a program sets the
/// sound timer and clears it when the timer counts down to zero.
pub struct Audio {
    pub playing: bool,
}

impl Audio {
    /// A fresh audio device is silent.
    pub fn new() -> (a: Audio)
        ensures
            !a.playing,
    {
        Audio { playing: false }
    }

    /// Whether a tone is currently requested.
    pub fn is_playing(&self) -> (r: bool)
        ensures
            r == self.playing,
    {
        self.playing
    }
}

} // verus!
