//! A countdown timer that stores nanoseconds internally and is read and
//! written in scaled units of one 60 Hz tick, so programs authored against
//! the console's 60 Hz timers behave identically at any execution speed.

use vstd::prelude::*;

use crate::constants::TIMER_DURATION_NANO;

verus! {

/// The scaled 8-bit view of a raw nanosecond count: whole 60 Hz ticks,
/// truncated to a byte exactly as the machine exposes it.
pub open spec fn scaled_view(raw: u128) -> u8 {
    ((raw / TIMER_DURATION_NANO) % 256) as u8
}

/// A single timer; the delay and sound timers are two values of this type.
#[derive(Clone, Copy, Debug)]
pub struct Timer(u128);

impl Timer {
    /// The raw nanosecond count held by the timer.
    pub closed spec fn raw(&self) -> u128 {
        self.0
    }

    /// A fresh timer reads zero.
    pub fn new() -> (t: Timer)
        ensures
            t.raw() == 0,
    {
        Timer(0u128)
    }

    /// The timer's remaining duration in whole 60 Hz ticks.
    pub fn get_scaled(&self) -> (v: u8)
        ensures
            v == scaled_view(self.raw()),
    {
        ((self.0 / TIMER_DURATION_NANO) % 256) as u8
    }

    /// Load the timer with a duration given in 60 Hz ticks.
    pub fn set_scaled(&mut self, value: u8)
        ensures
            final(self).raw() == value as u128 * TIMER_DURATION_NANO,
    {
        self.0 = value as u128 * TIMER_DURATION_NANO;
    }

    /// The raw nanosecond count.
    pub fn get(&self) -> (v: u128)
        ensures
            v == self.raw(),
    {
        self.0
    }

    /// Mutable access to the raw nanosecond count.
    pub fn get_mut(&mut self) -> (v: &mut u128)
        ensures
            *v == old(self).raw(),
            final(self).raw() == *final(v),
    {
        &mut self.0
    }
}

/// Law: a scaled value written to a timer is read back unchanged before any
/// time elapses.
pub proof fn lemma_timer_scaled_round_trip(value: u8)
    ensures
        scaled_view((value as u128 * TIMER_DURATION_NANO) as u128) == value,
{
    let v: u128 = value as u128;
    assert(v * TIMER_DURATION_NANO <= 255 * TIMER_DURATION_NANO) by (nonlinear_arith)
        requires
            v <= 255,
    ;
    let raw: u128 = (v * TIMER_DURATION_NANO) as u128;
    assert(raw == v * TIMER_DURATION_NANO);
    assert(raw / TIMER_DURATION_NANO == v) by (nonlinear_arith)
        requires
            raw == v * TIMER_DURATION_NANO,
    ;
}

} // verus!
