//! The status LED heartbeat: the LED starts off, and each blink interval the
//! firmware sets it to the next level that [`StatusBlinker`] gives.
use vstd::prelude::*;

verus! {

/// The level of the status LED, which alternates at every step.
pub struct StatusBlinker {
    /// Whether the LED is on.
    pub led_on: bool,
}

impl StatusBlinker {
    /// A blinker for an LED that starts off.
    pub fn new() -> (blinker: Self)
        ensures
            !blinker.led_on,
    {
        StatusBlinker { led_on: false }
    }

    /// Moves to the next level and returns it: on after off, off after on.
    pub fn next_level(&mut self) -> (led_on: bool)
        ensures
            led_on == !old(self).led_on,
            final(self).led_on == led_on,
    {
        self.led_on = !self.led_on;
        self.led_on
    }
}

} // verus!
