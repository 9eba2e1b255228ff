//! An edge-detecting switch over a sampled active-low line.

use vstd::prelude::*;

verus! {

/// A switch or momentary button with edge detection. It remembers the state
/// seen at the last poll and reports when the state changes.
pub struct Switch {
    /// Whether the switch was pressed at the last poll.
    pub pressed: bool,
}

impl Switch {
    /// Creates a new switch, initially not pressed.
    pub fn new() -> (s: Self)
        ensures
            s.pressed == false,
    {
        Self { pressed: false }
    }

    /// True if the switch was pressed at the last poll.
    pub fn is_pressed(&self) -> (r: bool)
        ensures
            r == self.pressed,
    {
        self.pressed
    }

    /// Feeds one sample of the active-low line and updates the state of the
    /// switch. Returns `true` if the switch state has changed (a positive or
    /// negative edge event).
    pub fn poll(&mut self, level_high: bool) -> (edge: bool)
        ensures
            final(self).pressed == !level_high,
            edge == (old(self).pressed != !level_high),
    {
        let new_pressed = !level_high;

        let edge = match (self.pressed, new_pressed) {
            (false, true) | (true, false) => true,
            _ => false,
        };

        self.pressed = new_pressed;
        edge
    }
}

} // verus!
