//! The staged HID report the device exchanges with the host.
//!
//! Input (device to host): six signed 8-bit encoder deltas and one byte whose
//! low six bits are the per-channel pressed flags. Output (host to device):
//! one byte whose low six bits are the indicator-on flags. The USB transfer
//! itself happens outside this crate; after a successful push of the input
//! report the caller acknowledges it with [`Report::reset`], which zeroes the
//! relative encoder fields and keeps the level-coded button flags.

use vstd::prelude::*;
use crate::encoder::{spec_step_value, Step};
use crate::NUM_CHANNELS;

verus! {

/// Whether bit `i` (LSB-first) of `m` is set.
pub open spec fn bit8(m: u8, i: int) -> bool {
    0 <= i < 8 && (m >> (i as u8)) & 1u8 == 1u8
}

/// `v` clamped to the range of `i8`.
pub open spec fn spec_sat_i8(v: int) -> int {
    if v > 127 {
        127
    } else if v < -128 {
        -128
    } else {
        v
    }
}

/// Adds two `i8` values, saturating at the numeric bounds.
pub fn saturating_add_i8(x: i8, y: i8) -> (r: i8)
    ensures
        r as int == spec_sat_i8(x as int + y as int),
{
    let sum: i16 = x as i16 + y as i16;
    if sum > 127 {
        127
    } else if sum < -128 {
        -128
    } else {
        sum as i8
    }
}

/// The fixed-layout report state: encoder deltas accumulated since the last
/// acknowledged push, level-coded button flags, and the indicator mask last
/// received from the host.
pub struct Report {
    pub encoders: [i8; 6],
    pub buttons: u8,
    pub leds: u8,
}

impl Report {
    /// A fresh report: no pending deltas, no buttons pressed, all indicators
    /// off.
    pub fn new() -> (r: Self)
        ensures
            r.encoders@ =~= seq![0i8, 0i8, 0i8, 0i8, 0i8, 0i8],
            r.buttons == 0u8,
            r.leds == 0u8,
    {
        Self { encoders: [0, 0, 0, 0, 0, 0], buttons: 0, leds: 0 }
    }

    /// Adds a step to the delta of channel `index`, saturating at the bounds
    /// of the field.
    pub fn update_encoder(&mut self, index: usize, step: Step)
        requires
            index < NUM_CHANNELS,
        ensures
            final(self).encoders@ =~= old(self).encoders@.update(
                index as int,
                (spec_sat_i8(
                    old(self).encoders@[index as int] as int + spec_step_value(step),
                )) as i8,
            ),
            final(self).buttons == old(self).buttons,
            final(self).leds == old(self).leds,
    {
        self.encoders[index] = saturating_add_i8(self.encoders[index], step.value());
    }

    /// Sets or clears the pressed flag of channel `index`; the flag is a
    /// level, not an edge.
    pub fn update_button(&mut self, index: usize, is_pressed: bool)
        requires
            index < NUM_CHANNELS,
        ensures
            forall|j: int|
                0 <= j < 8 ==> #[trigger] bit8(final(self).buttons, j) == (if j == index as int {
                    is_pressed
                } else {
                    bit8(old(self).buttons, j)
                }),
            final(self).encoders == old(self).encoders,
            final(self).leds == old(self).leds,
    {
        let idx = index as u8;
        let ghost b = self.buttons;
        if is_pressed {
            self.buttons = self.buttons | (1u8 << idx);
        } else {
            self.buttons = self.buttons & !(1u8 << idx);
        }
        proof {
            let nb = self.buttons;
            assert forall|j: int| 0 <= j < 8 implies #[trigger] bit8(nb, j) == (if j
                == index as int {
                is_pressed
            } else {
                bit8(b, j)
            }) by {
                let ju = j as u8;
                if is_pressed {
                    assert((nb >> ju) & 1u8 == (if ju == idx {
                        1u8
                    } else {
                        (b >> ju) & 1u8
                    })) by (bit_vector)
                        requires
                            nb == b | (1u8 << idx),
                            idx < 8,
                            ju < 8,
                    ;
                } else {
                    assert((nb >> ju) & 1u8 == (if ju == idx {
                        0u8
                    } else {
                        (b >> ju) & 1u8
                    })) by (bit_vector)
                        requires
                            nb == b & !(1u8 << idx),
                            idx < 8,
                            ju < 8,
                    ;
                }
            }
        }
    }

    /// Whether the host asked for the indicator of channel `index` to be on,
    /// according to the last received output report.
    pub fn is_led_on(&self, index: usize) -> (r: bool)
        requires
            index < NUM_CHANNELS,
        ensures
            r == bit8(self.leds, index as int),
    {
        let idx = index as u8;
        let ghost m = self.leds;
        proof {
            assert(idx < 8 ==> (m & (1u8 << idx) != 0) == ((m >> idx) & 1u8 == 1u8))
                by (bit_vector);
        }
        (self.leds & (1u8 << idx)) != 0
    }

    /// Records the indicator mask of a freshly received output report.
    pub fn apply_output(&mut self, mask: u8)
        ensures
            final(self).leds == mask,
            final(self).encoders == old(self).encoders,
            final(self).buttons == old(self).buttons,
    {
        self.leds = mask;
    }

    /// Acknowledges a successful input push: all six relative encoder fields
    /// return to zero and the level-coded button flags stay as they are.
    pub fn reset(&mut self)
        ensures
            final(self).encoders@ =~= seq![0i8, 0i8, 0i8, 0i8, 0i8, 0i8],
            final(self).buttons == old(self).buttons,
            final(self).leds == old(self).leds,
    {
        self.encoders = [0, 0, 0, 0, 0, 0];
    }

    /// The seven bytes of the input report as sent on the wire: the six
    /// encoder deltas followed by the button byte.
    pub fn input_bytes(&self) -> (r: [u8; 7])
        ensures
            forall|j: int|
                0 <= j < 6 ==> #[trigger] r@[j] == self.encoders@[j] as u8,
            r@[6] == self.buttons,
    {
        [
            self.encoders[0] as u8,
            self.encoders[1] as u8,
            self.encoders[2] as u8,
            self.encoders[3] as u8,
            self.encoders[4] as u8,
            self.encoders[5] as u8,
            self.buttons,
        ]
    }
}

} // verus!
