//! The device main loop's per-tick work: poll every channel, stage the input
//! report, and mirror the received indicator mask.
//!
//! Clock and pin setup, the USB transfer and the infinite loop live outside
//! this crate. Each tick the caller samples the pins (a failed read leaves
//! the sample out), calls [`System::scan`], and then exchanges the staged
//! [`Report`] over USB.

use vstd::prelude::*;
use crate::button::Button;
use crate::channel::Channel;
use crate::encoder::{spec_step_value, Encoder};
use crate::indicator::Indicator;
use crate::report::{bit8, spec_sat_i8, Report};
use crate::NUM_CHANNELS;

verus! {

/// The pin samples taken for one channel on one tick. A `None` means the
/// corresponding read failed and the part is not polled this tick.
#[derive(Clone, Copy)]
pub struct ChannelSamples {
    /// The two encoder phase lines.
    pub encoder: Option<(bool, bool)>,
    /// The button line.
    pub button: Option<bool>,
}

/// The encoder delta field of a channel after one tick: unchanged when the
/// pins were not read or the transition was skipped, otherwise the step value
/// added with saturation.
pub open spec fn enc_field_after<E: Encoder>(v: i8, e: E, enc: Option<(bool, bool)>) -> int {
    match enc {
        Option::None => v as int,
        Option::Some((a, b)) => match e.poll_result(a, b) {
            Ok(s) => spec_sat_i8(v as int + spec_step_value(s)),
            Err(_) => v as int,
        },
    }
}

/// The pressed flag of a channel after one tick: unchanged when the line was
/// not read or the poll failed, otherwise the polled level.
pub open spec fn btn_bit_after<B: Button>(bit: bool, b: B, btn: Option<bool>) -> bool {
    match btn {
        Option::None => bit,
        Option::Some(level) => match b.poll_result(level) {
            Ok(pressed) => pressed,
            Err(_) => bit,
        },
    }
}

/// How one tick carries a channel's parts forward: the encoder and button
/// advance by their own poll transitions where a sample was taken, and the
/// indicator is commanded to the state the host asked for.
pub open spec fn channel_tick_ok<C: Channel>(
    c0: C,
    c1: C,
    enc: Option<(bool, bool)>,
    btn: Option<bool>,
    led_on: bool,
) -> bool {
    &&& c1.spec_encoder() == (match enc {
        Option::None => c0.spec_encoder(),
        Option::Some((a, b)) => c0.spec_encoder().poll_next(a, b),
    })
    &&& c1.spec_button() == (match btn {
        Option::None => c0.spec_button(),
        Option::Some(level) => c0.spec_button().poll_next(level),
    })
    &&& c1.spec_indicator() == c0.spec_indicator().spec_set(led_on)
}

/// One tick of one channel: poll the encoder and stage its step, poll the
/// button and stage its level, and drive the indicator from the last
/// received output mask. A skipped encoder transition or a failed poll only
/// drops that part's update for this tick.
pub fn update_channel<C: Channel>(
    report: &mut Report,
    index: usize,
    channel: &mut C,
    samples: ChannelSamples,
)
    requires
        index < NUM_CHANNELS,
        old(channel).inv(),
    ensures
        final(channel).inv(),
        channel_tick_ok(
            *old(channel),
            *final(channel),
            samples.encoder,
            samples.button,
            bit8(old(report).leds, index as int),
        ),
        final(report).leds == old(report).leds,
        final(report).encoders@.len() == old(report).encoders@.len(),
        forall|j: int|
            0 <= j < 6 && j != index as int ==> final(report).encoders@[j] == old(
                report,
            ).encoders@[j],
        final(report).encoders@[index as int] as int == enc_field_after(
            old(report).encoders@[index as int],
            old(channel).spec_encoder(),
            samples.encoder,
        ),
        forall|j: int|
            0 <= j < 8 && j != index as int ==> bit8(final(report).buttons, j) == bit8(
                old(report).buttons,
                j,
            ),
        bit8(final(report).buttons, index as int) == btn_bit_after(
            bit8(old(report).buttons, index as int),
            old(channel).spec_button(),
            samples.button,
        ),
{
    let ghost c0 = *channel;
    if let Some((a, b)) = samples.encoder {
        proof {
            c0.lemma_parts(c0.spec_encoder(), c0.spec_button(), c0.spec_indicator());
        }
        let step_result = channel.encoder().poll(a, b);
        proof {
            c0.lemma_parts(
                c0.spec_encoder().poll_next(a, b),
                c0.spec_button(),
                c0.spec_indicator(),
            );
        }
        if let Ok(step) = step_result {
            report.update_encoder(index, step);
        }
    }
    let ghost c1 = *channel;
    if let Some(level) = samples.button {
        proof {
            c1.lemma_parts(c1.spec_encoder(), c1.spec_button(), c1.spec_indicator());
        }
        let pressed_result = channel.button().poll(level);
        proof {
            c1.lemma_parts(
                c1.spec_encoder(),
                c1.spec_button().poll_next(level),
                c1.spec_indicator(),
            );
        }
        if let Ok(pressed) = pressed_result {
            report.update_button(index, pressed);
        }
    }
    let ghost c2 = *channel;
    proof {
        c2.lemma_parts(c2.spec_encoder(), c2.spec_button(), c2.spec_indicator());
    }
    let led_on = report.is_led_on(index);
    if led_on {
        let _ = channel.indicator().turn_on();
    } else {
        let _ = channel.indicator().turn_off();
    }
    proof {
        c2.lemma_parts(c2.spec_encoder(), c2.spec_button(), c2.spec_indicator().spec_set(led_on));
    }
}

/// The whole device: a status indicator, six channels and the staged report.
pub struct System<StatusLed, Channel1, Channel2, Channel3, Channel4, Channel5, Channel6> {
    pub status_led: StatusLed,
    pub channel_1: Channel1,
    pub channel_2: Channel2,
    pub channel_3: Channel3,
    pub channel_4: Channel4,
    pub channel_5: Channel5,
    pub channel_6: Channel6,
    pub report: Report,
}

impl<
    StatusLed,
    Channel1,
    Channel2,
    Channel3,
    Channel4,
    Channel5,
    Channel6,
> System<StatusLed, Channel1, Channel2, Channel3, Channel4, Channel5, Channel6> {
    /// Assembles a system from already-configured parts, with an empty staged
    /// report.
    pub fn from_parts(
        status_led: StatusLed,
        channel_1: Channel1,
        channel_2: Channel2,
        channel_3: Channel3,
        channel_4: Channel4,
        channel_5: Channel5,
        channel_6: Channel6,
    ) -> (s: Self)
        ensures
            s.status_led == status_led,
            s.channel_1 == channel_1,
            s.channel_2 == channel_2,
            s.channel_3 == channel_3,
            s.channel_4 == channel_4,
            s.channel_5 == channel_5,
            s.channel_6 == channel_6,
            s.report.encoders@ =~= seq![0i8, 0i8, 0i8, 0i8, 0i8, 0i8],
            s.report.buttons == 0u8,
            s.report.leds == 0u8,
    {
        Self {
            status_led,
            channel_1,
            channel_2,
            channel_3,
            channel_4,
            channel_5,
            channel_6,
            report: Report::new(),
        }
    }

    pub fn status_led(&mut self) -> (r: &mut StatusLed)
        ensures
            *r == old(self).status_led,
            *final(self) == (System { status_led: *final(r), ..*old(self) }),
    {
        &mut self.status_led
    }
}

impl<
    StatusLed,
    Channel1,
    Channel2,
    Channel3,
    Channel4,
    Channel5,
    Channel6,
> System<StatusLed, Channel1, Channel2, Channel3, Channel4, Channel5, Channel6> where
    StatusLed: Indicator,
    Channel1: Channel,
    Channel2: Channel,
    Channel3: Channel,
    Channel4: Channel,
    Channel5: Channel,
    Channel6: Channel,
 {
    /// Whether every channel is ready to be polled.
    pub open spec fn inv(self) -> bool {
        &&& self.status_led.inv()
        &&& self.channel_1.inv()
        &&& self.channel_2.inv()
        &&& self.channel_3.inv()
        &&& self.channel_4.inv()
        &&& self.channel_5.inv()
        &&& self.channel_6.inv()
    }

    /// One round-robin pass over all six channels: the loop body the device
    /// runs between USB polls.
    pub fn scan(&mut self, samples: &[ChannelSamples; 6])
        requires
            old(self).inv(),
        ensures
            final(self).inv(),
            final(self).status_led == old(self).status_led,
            channel_tick_ok(
                old(self).channel_1,
                final(self).channel_1,
                samples@[0].encoder,
                samples@[0].button,
                bit8(old(self).report.leds, 0),
            ),
            channel_tick_ok(
                old(self).channel_2,
                final(self).channel_2,
                samples@[1].encoder,
                samples@[1].button,
                bit8(old(self).report.leds, 1),
            ),
            channel_tick_ok(
                old(self).channel_3,
                final(self).channel_3,
                samples@[2].encoder,
                samples@[2].button,
                bit8(old(self).report.leds, 2),
            ),
            channel_tick_ok(
                old(self).channel_4,
                final(self).channel_4,
                samples@[3].encoder,
                samples@[3].button,
                bit8(old(self).report.leds, 3),
            ),
            channel_tick_ok(
                old(self).channel_5,
                final(self).channel_5,
                samples@[4].encoder,
                samples@[4].button,
                bit8(old(self).report.leds, 4),
            ),
            channel_tick_ok(
                old(self).channel_6,
                final(self).channel_6,
                samples@[5].encoder,
                samples@[5].button,
                bit8(old(self).report.leds, 5),
            ),
            final(self).report.leds == old(self).report.leds,
            final(self).report.encoders@[0] as int == enc_field_after(
                old(self).report.encoders@[0],
                old(self).channel_1.spec_encoder(),
                samples@[0].encoder,
            ),
            final(self).report.encoders@[1] as int == enc_field_after(
                old(self).report.encoders@[1],
                old(self).channel_2.spec_encoder(),
                samples@[1].encoder,
            ),
            final(self).report.encoders@[2] as int == enc_field_after(
                old(self).report.encoders@[2],
                old(self).channel_3.spec_encoder(),
                samples@[2].encoder,
            ),
            final(self).report.encoders@[3] as int == enc_field_after(
                old(self).report.encoders@[3],
                old(self).channel_4.spec_encoder(),
                samples@[3].encoder,
            ),
            final(self).report.encoders@[4] as int == enc_field_after(
                old(self).report.encoders@[4],
                old(self).channel_5.spec_encoder(),
                samples@[4].encoder,
            ),
            final(self).report.encoders@[5] as int == enc_field_after(
                old(self).report.encoders@[5],
                old(self).channel_6.spec_encoder(),
                samples@[5].encoder,
            ),
            bit8(final(self).report.buttons, 0) == btn_bit_after(
                bit8(old(self).report.buttons, 0),
                old(self).channel_1.spec_button(),
                samples@[0].button,
            ),
            bit8(final(self).report.buttons, 1) == btn_bit_after(
                bit8(old(self).report.buttons, 1),
                old(self).channel_2.spec_button(),
                samples@[1].button,
            ),
            bit8(final(self).report.buttons, 2) == btn_bit_after(
                bit8(old(self).report.buttons, 2),
                old(self).channel_3.spec_button(),
                samples@[2].button,
            ),
            bit8(final(self).report.buttons, 3) == btn_bit_after(
                bit8(old(self).report.buttons, 3),
                old(self).channel_4.spec_button(),
                samples@[3].button,
            ),
            bit8(final(self).report.buttons, 4) == btn_bit_after(
                bit8(old(self).report.buttons, 4),
                old(self).channel_5.spec_button(),
                samples@[4].button,
            ),
            bit8(final(self).report.buttons, 5) == btn_bit_after(
                bit8(old(self).report.buttons, 5),
                old(self).channel_6.spec_button(),
                samples@[5].button,
            ),
            forall|j: int|
                6 <= j < 8 ==> bit8(final(self).report.buttons, j) == bit8(
                    old(self).report.buttons,
                    j,
                ),
    {
        update_channel(&mut self.report, 0, &mut self.channel_1, samples[0]);
        update_channel(&mut self.report, 1, &mut self.channel_2, samples[1]);
        update_channel(&mut self.report, 2, &mut self.channel_3, samples[2]);
        update_channel(&mut self.report, 3, &mut self.channel_4, samples[3]);
        update_channel(&mut self.report, 4, &mut self.channel_5, samples[4]);
        update_channel(&mut self.report, 5, &mut self.channel_6, samples[5]);
    }
}

} // verus!
