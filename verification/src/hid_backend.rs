//! The host-side HID worker's decisions: turning raw input reports into
//! per-channel events (with long-press timing), applying channel updates, and
//! building the indicator output with the menu-blink phase.
//!
//! The worker's thread, the 1-second enumeration timer's clock, and the HID
//! reads and writes live outside this crate; they hand these functions the
//! report bytes and the current time in milliseconds and send what comes
//! back.

use vstd::prelude::*;
use crate::audio::StreamState;
use crate::control::{ChannelInput, ChannelOutput, DeviceId, DeviceInfo};
use crate::report::bit8;
use crate::NUM_CHANNELS;

verus! {

broadcast use vstd::seq_lib::lemma_seq_contains_after_push;

/// How long a button must be held before the press counts as long.
pub const LONG_PRESS_MILLIS: u64 = 500;

/// The period of the menu blink.
pub const MENU_BLINK_PERIOD_MILLIS: u64 = 1000;

/// How long the blink is in its on phase each period.
pub const MENU_BLINK_ON_MILLIS: u64 = 250;

/// The worker's per-channel state for one attached device.
#[derive(Debug, Clone, Copy)]
pub struct ChannelState {
    /// The pressed level seen in the last report.
    pub pressed: bool,
    /// Whether the current press already fired its long-press event.
    pub long_pressed: bool,
    /// When the current press becomes long, in milliseconds.
    pub long_press_deadline: Option<u64>,
    /// Whether the coordinator reported this channel's menu open.
    pub menu_open: bool,
    /// The state of the stream bound to this channel, as last reported.
    pub stream_state: StreamState,
}

impl ChannelState {
    pub fn new() -> (c: Self)
        ensures
            c == ChannelState::initial(),
    {
        Self {
            pressed: false,
            long_pressed: false,
            long_press_deadline: None,
            menu_open: false,
            stream_state: StreamState { volume: 0, muted: false },
        }
    }

    /// The state a channel starts in when its device is detected.
    pub open spec fn initial() -> Self {
        ChannelState {
            pressed: false,
            long_pressed: false,
            long_press_deadline: Option::None,
            menu_open: false,
            stream_state: StreamState { volume: 0, muted: false },
        }
    }
}

/// The effect of one coordinator message on a channel: a state change
/// replaces the stored stream state, menu opened and closed flip the flag.
pub open spec fn spec_apply_channel_output(ch: ChannelState, o: ChannelOutput) -> ChannelState {
    match o {
        ChannelOutput::StateChanged(st) => ChannelState { stream_state: st, ..ch },
        ChannelOutput::MenuOpened => ChannelState { menu_open: true, ..ch },
        ChannelOutput::MenuClosed => ChannelState { menu_open: false, ..ch },
    }
}

/// Applies one coordinator message to a channel.
pub fn apply_channel_output(ch: &mut ChannelState, output: &ChannelOutput)
    ensures
        *final(ch) == spec_apply_channel_output(*old(ch), *output),
{
    match output {
        ChannelOutput::StateChanged(st) => {
            ch.stream_state = *st;
        },
        ChannelOutput::MenuOpened => {
            ch.menu_open = true;
        },
        ChannelOutput::MenuClosed => {
            ch.menu_open = false;
        },
    }
}

/// The events an encoder delta produces: with the menu open, one menu step
/// per detent in the matching direction; with it closed, a single volume
/// step.
pub open spec fn spec_step_events(menu_open: bool, steps: i8) -> Seq<ChannelInput> {
    if steps == 0 {
        Seq::empty()
    } else if menu_open {
        if steps > 0 {
            Seq::new(steps as nat, |k: int| ChannelInput::MenuNext)
        } else {
            Seq::new((-(steps as int)) as nat, |k: int| ChannelInput::MenuPrevious)
        }
    } else {
        seq![ChannelInput::StepVolume(steps as i32)]
    }
}

/// The event a button sample produces. While held, the deadline set on the
/// rising edge fires exactly once: open the menu if it is closed, close it if
/// open. A release before the deadline is a short press: select with the
/// menu open, toggle mute with it closed. A release after a long press
/// produces nothing.
pub open spec fn spec_press_events(ch: ChannelState, pressed: bool, now: u64) -> Seq<
    ChannelInput,
> {
    if pressed {
        let deadline = if !ch.pressed {
            Option::Some(((now + LONG_PRESS_MILLIS) as u64))
        } else {
            ch.long_press_deadline
        };
        match deadline {
            Option::Some(t) => if now >= t {
                if ch.menu_open {
                    seq![ChannelInput::CloseMenu]
                } else {
                    seq![ChannelInput::OpenMenu]
                }
            } else {
                Seq::empty()
            },
            Option::None => Seq::empty(),
        }
    } else {
        if ch.pressed && !ch.long_pressed {
            if ch.menu_open {
                seq![ChannelInput::MenuSelect]
            } else {
                seq![ChannelInput::ToggleMuted]
            }
        } else {
            Seq::empty()
        }
    }
}

/// How a button sample carries the channel state forward.
pub open spec fn spec_press_next(ch: ChannelState, pressed: bool, now: u64) -> ChannelState {
    if pressed {
        let deadline = if !ch.pressed {
            Option::Some(((now + LONG_PRESS_MILLIS) as u64))
        } else {
            ch.long_press_deadline
        };
        match deadline {
            Option::Some(t) => if now >= t {
                ChannelState {
                    pressed: true,
                    long_pressed: true,
                    long_press_deadline: Option::None,
                    ..ch
                }
            } else {
                ChannelState {
                    pressed: true,
                    long_press_deadline: Option::Some(t),
                    ..ch
                }
            },
            Option::None => ChannelState { pressed: true, ..ch },
        }
    } else {
        ChannelState {
            pressed: false,
            long_pressed: false,
            long_press_deadline: Option::None,
            ..ch
        }
    }
}

/// A released channel carries no long-press latch and no deadline. The
/// initial state satisfies this and every poll and coordinator message
/// preserves it, so a released-but-latched channel never arises in the
/// worker.
pub open spec fn press_state_ok(ch: ChannelState) -> bool {
    !ch.pressed ==> (!ch.long_pressed && ch.long_press_deadline is None)
}

/// A fresh channel is released with no latch and no deadline.
pub proof fn lemma_press_state_ok_initial()
    ensures
        press_state_ok(ChannelState::initial()),
{
}

/// One button sample keeps a released channel latch-free: a release clears
/// both the latch and the deadline.
pub proof fn lemma_press_state_ok_preserved(ch: ChannelState, pressed: bool, now: u64)
    requires
        press_state_ok(ch),
    ensures
        press_state_ok(spec_press_next(ch, pressed, now)),
{
}

/// A coordinator message never touches the press fields.
pub proof fn lemma_press_state_ok_output(ch: ChannelState, o: ChannelOutput)
    requires
        press_state_ok(ch),
    ensures
        press_state_ok(spec_apply_channel_output(ch, o)),
{
}

/// One channel's share of one input report: the encoder events followed by
/// the press event, and the per-channel state moved forward.
pub fn process_channel_input(ch: &mut ChannelState, steps: i8, pressed: bool, now: u64) -> (events:
    Vec<ChannelInput>)
    requires
        now <= u64::MAX - LONG_PRESS_MILLIS,
    ensures
        events@ == spec_step_events(old(ch).menu_open, steps) + spec_press_events(
            *old(ch),
            pressed,
            now,
        ),
        *final(ch) == spec_press_next(*old(ch), pressed, now),
{
    let mut events: Vec<ChannelInput> = Vec::new();
    let ghost step_part = spec_step_events(ch.menu_open, steps);
    if steps != 0 {
        if ch.menu_open {
            if steps > 0 {
                let n = steps as u32;
                let mut k: u32 = 0;
                while k < n
                    invariant
                        k <= n,
                        events@.len() == k,
                        forall|j: int| 0 <= j < k ==> events@[j] == ChannelInput::MenuNext,
                    decreases n - k,
                {
                    events.push(ChannelInput::MenuNext);
                    k = k + 1;
                }
            } else {
                let n = (-(steps as i32)) as u32;
                let mut k: u32 = 0;
                while k < n
                    invariant
                        k <= n,
                        events@.len() == k,
                        forall|j: int| 0 <= j < k ==> events@[j] == ChannelInput::MenuPrevious,
                    decreases n - k,
                {
                    events.push(ChannelInput::MenuPrevious);
                    k = k + 1;
                }
            }
        } else {
            events.push(ChannelInput::StepVolume(steps as i32));
        }
    }
    proof {
        assert(events@ =~= step_part);
    }
    if pressed {
        if !ch.pressed {
            ch.long_press_deadline = Some(now + LONG_PRESS_MILLIS);
        }
        let fire = match ch.long_press_deadline {
            Some(t) => now >= t,
            None => false,
        };
        if fire {
            if ch.menu_open {
                events.push(ChannelInput::CloseMenu);
            } else {
                events.push(ChannelInput::OpenMenu);
            }
            ch.long_press_deadline = None;
            ch.long_pressed = true;
        }
        ch.pressed = true;
    } else {
        if ch.pressed && !ch.long_pressed {
            if ch.menu_open {
                events.push(ChannelInput::MenuSelect);
            } else {
                events.push(ChannelInput::ToggleMuted);
            }
        }
        ch.pressed = false;
        ch.long_pressed = false;
        ch.long_press_deadline = None;
    }
    proof {
        assert(events@ =~= step_part + spec_press_events(*old(ch), pressed, now));
    }
    events
}

/// Running a sequence of held samples (button still down) through the press
/// logic, in order.
pub open spec fn hold_run(ch: ChannelState, times: Seq<u64>) -> ChannelState
    decreases times.len(),
{
    if times.len() == 0 {
        ch
    } else {
        hold_run(spec_press_next(ch, true, times[0]), times.skip(1))
    }
}

/// The press events those held samples emit, concatenated.
pub open spec fn hold_events(ch: ChannelState, times: Seq<u64>) -> Seq<ChannelInput>
    decreases times.len(),
{
    if times.len() == 0 {
        Seq::empty()
    } else {
        spec_press_events(ch, true, times[0]) + hold_events(
            spec_press_next(ch, true, times[0]),
            times.skip(1),
        )
    }
}

/// Held samples before the deadline change nothing and emit nothing.
pub proof fn lemma_hold_before_deadline(ch: ChannelState, times: Seq<u64>, dl: u64)
    requires
        ch.pressed,
        ch.long_press_deadline == Option::Some(dl),
        forall|i: int| 0 <= i < times.len() ==> times[i] < dl,
    ensures
        hold_run(ch, times) == ch,
        hold_events(ch, times) == Seq::<ChannelInput>::empty(),
    decreases times.len(),
{
    if times.len() > 0 {
        assert(spec_press_next(ch, true, times[0]) == ch);
        assert(spec_press_events(ch, true, times[0]) =~= Seq::<ChannelInput>::empty());
        assert(forall|i: int| 0 <= i < times.len() - 1 ==> #[trigger] times.skip(1)[i] < dl);
        lemma_hold_before_deadline(ch, times.skip(1), dl);
        assert(hold_events(ch, times) =~= Seq::<ChannelInput>::empty());
    }
}

/// Held samples after the long press fired change nothing and emit nothing.
pub proof fn lemma_hold_after_long(ch: ChannelState, times: Seq<u64>)
    requires
        ch.pressed,
        ch.long_press_deadline is None,
    ensures
        hold_run(ch, times) == ch,
        hold_events(ch, times) == Seq::<ChannelInput>::empty(),
    decreases times.len(),
{
    if times.len() > 0 {
        assert(spec_press_next(ch, true, times[0]) == ch);
        assert(spec_press_events(ch, true, times[0]) =~= Seq::<ChannelInput>::empty());
        lemma_hold_after_long(ch, times.skip(1));
        assert(hold_events(ch, times) =~= Seq::<ChannelInput>::empty());
    }
}

/// Law (short press): from any reachable released state, a press at `t0`,
/// held only at times before `t0 + 500 ms`, then released, emits exactly one
/// event — `MenuSelect` with the menu open, `ToggleMuted` with it closed —
/// and it is emitted at the release.
pub proof fn lemma_short_press(ch0: ChannelState, t0: u64, times: Seq<u64>, t_release: u64)
    requires
        !ch0.pressed,
        press_state_ok(ch0),
        t0 <= u64::MAX - LONG_PRESS_MILLIS,
        forall|i: int| 0 <= i < times.len() ==> t0 <= #[trigger] times[i] < t0 + LONG_PRESS_MILLIS,
    ensures
        ({
            let ch1 = spec_press_next(ch0, true, t0);
            let ch2 = hold_run(ch1, times);
            spec_press_events(ch0, true, t0) + hold_events(ch1, times) + spec_press_events(
                ch2,
                false,
                t_release,
            ) == seq![
                if ch0.menu_open {
                    ChannelInput::MenuSelect
                } else {
                    ChannelInput::ToggleMuted
                },
            ]
        }),
{
    let dl = (t0 + LONG_PRESS_MILLIS) as u64;
    let ch1 = spec_press_next(ch0, true, t0);
    assert(ch1.pressed && !ch1.long_pressed && ch1.long_press_deadline == Option::Some(dl));
    assert(ch1.menu_open == ch0.menu_open);
    assert(spec_press_events(ch0, true, t0) =~= Seq::<ChannelInput>::empty());
    lemma_hold_before_deadline(ch1, times, dl);
    let ch2 = hold_run(ch1, times);
    assert(ch2 == ch1);
    assert(spec_press_events(ch0, true, t0) + hold_events(ch1, times) + spec_press_events(
        ch2,
        false,
        t_release,
    ) =~= seq![
        if ch0.menu_open {
            ChannelInput::MenuSelect
        } else {
            ChannelInput::ToggleMuted
        },
    ]);
}

/// Law (long press): from any reachable released state, a press at `t0` held
/// past `t0 + 500 ms` emits exactly one event at the first sample on or after
/// the deadline — `OpenMenu` with the menu closed, `CloseMenu` with it open —
/// and the release emits nothing.
pub proof fn lemma_long_press(
    ch0: ChannelState,
    t0: u64,
    before: Seq<u64>,
    t_hit: u64,
    after: Seq<u64>,
    t_release: u64,
)
    requires
        !ch0.pressed,
        press_state_ok(ch0),
        t0 <= u64::MAX - LONG_PRESS_MILLIS,
        forall|i: int|
            0 <= i < before.len() ==> t0 <= #[trigger] before[i] < t0 + LONG_PRESS_MILLIS,
        t_hit >= t0 + LONG_PRESS_MILLIS,
    ensures
        ({
            let ch1 = spec_press_next(ch0, true, t0);
            let ch2 = hold_run(ch1, before);
            let ch3 = spec_press_next(ch2, true, t_hit);
            let ch4 = hold_run(ch3, after);
            spec_press_events(ch0, true, t0) + hold_events(ch1, before) + spec_press_events(
                ch2,
                true,
                t_hit,
            ) + hold_events(ch3, after) + spec_press_events(ch4, false, t_release) == seq![
                if ch0.menu_open {
                    ChannelInput::CloseMenu
                } else {
                    ChannelInput::OpenMenu
                },
            ]
        }),
{
    let dl = (t0 + LONG_PRESS_MILLIS) as u64;
    let ch1 = spec_press_next(ch0, true, t0);
    assert(ch1.pressed && !ch1.long_pressed && ch1.long_press_deadline == Option::Some(dl));
    assert(spec_press_events(ch0, true, t0) =~= Seq::<ChannelInput>::empty());
    lemma_hold_before_deadline(ch1, before, dl);
    let ch2 = hold_run(ch1, before);
    assert(ch2 == ch1);
    let ch3 = spec_press_next(ch2, true, t_hit);
    assert(ch3.pressed && ch3.long_pressed && ch3.long_press_deadline is None);
    assert(spec_press_events(ch2, true, t_hit) =~= seq![
        if ch0.menu_open {
            ChannelInput::CloseMenu
        } else {
            ChannelInput::OpenMenu
        },
    ]);
    lemma_hold_after_long(ch3, after);
    let ch4 = hold_run(ch3, after);
    assert(ch4 == ch3);
    assert(spec_press_events(ch4, false, t_release) =~= Seq::<ChannelInput>::empty());
    assert(spec_press_events(ch0, true, t0) + hold_events(ch1, before) + spec_press_events(
        ch2,
        true,
        t_hit,
    ) + hold_events(ch3, after) + spec_press_events(ch4, false, t_release) =~= seq![
        if ch0.menu_open {
            ChannelInput::CloseMenu
        } else {
            ChannelInput::OpenMenu
        },
    ]);
}

/// Whether the menu blink is in its on phase: the first 250 ms of every
/// 1000 ms window since the process epoch.
pub open spec fn spec_blink_phase(now: u64) -> bool {
    now % (MENU_BLINK_PERIOD_MILLIS as u64) < MENU_BLINK_ON_MILLIS
}

pub fn blink_phase(now: u64) -> (r: bool)
    ensures
        r == spec_blink_phase(now),
{
    now % MENU_BLINK_PERIOD_MILLIS < MENU_BLINK_ON_MILLIS
}

/// Whether a channel's indicator should be lit: its mute state, inverted
/// during the on phase of the blink while its menu is open.
pub open spec fn spec_indicator_on(ch: ChannelState, blink: bool) -> bool {
    ch.stream_state.muted != (ch.menu_open && blink)
}

/// Builds the output indicator mask for one device from its channel states
/// and the current time.
pub fn output_mask(channels: &[ChannelState; 6], now: u64) -> (mask: u8)
    ensures
        forall|j: int|
            0 <= j < 6 ==> bit8(mask, j) == spec_indicator_on(channels@[j], spec_blink_phase(now)),
        forall|j: int| 6 <= j < 8 ==> !bit8(mask, j),
{
    let blink = blink_phase(now);
    let mut mask: u8 = 0;
    proof {
        assert(forall|j: u8| j < 8 ==> (0u8 >> j) & 1u8 == 0u8) by (bit_vector);
    }
    let mut i: usize = 0;
    while i < 6
        invariant
            i <= 6,
            blink == spec_blink_phase(now),
            forall|j: int|
                0 <= j < i ==> bit8(mask, j) == spec_indicator_on(channels@[j], spec_blink_phase(now)),
            forall|j: int| i <= j < 8 ==> !bit8(mask, j),
        decreases 6 - i,
    {
        let ch = channels[i];
        let on = ch.stream_state.muted != (ch.menu_open && blink);
        if on {
            let idx = i as u8;
            let ghost m0 = mask;
            mask = mask | (1u8 << idx);
            proof {
                let m1 = mask;
                assert forall|j: int| 0 <= j < 8 implies #[trigger] bit8(m1, j) == (if j == i as int {
                    true
                } else {
                    bit8(m0, j)
                }) by {
                    let ju = j as u8;
                    assert((m1 >> ju) & 1u8 == (if ju == idx {
                        1u8
                    } else {
                        (m0 >> ju) & 1u8
                    })) by (bit_vector)
                        requires
                            m1 == m0 | (1u8 << idx),
                            idx < 8,
                            ju < 8,
                    ;
                };
            }
        }
        i = i + 1;
    }
    mask
}

/// Splits a raw input report into the six signed encoder deltas and the
/// button byte. Report layout: six delta bytes, then the button bitmask.
pub fn parse_input_report(buf: &[u8]) -> (r: ([i8; 6], u8))
    requires
        buf@.len() >= 7,
    ensures
        forall|j: int| 0 <= j < 6 ==> r.0@[j] == buf@[j] as i8,
        r.1 == buf@[6],
{
    (
        [
            buf[0] as i8,
            buf[1] as i8,
            buf[2] as i8,
            buf[3] as i8,
            buf[4] as i8,
            buf[5] as i8,
        ],
        buf[6],
    )
}

/// Builds the raw output report: a zero report-id byte, then the indicator
/// mask.
pub fn build_output_report(mask: u8) -> (r: [u8; 2])
    ensures
        r@[0] == 0u8,
        r@[1] == mask,
{
    [0u8, mask]
}

/// The identity under which a physical device is tracked across
/// enumerations.
#[derive(Debug, Clone)]
pub struct DeviceKey {
    pub vendor_id: u16,
    pub product_id: u16,
    pub release_number: u16,
    pub serial_number: Vec<u8>,
}

/// A wide string flattened to bytes, low byte of each unit first.
pub open spec fn wide_bytes(w: Seq<u16>) -> Seq<u8> {
    Seq::new(
        w.len() * 2,
        |i: int|
            if i % 2 == 0 {
                (w[i / 2] & 0xff) as u8
            } else {
                (w[i / 2] >> 8) as u8
            },
    )
}

impl DeviceKey {
    /// Builds the key from the identity fields of an enumerated device. A
    /// device without a serial number falls back to its platform path, which
    /// is less stable but better than nothing.
    pub fn new(
        vendor_id: u16,
        product_id: u16,
        release_number: u16,
        serial_number: Option<Vec<u16>>,
        path: Vec<u8>,
    ) -> (k: Self)
        ensures
            k.vendor_id == vendor_id,
            k.product_id == product_id,
            k.release_number == release_number,
            match serial_number {
                Option::Some(w) => k.serial_number@ == wide_bytes(w@),
                Option::None => k.serial_number@ == path@,
            },
    {
        let serial = match serial_number {
            Some(wide) => {
                let mut bytes: Vec<u8> = Vec::new();
                let mut i: usize = 0;
                while i < wide.len()
                    invariant
                        i <= wide@.len(),
                        bytes@.len() == i * 2,
                        forall|j: int|
                            0 <= j < i * 2 ==> bytes@[j] == wide_bytes(wide@)[j],
                    decreases wide@.len() - i,
                {
                    let w = wide[i];
                    bytes.push((w & 0xff) as u8);
                    bytes.push((w >> 8) as u8);
                    i = i + 1;
                }
                proof {
                    assert(bytes@ =~= wide_bytes(wide@));
                }
                bytes
            },
            None => path,
        };
        Self { vendor_id, product_id, release_number, serial_number: serial }
    }

    /// The key as plain values, for the registry's bookkeeping.
    pub open spec fn key_view(self) -> (u16, u16, u16, Seq<u8>) {
        (self.vendor_id, self.product_id, self.release_number, self.serial_number@)
    }
}

impl PartialEq for DeviceKey {
    fn eq(&self, other: &DeviceKey) -> (r: bool) {
        let serial_eq = self.serial_number == other.serial_number;
        proof {
            if serial_eq {
                assert(self.serial_number@ =~= other.serial_number@);
            } else {
                if self.serial_number@ == other.serial_number@ {
                    assert(vstd::std_specs::cmp::PartialEqSpec::eq_spec(
                        &self.serial_number,
                        &other.serial_number,
                    ));
                    assert(false);
                }
            }
        }
        self.vendor_id == other.vendor_id && self.product_id == other.product_id
            && self.release_number == other.release_number && serial_eq
    }
}

impl vstd::std_specs::cmp::PartialEqSpecImpl for DeviceKey {
    open spec fn obeys_eq_spec() -> bool {
        true
    }

    open spec fn eq_spec(&self, other: &DeviceKey) -> bool {
        self.key_view() == other.key_view()
    }
}

/// The device models the worker knows how to drive.
#[derive(Debug, Clone, Copy, PartialEq, Eq, Structural)]
pub enum DeviceModel {
    Rev1,
}

impl DeviceModel {
    /// Recognizes a device by its USB identity; only the first hardware
    /// revision exists.
    pub fn detect(vendor_id: u16, product_id: u16) -> (r: Option<DeviceModel>)
        ensures
            r == Option::Some(DeviceModel::Rev1) <==> (vendor_id == 0x1209 && product_id
                == 0x4573),
            r is Some || r is None,
    {
        if vendor_id == 0x1209 && product_id == 0x4573 {
            Some(DeviceModel::Rev1)
        } else {
            None
        }
    }

    pub fn name(&self) -> (r: &'static str)
        ensures
            r@ == "WindowMaster Rev1"@,
    {
        match self {
            Self::Rev1 => "WindowMaster Rev1",
        }
    }

    pub fn num_channels(&self) -> (r: usize)
        ensures
            r == NUM_CHANNELS,
    {
        match self {
            Self::Rev1 => 6,
        }
    }

    pub fn device_info(&self) -> (r: DeviceInfo)
        ensures
            r.name@ == "WindowMaster Rev1"@,
            r.num_channels == NUM_CHANNELS,
    {
        DeviceInfo { name: self.name().to_owned(), num_channels: self.num_channels() }
    }
}

/// The worker's state for one attached device.
pub struct DeviceState {
    pub channels: [ChannelState; 6],
}

impl DeviceState {
    pub fn new() -> (d: Self)
        ensures
            forall|j: int| 0 <= j < 6 ==> d.channels@[j] == ChannelState::initial(),
    {
        let c = ChannelState::new();
        DeviceState { channels: [c, c, c, c, c, c] }
    }
}

/// The coarse timer driving the 1-second enumeration refresh.
pub struct Timer {
    pub period: u64,
    pub next_timeout: u64,
}

impl Timer {
    /// A timer that fires on the first poll after `now`.
    pub fn new(period: u64, now: u64) -> (t: Self)
        ensures
            t.period == period,
            t.next_timeout == now,
    {
        Self { period, next_timeout: now }
    }

    /// Fires when the timeout has passed and schedules the next one a period
    /// later.
    pub fn poll(&mut self, now: u64) -> (fired: bool)
        requires
            old(self).next_timeout <= u64::MAX - old(self).period,
        ensures
            fired == (now > old(self).next_timeout),
            final(self).period == old(self).period,
            final(self).next_timeout == if fired {
                (old(self).next_timeout + old(self).period) as u64
            } else {
                old(self).next_timeout
            },
    {
        if now > self.next_timeout {
            self.next_timeout = self.next_timeout + self.period;
            true
        } else {
            false
        }
    }
}

/// The registry of attached devices: identifier on one side, physical key on
/// the other, a bijection. Two concurrently present devices must not share a
/// key.
pub struct DeviceRegistry {
    entries: Vec<(DeviceId, DeviceKey)>,
}

impl DeviceRegistry {
    /// The registered pairs, as plain values.
    pub closed spec fn view(self) -> Seq<(DeviceId, (u16, u16, u16, Seq<u8>))> {
        self.entries@.map_values(|e: (DeviceId, DeviceKey)| (e.0, e.1.key_view()))
    }

    /// No identifier and no key appears twice.
    pub open spec fn wf(self) -> bool {
        &&& forall|i: int, j: int|
            0 <= i < j < self@.len() ==> (#[trigger] self@[i]).0 != (#[trigger] self@[j]).0
        &&& forall|i: int, j: int|
            0 <= i < j < self@.len() ==> (#[trigger] self@[i]).1 != (#[trigger] self@[j]).1
    }

    pub fn new() -> (r: Self)
        ensures
            r.wf(),
            r@ == Seq::<(DeviceId, (u16, u16, u16, Seq<u8>))>::empty(),
    {
        let r = DeviceRegistry { entries: Vec::new() };
        proof {
            assert(r@ =~= Seq::<(DeviceId, (u16, u16, u16, Seq<u8>))>::empty());
        }
        r
    }

    /// Whether some device is registered under this key.
    pub fn contains_key(&self, key: &DeviceKey) -> (r: bool)
        ensures
            r == exists|i: int| 0 <= i < self@.len() && (#[trigger] self@[i]).1 == key.key_view(),
    {
        let mut i: usize = 0;
        while i < self.entries.len()
            invariant
                i <= self.entries@.len(),
                self@.len() == self.entries@.len(),
                forall|j: int| 0 <= j < self@.len() ==> (#[trigger] self@[j]).1
                    == self.entries@[j].1.key_view(),
                forall|j: int| 0 <= j < i ==> (#[trigger] self@[j]).1 != key.key_view(),
            decreases self.entries@.len() - i,
        {
            if self.entries[i].1 == *key {
                proof {
                    assert(self@[i as int].1 == key.key_view());
                }
                return true;
            }
            i = i + 1;
        }
        false
    }

    /// Registers a device under its key; refused if the identifier or the
    /// key is already present (a key conflict violates the device-identity
    /// invariant).
    pub fn insert_no_overwrite(&mut self, id: DeviceId, key: DeviceKey) -> (r: Result<(), ()>)
        requires
            old(self).wf(),
        ensures
            final(self).wf(),
            r is Err <==> (exists|i: int|
                0 <= i < old(self)@.len() && ((#[trigger] old(self)@[i]).0 == id || old(self)@[i].1
                    == key.key_view())),
            r is Ok ==> final(self)@ == old(self)@.push((id, key.key_view())),
            r is Err ==> final(self)@ == old(self)@,
    {
        let mut i: usize = 0;
        while i < self.entries.len()
            invariant
                self.wf(),
                self@ == old(self)@,
                i <= self.entries@.len(),
                self@.len() == self.entries@.len(),
                forall|j: int| 0 <= j < self@.len() ==> #[trigger] self@[j] == (
                    self.entries@[j].0,
                    self.entries@[j].1.key_view(),
                ),
                forall|j: int|
                    0 <= j < i ==> (#[trigger] self@[j]).0 != id && self@[j].1 != key.key_view(),
            decreases self.entries@.len() - i,
        {
            let e = &self.entries[i];
            if e.0.0 == id.0 || e.1 == key {
                proof {
                    assert(self@[i as int].0 == id || self@[i as int].1 == key.key_view());
                }
                return Err(());
            }
            i = i + 1;
        }
        let ghost v0 = self@;
        self.entries.push((id, key));
        proof {
            assert(self@ =~= v0.push((id, key.key_view())));
            assert forall|i2: int, j2: int| 0 <= i2 < j2 < self@.len() implies (
            #[trigger] self@[i2]).0 != (#[trigger] self@[j2]).0 && self@[i2].1 != self@[j2].1 by {
                if j2 == self@.len() - 1 {
                    assert(self@[i2] == v0[i2]);
                    assert(self@[j2] == (id, key.key_view()));
                } else {
                    assert(self@[i2] == v0[i2] && self@[j2] == v0[j2]);
                }
            };
        }
        Ok(())
    }

    /// Forgets the device registered under `id`. Returns `true` if one was.
    pub fn remove_by_left(&mut self, id: DeviceId) -> (found: bool)
        requires
            old(self).wf(),
        ensures
            final(self).wf(),
            found == exists|i: int| 0 <= i < old(self)@.len() && (#[trigger] old(self)@[i]).0 == id,
            forall|p: (DeviceId, (u16, u16, u16, Seq<u8>))| #[trigger]
                final(self)@.contains(p) <==> (old(self)@.contains(p) && p.0 != id),
    {
        let mut i: usize = 0;
        while i < self.entries.len()
            invariant
                self.wf(),
                self@ == old(self)@,
                i <= self.entries@.len(),
                self@.len() == self.entries@.len(),
                forall|j: int| 0 <= j < self@.len() ==> #[trigger] self@[j] == (
                    self.entries@[j].0,
                    self.entries@[j].1.key_view(),
                ),
                forall|j: int| 0 <= j < i ==> (#[trigger] self@[j]).0 != id,
            decreases self.entries@.len() - i,
        {
            if self.entries[i].0.0 == id.0 {
                proof {
                    assert(old(self)@[i as int].0 == id);
                    lemma_registry_remove(old(self)@, i as int, self.entries@);
                    old(self)@.remove_ensures(i as int);
                }
                let _ = self.entries.remove(i);
                proof {
                    assert(old(self)@[i as int].0 == id);
                    assert(self@ =~= old(self)@.remove(i as int));
                    // every identifier other than the removed one is still unique
                    assert forall|i2: int, j2: int| 0 <= i2 < j2 < self@.len() implies (
                    #[trigger] self@[i2]).0 != (#[trigger] self@[j2]).0 && self@[i2].1
                        != self@[j2].1 by {
                        let oi = if i2 < i as int {
                            i2
                        } else {
                            i2 + 1
                        };
                        let oj = if j2 < i as int {
                            j2
                        } else {
                            j2 + 1
                        };
                        assert(self@[i2] == old(self)@[oi] && self@[j2] == old(self)@[oj]);
                    };
                    assert forall|p: (DeviceId, (u16, u16, u16, Seq<u8>))| #[trigger]
                        self@.contains(p) implies (old(self)@.contains(p) && p.0 != id) by {
                        let k = choose|k: int| 0 <= k < self@.len() && self@[k] == p;
                        let ok = if k < i as int {
                            k
                        } else {
                            k + 1
                        };
                        assert(old(self)@[ok] == p);
                        if p.0 == id {
                            // two entries of the old view would share the identifier
                            assert(old(self)@[i as int].0 == old(self)@[ok].0 && ok != i as int);
                            assert(false);
                        }
                    };
                    assert forall|p: (DeviceId, (u16, u16, u16, Seq<u8>))|
                        old(self)@.contains(p) && p.0 != id implies #[trigger] self@.contains(
                        p,
                    ) by {
                        let k = choose|k: int| 0 <= k < old(self)@.len() && old(self)@[k] == p;
                        assert(k != i as int);
                        let nk = if k < i as int {
                            k
                        } else {
                            k - 1
                        };
                        assert(self@[nk] == p);
                    };
                }
                return true;
            }
            i = i + 1;
        }
        proof {
            assert forall|p: (DeviceId, (u16, u16, u16, Seq<u8>))| #[trigger]
                self@.contains(p) implies (old(self)@.contains(p) && p.0 != id) by {
                let k = choose|k: int| 0 <= k < self@.len() && self@[k] == p;
            };
        }
        false
    }

    /// The identifiers of registered devices whose key is no longer among
    /// the present ones: the devices to drop after an enumeration.
    pub fn removed_devices(&self, present: &Vec<DeviceKey>) -> (r: Vec<DeviceId>)
        requires
            self.wf(),
        ensures
            forall|id: DeviceId| #[trigger]
                r@.contains(id) <==> exists|i: int|
                    0 <= i < self@.len() && (#[trigger] self@[i]).0 == id && !key_present(
                        self@[i].1,
                        present@,
                    ),
    {
        let mut out: Vec<DeviceId> = Vec::new();
        let mut i: usize = 0;
        while i < self.entries.len()
            invariant
                self.wf(),
                i <= self.entries@.len(),
                self@.len() == self.entries@.len(),
                forall|j: int| 0 <= j < self@.len() ==> #[trigger] self@[j] == (
                    self.entries@[j].0,
                    self.entries@[j].1.key_view(),
                ),
                forall|id: DeviceId| #[trigger]
                    out@.contains(id) <==> exists|j: int|
                        0 <= j < i && (#[trigger] self@[j]).0 == id && !key_present(
                            self@[j].1,
                            present@,
                        ),
            decreases self.entries@.len() - i,
        {
            let key = &self.entries[i].1;
            let mut found = false;
            let mut k: usize = 0;
            while k < present.len()
                invariant
                    k <= present@.len(),
                    found == exists|j: int|
                        0 <= j < k && (#[trigger] present@[j]).key_view() == key.key_view(),
                decreases present@.len() - k,
            {
                if *key == present[k] {
                    proof {
                        assert(present@[k as int].key_view() == key.key_view());
                    }
                    found = true;
                }
                k = k + 1;
            }
            let ghost out0 = out@;
            if !found {
                let id = self.entries[i].0;
                out.push(id);
                proof {
                    assert(!key_present(self@[i as int].1, present@));
                    assert forall|id2: DeviceId| #[trigger] out@.contains(id2) implies exists|
                        j: int,
                    |
                        0 <= j < i + 1 && (#[trigger] self@[j]).0 == id2 && !key_present(
                            self@[j].1,
                            present@,
                        ) by {
                        if id2 == id {
                            assert(self@[i as int].0 == id2);
                        } else {
                            assert(out0.contains(id2));
                        }
                    };
                }
            } else {
                proof {
                    assert(key_present(self@[i as int].1, present@));
                    assert forall|id2: DeviceId| #[trigger] out@.contains(id2) implies exists|
                        j: int,
                    |
                        0 <= j < i + 1 && (#[trigger] self@[j]).0 == id2 && !key_present(
                            self@[j].1,
                            present@,
                        ) by {
                        assert(out0.contains(id2));
                    };
                }
            }
            proof {
                assert forall|id2: DeviceId|
                    (exists|j: int|
                        0 <= j < i + 1 && (#[trigger] self@[j]).0 == id2 && !key_present(
                            self@[j].1,
                            present@,
                        )) implies #[trigger] out@.contains(id2) by {
                    let j = choose|j: int|
                        0 <= j < i + 1 && (#[trigger] self@[j]).0 == id2 && !key_present(
                            self@[j].1,
                            present@,
                        );
                    if j < i {
                        assert(out0.contains(id2));
                    }
                };
            }
            i = i + 1;
        }
        out
    }
}

/// Whether a key (as plain values) occurs among the present keys.
pub open spec fn key_present(k: (u16, u16, u16, Seq<u8>), present: Seq<DeviceKey>) -> bool {
    exists|j: int| 0 <= j < present.len() && (#[trigger] present[j]).key_view() == k
}

/// Removing one registry entry removes exactly its pair from the view.
proof fn lemma_registry_remove(
    v: Seq<(DeviceId, (u16, u16, u16, Seq<u8>))>,
    i: int,
    entries: Seq<(DeviceId, DeviceKey)>,
)
    requires
        v == entries.map_values(|e: (DeviceId, DeviceKey)| (e.0, e.1.key_view())),
        0 <= i < entries.len(),
    ensures
        entries.remove(i).map_values(|e: (DeviceId, DeviceKey)| (e.0, e.1.key_view())) =~= v.remove(
            i,
        ),
{
    assert(entries.remove(i).map_values(|e: (DeviceId, DeviceKey)| (e.0, e.1.key_view()))
        =~= v.remove(i));
}

} // verus!
