//! Audio-side shared types: stream identifiers, stream state, the events the
//! audio backend emits and the controls it accepts.
//!
//! Volume is carried as a fixed-point scalar in ten-thousandths of full
//! scale, so `0` is silent and [`MAX_VOLUME`] is full volume; one volume step
//! is two percent, [`VOLUME_STEP`]. The platform backend converts to its own
//! floating-point scale at the edge.

use vstd::prelude::*;

verus! {

/// A volume scalar in ten-thousandths of full scale.
pub type VolumeLevel = u16;

/// Full volume.
pub const MAX_VOLUME: u16 = 10000;

/// One volume step: two percent of full scale.
pub const VOLUME_STEP: u16 = 200;

/// A process-local identifier for an audio stream (a device endpoint or a
/// session). Not stable across processes and never persisted.
#[derive(Debug, Clone, Copy, PartialEq, Eq, Structural, Hash, PartialOrd, Ord)]
pub struct StreamId(pub u64);

/// The monotonic counter stream identifiers are drawn from. Exhausting the
/// counter violates the identifier invariant, so the caller must treat it as
/// fatal rather than wrapping around.
pub struct StreamIdGen {
    pub next: u64,
}

impl StreamIdGen {
    pub fn new() -> (g: Self)
        ensures
            g.next == 0,
    {
        Self { next: 0 }
    }
}

impl StreamId {
    /// Draws a fresh stream identifier: strictly larger than every identifier
    /// the counter handed out before, so identifiers never repeat.
    pub fn new(gen: &mut StreamIdGen) -> (id: Self)
        requires
            old(gen).next < u64::MAX,
        ensures
            id.0 == old(gen).next,
            final(gen).next == old(gen).next + 1,
    {
        let id = gen.next;
        gen.next = gen.next + 1;
        StreamId(id)
    }
}

/// The observable state of a stream: its volume scalar and whether it is
/// muted.
#[derive(Debug, Clone, Copy, PartialEq, Eq, Structural)]
pub struct StreamState {
    pub volume: VolumeLevel,
    pub muted: bool,
}

impl StreamState {
    /// The volume scalar never exceeds full scale.
    pub open spec fn wf(self) -> bool {
        self.volume <= MAX_VOLUME
    }
}

impl Default for StreamState {
    /// The state a dangling binding evaluates to: silent and not muted.
    fn default() -> (s: Self)
        ensures
            s.volume == 0,
            s.muted == false,
    {
        Self { volume: 0, muted: false }
    }
}

/// `v` clamped to `[0, MAX_VOLUME]`.
pub open spec fn spec_clamp_volume(v: int) -> int {
    if v < 0 {
        0
    } else if v > MAX_VOLUME {
        MAX_VOLUME as int
    } else {
        v
    }
}

/// The state a stream control leaves a stream in: `SetVolume` and
/// `StepVolume` move the volume scalar, clamped to full scale; `SetMuted`
/// and `ToggleMuted` flip the flag.
pub open spec fn spec_apply_stream_control(s: StreamState, c: StreamControl) -> StreamState {
    match c {
        StreamControl::SetVolume(v) => StreamState {
            volume: spec_clamp_volume(v as int) as u16,
            muted: s.muted,
        },
        StreamControl::StepVolume(n) => StreamState {
            volume: spec_clamp_volume(s.volume as int + n as int * VOLUME_STEP as int) as u16,
            muted: s.muted,
        },
        StreamControl::SetMuted(m) => StreamState { volume: s.volume, muted: m },
        StreamControl::ToggleMuted => StreamState { volume: s.volume, muted: !s.muted },
    }
}

/// Applies one stream control to a stream state. This is the arithmetic the
/// platform backend performs on the real stream; `StepVolume(n)` adds `n`
/// steps of two percent, saturating at silent and at full scale.
pub fn apply_stream_control(s: StreamState, c: &StreamControl) -> (r: StreamState)
    requires
        s.wf(),
    ensures
        r == spec_apply_stream_control(s, *c),
        r.wf(),
{
    match c {
        StreamControl::SetVolume(v) => {
            let clamped = if *v > MAX_VOLUME {
                MAX_VOLUME
            } else {
                *v
            };
            StreamState { volume: clamped, muted: s.muted }
        },
        StreamControl::StepVolume(n) => {
            let moved: i64 = s.volume as i64 + (*n as i64) * (VOLUME_STEP as i64);
            let clamped: u16 = if moved < 0 {
                0
            } else if moved > MAX_VOLUME as i64 {
                MAX_VOLUME
            } else {
                moved as u16
            };
            StreamState { volume: clamped, muted: s.muted }
        },
        StreamControl::SetMuted(m) => StreamState { volume: s.volume, muted: *m },
        StreamControl::ToggleMuted => StreamState { volume: s.volume, muted: !s.muted },
    }
}

/// What is known about a stream when it opens.
#[derive(Debug, Clone)]
pub struct StreamInfo {
    pub name: String,
    pub initial_state: StreamState,
    pub parent: Option<StreamId>,
}

impl StreamInfo {
    pub fn name(&self) -> (r: &str)
        ensures
            r@ == self.name@,
    {
        self.name.as_str()
    }

    pub fn initial_state(&self) -> (r: StreamState)
        ensures
            r == self.initial_state,
    {
        self.initial_state
    }

    /// The device stream hosting this one, when this stream is a session.
    pub fn parent(&self) -> (r: Option<StreamId>)
        ensures
            r == self.parent,
    {
        self.parent
    }
}

/// Builds a [`StreamInfo`] starting from a name, a default initial state and
/// no parent.
pub struct StreamInfoBuilder {
    pub name: String,
    pub initial_state: StreamState,
    pub parent: Option<StreamId>,
}

impl StreamInfoBuilder {
    pub fn new(name: String) -> (b: Self)
        ensures
            b.name@ == name@,
            b.initial_state.volume == 0,
            b.initial_state.muted == false,
            b.parent is None,
    {
        Self { name, initial_state: Default::default(), parent: None }
    }

    pub fn with_parent(self, parent: StreamId) -> (b: Self)
        ensures
            b.name@ == self.name@,
            b.initial_state == self.initial_state,
            b.parent == Option::Some(parent),
    {
        Self { parent: Some(parent), ..self }
    }

    pub fn with_initial_state(self, initial_state: StreamState) -> (b: Self)
        ensures
            b.name@ == self.name@,
            b.initial_state == initial_state,
            b.parent == self.parent,
    {
        Self { initial_state, ..self }
    }

    pub fn build(self) -> (info: StreamInfo)
        ensures
            info.name@ == self.name@,
            info.initial_state == self.initial_state,
            info.parent == self.parent,
    {
        StreamInfo { name: self.name, initial_state: self.initial_state, parent: self.parent }
    }
}

/// An event the audio backend reports to the coordinator.
#[derive(Debug, Clone)]
pub enum AudioEvent {
    StreamOpened { stream_id: StreamId, stream_info: StreamInfo },
    StreamClosed { stream_id: StreamId },
    StreamEvent { stream_id: StreamId, stream_event: StreamEvent },
    WindowFocusChanged { stream_id: Option<StreamId> },
    DefaultDeviceChanged { stream_id: Option<StreamId> },
}

/// An event on one already-open stream.
#[derive(Debug, Clone, Copy, PartialEq, Eq, Structural)]
pub enum StreamEvent {
    StateChanged(StreamState),
}

/// A control the coordinator sends to the audio backend.
#[derive(Debug, Clone, Copy, PartialEq, Eq, Structural)]
pub enum AudioControl {
    StreamControl { stream_id: StreamId, stream_control: StreamControl },
}

/// A control on one stream. Controls are applied in the order dispatched for
/// any single stream.
#[derive(Debug, Clone, Copy, PartialEq, Eq, Structural)]
pub enum StreamControl {
    SetVolume(VolumeLevel),
    StepVolume(i32),
    SetMuted(bool),
    ToggleMuted,
}

} // verus!
