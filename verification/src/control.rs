//! Control-side shared types: device identifiers, device descriptions, and
//! the messages exchanged between the HID worker and the coordinator.

use vstd::prelude::*;
use crate::audio::{StreamState, VolumeLevel};

verus! {

/// The index of a channel on its device.
pub type ChannelIndex = usize;

/// A process-local identifier for a control device. Not stable across
/// processes and never persisted.
#[derive(Debug, Clone, Copy, PartialEq, Eq, Structural, Hash, PartialOrd, Ord)]
pub struct DeviceId(pub u64);

/// The monotonic counter device identifiers are drawn from. Exhausting the
/// counter violates the identifier invariant, so the caller must treat it as
/// fatal rather than wrapping around.
pub struct DeviceIdGen {
    pub next: u64,
}

impl DeviceIdGen {
    pub fn new() -> (g: Self)
        ensures
            g.next == 0,
    {
        Self { next: 0 }
    }
}

impl DeviceId {
    /// Draws a fresh device identifier: strictly larger than every identifier
    /// the counter handed out before, so identifiers never repeat.
    pub fn new(gen: &mut DeviceIdGen) -> (id: Self)
        requires
            old(gen).next < u64::MAX,
        ensures
            id.0 == old(gen).next,
            final(gen).next == old(gen).next + 1,
    {
        let id = gen.next;
        gen.next = gen.next + 1;
        DeviceId(id)
    }
}

/// What is known about a control device when it appears.
#[derive(Debug, Clone)]
pub struct DeviceInfo {
    pub name: String,
    pub num_channels: usize,
}

impl DeviceInfo {
    pub fn name(&self) -> (r: &str)
        ensures
            r@ == self.name@,
    {
        self.name.as_str()
    }

    pub fn num_channels(&self) -> (r: usize)
        ensures
            r == self.num_channels,
    {
        self.num_channels
    }
}

/// Builds a [`DeviceInfo`].
pub struct DeviceInfoBuilder {
    pub name: String,
    pub num_channels: usize,
}

impl DeviceInfoBuilder {
    pub fn new(name: String, num_channels: usize) -> (b: Self)
        ensures
            b.name@ == name@,
            b.num_channels == num_channels,
    {
        Self { name, num_channels }
    }

    pub fn build(self) -> (info: DeviceInfo)
        ensures
            info.name@ == self.name@,
            info.num_channels == self.num_channels,
    {
        DeviceInfo { name: self.name, num_channels: self.num_channels }
    }
}

/// A message from the HID worker to the coordinator.
#[derive(Debug, Clone)]
pub enum ControlInput {
    DeviceAdded(DeviceId, DeviceInfo),
    DeviceRemoved(DeviceId),
    ChannelInput(DeviceId, ChannelIndex, ChannelInput),
}

/// An input event on one channel.
#[derive(Debug, Clone, Copy, PartialEq, Eq, Structural)]
pub enum ChannelInput {
    SetVolume(VolumeLevel),
    StepVolume(i32),
    SetMuted(bool),
    ToggleMuted,
    OpenMenu,
    CloseMenu,
    MenuNext,
    MenuPrevious,
    MenuSelect,
}

/// A message from the coordinator to the HID worker.
#[derive(Debug, Clone, Copy, PartialEq, Eq, Structural)]
pub enum ControlOutput {
    ChannelOutput(DeviceId, ChannelIndex, ChannelOutput),
}

/// A state update for one channel.
#[derive(Debug, Clone, Copy, PartialEq, Eq, Structural)]
pub enum ChannelOutput {
    StateChanged(StreamState),
    MenuOpened,
    MenuClosed,
}

} // verus!
