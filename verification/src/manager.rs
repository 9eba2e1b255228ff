//! The earlier host worker's channel manager: per-channel volume, mute and
//! menu-highlight state, driven by plain input events and answered with state
//! updates for the device to display.
//!
//! The surrounding threads and their queues live outside this crate: they
//! deliver each [`Input`] to [`Manager::handle_input`] and forward the
//! returned [`Update`] to the channel that asked.

use vstd::prelude::*;
use crate::audio::{VolumeLevel, MAX_VOLUME};
use crate::NUM_CHANNELS;

verus! {

/// One wheel detent's worth of volume: five percent of full scale.
pub const VOLUME_INCREMENT: u16 = 500;

/// Input events from a channel to the manager.
#[derive(Debug, Clone)]
pub enum Input {
    /// Sets the stream volume.
    Volume(VolumeLevel),
    /// Adjusts the stream volume by a relative step amount.
    VolumeStep(i32),
    /// Sets whether the stream is muted.
    Mute(bool),
    /// Toggles the stream mute state.
    ToggleMute,
    /// Highlights the menu option with the given index.
    MenuIndex(usize),
    /// Adjusts the highlighted menu option by a relative step amount,
    /// clamped to the ends of the menu; the highlight does not wrap.
    MenuStep(i32),
    /// Selects the highlighted menu option.
    Select,
    /// Explicitly opens the menu.
    OpenMenu,
    /// Explicitly closes/cancels the menu.
    CloseMenu,
}

/// State updates from the manager to a channel, so the channel can display
/// the state on its interface.
#[derive(Debug, Clone)]
pub enum Update {
    /// The volume of the stream assigned to this channel.
    Volume(VolumeLevel),
    /// Whether or not the stream is muted.
    Mute(bool),
    /// Opens a menu with the given list of options and initial highlight
    /// index. If one is already open, it is replaced by the given one.
    OpenMenu(Vec<String>, usize),
    /// Closes the menu if one is open.
    CloseMenu,
    /// The index of the highlighted menu option.
    MenuIndex(usize),
}

/// The manager's state for one registered channel.
#[derive(Debug, Clone)]
pub struct Channel {
    pub menu_size: usize,
    pub menu_index: usize,
    pub volume: VolumeLevel,
    pub muted: bool,
}

impl Channel {
    /// The volume scalar stays within full scale.
    pub open spec fn wf(self) -> bool {
        self.volume <= MAX_VOLUME
    }
}

/// `v` clamped to `[0, MAX_VOLUME]`.
pub open spec fn spec_clamp(v: int) -> int {
    if v < 0 {
        0
    } else if v > MAX_VOLUME {
        MAX_VOLUME as int
    } else {
        v
    }
}

/// The highlight after a step of `steps` from `index` in a menu of `size`
/// options: moved by the step amount with saturating arithmetic, clamped to
/// `[0, size - 1]`, never wrapping.
pub open spec fn spec_menu_clamp(index: int, steps: int, size: int) -> int {
    let target = index + steps;
    if target < 0 {
        0
    } else if target > size - 1 {
        size - 1
    } else {
        target
    }
}

/// The manager and its registered channels.
pub struct Manager {
    pub channels: Vec<Channel>,
}

impl Manager {
    pub open spec fn wf(self) -> bool {
        forall|i: int| 0 <= i < self.channels@.len() ==> (#[trigger] self.channels@[i]).wf()
    }

    pub fn new() -> (m: Self)
        ensures
            m.wf(),
            m.channels@.len() == 0,
    {
        Manager { channels: Vec::new() }
    }

    /// Registers one more channel and returns its identifier: the index it
    /// will use in every later input.
    pub fn register_channel(&mut self) -> (channel_id: usize)
        requires
            old(self).wf(),
        ensures
            final(self).wf(),
            channel_id == old(self).channels@.len(),
            final(self).channels@ == old(self).channels@.push(
                (Channel { menu_size: 0, menu_index: 0, volume: 0, muted: false }),
            ),
    {
        let channel_id = self.channels.len();
        self.channels.push(Channel { menu_size: 0, menu_index: 0, volume: 0, muted: false });
        channel_id
    }

    /// Applies one input to the channel it names and returns the update the
    /// channel should display. A menu step is only meaningful while a menu is
    /// open; it moves the highlight with saturating arithmetic and never
    /// wraps.
    pub fn handle_input(&mut self, channel_id: usize, input: Input) -> (u: Update)
        requires
            old(self).wf(),
            channel_id < old(self).channels@.len(),
            input is MenuStep ==> old(self).channels@[channel_id as int].menu_size > 0,
        ensures
            final(self).wf(),
            final(self).channels@.len() == old(self).channels@.len(),
            forall|j: int|
                0 <= j < old(self).channels@.len() && j != channel_id as int
                    ==> #[trigger] final(self).channels@[j] == old(self).channels@[j],
            ({
                let c0 = old(self).channels@[channel_id as int];
                let c1 = final(self).channels@[channel_id as int];
                match input {
                    Input::Volume(v) => c1 == (Channel {
                        volume: spec_clamp(v as int) as u16,
                        ..c0
                    }) && u == Update::Volume(c1.volume),
                    Input::VolumeStep(steps) => c1 == (Channel {
                        volume: spec_clamp(
                            c0.volume as int + steps as int * VOLUME_INCREMENT as int,
                        ) as u16,
                        ..c0
                    }) && u == Update::Volume(c1.volume),
                    Input::Mute(m) => c1 == (Channel { muted: m, ..c0 }) && u == Update::Mute(m),
                    Input::ToggleMute => c1 == (Channel { muted: !c0.muted, ..c0 }) && u
                        == Update::Mute(!c0.muted),
                    Input::MenuIndex(index) => c1 == (Channel { menu_index: index, ..c0 }) && u
                        == Update::MenuIndex(index),
                    Input::MenuStep(steps) => c1 == (Channel {
                        menu_index: spec_menu_clamp(
                            c0.menu_index as int,
                            steps as int,
                            c0.menu_size as int,
                        ) as usize,
                        ..c0
                    }) && u == Update::MenuIndex(c1.menu_index) && c1.menu_index < c1.menu_size,
                    Input::Select => c1 == (Channel { menu_size: 0, ..c0 }) && u
                        == Update::CloseMenu,
                    Input::OpenMenu => c1 == (Channel { menu_size: 1, menu_index: 0, ..c0 }) && (
                    match u {
                        Update::OpenMenu(menu, index) => menu@.len() == 1 && menu@[0]@ == "Close"@
                            && index == 0,
                        _ => false,
                    }),
                    Input::CloseMenu => c1 == (Channel { menu_size: 0, ..c0 }) && u
                        == Update::CloseMenu,
                }
            }),
    {
        let c = &self.channels[channel_id];
        let c0 = Channel {
            menu_size: c.menu_size,
            menu_index: c.menu_index,
            volume: c.volume,
            muted: c.muted,
        };
        let (c1, u): (Channel, Update) = match input {
            Input::Volume(v) => {
                let clamped = if v > MAX_VOLUME {
                    MAX_VOLUME
                } else {
                    v
                };
                (Channel { volume: clamped, ..c0 }, Update::Volume(clamped))
            },
            Input::VolumeStep(steps) => {
                let moved: i64 = c0.volume as i64 + (steps as i64) * (VOLUME_INCREMENT as i64);
                let clamped: u16 = if moved < 0 {
                    0
                } else if moved > MAX_VOLUME as i64 {
                    MAX_VOLUME
                } else {
                    moved as u16
                };
                (Channel { volume: clamped, ..c0 }, Update::Volume(clamped))
            },
            Input::Mute(m) => (Channel { muted: m, ..c0 }, Update::Mute(m)),
            Input::ToggleMute => {
                let m = !c0.muted;
                (Channel { muted: m, ..c0 }, Update::Mute(m))
            },
            Input::MenuIndex(index) => (
                Channel { menu_index: index, ..c0 },
                Update::MenuIndex(index),
            ),
            Input::MenuStep(steps) => {
                let max_index = c0.menu_size - 1;
                let index: usize = if steps >= 0 {
                    let up = steps as usize;
                    if c0.menu_index >= max_index || up > max_index - c0.menu_index {
                        max_index
                    } else {
                        c0.menu_index + up
                    }
                } else {
                    let down = (-(steps as i64)) as usize;
                    let moved = if c0.menu_index > down {
                        c0.menu_index - down
                    } else {
                        0
                    };
                    if moved > max_index {
                        max_index
                    } else {
                        moved
                    }
                };
                (Channel { menu_index: index, ..c0 }, Update::MenuIndex(index))
            },
            Input::Select => (Channel { menu_size: 0, ..c0 }, Update::CloseMenu),
            Input::OpenMenu => {
                let mut menu: Vec<String> = Vec::new();
                menu.push("Close".to_owned());
                (Channel { menu_size: 1, menu_index: 0, ..c0 }, Update::OpenMenu(menu, 0))
            },
            Input::CloseMenu => (Channel { menu_size: 0, ..c0 }, Update::CloseMenu),
        };
        self.channels[channel_id] = c1;
        u
    }
}

/// The device models the earlier worker recognized, by the full USB identity
/// including the release number.
#[derive(Debug, Clone, Copy, PartialEq, Eq, Structural)]
pub enum DeviceType {
    WindowMasterRev1,
}

impl DeviceType {
    /// Recognizes a device by vendor, product and release number.
    pub fn detect(vendor_id: u16, product_id: u16, version: u16) -> (r: Option<DeviceType>)
        ensures
            r == Option::Some(DeviceType::WindowMasterRev1) <==> (vendor_id == 0x1209 && product_id
                == 0x4573 && version == 0x0010),
            r is Some || r is None,
    {
        if vendor_id == 0x1209 && product_id == 0x4573 && version == 0x0010 {
            Some(DeviceType::WindowMasterRev1)
        } else {
            None
        }
    }

    pub fn num_channels(&self) -> (r: usize)
        ensures
            r == NUM_CHANNELS,
    {
        match self {
            Self::WindowMasterRev1 => 6,
        }
    }
}

/// The slice of manager state the device loop mirrors locally so it can
/// drive its indicator: the mute flag and whether a menu is open.
#[derive(Debug, Clone, Copy, PartialEq, Eq, Structural)]
pub struct ChannelMirror {
    pub muted: bool,
    pub menu_open: bool,
}

/// How one update changes the mirrored state: mute updates the flag, menu
/// open and close flip the menu; volume and highlight updates are display
/// only.
pub open spec fn spec_apply_update(m: ChannelMirror, u: Update) -> ChannelMirror {
    match u {
        Update::Mute(x) => ChannelMirror { muted: x, ..m },
        Update::OpenMenu(_, _) => ChannelMirror { menu_open: true, ..m },
        Update::CloseMenu => ChannelMirror { menu_open: false, ..m },
        Update::Volume(_) => m,
        Update::MenuIndex(_) => m,
    }
}

/// Applies one update to the mirrored channel state.
pub fn apply_update(m: &mut ChannelMirror, u: &Update)
    ensures
        *final(m) == spec_apply_update(*old(m), *u),
{
    match u {
        Update::Mute(x) => {
            m.muted = *x;
        },
        Update::OpenMenu(_, _) => {
            m.menu_open = true;
        },
        Update::CloseMenu => {
            m.menu_open = false;
        },
        Update::Volume(_) => {},
        Update::MenuIndex(_) => {},
    }
}

} // verus!
