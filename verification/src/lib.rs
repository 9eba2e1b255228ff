//! Verified core of a two-sided volume-control system: a small HID device
//! with six encoder/button/indicator channels, and the host-side logic that
//! binds those channels to audio streams.
//!
//! The device side models the quadrature decoder, buttons, indicators and the
//! staged HID report. The host side models the coordinator that owns the
//! stream registry, the bipartite binding graph and the per-channel menus,
//! and the HID worker state that turns raw reports into channel events.
//! All I/O (USB, HID reads and writes, the platform audio API) lives outside
//! this crate; these modules work on plain sampled values and return the
//! messages to send.

pub mod audio;
pub mod bigraph;
pub mod button;
pub mod channel;
pub mod control;
pub mod coordinator;
pub mod encoder;
pub mod hid_backend;
pub mod indicator;
pub mod manager;
pub mod names;
pub mod registry;
pub mod report;
pub mod switch;
pub mod system;

use vstd::prelude::*;

verus! {

/// Number of encoder/button/indicator channels on a device.
pub const NUM_CHANNELS: usize = 6;

} // verus!
