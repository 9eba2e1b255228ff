//! Buttons polled from a sampled input line.
//!
//! The physical pin is read outside this crate; `poll` receives the sampled
//! logic level. An active-low button reports pressed when the line is low. On
//! a failed pin read the caller does not poll, as with the encoder.

use vstd::prelude::*;

verus! {

/// A button that can be pressed or un-pressed, polled from a sampled logic
/// level.
pub trait Button: Sized {
    type Error;

    /// The states in which the button accepts a poll.
    spec fn inv(self) -> bool;

    /// What one poll reports when the line sampled at `level_high`.
    spec fn poll_result(self, level_high: bool) -> Result<bool, Self::Error>;

    /// The state one poll leaves behind.
    spec fn poll_next(self, level_high: bool) -> Self;

    /// Feeds one sample to the button; returns `true` if the button is
    /// currently being pressed.
    fn poll(&mut self, level_high: bool) -> (r: Result<bool, Self::Error>)
        requires
            old(self).inv(),
        ensures
            final(self).inv(),
            r == old(self).poll_result(level_high),
            *final(self) == old(self).poll_next(level_high),
    ;
}

/// A poll failure. The variants exist for parity with the other channel
/// parts; a button poll on an already-sampled level cannot fail.
#[derive(Debug, Clone, Copy, PartialEq, Eq, Structural)]
pub enum Error {
    Pin,
}

/// An active-low button: pressed exactly when the sampled line is low.
pub struct ActiveLow {
    /// Placeholder so the struct has a stable layout; the button itself is
    /// stateless.
    pub _reserved: bool,
}

impl ActiveLow {
    /// Creates a new button read from an active-low input line.
    pub fn new() -> (b: Self)
        ensures
            b.inv(),
    {
        Self { _reserved: false }
    }
}

impl Button for ActiveLow {
    type Error = Error;

    open spec fn inv(self) -> bool {
        true
    }

    open spec fn poll_result(self, level_high: bool) -> Result<bool, Error> {
        Ok(!level_high)
    }

    open spec fn poll_next(self, level_high: bool) -> Self {
        self
    }

    fn poll(&mut self, level_high: bool) -> (r: Result<bool, Error>) {
        Ok(!level_high)
    }
}

/// A button that is not populated on the hardware; it always reports
/// not-pressed and never fails.
pub struct Disabled {
    pub _reserved: bool,
}

impl Disabled {
    pub fn new() -> (b: Self)
        ensures
            b.inv(),
    {
        Self { _reserved: false }
    }
}

impl Button for Disabled {
    type Error = Error;

    open spec fn inv(self) -> bool {
        true
    }

    open spec fn poll_result(self, level_high: bool) -> Result<bool, Error> {
        Ok(false)
    }

    open spec fn poll_next(self, level_high: bool) -> Self {
        self
    }

    fn poll(&mut self, level_high: bool) -> (r: Result<bool, Error>) {
        Ok(false)
    }
}

} // verus!
