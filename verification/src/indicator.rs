//! Indicator outputs with active-low or active-high polarity.
//!
//! An indicator stores the logic level it commands; mirroring that level onto
//! a physical output pin happens outside this crate. Construction commands
//! the off state, as the hardware does when the pin is configured.

use vstd::prelude::*;

verus! {

/// An indicator output that can be switched on or off.
pub trait Indicator: Sized {
    type Error;

    /// The states in which the indicator accepts a command.
    spec fn inv(self) -> bool;

    /// Whether the indicator currently shows on.
    spec fn spec_is_on(self) -> bool;

    /// The state after commanding the indicator on or off.
    spec fn spec_set(self, on: bool) -> Self;

    /// Switches the indicator on.
    fn turn_on(&mut self) -> (r: Result<(), Self::Error>)
        requires
            old(self).inv(),
        ensures
            final(self).inv(),
            *final(self) == old(self).spec_set(true),
            r is Ok,
    ;

    /// Switches the indicator off.
    fn turn_off(&mut self) -> (r: Result<(), Self::Error>)
        requires
            old(self).inv(),
        ensures
            final(self).inv(),
            *final(self) == old(self).spec_set(false),
            r is Ok,
    ;
}

/// A command failure. The variant exists for parity with the hardware
/// signature; commanding a stored level cannot fail.
#[derive(Debug, Clone, Copy, PartialEq, Eq, Structural)]
pub enum Error {
    Pin,
}

/// Active-low output LED: on when the commanded line is low.
pub struct ActiveLow {
    /// The logic level currently commanded on the output line.
    pub level_high: bool,
}

impl ActiveLow {
    /// Creates a new LED; the line starts high, which is the off state.
    pub fn new() -> (l: Self)
        ensures
            l.inv(),
            !l.spec_is_on(),
    {
        Self { level_high: true }
    }
}

impl Indicator for ActiveLow {
    type Error = Error;

    open spec fn inv(self) -> bool {
        true
    }

    open spec fn spec_is_on(self) -> bool {
        !self.level_high
    }

    open spec fn spec_set(self, on: bool) -> Self {
        ActiveLow { level_high: !on }
    }

    fn turn_on(&mut self) -> (r: Result<(), Error>) {
        self.level_high = false;
        Ok(())
    }

    fn turn_off(&mut self) -> (r: Result<(), Error>) {
        self.level_high = true;
        Ok(())
    }
}

/// Active-high output LED: on when the commanded line is high.
pub struct ActiveHigh {
    /// The logic level currently commanded on the output line.
    pub level_high: bool,
}

impl ActiveHigh {
    /// Creates a new LED; the line starts low, which is the off state.
    pub fn new() -> (l: Self)
        ensures
            l.inv(),
            !l.spec_is_on(),
    {
        Self { level_high: false }
    }
}

impl Indicator for ActiveHigh {
    type Error = Error;

    open spec fn inv(self) -> bool {
        true
    }

    open spec fn spec_is_on(self) -> bool {
        self.level_high
    }

    open spec fn spec_set(self, on: bool) -> Self {
        ActiveHigh { level_high: on }
    }

    fn turn_on(&mut self) -> (r: Result<(), Error>) {
        self.level_high = true;
        Ok(())
    }

    fn turn_off(&mut self) -> (r: Result<(), Error>) {
        self.level_high = false;
        Ok(())
    }
}

/// An indicator that is not populated on the hardware; commands are accepted
/// and have no effect.
pub struct Disabled {
    pub _reserved: bool,
}

impl Disabled {
    pub fn new() -> (l: Self)
        ensures
            l.inv(),
    {
        Self { _reserved: false }
    }
}

impl Indicator for Disabled {
    type Error = Error;

    open spec fn inv(self) -> bool {
        true
    }

    open spec fn spec_is_on(self) -> bool {
        false
    }

    open spec fn spec_set(self, on: bool) -> Self {
        self
    }

    fn turn_on(&mut self) -> (r: Result<(), Error>) {
        Ok(())
    }

    fn turn_off(&mut self) -> (r: Result<(), Error>) {
        Ok(())
    }
}

} // verus!
