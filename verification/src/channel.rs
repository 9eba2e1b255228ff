//! A device channel: one encoder, one button and one indicator.

use vstd::prelude::*;
use crate::button;
use crate::button::Button as _;
use crate::encoder;
use crate::encoder::Encoder as _;
use crate::indicator;
use crate::indicator::Indicator as _;

verus! {

/// One device channel, giving the main loop access to its three parts.
///
/// The accessors hand out mutable borrows; the `with_*` spec functions say
/// how the channel looks once the borrow expires, and `lemma_parts` records
/// that replacing one part leaves the others alone and preserves the channel
/// invariant.
pub trait Channel: Sized {
    type Encoder: encoder::Encoder;

    type Button: button::Button;

    type Indicator: indicator::Indicator;

    /// The states in which the channel's parts accept polls and commands.
    spec fn inv(self) -> bool;

    spec fn spec_encoder(self) -> Self::Encoder;

    spec fn spec_button(self) -> Self::Button;

    spec fn spec_indicator(self) -> Self::Indicator;

    spec fn with_encoder(self, e: Self::Encoder) -> Self;

    spec fn with_button(self, b: Self::Button) -> Self;

    spec fn with_indicator(self, i: Self::Indicator) -> Self;

    /// Replacing one part changes only that part, and replacing a part that
    /// satisfies its own invariant keeps the channel invariant.
    proof fn lemma_parts(self, e: Self::Encoder, b: Self::Button, i: Self::Indicator)
        ensures
            self.with_encoder(e).spec_encoder() == e,
            self.with_encoder(e).spec_button() == self.spec_button(),
            self.with_encoder(e).spec_indicator() == self.spec_indicator(),
            self.with_button(b).spec_button() == b,
            self.with_button(b).spec_encoder() == self.spec_encoder(),
            self.with_button(b).spec_indicator() == self.spec_indicator(),
            self.with_indicator(i).spec_indicator() == i,
            self.with_indicator(i).spec_encoder() == self.spec_encoder(),
            self.with_indicator(i).spec_button() == self.spec_button(),
            self.inv() && e.inv() ==> self.with_encoder(e).inv(),
            self.inv() && b.inv() ==> self.with_button(b).inv(),
            self.inv() && i.inv() ==> self.with_indicator(i).inv(),
            self.inv() ==> self.spec_encoder().inv() && self.spec_button().inv()
                && self.spec_indicator().inv(),
    ;

    fn encoder(&mut self) -> (r: &mut Self::Encoder)
        requires
            old(self).inv(),
        ensures
            *r == old(self).spec_encoder(),
            *final(self) == old(self).with_encoder(*final(r)),
    ;

    fn button(&mut self) -> (r: &mut Self::Button)
        requires
            old(self).inv(),
        ensures
            *r == old(self).spec_button(),
            *final(self) == old(self).with_button(*final(r)),
    ;

    fn indicator(&mut self) -> (r: &mut Self::Indicator)
        requires
            old(self).inv(),
        ensures
            *r == old(self).spec_indicator(),
            *final(self) == old(self).with_indicator(*final(r)),
    ;
}

/// A populated channel built from its three parts.
pub struct ChannelImpl<Encoder, Button, Indicator> {
    pub encoder: Encoder,
    pub button: Button,
    pub indicator: Indicator,
}

impl<Encoder, Button, Indicator> ChannelImpl<Encoder, Button, Indicator> {
    pub fn new(encoder: Encoder, button: Button, indicator: Indicator) -> (c: Self)
        ensures
            c.encoder == encoder,
            c.button == button,
            c.indicator == indicator,
    {
        Self { encoder, button, indicator }
    }
}

impl<E, B, I> Channel for ChannelImpl<E, B, I> where
    E: encoder::Encoder,
    B: button::Button,
    I: indicator::Indicator,
 {
    type Encoder = E;

    type Button = B;

    type Indicator = I;

    open spec fn inv(self) -> bool {
        self.encoder.inv() && self.button.inv() && self.indicator.inv()
    }

    open spec fn spec_encoder(self) -> E {
        self.encoder
    }

    open spec fn spec_button(self) -> B {
        self.button
    }

    open spec fn spec_indicator(self) -> I {
        self.indicator
    }

    open spec fn with_encoder(self, e: E) -> Self {
        ChannelImpl { encoder: e, button: self.button, indicator: self.indicator }
    }

    open spec fn with_button(self, b: B) -> Self {
        ChannelImpl { encoder: self.encoder, button: b, indicator: self.indicator }
    }

    open spec fn with_indicator(self, i: I) -> Self {
        ChannelImpl { encoder: self.encoder, button: self.button, indicator: i }
    }

    proof fn lemma_parts(self, e: E, b: B, i: I) {
    }

    fn encoder(&mut self) -> (r: &mut E) {
        &mut self.encoder
    }

    fn button(&mut self) -> (r: &mut B) {
        &mut self.button
    }

    fn indicator(&mut self) -> (r: &mut I) {
        &mut self.indicator
    }
}

/// A channel that is not populated on a given hardware revision; all three
/// parts are the disabled variants, so the main loop stays uniform.
pub struct Disabled {
    pub encoder: encoder::Disabled,
    pub button: button::Disabled,
    pub indicator: indicator::Disabled,
}

impl Disabled {
    pub fn new() -> (c: Self)
        ensures
            c.inv(),
    {
        Self {
            encoder: encoder::Disabled::new(),
            button: button::Disabled::new(),
            indicator: indicator::Disabled::new(),
        }
    }
}

impl Channel for Disabled {
    type Encoder = encoder::Disabled;

    type Button = button::Disabled;

    type Indicator = indicator::Disabled;

    open spec fn inv(self) -> bool {
        true
    }

    open spec fn spec_encoder(self) -> encoder::Disabled {
        self.encoder
    }

    open spec fn spec_button(self) -> button::Disabled {
        self.button
    }

    open spec fn spec_indicator(self) -> indicator::Disabled {
        self.indicator
    }

    open spec fn with_encoder(self, e: encoder::Disabled) -> Self {
        Disabled { encoder: e, button: self.button, indicator: self.indicator }
    }

    open spec fn with_button(self, b: button::Disabled) -> Self {
        Disabled { encoder: self.encoder, button: b, indicator: self.indicator }
    }

    open spec fn with_indicator(self, i: indicator::Disabled) -> Self {
        Disabled { encoder: self.encoder, button: self.button, indicator: i }
    }

    proof fn lemma_parts(self, e: encoder::Disabled, b: button::Disabled, i: indicator::Disabled) {
    }

    fn encoder(&mut self) -> (r: &mut encoder::Disabled) {
        &mut self.encoder
    }

    fn button(&mut self) -> (r: &mut button::Disabled) {
        &mut self.button
    }

    fn indicator(&mut self) -> (r: &mut indicator::Disabled) {
        &mut self.indicator
    }
}

} // verus!
