//! What a hardware output lets its user set.
use crate::gamma::GammaCurve;
use crate::render::Sample;
use vstd::prelude::*;

verus! {

/// An output whose brightness can be set, and that can be switched on and
/// off.
pub trait Brightness {
    /// Sets the brightness that the output aims at.
    fn set_brightness(&mut self, brightness: u8);

    /// Switches the output on or off.
    fn set_on(&mut self, is_on: bool);
}

/// An output whose gamma curve can be set.
pub trait GammaCorrected {
    /// Sets the curve that corrects every frame.
    fn set_gamma(&mut self, gamma: GammaCurve);
}

/// A hardware output: a buffer of pixels that shaders are rendered onto
/// through `Sample`, and that shows on the hardware what it holds.
pub trait Output: Sample {
    /// What goes wrong when the hardware does not take a frame.
    type Error;

    /// The controls of the output.
    type Controls: Brightness + GammaCorrected;

    /// Hands what the buffer holds to the hardware. Whether the hardware
    /// takes it is for the hardware to say.
    fn commit(&mut self) -> Result<(), Self::Error>;

    /// The controls of the output, where it has any.
    fn controls(&self) -> Option<&Self::Controls>;
}

/// The controls of an output that has nothing to set: whatever is set is
/// dropped.
#[derive(Default, Debug, Clone, Copy)]
pub struct NullControls {}

impl Brightness for NullControls {
    fn set_brightness(&mut self, brightness: u8)
        ensures
            *final(self) == *old(self),
    {
    }

    fn set_on(&mut self, is_on: bool)
        ensures
            *final(self) == *old(self),
    {
    }
}

impl GammaCorrected for NullControls {
    fn set_gamma(&mut self, gamma: GammaCurve)
        ensures
            *final(self) == *old(self),
    {
    }
}

} // verus!
