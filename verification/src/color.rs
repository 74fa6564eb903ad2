//! Colors with bounded integer intensities: each channel is measured in
//! hundredths of full intensity, so the representable range is
//! `[0, CHANNEL_MAX]`. Darkening subtracts a fixed step per channel and
//! floors at zero.

use vstd::prelude::*;

verus! {

/// Full intensity of one color channel, in hundredths.
pub const CHANNEL_MAX: u8 = 100;

/// How much one collision darkens each background channel, in hundredths.
pub const DARKEN_STEP: u8 = 4;

/// A color: red, green, blue and alpha channels, each in `[0, CHANNEL_MAX]`.
#[derive(Copy, Clone, Debug, PartialEq, Eq, Structural)]
pub struct Color {
    pub red: u8,
    pub green: u8,
    pub blue: u8,
    pub alpha: u8,
}

impl Color {
    /// All channels within the intensity range.
    pub open spec fn wf(self) -> bool {
        self.red <= CHANNEL_MAX && self.green <= CHANNEL_MAX && self.blue <= CHANNEL_MAX
            && self.alpha <= CHANNEL_MAX
    }

    /// The color after one darkening step: every channel except alpha loses
    /// `DARKEN_STEP`, flooring at zero.
    pub open spec fn darkened_spec(self) -> Color {
        Color {
            red: self.red.saturating_sub(DARKEN_STEP),
            green: self.green.saturating_sub(DARKEN_STEP),
            blue: self.blue.saturating_sub(DARKEN_STEP),
            alpha: self.alpha,
        }
    }

    /// Darken this color by one step per channel, floored at zero intensity.
    pub fn darkened(self) -> (c: Color)
        ensures
            c == self.darkened_spec(),
            self.wf() ==> c.wf(),
    {
        Color {
            red: self.red.saturating_sub(DARKEN_STEP),
            green: self.green.saturating_sub(DARKEN_STEP),
            blue: self.blue.saturating_sub(DARKEN_STEP),
            alpha: self.alpha,
        }
    }
}

} // verus!
