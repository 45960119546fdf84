//! Pixels and the intensity quantizer: reduces a pixel's color and alpha
//! channels to a single brightness scalar in [0, 255].

use vstd::prelude::*;
use crate::ramp::glyph_seq;
use crate::ramp::ramp_index;

verus! {

/// One pixel: four 8-bit channels (red, green, blue, alpha).
#[derive(Clone, Copy, Debug, PartialEq, Eq, Structural)]
pub struct Pixel {
    pub r: u8,
    pub g: u8,
    pub b: u8,
    pub a: u8,
}

/// A pixel's intensity: each color channel divided by 3 (truncating) and
/// then summed, so the result is at most 85 + 85 + 85 = 255. A fully
/// transparent pixel is forced to intensity 0 regardless of its color.
pub open spec fn spec_intensity(p: Pixel) -> int {
    if p.a == 0 {
        0
    } else {
        p.r as int / 3 + p.g as int / 3 + p.b as int / 3
    }
}

/// Computes a pixel's intensity scalar.
pub fn pixel_intensity(p: Pixel) -> (r: u8)
    ensures
        r as int == spec_intensity(p),
{
    let mut intent: u8 = p.r / 3 + p.g / 3 + p.b / 3;
    if p.a == 0 {
        intent = 0;
    }
    intent
}

/// Intensity is always a valid 8-bit value.
pub proof fn lemma_intensity_range(p: Pixel)
    ensures
        0 <= spec_intensity(p) <= 255,
{
}

/// A fully transparent pixel always maps to the lightest glyph (space),
/// whatever its color channels hold.
pub proof fn lemma_transparent_is_space(p: Pixel)
    requires
        p.a == 0,
    ensures
        glyph_seq(ramp_index(spec_intensity(p))) == " "@,
{
}

} // verus!
