//! Colors as plain values.
//!
//! A color names its color space and holds the bit patterns of its four
//! channels. The library never converts between color spaces and never blends:
//! it stores colors, hands them back, and says which two are to be blended.

use vstd::prelude::*;
use crate::ieee::{Single, SINGLE_ONE};

verus! {

/// The color space in which the channels of a [`Color`] are to be read.
#[derive(Clone, Copy, Debug, PartialEq, Eq, Structural)]
pub enum ColorSpace {
    /// sRGB: red, green, blue.
    Srgba,
    /// Linear sRGB: red, green, blue.
    LinearRgba,
    /// HSL: hue, saturation, lightness.
    Hsla,
    /// HSV: hue, saturation, value.
    Hsva,
    /// HWB: hue, whiteness, blackness.
    Hwba,
    /// CIE LAB: lightness, a, b.
    Laba,
    /// CIE LCH: lightness, chroma, hue.
    Lcha,
    /// Oklab: lightness, a, b.
    Oklaba,
    /// Oklch: lightness, chroma, hue.
    Oklcha,
    /// CIE XYZ: x, y, z.
    Xyza,
}

/// A color: three channels in the order of its color space, and alpha.
#[derive(Clone, Copy, Debug, PartialEq, Eq, Structural)]
pub struct Color {
    pub space: ColorSpace,
    pub first: Single,
    pub second: Single,
    pub third: Single,
    pub alpha: Single,
}

impl Color {
    /// The sRGB color with the given channels.
    pub open spec fn srgba_of(red: Single, green: Single, blue: Single, alpha: Single) -> Color {
        Color { space: ColorSpace::Srgba, first: red, second: green, third: blue, alpha }
    }

    /// Pure red, opaque.
    pub open spec fn preset_red() -> Color {
        Color::srgba_of(
            Single { bits: SINGLE_ONE },
            Single { bits: 0 },
            Single { bits: 0 },
            Single { bits: SINGLE_ONE },
        )
    }

    /// Pure yellow, opaque.
    pub open spec fn preset_yellow() -> Color {
        Color::srgba_of(
            Single { bits: SINGLE_ONE },
            Single { bits: SINGLE_ONE },
            Single { bits: 0 },
            Single { bits: SINGLE_ONE },
        )
    }

    /// Pure green, opaque.
    pub open spec fn preset_green() -> Color {
        Color::srgba_of(
            Single { bits: 0 },
            Single { bits: SINGLE_ONE },
            Single { bits: 0 },
            Single { bits: SINGLE_ONE },
        )
    }

    /// An sRGB color with the given alpha.
    pub fn srgba(red: Single, green: Single, blue: Single, alpha: Single) -> (c: Color)
        ensures
            c == Color::srgba_of(red, green, blue, alpha),
    {
        Color { space: ColorSpace::Srgba, first: red, second: green, third: blue, alpha }
    }

    /// An opaque sRGB color: its alpha is one.
    pub fn srgb(red: Single, green: Single, blue: Single) -> (c: Color)
        ensures
            c == Color::srgba_of(red, green, blue, Single { bits: SINGLE_ONE }),
    {
        Color::srgba(red, green, blue, Single::one())
    }

    pub fn red() -> (c: Color)
        ensures
            c == Color::preset_red(),
    {
        Color::srgb(Single::one(), Single::zero(), Single::zero())
    }

    pub fn yellow() -> (c: Color)
        ensures
            c == Color::preset_yellow(),
    {
        Color::srgb(Single::one(), Single::one(), Single::zero())
    }

    pub fn green() -> (c: Color)
        ensures
            c == Color::preset_green(),
    {
        Color::srgb(Single::zero(), Single::one(), Single::zero())
    }
}

} // verus!
