//! Paint-style types of the compositor surface: colour channels, fill
//! rules, gradient kinds, blend modes and image errors.

use vstd::prelude::*;

verus! {

/// One colour channel of a pixel.
#[derive(Debug, Clone, Copy, PartialEq, Eq, Structural)]
pub enum Channel {
    Red,
    Green,
    Blue,
    Alpha,
}

impl Channel {
    /// Pick the value belonging to this channel out of the four given.
    pub fn select<T>(self, r: T, g: T, b: T, a: T) -> (out: T)
        ensures
            out == match self {
                Channel::Red => r,
                Channel::Green => g,
                Channel::Blue => b,
                Channel::Alpha => a,
            },
    {
        match self {
            Channel::Red => r,
            Channel::Green => g,
            Channel::Blue => b,
            Channel::Alpha => a,
        }
    }
}

/// How a path's interior is decided.
#[derive(Debug, Clone, Copy, PartialEq, Eq, Structural)]
pub enum FillRule {
    NonZero,
    EvenOdd,
}

impl Default for FillRule {
    /// The default fill rule is non-zero winding.
    fn default() -> (r: Self)
        ensures
            r is NonZero,
    {
        FillRule::NonZero
    }
}

/// The geometry of a gradient.
#[derive(Debug, Clone, Copy, PartialEq, Eq, Structural)]
pub enum GradientType {
    Linear,
    Radial,
}

/// Errors building an image from a pixel buffer.
#[derive(Debug, Clone, Copy, PartialEq, Eq, Structural)]
pub enum ImageError {
    /// The buffer holds `len` pixels, which does not match the given
    /// width and height.
    SizeMismatch { len: usize, width: usize, height: usize },
    /// The image dimensions exceed what the renderer can address.
    TooLarge,
}

/// How a source blends over a destination.
#[derive(Debug, Clone, Copy, PartialEq, Eq, Structural)]
pub enum BlendMode {
    Over,
    Multiply,
    Screen,
    Overlay,
    Darken,
    Lighten,
    ColorDodge,
    ColorBurn,
    HardLight,
    SoftLight,
    Difference,
    Exclusion,
    Hue,
    Saturation,
    Color,
    Luminosity,
}

} // verus!
