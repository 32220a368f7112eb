//! 8-bit RGB color values.

use vstd::prelude::*;
use crate::rng::random_byte;

verus! {

/// An immutable 8-bit RGB triple; every field combination is a valid color.
#[derive(Clone, Copy, Debug, PartialEq, Eq, Structural)]
pub struct Color {
    pub r: u8,
    pub g: u8,
    pub b: u8,
}

impl Color {
    pub fn rgb(r: u8, g: u8, b: u8) -> (c: Color)
        ensures
            c == (Color { r, g, b }),
    {
        Color { r, g, b }
    }

    /// A color whose three channels are drawn uniformly at random.
    pub fn random() -> Color {
        Color { r: random_byte(), g: random_byte(), b: random_byte() }
    }
}

} // verus!
