//! Colors as raw channel values.

use vstd::prelude::*;

verus! {

/// A color represented as a 24-bit RGB value: three independent 8-bit
/// channels, a pure value with no further invariant.
#[derive(Copy, Clone, Debug, PartialEq, Eq, Structural)]
pub struct Rgb24 {
    /// The red component of the color.
    pub r: u8,
    /// The green component of the color.
    pub g: u8,
    /// The blue component of the color.
    pub b: u8,
}

impl Rgb24 {
    /// Create a new `Rgb24` color from its three channel values.
    pub fn new(r: u8, g: u8, b: u8) -> (c: Rgb24)
        ensures
            c.r == r,
            c.g == g,
            c.b == b,
    {
        Rgb24 { r, g, b }
    }
}

} // verus!
