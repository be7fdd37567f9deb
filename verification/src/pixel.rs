//! Colour values of the frame buffer.

use vstd::prelude::*;

verus! {

/// One cell of the frame buffer: red, green, blue and alpha, one byte each.
#[derive(Clone, Copy, Debug, PartialEq, Eq, Structural)]
pub struct Pixel {
    pub r: u8,
    pub g: u8,
    pub b: u8,
    pub a: u8,
}

impl Pixel {
    /// Opaque black.
    pub fn _black() -> (p: Pixel)
        ensures
            p == (Pixel { r: 0, g: 0, b: 0, a: 255 }),
    {
        Pixel { r: 0, g: 0, b: 0, a: 255 }
    }

    /// Opaque white, the colour of every drawn edge.
    pub fn white() -> (p: Pixel)
        ensures
            p == Pixel::spec_white(),
    {
        Pixel { r: 255, g: 255, b: 255, a: 255 }
    }

    /// Opaque white as a specification value.
    pub open spec fn spec_white() -> Pixel {
        Pixel { r: 255, g: 255, b: 255, a: 255 }
    }
}

} // verus!
