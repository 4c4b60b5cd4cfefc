//! Colours as the renderer receives them.

use vstd::prelude::*;

verus! {

/// An opaque colour, one byte per channel.
#[derive(Clone, Copy, Debug, PartialEq, Eq, Structural)]
pub struct Rgb {
    pub r: u8,
    pub g: u8,
    pub b: u8,
}

impl Rgb {
    pub open spec fn white_spec() -> Rgb {
        Rgb { r: 255, g: 255, b: 255 }
    }

    pub open spec fn blue_spec() -> Rgb {
        Rgb { r: 0, g: 0, b: 255 }
    }

    /// The colour with the channels `r`, `g` and `b`.
    pub fn from_rgb(r: u8, g: u8, b: u8) -> (c: Rgb)
        ensures
            c == (Rgb { r, g, b }),
    {
        Rgb { r, g, b }
    }

    #[verifier::when_used_as_spec(white_spec)]
    pub fn white() -> (c: Rgb)
        ensures
            c == Rgb::white_spec(),
    {
        Rgb { r: 255, g: 255, b: 255 }
    }

    #[verifier::when_used_as_spec(blue_spec)]
    pub fn blue() -> (c: Rgb)
        ensures
            c == Rgb::blue_spec(),
    {
        Rgb { r: 0, g: 0, b: 255 }
    }
}

} // verus!
