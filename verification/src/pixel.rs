use vstd::prelude::*;

verus! {

/// One color pixel: four channels of 8 bits each, in R, G, B, A order.
/// Copied by value; equality is exact byte equality on all four channels.
#[derive(Clone, Copy, PartialEq, Eq, Structural, Debug)]
pub struct Pixel {
    pub r: u8,
    pub g: u8,
    pub b: u8,
    pub a: u8,
}

/// The channel-zero default pixel ("transparent black"): the value the grid
/// resizer writes into freshly inserted gutter space.
pub open spec fn blank_pixel() -> Pixel {
    Pixel { r: 0, g: 0, b: 0, a: 0 }
}

impl Pixel {
    /// Builds the transparent-black pixel that fills inserted gutter space.
    pub fn blank() -> (p: Pixel)
        ensures
            p == blank_pixel(),
    {
        Pixel { r: 0, g: 0, b: 0, a: 0 }
    }
}

} // verus!
