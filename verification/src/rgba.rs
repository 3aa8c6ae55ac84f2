//! The colour value every pixel holds.

use vstd::prelude::*;

verus! {

/// A colour with four independent 8-bit channels in straight (non-premultiplied) form.
/// An alpha of 0 is fully transparent, 255 fully opaque.
#[derive(Debug, Clone, Copy, PartialEq, Eq, Structural)]
pub struct Rgba {
    pub r: u8,
    pub g: u8,
    pub b: u8,
    pub a: u8,
}

/// Fully transparent black, the colour of every pixel of a fresh image.
pub open spec fn transparent() -> Rgba {
    Rgba { r: 0, g: 0, b: 0, a: 0 }
}

/// The four bytes that stand for one pixel in a byte stream: red, green, blue, alpha.
pub open spec fn channels(color: Rgba) -> Seq<u8> {
    seq![color.r, color.g, color.b, color.a]
}

impl Rgba {
    /// Builds a colour from its four channels.
    pub fn new(r: u8, g: u8, b: u8, a: u8) -> (color: Self)
        ensures
            color == (Rgba { r, g, b, a }),
    {
        Rgba { r, g, b, a }
    }

    /// The channels in the order red, green, blue, alpha.
    pub fn to_array(&self) -> (bytes: [u8; 4])
        ensures
            bytes@ == channels(*self),
    {
        let bytes = [self.r, self.g, self.b, self.a];
        assert(bytes@ =~= channels(*self));
        bytes
    }
}

impl Default for Rgba {
    /// Transparent black.
    fn default() -> (color: Self)
        ensures
            color == transparent(),
    {
        Rgba { r: 0, g: 0, b: 0, a: 0 }
    }
}

} // verus!
