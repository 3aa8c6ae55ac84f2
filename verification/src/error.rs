//! The ways in which a drawing or encoding call can fail.

use vstd::prelude::*;

verus! {

/// Why a call was refused. A refused drawing call leaves the image untouched.
#[derive(Debug, Clone, Copy, PartialEq, Eq, Structural)]
pub enum ImageError {
    /// A single pixel was addressed outside the image.
    OutOfBounds,
    /// A stroke is thicker than the shape it outlines.
    Geometry,
    /// The bytes handed in as a font are not a font.
    Font,
    /// The encoded bytes could not be produced.
    Encode,
}

} // verus!
