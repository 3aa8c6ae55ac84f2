//! The formats an image can be written in.

use vstd::prelude::*;
use crate::canvas::Canvas;
use crate::codecs::png::{encode_to_png, encoded};
use crate::error::ImageError;

pub mod png;

verus! {

/// A format for encoded images.
#[derive(Debug, Clone, Copy, PartialEq, Eq, Structural)]
pub enum Codecs {
    /// Portable Network Graphics, 8-bit truecolour with alpha.
    PNG,
}

impl Canvas {
    /// The image of the canvas as a file of the given format, ready to be written out.
    /// Succeeds exactly where the encoder of the format does.
    pub fn encode(&self, codec: Codecs) -> (result: Result<Vec<u8>, ImageError>)
        ensures
            match encoded(self.image.width(), self.image.height(), self.image@) {
                Some(stream) => result matches Ok(bytes) && bytes@ == stream,
                None => result == Err::<Vec<u8>, ImageError>(ImageError::Encode),
            },
    {
        match codec {
            Codecs::PNG => encode_to_png(&self.image),
        }
    }
}

} // verus!
