//! Draws simple shapes and text onto an in-memory RGBA image and encodes the image as PNG.
//!
//! A [`Canvas`] owns one [`RgbaImage`]. Every drawing operation changes that image in
//! place and hands the canvas back, so that calls can be chained; drawing the outline of
//! a rectangle or of a circle hands back a short-lived handle with which the interior
//! can be filled in a second colour.
//!
//! # How the contracts are stated
//!
//! The view `image@` of an image is a grid: a sequence of rows from top to bottom, each a
//! sequence of colours from left to right. A shape is a predicate on pixel positions
//! (module [`shape`]); drawing a shape in a colour gives
//! `painted(grid, shape, colour)`: the pixels of the grid that the shape selects take
//! the colour, all others keep theirs. Positions and extents in these predicates are
//! unbounded integers, so a shape may reach beyond the image on any side, and nothing in
//! the library can overflow.
//!
//! Shapes are not anti-aliased. Text is: the pixels of its glyphs come with an alpha,
//! and are laid over the image by "source over" compositing (module [`text`]).
//!
//! The encoder (module [`codecs::png`]) states the PNG stream byte by byte, up to two
//! functions that it calls and only names: the CRC-32 checksum and the zlib compressor.
//! Encoding succeeds exactly where the compressor does and its output fits one chunk.
//! These calls, and the few others whose contracts are taken on trust, stand together in
//! module [`outside`].

pub mod arc;
pub mod canvas;
pub mod cells;
pub mod circle;
pub mod codecs;
pub mod commands;
pub mod error;
pub mod naming;
pub mod outside;
pub mod rect;
pub mod rgba;
pub mod rgba_image;
pub mod shape;
pub mod text;

pub use canvas::Canvas;
pub use circle::StrokeCircle;
pub use codecs::Codecs;
pub use error::ImageError;
pub use rect::StrokeRect;
pub use rgba::Rgba;
pub use rgba_image::RgbaImage;
