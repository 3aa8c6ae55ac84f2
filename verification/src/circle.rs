//! Circles: filled and outlined.

use vstd::prelude::*;
use crate::canvas::Canvas;
use crate::error::ImageError;
use crate::rgba::Rgba;
use crate::rgba_image::painted;
use crate::shape::{
    disc_covers, inner_radius, lemma_full_stroke_is_disc, lemma_square_bounds, ring_covers,
    sector_covers,
};

verus! {

/// What drawing the outline of a circle hands back: the canvas together with the circle
/// just outlined, so that its interior can be filled in one further call.
///
/// The handle borrows the canvas. What is drawn through the handle is drawn on that
/// canvas: once the handle is let go, the canvas is as the handle left it. The contracts
/// say so by tying the final value of `canvas` here to the final value of the canvas that
/// was borrowed.
pub struct StrokeCircle<'a> {
    pub canvas: &'a mut Canvas,
    pub cx: u32,
    pub cy: u32,
    pub radius: u32,
    pub thickness: u32,
}

impl<'a> StrokeCircle<'a> {
    /// Ties a circle and the thickness of its outline to the canvas it is drawn on.
    pub fn new(
        canvas: &'a mut Canvas,
        cx: u32,
        cy: u32,
        radius: u32,
        thickness: u32,
    ) -> (handle: Self)
        ensures
            *handle.canvas == *old(canvas),
            *final(handle.canvas) == *final(canvas),
            handle.cx == cx,
            handle.cy == cy,
            handle.radius == radius,
            handle.thickness == thickness,
    {
        StrokeCircle { canvas, cx, cy, radius, thickness }
    }

    /// Fills the interior of the circle: the disc around the same centre whose radius is
    /// that of the circle less the thickness of the outline, and 0 where the outline is at
    /// least as thick as the radius.
    pub fn fill(&mut self, color: Rgba) -> (handle: &mut Self)
        ensures
            handle.canvas.image.width() == old(self).canvas.image.width(),
            handle.canvas.image.height() == old(self).canvas.image.height(),
            handle.canvas.image@ == painted(
                old(self).canvas.image@,
                |px: int, py: int|
                    disc_covers(
                        old(self).cx as int,
                        old(self).cy as int,
                        inner_radius(old(self).radius as int, old(self).thickness as int),
                        px,
                        py,
                    ),
                color,
            ),
            *final(handle.canvas) == *final(old(self).canvas),
            handle.cx == old(self).cx,
            handle.cy == old(self).cy,
            handle.radius == old(self).radius,
            handle.thickness == old(self).thickness,
            *final(self) == *final(handle),
    {
        let interior = if self.thickness >= self.radius {
            0
        } else {
            self.radius - self.thickness
        };
        self.canvas.draw_filled_circle(self.cx, self.cy, interior, color);
        self
    }

    /// Hands the canvas back, for further drawing.
    pub fn to_canvas(&mut self) -> (canvas: &mut Canvas)
        ensures
            *canvas == *old(self).canvas,
            *final(self).canvas == *final(canvas),
            *final(final(self).canvas) == *final(old(self).canvas),
            final(self).cx == old(self).cx,
            final(self).cy == old(self).cy,
            final(self).radius == old(self).radius,
            final(self).thickness == old(self).thickness,
    {
        self.canvas
    }
}

impl Canvas {
    /// Fills the disc of the given radius around `(cx, cy)`: every pixel whose distance
    /// from the centre is at most the radius. What of it lies outside the image is left
    /// out; that is no error.
    pub fn draw_filled_circle(
        &mut self,
        cx: u32,
        cy: u32,
        radius: u32,
        color: Rgba,
    ) -> (canvas: &mut Self)
        ensures
            canvas.image.width() == old(self).image.width(),
            canvas.image.height() == old(self).image.height(),
            canvas.image@ == painted(
                old(self).image@,
                |px: int, py: int| disc_covers(cx as int, cy as int, radius as int, px, py),
                color,
            ),
            *final(self) == *final(canvas),
    {
        let ghost before = self.image@;
        self.paint_sector(cx as i64, cy as i64, 0, radius, 0, 360, color);
        proof {
            assert forall|px: int, py: int| #[trigger]
                disc_covers(cx as int, cy as int, radius as int, px, py) == sector_covers(
                    cx as int,
                    cy as int,
                    0,
                    radius as int,
                    0,
                    360,
                    px,
                    py,
                ) by {
                lemma_square_bounds(px - cx, 0);
                lemma_square_bounds(py - cy, 0);
            }
            assert(self.image@ =~~= painted(
                before,
                |px: int, py: int| disc_covers(cx as int, cy as int, radius as int, px, py),
                color,
            ));
        }
        self
    }

    /// Draws the outline of the circle of the given radius around `(cx, cy)`: every pixel
    /// whose distance from the centre is at most the radius and at least the radius less
    /// the thickness. Hands back the means to fill the interior. A thickness above the
    /// radius is refused, and nothing is drawn.
    pub fn draw_stroke_circle<'a>(
        &'a mut self,
        cx: u32,
        cy: u32,
        radius: u32,
        thickness: u32,
        color: Rgba,
    ) -> (result: Result<StrokeCircle<'a>, ImageError>)
        ensures
            match result {
                Ok(handle) => {
                    &&& thickness <= radius
                    &&& handle.canvas.image.width() == old(self).image.width()
                    &&& handle.canvas.image.height() == old(self).image.height()
                    &&& handle.canvas.image@ == painted(
                        old(self).image@,
                        |px: int, py: int|
                            ring_covers(
                                cx as int,
                                cy as int,
                                radius as int,
                                thickness as int,
                                px,
                                py,
                            ),
                        color,
                    )
                    &&& thickness == radius ==> handle.canvas.image@ == painted(
                        old(self).image@,
                        |px: int, py: int| disc_covers(cx as int, cy as int, radius as int, px, py),
                        color,
                    )
                    &&& handle.cx == cx
                    &&& handle.cy == cy
                    &&& handle.radius == radius
                    &&& handle.thickness == thickness
                    &&& *final(self) == *final(handle.canvas)
                },
                Err(error) => {
                    &&& error == ImageError::Geometry
                    &&& thickness > radius
                    &&& *final(self) == *old(self)
                },
            },
    {
        if thickness > radius {
            return Err(ImageError::Geometry);
        }
        let ghost before = self.image@;
        self.paint_sector(cx as i64, cy as i64, radius - thickness, radius, 0, 360, color);
        proof {
            assert(self.image@ =~~= painted(
                before,
                |px: int, py: int|
                    ring_covers(cx as int, cy as int, radius as int, thickness as int, px, py),
                color,
            ));
            lemma_full_stroke_is_disc(before, cx as int, cy as int, radius as int, color);
        }
        Ok(StrokeCircle::new(self, cx, cy, radius, thickness))
    }
}

} // verus!
