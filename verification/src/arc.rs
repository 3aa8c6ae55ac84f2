//! Arcs: the part of a disc, or of the outline of a circle, between two angles.

use vstd::prelude::*;
use crate::canvas::{ring_painted_where, Canvas};
use crate::rgba::Rgba;
use crate::rgba_image::painted;
use crate::shape::{filled_arc_covers, on_eighths, stroke_arc_covers};

verus! {

impl Canvas {
    /// Paints the pixels of the ring between the radii `inner` and `outer` around
    /// `(cx, cy)` that pass a test of the caller. The test is asked once for every pixel of
    /// the ring that lies inside the image, with the offset of the pixel from the centre,
    /// column first. This is the scan that the arcs share; with it an arc can be drawn
    /// whose angle test is not one of whole numbers.
    pub fn draw_ring_where<F: Fn(i64, i64) -> bool>(
        &mut self,
        cx: u32,
        cy: u32,
        inner: u32,
        outer: u32,
        color: Rgba,
        passes: F,
    ) -> (canvas: &mut Self)
        requires
            forall|dx: i64, dy: i64|
                -outer <= dx <= outer && -outer <= dy <= outer ==> call_requires(passes, (dx, dy)),
        ensures
            canvas.image.width() == old(self).image.width(),
            canvas.image.height() == old(self).image.height(),
            ring_painted_where(
                old(self).image@,
                canvas.image@,
                cx as int,
                cy as int,
                inner as int,
                outer as int,
                color,
                passes,
            ),
            *final(self) == *final(canvas),
    {
        self.paint_ring_where(cx as i64, cy as i64, inner, outer, color, passes);
        self
    }

    /// Fills the part of the disc of the given radius around `(cx, cy)` that lies between
    /// `start_angle` and `end_angle` degrees. Angles start at the positive x axis and grow
    /// towards the positive y axis, which points down the image. With `start_angle` above
    /// `end_angle` the arc wraps around 0.
    ///
    /// Both angles have to be multiples of 45 degrees: for these the angle test on pixel
    /// positions is exact in integers.
    pub fn draw_filled_arc(
        &mut self,
        cx: u32,
        cy: u32,
        radius: u32,
        color: Rgba,
        start_angle: u32,
        end_angle: u32,
    ) -> (canvas: &mut Self)
        requires
            on_eighths(start_angle as int, end_angle as int),
        ensures
            canvas.image.width() == old(self).image.width(),
            canvas.image.height() == old(self).image.height(),
            canvas.image@ == painted(
                old(self).image@,
                |px: int, py: int|
                    filled_arc_covers(
                        cx as int,
                        cy as int,
                        radius as int,
                        start_angle as int,
                        end_angle as int,
                        px,
                        py,
                    ),
                color,
            ),
            *final(self) == *final(canvas),
    {
        let ghost before = self.image@;
        self.paint_sector(cx as i64, cy as i64, 0, radius, start_angle, end_angle, color);
        proof {
            assert(self.image@ =~~= painted(
                before,
                |px: int, py: int|
                    filled_arc_covers(
                        cx as int,
                        cy as int,
                        radius as int,
                        start_angle as int,
                        end_angle as int,
                        px,
                        py,
                    ),
                color,
            ));
        }
        self
    }

    /// Draws the part of the outline of the circle of the given radius around `(cx, cy)`
    /// that lies between `start_angle` and `end_angle` degrees. The outline reaches inwards
    /// by `thickness`, and to the centre where it is at least as thick as the radius.
    ///
    /// Both angles have to be multiples of 45 degrees: for these the angle test on pixel
    /// positions is exact in integers.
    pub fn draw_stroke_arc(
        &mut self,
        cx: u32,
        cy: u32,
        radius: u32,
        thickness: u32,
        color: Rgba,
        start_angle: u32,
        end_angle: u32,
    ) -> (canvas: &mut Self)
        requires
            on_eighths(start_angle as int, end_angle as int),
        ensures
            canvas.image.width() == old(self).image.width(),
            canvas.image.height() == old(self).image.height(),
            canvas.image@ == painted(
                old(self).image@,
                |px: int, py: int|
                    stroke_arc_covers(
                        cx as int,
                        cy as int,
                        radius as int,
                        thickness as int,
                        start_angle as int,
                        end_angle as int,
                        px,
                        py,
                    ),
                color,
            ),
            *final(self) == *final(canvas),
    {
        let inner = if thickness >= radius {
            0
        } else {
            radius - thickness
        };
        let ghost before = self.image@;
        self.paint_sector(cx as i64, cy as i64, inner, radius, start_angle, end_angle, color);
        proof {
            assert(self.image@ =~~= painted(
                before,
                |px: int, py: int|
                    stroke_arc_covers(
                        cx as int,
                        cy as int,
                        radius as int,
                        thickness as int,
                        start_angle as int,
                        end_angle as int,
                        px,
                        py,
                    ),
                color,
            ));
        }
        self
    }
}

} // verus!
