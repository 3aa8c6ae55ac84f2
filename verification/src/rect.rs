//! Rectangles: filled, outlined, and with rounded corners.

use vstd::prelude::*;
use crate::canvas::Canvas;
use crate::error::ImageError;
use crate::rgba::Rgba;
use crate::rgba_image::painted;
use crate::shape::{
    corner_radius, lemma_rounded_rect_parts_inside, lemma_square_bounds,
    lemma_stroke_rect_without_thickness, rect_covers, rounded_rect_covers, rounded_rect_parts,
    rounded_stroke_rect_covers, stroke_arc_covers, stroke_rect_covers,
};

verus! {

/// What drawing the outline of a rectangle hands back: the canvas together with the
/// rectangle just outlined, so that its interior can be filled in one further call.
///
/// The handle borrows the canvas. What is drawn through the handle is drawn on that
/// canvas: once the handle is let go, the canvas is as the handle left it. The contracts
/// say so by tying the final value of `canvas` here to the final value of the canvas that
/// was borrowed.
pub struct StrokeRect<'a> {
    pub canvas: &'a mut Canvas,
    pub thickness: u32,
    pub x: u32,
    pub y: u32,
    pub width: u32,
    pub height: u32,
}

/// The smaller of two numbers.
fn smaller(a: u32, b: u32) -> (least: u32)
    ensures
        least == if a <= b {
            a
        } else {
            b
        },
{
    if a <= b {
        a
    } else {
        b
    }
}

/// What drawing a rounded outline paints: the parts of the outline, with bands that reach
/// no further into the rectangle than the rectangle goes.
spec fn drawn_stroke_parts(
    x: int,
    y: int,
    width: int,
    height: int,
    thickness: int,
    radius: int,
    px: int,
    py: int,
) -> bool {
    let r = corner_radius(radius, width, height);
    let across = if thickness <= height {
        thickness
    } else {
        height
    };
    let along = if thickness <= width {
        thickness
    } else {
        width
    };
    let left = x + r;
    let right = x + width - r - 1;
    let top = y + r;
    let bottom = y + height - r - 1;
    ||| (2 * r < width && rect_covers(x + r, y, width - 2 * r, across, px, py))
    ||| (2 * r < width && rect_covers(x + r, y + height - across, width - 2 * r, across, px, py))
    ||| (2 * r < height && rect_covers(x, y + r, along, height - 2 * r, px, py))
    ||| (2 * r < height && rect_covers(x + width - along, y + r, along, height - 2 * r, px, py))
    ||| stroke_arc_covers(left, top, r, thickness, 180, 270, px, py)
    ||| stroke_arc_covers(right, top, r, thickness, 270, 360, px, py)
    ||| stroke_arc_covers(left, bottom, r, thickness, 90, 180, px, py)
    ||| stroke_arc_covers(right, bottom, r, thickness, 0, 90, px, py)
}

/// What drawing a rounded outline paints is the outline: its parts, as far as they lie
/// inside the rectangle.
proof fn lemma_drawn_stroke_parts(
    x: int,
    y: int,
    width: int,
    height: int,
    thickness: int,
    radius: int,
    px: int,
    py: int,
)
    requires
        width >= 1,
        height >= 1,
        radius >= 0,
        thickness >= 0,
    ensures
        drawn_stroke_parts(x, y, width, height, thickness, radius, px, py)
            == rounded_stroke_rect_covers(x, y, width, height, thickness, radius, px, py),
{
    let r = corner_radius(radius, width, height);
    lemma_square_bounds(px - (x + r), r);
    lemma_square_bounds(py - (y + r), r);
    lemma_square_bounds(px - (x + width - r - 1), r);
    lemma_square_bounds(py - (y + height - r - 1), r);
}

impl<'a> StrokeRect<'a> {
    /// Ties a rectangle and the thickness of its outline to the canvas it is drawn on.
    pub fn new(
        canvas: &'a mut Canvas,
        thickness: u32,
        x: u32,
        y: u32,
        width: u32,
        height: u32,
    ) -> (handle: Self)
        ensures
            *handle.canvas == *old(canvas),
            *final(handle.canvas) == *final(canvas),
            handle.thickness == thickness,
            handle.x == x,
            handle.y == y,
            handle.width == width,
            handle.height == height,
    {
        StrokeRect { canvas, thickness, x, y, width, height }
    }

    /// Fills the interior of the rectangle: the rectangle inset by the thickness of the
    /// outline on all four sides. Where the outline leaves no interior, nothing is drawn.
    pub fn fill(&mut self, color: Rgba)
        ensures
            final(self).canvas.image.width() == old(self).canvas.image.width(),
            final(self).canvas.image.height() == old(self).canvas.image.height(),
            final(self).canvas.image@ == painted(
                old(self).canvas.image@,
                |px: int, py: int|
                    rect_covers(
                        old(self).x + old(self).thickness,
                        old(self).y + old(self).thickness,
                        old(self).width - 2 * old(self).thickness,
                        old(self).height - 2 * old(self).thickness,
                        px,
                        py,
                    ),
                color,
            ),
            *final(final(self).canvas) == *final(old(self).canvas),
            final(self).thickness == old(self).thickness,
            final(self).x == old(self).x,
            final(self).y == old(self).y,
            final(self).width == old(self).width,
            final(self).height == old(self).height,
    {
        let inset = 2 * (self.thickness as u64);
        let inner_width: u32 = if inset <= self.width as u64 {
            (self.width as u64 - inset) as u32
        } else {
            0
        };
        let inner_height: u32 = if inset <= self.height as u64 {
            (self.height as u64 - inset) as u32
        } else {
            0
        };
        let ghost before = self.canvas.image@;
        let ghost x = self.x as int;
        let ghost y = self.y as int;
        let ghost thickness = self.thickness as int;
        let ghost width = self.width as int;
        let ghost height = self.height as int;
        self.canvas.paint_rect(
            self.x as i64 + self.thickness as i64,
            self.y as i64 + self.thickness as i64,
            inner_width,
            inner_height,
            color,
        );
        proof {
            assert(self.canvas.image@ =~~= painted(
                before,
                |px: int, py: int|
                    rect_covers(
                        x + thickness,
                        y + thickness,
                        width - 2 * thickness,
                        height - 2 * thickness,
                        px,
                        py,
                    ),
                color,
            ));
        }
    }

    /// Hands the canvas back, for further drawing.
    pub fn to_canvas(&mut self) -> (canvas: &mut Canvas)
        ensures
            *canvas == *old(self).canvas,
            *final(self).canvas == *final(canvas),
            *final(final(self).canvas) == *final(old(self).canvas),
            final(self).thickness == old(self).thickness,
            final(self).x == old(self).x,
            final(self).y == old(self).y,
            final(self).width == old(self).width,
            final(self).height == old(self).height,
    {
        self.canvas
    }
}

impl Canvas {
    /// Fills the rectangle whose top-left pixel is `(x, y)`. What of it lies outside the
    /// image is left out; that is no error.
    pub fn draw_filled_rect(
        &mut self,
        x: u32,
        y: u32,
        width: u32,
        height: u32,
        color: Rgba,
    ) -> (canvas: &mut Self)
        ensures
            canvas.image.width() == old(self).image.width(),
            canvas.image.height() == old(self).image.height(),
            canvas.image@ == painted(
                old(self).image@,
                |px: int, py: int|
                    rect_covers(x as int, y as int, width as int, height as int, px, py),
                color,
            ),
            *final(self) == *final(canvas),
    {
        self.paint_rect(x as i64, y as i64, width, height, color);
        self
    }

    /// Draws the outline of the rectangle at `(x, y)` as four bands of the given thickness
    /// along its sides, and hands back the means to fill its interior. A thickness above
    /// the width or the height of the rectangle is refused, and nothing is drawn.
    pub fn draw_stroke_rect<'a>(
        &'a mut self,
        x: u32,
        y: u32,
        width: u32,
        height: u32,
        thickness: u32,
        color: Rgba,
    ) -> (result: Result<StrokeRect<'a>, ImageError>)
        ensures
            match result {
                Ok(handle) => {
                    &&& thickness <= width
                    &&& thickness <= height
                    &&& handle.canvas.image.width() == old(self).image.width()
                    &&& handle.canvas.image.height() == old(self).image.height()
                    &&& handle.canvas.image@ == painted(
                        old(self).image@,
                        |px: int, py: int|
                            stroke_rect_covers(
                                x as int,
                                y as int,
                                width as int,
                                height as int,
                                thickness as int,
                                px,
                                py,
                            ),
                        color,
                    )
                    &&& thickness == 0 ==> handle.canvas.image@ == old(self).image@
                    &&& handle.thickness == thickness
                    &&& handle.x == x
                    &&& handle.y == y
                    &&& handle.width == width
                    &&& handle.height == height
                    &&& *final(self) == *final(handle.canvas)
                },
                Err(error) => {
                    &&& error == ImageError::Geometry
                    &&& (thickness > width || thickness > height)
                    &&& *final(self) == *old(self)
                },
            },
    {
        if thickness > width || thickness > height {
            return Err(ImageError::Geometry);
        }
        let ghost before = self.image@;
        proof {
            self.image.lemma_view_is_grid();
        }
        self.paint_rect(x as i64, y as i64, width, thickness, color);
        self.paint_rect(x as i64, y as i64 + (height - thickness) as i64, width, thickness, color);
        self.paint_rect(x as i64, y as i64, thickness, height, color);
        self.paint_rect(x as i64 + (width - thickness) as i64, y as i64, thickness, height, color);
        proof {
            assert(self.image@ =~~= painted(
                before,
                |px: int, py: int|
                    stroke_rect_covers(
                        x as int,
                        y as int,
                        width as int,
                        height as int,
                        thickness as int,
                        px,
                        py,
                    ),
                color,
            ));
            lemma_stroke_rect_without_thickness(
                before,
                x as int,
                y as int,
                width as int,
                height as int,
                color,
            );
        }
        Ok(StrokeRect::new(self, thickness, x, y, width, height))
    }

    /// Fills the rectangle at `(x, y)` with rounded corners. The radius of the corners is
    /// the one given, but at most half the width and half the height. A rectangle without
    /// width or without height has no pixels, and nothing is drawn.
    pub fn draw_rounded_filled_rect(
        &mut self,
        x: u32,
        y: u32,
        width: u32,
        height: u32,
        radius: u32,
        color: Rgba,
    ) -> (canvas: &mut Self)
        ensures
            canvas.image.width() == old(self).image.width(),
            canvas.image.height() == old(self).image.height(),
            canvas.image@ == painted(
                old(self).image@,
                |px: int, py: int|
                    rounded_rect_covers(
                        x as int,
                        y as int,
                        width as int,
                        height as int,
                        radius as int,
                        px,
                        py,
                    ),
                color,
            ),
            *final(self) == *final(canvas),
    {
        let ghost before = self.image@;
        proof {
            self.image.lemma_view_is_grid();
        }
        if width == 0 || height == 0 {
            proof {
                assert(self.image@ =~~= painted(
                    before,
                    |px: int, py: int|
                        rounded_rect_covers(
                            x as int,
                            y as int,
                            width as int,
                            height as int,
                            radius as int,
                            px,
                            py,
                        ),
                    color,
                ));
            }
            return self;
        }
        let asked = radius;
        let radius = smaller(smaller(radius, width / 2), height / 2);
        let left = x as i64 + radius as i64;
        let right = x as i64 + width as i64 - radius as i64 - 1;
        let top = y as i64 + radius as i64;
        let bottom = y as i64 + height as i64 - radius as i64 - 1;
        self.paint_rect(left, y as i64, width - 2 * radius, height, color);
        self.paint_rect(x as i64, top, radius, height - 2 * radius, color);
        self.paint_rect(right + 1, top, radius, height - 2 * radius, color);
        self.paint_sector(left, top, 0, radius, 180, 270, color);
        self.paint_sector(right, top, 0, radius, 270, 360, color);
        self.paint_sector(left, bottom, 0, radius, 90, 180, color);
        self.paint_sector(right, bottom, 0, radius, 0, 90, color);
        proof {
            self.image.lemma_view_is_grid();
            assert forall|px: int, py: int|
                0 <= py < self.image.height() && 0 <= px < self.image.width() implies #[trigger]
                self.image@[py][px] == if rounded_rect_covers(
                    x as int,
                    y as int,
                    width as int,
                    height as int,
                    asked as int,
                    px,
                    py,
                ) {
                    color
                } else {
                    before[py][px]
                } by {
                if rounded_rect_parts(
                    x as int,
                    y as int,
                    width as int,
                    height as int,
                    asked as int,
                    px,
                    py,
                ) {
                    lemma_rounded_rect_parts_inside(
                        x as int,
                        y as int,
                        width as int,
                        height as int,
                        asked as int,
                        px,
                        py,
                    );
                }
            }
            assert(self.image@ =~~= painted(
                before,
                |px: int, py: int|
                    rounded_rect_covers(
                        x as int,
                        y as int,
                        width as int,
                        height as int,
                        asked as int,
                        px,
                        py,
                    ),
                color,
            ));
        }
        self
    }

    /// Draws the outline of the rectangle at `(x, y)` with rounded corners. The radius of
    /// the corners is the one given, but at most half the width and half the height. The
    /// outline stays inside the rectangle however thick it is; for a rectangle without
    /// width or without height nothing is drawn.
    pub fn draw_rounded_stroke_rect(
        &mut self,
        x: u32,
        y: u32,
        width: u32,
        height: u32,
        thickness: u32,
        radius: u32,
        color: Rgba,
    ) -> (canvas: &mut Self)
        ensures
            canvas.image.width() == old(self).image.width(),
            canvas.image.height() == old(self).image.height(),
            canvas.image@ == painted(
                old(self).image@,
                |px: int, py: int|
                    rounded_stroke_rect_covers(
                        x as int,
                        y as int,
                        width as int,
                        height as int,
                        thickness as int,
                        radius as int,
                        px,
                        py,
                    ),
                color,
            ),
            *final(self) == *final(canvas),
    {
        let ghost before = self.image@;
        proof {
            self.image.lemma_view_is_grid();
        }
        if width == 0 || height == 0 {
            proof {
                assert(self.image@ =~~= painted(
                    before,
                    |px: int, py: int|
                        rounded_stroke_rect_covers(
                            x as int,
                            y as int,
                            width as int,
                            height as int,
                            thickness as int,
                            radius as int,
                            px,
                            py,
                        ),
                    color,
                ));
            }
            return self;
        }
        let asked = radius;
        let radius = smaller(smaller(radius, width / 2), height / 2);
        let inner = if thickness >= radius {
            0
        } else {
            radius - thickness
        };
        // A band reaches no further into the rectangle than the rectangle goes.
        let across = smaller(thickness, height);
        let along = smaller(thickness, width);
        let left = x as i64 + radius as i64;
        let right = x as i64 + width as i64 - radius as i64 - 1;
        let top = y as i64 + radius as i64;
        let bottom = y as i64 + height as i64 - radius as i64 - 1;
        if radius as u64 * 2 < width as u64 {
            self.paint_rect(left, y as i64, width - 2 * radius, across, color);
            self.paint_rect(
                left,
                y as i64 + height as i64 - across as i64,
                width - 2 * radius,
                across,
                color,
            );
        }
        if radius as u64 * 2 < height as u64 {
            self.paint_rect(x as i64, top, along, height - 2 * radius, color);
            self.paint_rect(
                x as i64 + width as i64 - along as i64,
                top,
                along,
                height - 2 * radius,
                color,
            );
        }
        self.paint_sector(left, top, inner, radius, 180, 270, color);
        self.paint_sector(right, top, inner, radius, 270, 360, color);
        self.paint_sector(left, bottom, inner, radius, 90, 180, color);
        self.paint_sector(right, bottom, inner, radius, 0, 90, color);
        proof {
            assert(self.image@ =~~= painted(
                before,
                |px: int, py: int|
                    drawn_stroke_parts(
                        x as int,
                        y as int,
                        width as int,
                        height as int,
                        thickness as int,
                        asked as int,
                        px,
                        py,
                    ),
                color,
            ));
            assert forall|px: int, py: int| #[trigger]
                drawn_stroke_parts(
                    x as int,
                    y as int,
                    width as int,
                    height as int,
                    thickness as int,
                    asked as int,
                    px,
                    py,
                ) == rounded_stroke_rect_covers(
                    x as int,
                    y as int,
                    width as int,
                    height as int,
                    thickness as int,
                    asked as int,
                    px,
                    py,
                ) by {
                lemma_drawn_stroke_parts(
                    x as int,
                    y as int,
                    width as int,
                    height as int,
                    thickness as int,
                    asked as int,
                    px,
                    py,
                );
            }
            assert(self.image@ =~~= painted(
                before,
                |px: int, py: int|
                    rounded_stroke_rect_covers(
                        x as int,
                        y as int,
                        width as int,
                        height as int,
                        thickness as int,
                        asked as int,
                        px,
                        py,
                    ),
                color,
            ));
        }
        self
    }
}

} // verus!
