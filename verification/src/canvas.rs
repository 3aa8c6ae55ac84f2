//! The canvas: one image and the drawing operations that change it.

use vstd::prelude::*;
use crate::error::ImageError;
use crate::rgba::Rgba;
use crate::rgba_image::{blank, is_grid, painted, with_pixel, Grid, RgbaImage};
use crate::shape::{
    angle_in_range, annulus_covers, direction, lemma_square_bounds, on_eighths, rect_covers,
    sector_covers,
};

verus! {

/// A drawing surface. It owns its image for as long as it lives; every drawing operation
/// changes that image in place.
///
/// The operations that cannot fail hand the canvas back, so that calls can be chained.
/// Their contracts name what they hand back `canvas`: it holds the image with the shape
/// drawn, and whatever is drawn through it later is drawn on this canvas
/// (`*final(self) == *final(canvas)`).
#[derive(Debug, Clone)]
pub struct Canvas {
    pub image: RgbaImage,
}

/// The largest distance from the origin at which the private painting routines accept the
/// corner of a rectangle or the centre of a circle. Every position that is made of a few
/// sums of `u32` values lies well inside.
pub(crate) const REACH: i64 = 0x100_0000_0000;

/// `value`, brought into the range from 0 to `limit`.
spec fn clamped(value: int, limit: int) -> int {
    if value < 0 {
        0
    } else if value > limit {
        limit
    } else {
        value
    }
}

/// `value`, brought into the range from 0 to `limit`.
fn clamp(value: i64, limit: u32) -> (result: u32)
    ensures
        result == clamped(value as int, limit as int),
{
    if value < 0 {
        0
    } else if value > limit as i64 {
        limit
    } else {
        value as u32
    }
}

/// The square of `value`, in a type wide enough to hold it.
fn square(value: i64) -> (squared: i128)
    requires
        -REACH <= value <= REACH,
    ensures
        squared == value * value,
        0 <= squared <= REACH * REACH,
{
    proof {
        assert(0 <= value * value <= REACH * REACH) by (nonlinear_arith)
            requires
                -REACH <= value <= REACH,
        ;
    }
    (value as i128) * (value as i128)
}

/// The step on the circle of the direction of `(dx, dy)`.
fn direction_of(dx: i64, dy: i64) -> (step: u32)
    requires
        -REACH <= dx <= REACH,
        -REACH <= dy <= REACH,
    ensures
        step == direction(dx as int, dy as int),
{
    if dy == 0 {
        if dx >= 0 {
            0
        } else {
            8
        }
    } else if dy > 0 {
        if dx > dy {
            1
        } else if dx == dy {
            2
        } else if dx > 0 {
            3
        } else if dx == 0 {
            4
        } else if -dx < dy {
            5
        } else if -dx == dy {
            6
        } else {
            7
        }
    } else {
        if dx < dy {
            9
        } else if dx == dy {
            10
        } else if dx < 0 {
            11
        } else if dx == 0 {
            12
        } else if dx < -dy {
            13
        } else if dx == -dy {
            14
        } else {
            15
        }
    }
}

/// The angle test of an arc on one offset.
fn angle_passes(dx: i64, dy: i64, start_angle: u32, end_angle: u32) -> (passes: bool)
    requires
        -REACH <= dx <= REACH,
        -REACH <= dy <= REACH,
    ensures
        passes == angle_in_range(dx as int, dy as int, start_angle as int, end_angle as int),
{
    let step = direction_of(dx, dy);
    let from = 2 * (start_angle / 45);
    let to = 2 * (end_angle / 45);
    if start_angle <= end_angle {
        from <= step && step <= to
    } else {
        step >= from || step <= to
    }
}

/// Says that `after` is what `before` becomes when every pixel of the ring between the
/// radii `inner` and `outer` around `(cx, cy)` is put to the test `passes`, by its offset
/// from the centre, and painted where the test says yes. A pixel of the ring has the
/// colour and a yes from the test, or is as it was and has a no; a pixel outside the ring
/// is as it was.
pub open spec fn ring_painted_where<F: Fn(i64, i64) -> bool>(
    before: Grid,
    after: Grid,
    cx: int,
    cy: int,
    inner: int,
    outer: int,
    color: Rgba,
    passes: F,
) -> bool {
    &&& after.len() == before.len()
    &&& forall|qy: int| 0 <= qy < before.len() ==> (#[trigger] after[qy]).len() == before[qy].len()
    &&& forall|qx: int, qy: int|
        0 <= qy < before.len() && 0 <= qx < before[qy].len() ==> if annulus_covers(
            cx,
            cy,
            inner,
            outer,
            qx,
            qy,
        ) {
            ||| (#[trigger] after[qy][qx] == color && call_ensures(
                passes,
                ((qx - cx) as i64, (qy - cy) as i64),
                true,
            ))
            ||| (after[qy][qx] == before[qy][qx] && call_ensures(
                passes,
                ((qx - cx) as i64, (qy - cy) as i64),
                false,
            ))
        } else {
            after[qy][qx] == before[qy][qx]
        }
}

impl Canvas {
    /// Creates a canvas of the given size on which every pixel is transparent black.
    pub fn new(width: u32, height: u32) -> (canvas: Self)
        requires
            width >= 1,
            height >= 1,
            width * height <= usize::MAX,
        ensures
            canvas.image.width() == width,
            canvas.image.height() == height,
            canvas.image@ == blank(width as nat, height as nat),
    {
        Canvas { image: RgbaImage::new(width, height) }
    }

    /// Sets the single pixel at column `x` of row `y`. A position outside the image is
    /// refused and nothing is drawn.
    pub fn draw_pixel(
        &mut self,
        x: u32,
        y: u32,
        color: Rgba,
    ) -> (result: Result<&mut Self, ImageError>)
        ensures
            match result {
                Ok(canvas) => {
                    &&& x < old(self).image.width()
                    &&& y < old(self).image.height()
                    &&& canvas.image.width() == old(self).image.width()
                    &&& canvas.image.height() == old(self).image.height()
                    &&& canvas.image@ == with_pixel(old(self).image@, x as int, y as int, color)
                    &&& *final(self) == *final(canvas)
                },
                Err(error) => {
                    &&& error == ImageError::OutOfBounds
                    &&& (x >= old(self).image.width() || y >= old(self).image.height())
                    &&& *final(self) == *old(self)
                },
            },
    {
        if x >= self.image.width() || y >= self.image.height() {
            return Err(ImageError::OutOfBounds);
        }
        self.image.set_pixel(x, y, color);
        Ok(self)
    }

    /// Paints the rectangle whose top-left corner is `(x, y)`, as far as it lies inside the
    /// image. The corner may lie outside the image, on any side.
    pub(crate) fn paint_rect(&mut self, x: i64, y: i64, width: u32, height: u32, color: Rgba)
        requires
            -REACH <= x <= REACH,
            -REACH <= y <= REACH,
        ensures
            final(self).image.width() == old(self).image.width(),
            final(self).image.height() == old(self).image.height(),
            final(self).image@ == painted(
                old(self).image@,
                |px: int, py: int|
                    rect_covers(x as int, y as int, width as int, height as int, px, py),
                color,
            ),
    {
        let image_width = self.image.width();
        let image_height = self.image.height();
        let x_lo = clamp(x, image_width);
        let x_hi = clamp(x + width as i64, image_width);
        let y_lo = clamp(y, image_height);
        let y_hi = clamp(y + height as i64, image_height);
        let ghost before = self.image@;
        proof {
            self.image.lemma_view_is_grid();
        }
        let mut py = y_lo;
        while py < y_hi
            invariant
                self.image.width() == image_width,
                self.image.height() == image_height,
                is_grid(before, image_width as nat, image_height as nat),
                is_grid(self.image@, image_width as nat, image_height as nat),
                x_lo == clamped(x as int, image_width as int),
                x_hi == clamped(x + width, image_width as int),
                y_lo == clamped(y as int, image_height as int),
                y_hi == clamped(y + height, image_height as int),
                y_lo <= py,
                py <= y_hi || y_hi <= y_lo,
                forall|qx: int, qy: int|
                    0 <= qy < image_height && 0 <= qx < image_width ==> #[trigger] self.image@[qy][qx]
                        == if rect_covers(
                        x as int,
                        y as int,
                        width as int,
                        height as int,
                        qx,
                        qy,
                    ) && qy < py {
                        color
                    } else {
                        before[qy][qx]
                    },
            decreases y_hi - py,
        {
            let mut px = x_lo;
            while px < x_hi
                invariant
                    self.image.width() == image_width,
                    self.image.height() == image_height,
                    is_grid(before, image_width as nat, image_height as nat),
                    is_grid(self.image@, image_width as nat, image_height as nat),
                    x_lo == clamped(x as int, image_width as int),
                    x_hi == clamped(x + width, image_width as int),
                    y_lo == clamped(y as int, image_height as int),
                    y_hi == clamped(y + height, image_height as int),
                    y_lo <= py < y_hi,
                    x_lo <= px,
                    px <= x_hi || x_hi <= x_lo,
                    forall|qx: int, qy: int|
                        0 <= qy < image_height && 0 <= qx < image_width
                            ==> #[trigger] self.image@[qy][qx] == if rect_covers(
                            x as int,
                            y as int,
                            width as int,
                            height as int,
                            qx,
                            qy,
                        ) && (qy < py || (qy == py && qx < px)) {
                            color
                        } else {
                            before[qy][qx]
                        },
                decreases x_hi - px,
            {
                self.image.set_pixel(px, py, color);
                proof {
                    self.image.lemma_view_is_grid();
                }
                px += 1;
            }
            py += 1;
        }
        proof {
            assert(self.image@ =~~= painted(
                before,
                |px: int, py: int|
                    rect_covers(x as int, y as int, width as int, height as int, px, py),
                color,
            ));
        }
    }

    /// Paints the pixels of the ring between the radii `inner` and `outer` around
    /// `(cx, cy)` that pass the test `passes`, as far as they lie inside the image. The
    /// centre may lie outside the image, on any side. The test is asked once for every
    /// pixel of the ring inside the image, with the offset of the pixel from the centre.
    pub(crate) fn paint_ring_where<F: Fn(i64, i64) -> bool>(
        &mut self,
        cx: i64,
        cy: i64,
        inner: u32,
        outer: u32,
        color: Rgba,
        passes: F,
    )
        requires
            -REACH <= cx <= REACH,
            -REACH <= cy <= REACH,
            forall|dx: i64, dy: i64|
                -outer <= dx <= outer && -outer <= dy <= outer ==> call_requires(passes, (dx, dy)),
        ensures
            final(self).image.width() == old(self).image.width(),
            final(self).image.height() == old(self).image.height(),
            ring_painted_where(
                old(self).image@,
                final(self).image@,
                cx as int,
                cy as int,
                inner as int,
                outer as int,
                color,
                passes,
            ),
    {
        let image_width = self.image.width();
        let image_height = self.image.height();
        let x_lo = clamp(cx - outer as i64, image_width);
        let x_hi = clamp(cx + outer as i64 + 1, image_width);
        let y_lo = clamp(cy - outer as i64, image_height);
        let y_hi = clamp(cy + outer as i64 + 1, image_height);
        let inner_sq = square(inner as i64);
        let outer_sq = square(outer as i64);
        let ghost before = self.image@;
        proof {
            self.image.lemma_view_is_grid();
            assert forall|qx: int, qy: int|
                !(cx - outer <= qx <= cx + outer && cy - outer <= qy <= cy + outer)
                    implies !#[trigger] annulus_covers(
                    cx as int,
                    cy as int,
                    inner as int,
                    outer as int,
                    qx,
                    qy,
                ) by {
                lemma_square_bounds(qx - cx, outer as int);
                lemma_square_bounds(qy - cy, outer as int);
            }
        }
        let mut py = y_lo;
        while py < y_hi
            invariant
                self.image.width() == image_width,
                self.image.height() == image_height,
                is_grid(before, image_width as nat, image_height as nat),
                is_grid(self.image@, image_width as nat, image_height as nat),
                inner_sq == inner * inner,
                outer_sq == outer * outer,
                -REACH <= cx <= REACH,
                -REACH <= cy <= REACH,
                forall|dx: i64, dy: i64|
                    -outer <= dx <= outer && -outer <= dy <= outer ==> call_requires(
                        passes,
                        (dx, dy),
                    ),
                x_lo == clamped(cx - outer, image_width as int),
                x_hi == clamped(cx + outer + 1, image_width as int),
                y_lo == clamped(cy - outer, image_height as int),
                y_hi == clamped(cy + outer + 1, image_height as int),
                y_lo <= py,
                py <= y_hi || y_hi <= y_lo,
                forall|qx: int, qy: int|
                    !(cx - outer <= qx <= cx + outer && cy - outer <= qy <= cy + outer)
                        ==> !#[trigger] annulus_covers(
                        cx as int,
                        cy as int,
                        inner as int,
                        outer as int,
                        qx,
                        qy,
                    ),
                forall|qx: int, qy: int|
                    0 <= qy < image_height && 0 <= qx < image_width ==> if annulus_covers(
                        cx as int,
                        cy as int,
                        inner as int,
                        outer as int,
                        qx,
                        qy,
                    ) && qy < py {
                        ||| (#[trigger] self.image@[qy][qx] == color && call_ensures(
                            passes,
                            ((qx - cx) as i64, (qy - cy) as i64),
                            true,
                        ))
                        ||| (self.image@[qy][qx] == before[qy][qx] && call_ensures(
                            passes,
                            ((qx - cx) as i64, (qy - cy) as i64),
                            false,
                        ))
                    } else {
                        self.image@[qy][qx] == before[qy][qx]
                    },
            decreases y_hi - py,
        {
            let mut px = x_lo;
            while px < x_hi
                invariant
                    self.image.width() == image_width,
                    self.image.height() == image_height,
                    is_grid(before, image_width as nat, image_height as nat),
                    is_grid(self.image@, image_width as nat, image_height as nat),
                    inner_sq == inner * inner,
                    outer_sq == outer * outer,
                    -REACH <= cx <= REACH,
                -REACH <= cy <= REACH,
                forall|dx: i64, dy: i64|
                    -outer <= dx <= outer && -outer <= dy <= outer ==> call_requires(
                        passes,
                        (dx, dy),
                    ),
                    x_lo == clamped(cx - outer, image_width as int),
                    x_hi == clamped(cx + outer + 1, image_width as int),
                    y_lo == clamped(cy - outer, image_height as int),
                    y_hi == clamped(cy + outer + 1, image_height as int),
                    y_lo <= py < y_hi,
                    x_lo <= px,
                    px <= x_hi || x_hi <= x_lo,
                    forall|qx: int, qy: int|
                        !(cx - outer <= qx <= cx + outer && cy - outer <= qy <= cy + outer)
                            ==> !#[trigger] annulus_covers(
                            cx as int,
                            cy as int,
                            inner as int,
                            outer as int,
                            qx,
                            qy,
                        ),
                    forall|qx: int, qy: int|
                        0 <= qy < image_height && 0 <= qx < image_width ==> if annulus_covers(
                            cx as int,
                            cy as int,
                            inner as int,
                            outer as int,
                            qx,
                            qy,
                        ) && (qy < py || (qy == py && qx < px)) {
                            ||| (#[trigger] self.image@[qy][qx] == color && call_ensures(
                                passes,
                                ((qx - cx) as i64, (qy - cy) as i64),
                                true,
                            ))
                            ||| (self.image@[qy][qx] == before[qy][qx] && call_ensures(
                                passes,
                                ((qx - cx) as i64, (qy - cy) as i64),
                                false,
                            ))
                        } else {
                            self.image@[qy][qx] == before[qy][qx]
                        },
                decreases x_hi - px,
            {
                let dx: i64 = px as i64 - cx;
                let dy: i64 = py as i64 - cy;
                let distance_sq = square(dx) + square(dy);
                let ghost drawn = self.image@;
                if inner_sq <= distance_sq && distance_sq <= outer_sq {
                    let yes = passes(dx, dy);
                    assert(call_ensures(passes, ((px - cx) as i64, (py - cy) as i64), yes));
                    if yes {
                        self.image.set_pixel(px, py, color);
                        proof {
                            self.image.lemma_view_is_grid();
                        }
                    }
                }
                proof {
                    assert forall|qx: int, qy: int|
                        0 <= qy < image_height && 0 <= qx < image_width && !(qx == px && qy
                            == py) implies #[trigger] self.image@[qy][qx] == drawn[qy][qx] by {}
                }
                px += 1;
            }
            py += 1;
        }
    }

    /// Paints the part of the ring between the radii `inner` and `outer` around `(cx, cy)`
    /// that lies between the two angles, as far as it lies inside the image. The centre may
    /// lie outside the image, on any side.
    pub(crate) fn paint_sector(
        &mut self,
        cx: i64,
        cy: i64,
        inner: u32,
        outer: u32,
        start_angle: u32,
        end_angle: u32,
        color: Rgba,
    )
        requires
            -REACH <= cx <= REACH,
            -REACH <= cy <= REACH,
            on_eighths(start_angle as int, end_angle as int),
        ensures
            final(self).image.width() == old(self).image.width(),
            final(self).image.height() == old(self).image.height(),
            final(self).image@ == painted(
                old(self).image@,
                |px: int, py: int|
                    sector_covers(
                        cx as int,
                        cy as int,
                        inner as int,
                        outer as int,
                        start_angle as int,
                        end_angle as int,
                        px,
                        py,
                    ),
                color,
            ),
    {
        let ghost before = self.image@;
        let passes = |dx: i64, dy: i64| -> (yes: bool)
            requires
                -REACH <= dx <= REACH,
                -REACH <= dy <= REACH,
            ensures
                yes == angle_in_range(
                    dx as int,
                    dy as int,
                    start_angle as int,
                    end_angle as int,
                ),
            { angle_passes(dx, dy, start_angle, end_angle) };
        self.paint_ring_where(cx, cy, inner, outer, color, passes);
        proof {
            assert forall|qx: int, qy: int|
                !(cx - outer <= qx <= cx + outer && cy - outer <= qy <= cy + outer)
                    implies !#[trigger] annulus_covers(
                    cx as int,
                    cy as int,
                    inner as int,
                    outer as int,
                    qx,
                    qy,
                ) by {
                lemma_square_bounds(qx - cx, outer as int);
                lemma_square_bounds(qy - cy, outer as int);
            }
            assert(self.image@ =~~= painted(
                before,
                |px: int, py: int|
                    sector_covers(
                        cx as int,
                        cy as int,
                        inner as int,
                        outer as int,
                        start_angle as int,
                        end_angle as int,
                        px,
                        py,
                    ),
                color,
            ));
        }
    }
}

} // verus!
