//! The shapes as sets of pixel positions.
//!
//! Every predicate here says whether the pixel at column `px` of row `py` belongs to a
//! shape. Positions and extents are unbounded integers: a shape may reach beyond the image,
//! and painting it then touches only the part that lies inside.

use vstd::prelude::*;
use crate::rgba::Rgba;
use crate::rgba_image::{painted, Grid};

verus! {

/// The rectangle whose top-left pixel is `(x, y)`: columns `x .. x + width`, rows
/// `y .. y + height`. Empty when `width` or `height` is not positive.
pub open spec fn rect_covers(x: int, y: int, width: int, height: int, px: int, py: int) -> bool {
    x <= px < x + width && y <= py < y + height
}

/// The outline of thickness `thickness` of the rectangle at `(x, y)`: what of the rectangle
/// lies outside its interior, the rectangle inset by `thickness` on all four sides.
pub open spec fn stroke_rect_covers(
    x: int,
    y: int,
    width: int,
    height: int,
    thickness: int,
    px: int,
    py: int,
) -> bool {
    rect_covers(x, y, width, height, px, py) && !rect_covers(
        x + thickness,
        y + thickness,
        width - 2 * thickness,
        height - 2 * thickness,
        px,
        py,
    )
}

/// The squared distance of the offset `(dx, dy)` from the origin.
pub open spec fn dist_sq(dx: int, dy: int) -> int {
    dx * dx + dy * dy
}

/// The disc of the given radius around `(cx, cy)`: the pixels at a distance of at most
/// `radius` from the centre.
pub open spec fn disc_covers(cx: int, cy: int, radius: int, px: int, py: int) -> bool {
    dist_sq(px - cx, py - cy) <= radius * radius
}

/// The inner radius of a stroke of the given thickness: `radius - thickness`, and 0 where
/// the stroke is at least as thick as the radius.
pub open spec fn inner_radius(radius: int, thickness: int) -> int {
    if thickness >= radius {
        0
    } else {
        radius - thickness
    }
}

/// The ring between the radii `inner` and `outer` around `(cx, cy)`, both bounds included.
pub open spec fn annulus_covers(
    cx: int,
    cy: int,
    inner: int,
    outer: int,
    px: int,
    py: int,
) -> bool {
    inner * inner <= dist_sq(px - cx, py - cy) <= outer * outer
}

/// The outline of thickness `thickness` of the circle of the given radius around
/// `(cx, cy)`.
pub open spec fn ring_covers(
    cx: int,
    cy: int,
    radius: int,
    thickness: int,
    px: int,
    py: int,
) -> bool {
    annulus_covers(cx, cy, inner_radius(radius, thickness), radius, px, py)
}

/// Where the direction of the offset `(dx, dy)` lies on the circle, counted in steps
/// around it. Angles start at the positive x axis and grow towards the positive y axis,
/// which points down the image; the angle of `(0, 0)` is 0.
///
/// An even step `2 * k` says that the angle is exactly `45 * k` degrees; an odd step
/// `2 * k + 1` says that it lies strictly between `45 * k` and `45 * (k + 1)` degrees. So
/// the step is 0 on the positive x axis, 4 on the positive y axis, 8 on the negative x
/// axis and 12 on the negative y axis, and always below 16.
pub open spec fn direction(dx: int, dy: int) -> int {
    if dy == 0 {
        if dx >= 0 {
            0
        } else {
            8
        }
    } else if dy > 0 {
        if dx > dy {
            1
        } else if dx == dy {
            2
        } else if dx > 0 {
            3
        } else if dx == 0 {
            4
        } else if -dx < dy {
            5
        } else if -dx == dy {
            6
        } else {
            7
        }
    } else {
        if dx < dy {
            9
        } else if dx == dy {
            10
        } else if dx < 0 {
            11
        } else if dx == 0 {
            12
        } else if dx < -dy {
            13
        } else if dx == -dy {
            14
        } else {
            15
        }
    }
}

/// Says that both ends of an arc are whole multiples of 45 degrees. For such ends, and for
/// no others, the angle test on integer offsets is a comparison of integers.
pub open spec fn on_eighths(start_angle: int, end_angle: int) -> bool {
    start_angle % 45 == 0 && end_angle % 45 == 0
}

/// The angle test of an arc from `start_angle` to `end_angle` degrees, both multiples of
/// 45: with `start_angle <= end_angle` the angle of `(dx, dy)` has to lie between the two,
/// ends included; otherwise the arc wraps around 0 and the angle has to be at least
/// `start_angle` or at most `end_angle`.
///
/// The angle is at least `45 * k` degrees exactly when the step of the direction is at
/// least `2 * k`, and at most `45 * k` degrees exactly when the step is at most `2 * k`.
pub open spec fn angle_in_range(dx: int, dy: int, start_angle: int, end_angle: int) -> bool
    recommends
        on_eighths(start_angle, end_angle),
{
    let step = direction(dx, dy);
    if start_angle <= end_angle {
        2 * (start_angle / 45) <= step <= 2 * (end_angle / 45)
    } else {
        step >= 2 * (start_angle / 45) || step <= 2 * (end_angle / 45)
    }
}

/// The part of the ring between `inner` and `outer` around `(cx, cy)` whose angle, seen
/// from the centre, passes the angle test.
pub open spec fn sector_covers(
    cx: int,
    cy: int,
    inner: int,
    outer: int,
    start_angle: int,
    end_angle: int,
    px: int,
    py: int,
) -> bool {
    annulus_covers(cx, cy, inner, outer, px, py) && angle_in_range(
        px - cx,
        py - cy,
        start_angle,
        end_angle,
    )
}

/// A filled arc: the part of the disc around `(cx, cy)` between the two angles.
pub open spec fn filled_arc_covers(
    cx: int,
    cy: int,
    radius: int,
    start_angle: int,
    end_angle: int,
    px: int,
    py: int,
) -> bool {
    sector_covers(cx, cy, 0, radius, start_angle, end_angle, px, py)
}

/// A stroked arc: the part of the outline of the circle around `(cx, cy)` between the two
/// angles.
pub open spec fn stroke_arc_covers(
    cx: int,
    cy: int,
    radius: int,
    thickness: int,
    start_angle: int,
    end_angle: int,
    px: int,
    py: int,
) -> bool {
    sector_covers(
        cx,
        cy,
        inner_radius(radius, thickness),
        radius,
        start_angle,
        end_angle,
        px,
        py,
    )
}

/// The radius that the corners of a rounded rectangle get: the one asked for, but at most
/// half the width and half the height.
pub open spec fn corner_radius(radius: int, width: int, height: int) -> int {
    let by_width = if radius <= width / 2 {
        radius
    } else {
        width / 2
    };
    if by_width <= height / 2 {
        by_width
    } else {
        height / 2
    }
}

/// A filled rectangle with rounded corners: what of the rectangle lies in one of its
/// parts. A rectangle without width or without height has no pixels, rounded or not.
pub open spec fn rounded_rect_covers(
    x: int,
    y: int,
    width: int,
    height: int,
    radius: int,
    px: int,
    py: int,
) -> bool {
    rect_covers(x, y, width, height, px, py) && rounded_rect_parts(
        x,
        y,
        width,
        height,
        radius,
        px,
        py,
    )
}

/// The parts of a filled rectangle with rounded corners: a band over the full height
/// between the corners, a band on each side between the corners, and in each corner the
/// quarter of a disc that faces outwards.
pub open spec fn rounded_rect_parts(
    x: int,
    y: int,
    width: int,
    height: int,
    radius: int,
    px: int,
    py: int,
) -> bool {
    let r = corner_radius(radius, width, height);
    let left = x + r;
    let right = x + width - r - 1;
    let top = y + r;
    let bottom = y + height - r - 1;
    ||| rect_covers(x + r, y, width - 2 * r, height, px, py)
    ||| rect_covers(x, y + r, r, height - 2 * r, px, py)
    ||| rect_covers(x + width - r, y + r, r, height - 2 * r, px, py)
    ||| filled_arc_covers(left, top, r, 180, 270, px, py)
    ||| filled_arc_covers(right, top, r, 270, 360, px, py)
    ||| filled_arc_covers(left, bottom, r, 90, 180, px, py)
    ||| filled_arc_covers(right, bottom, r, 0, 90, px, py)
}

/// The outline of a rectangle with rounded corners: what of the rectangle lies in one of
/// the parts of the outline. The outline never leaves the rectangle, however thick it is,
/// and a rectangle without width or without height has none.
pub open spec fn rounded_stroke_rect_covers(
    x: int,
    y: int,
    width: int,
    height: int,
    thickness: int,
    radius: int,
    px: int,
    py: int,
) -> bool {
    rect_covers(x, y, width, height, px, py) && rounded_stroke_rect_parts(
        x,
        y,
        width,
        height,
        thickness,
        radius,
        px,
        py,
    )
}

/// The parts of the outline of a rectangle with rounded corners: straight bands of the
/// given thickness along the top and bottom where the corners leave room between them,
/// the same along the left and right, and in each corner the quarter that faces outwards
/// of the outline of a circle.
pub open spec fn rounded_stroke_rect_parts(
    x: int,
    y: int,
    width: int,
    height: int,
    thickness: int,
    radius: int,
    px: int,
    py: int,
) -> bool {
    let r = corner_radius(radius, width, height);
    let left = x + r;
    let right = x + width - r - 1;
    let top = y + r;
    let bottom = y + height - r - 1;
    ||| (2 * r < width && rect_covers(x + r, y, width - 2 * r, thickness, px, py))
    ||| (2 * r < width && rect_covers(
        x + r,
        y + height - thickness,
        width - 2 * r,
        thickness,
        px,
        py,
    ))
    ||| (2 * r < height && rect_covers(x, y + r, thickness, height - 2 * r, px, py))
    ||| (2 * r < height && rect_covers(
        x + width - thickness,
        y + r,
        thickness,
        height - 2 * r,
        px,
        py,
    ))
    ||| stroke_arc_covers(left, top, r, thickness, 180, 270, px, py)
    ||| stroke_arc_covers(right, top, r, thickness, 270, 360, px, py)
    ||| stroke_arc_covers(left, bottom, r, thickness, 90, 180, px, py)
    ||| stroke_arc_covers(right, bottom, r, thickness, 0, 90, px, py)
}

/// How the square of an offset compares with the square of a radius.
pub proof fn lemma_square_bounds(d: int, radius: int)
    requires
        0 <= radius,
    ensures
        (d > radius || d < -radius) ==> d * d > radius * radius,
        -radius <= d <= radius ==> d * d <= radius * radius,
        d * d >= 0,
{
    assert((d > radius || d < -radius) ==> d * d > radius * radius) by (nonlinear_arith)
        requires
            0 <= radius,
    ;
    assert(-radius <= d <= radius ==> d * d <= radius * radius) by (nonlinear_arith)
        requires
            0 <= radius,
    ;
    assert(d * d >= 0) by (nonlinear_arith);
}

/// An outline without thickness covers nothing: drawing it changes no pixel.
pub proof fn lemma_stroke_rect_without_thickness(
    rows: Grid,
    x: int,
    y: int,
    width: int,
    height: int,
    color: Rgba,
)
    ensures
        forall|px: int, py: int| !stroke_rect_covers(x, y, width, height, 0, px, py),
        painted(
            rows,
            |px: int, py: int| stroke_rect_covers(x, y, width, height, 0, px, py),
            color,
        ) == rows,
{
    assert(painted(
        rows,
        |px: int, py: int| stroke_rect_covers(x, y, width, height, 0, px, py),
        color,
    ) =~~= rows);
}

/// The outline of a rectangle is made of four bands of the given thickness along its
/// sides: top, bottom, left and right.
pub proof fn lemma_stroke_rect_is_four_bands(
    x: int,
    y: int,
    width: int,
    height: int,
    thickness: int,
    px: int,
    py: int,
)
    requires
        0 <= thickness <= width,
        thickness <= height,
    ensures
        stroke_rect_covers(x, y, width, height, thickness, px, py) <==> {
            ||| rect_covers(x, y, width, thickness, px, py)
            ||| rect_covers(x, y + height - thickness, width, thickness, px, py)
            ||| rect_covers(x, y, thickness, height, px, py)
            ||| rect_covers(x + width - thickness, y, thickness, height, px, py)
        },
{
}

/// The outline of a rectangle and its interior together make the filled rectangle.
pub proof fn lemma_stroke_rect_and_interior(
    x: int,
    y: int,
    width: int,
    height: int,
    thickness: int,
    px: int,
    py: int,
)
    requires
        0 <= thickness,
    ensures
        rect_covers(x, y, width, height, px, py) <==> {
            ||| stroke_rect_covers(x, y, width, height, thickness, px, py)
            ||| rect_covers(
                x + thickness,
                y + thickness,
                width - 2 * thickness,
                height - 2 * thickness,
                px,
                py,
            )
        },
{
}

/// The outline of a circle and its interior together make the filled circle.
pub proof fn lemma_ring_and_interior(
    cx: int,
    cy: int,
    radius: int,
    thickness: int,
    px: int,
    py: int,
)
    requires
        0 <= thickness,
        0 <= radius,
    ensures
        disc_covers(cx, cy, radius, px, py) <==> {
            ||| ring_covers(cx, cy, radius, thickness, px, py)
            ||| disc_covers(cx, cy, inner_radius(radius, thickness), px, py)
        },
{
    let inner = inner_radius(radius, thickness);
    assert(inner * inner <= radius * radius) by (nonlinear_arith)
        requires
            0 <= inner <= radius,
    ;
}

/// Painting two shapes in the same colour, one after the other, paints their union.
pub proof fn lemma_painted_twice(
    rows: Grid,
    first: spec_fn(int, int) -> bool,
    second: spec_fn(int, int) -> bool,
    color: Rgba,
)
    ensures
        painted(painted(rows, first, color), second, color) == painted(
            rows,
            |px: int, py: int| first(px, py) || second(px, py),
            color,
        ),
{
    assert(painted(painted(rows, first, color), second, color) =~~= painted(
        rows,
        |px: int, py: int| first(px, py) || second(px, py),
        color,
    ));
}

/// An outline as thick as the radius of its circle covers the whole disc: drawing it
/// sets the same pixels as filling the circle.
pub proof fn lemma_full_stroke_is_disc(
    rows: Grid,
    cx: int,
    cy: int,
    radius: int,
    color: Rgba,
)
    ensures
        forall|px: int, py: int|
            ring_covers(cx, cy, radius, radius, px, py) == disc_covers(cx, cy, radius, px, py),
        painted(rows, |px: int, py: int| ring_covers(cx, cy, radius, radius, px, py), color)
            == painted(rows, |px: int, py: int| disc_covers(cx, cy, radius, px, py), color),
{
    assert forall|px: int, py: int|
        ring_covers(cx, cy, radius, radius, px, py) == disc_covers(cx, cy, radius, px, py) by {
        lemma_square_bounds(px - cx, 0);
        lemma_square_bounds(py - cy, 0);
    }
    assert(painted(rows, |px: int, py: int| ring_covers(cx, cy, radius, radius, px, py), color)
        =~~= painted(rows, |px: int, py: int| disc_covers(cx, cy, radius, px, py), color));
}

/// The parts of a rounded rectangle that is at least one pixel wide and one pixel high lie
/// inside the rectangle: there, rounding only takes pixels away.
pub proof fn lemma_rounded_rect_parts_inside(
    x: int,
    y: int,
    width: int,
    height: int,
    radius: int,
    px: int,
    py: int,
)
    requires
        width >= 1,
        height >= 1,
        radius >= 0,
        rounded_rect_parts(x, y, width, height, radius, px, py),
    ensures
        rect_covers(x, y, width, height, px, py),
{
    let r = corner_radius(radius, width, height);
    lemma_square_bounds(px - (x + r), r);
    lemma_square_bounds(py - (y + r), r);
    lemma_square_bounds(px - (x + width - r - 1), r);
    lemma_square_bounds(py - (y + height - r - 1), r);
}

/// The parts of a rounded outline that is no thicker than the rectangle is wide and high
/// lie inside the rectangle.
pub proof fn lemma_rounded_stroke_rect_parts_inside(
    x: int,
    y: int,
    width: int,
    height: int,
    thickness: int,
    radius: int,
    px: int,
    py: int,
)
    requires
        width >= 1,
        height >= 1,
        radius >= 0,
        0 <= thickness <= width,
        thickness <= height,
        rounded_stroke_rect_parts(x, y, width, height, thickness, radius, px, py),
    ensures
        rect_covers(x, y, width, height, px, py),
{
    let r = corner_radius(radius, width, height);
    lemma_square_bounds(px - (x + r), r);
    lemma_square_bounds(py - (y + r), r);
    lemma_square_bounds(px - (x + width - r - 1), r);
    lemma_square_bounds(py - (y + height - r - 1), r);
}

/// A rectangle without width or without height has no pixels, with rounded corners as
/// without, filled or outlined.
pub proof fn lemma_rounded_rect_without_extent(
    x: int,
    y: int,
    width: int,
    height: int,
    thickness: int,
    radius: int,
    px: int,
    py: int,
)
    requires
        width <= 0 || height <= 0,
    ensures
        !rounded_rect_covers(x, y, width, height, radius, px, py),
        !rounded_stroke_rect_covers(x, y, width, height, thickness, radius, px, py),
{
}

/// With corners of radius 0, a rounded rectangle is the rectangle itself.
pub proof fn lemma_rounded_rect_without_radius(
    x: int,
    y: int,
    width: int,
    height: int,
    px: int,
    py: int,
)
    ensures
        rounded_rect_covers(x, y, width, height, 0, px, py) == rect_covers(
            x,
            y,
            width,
            height,
            px,
            py,
        ),
{
    lemma_square_bounds(px - x, 0);
    lemma_square_bounds(py - y, 0);
    lemma_square_bounds(px - (x + width - 1), 0);
    lemma_square_bounds(py - (y + height - 1), 0);
}

/// Turning an offset by a quarter of a turn, from the positive x axis towards the positive
/// y axis, moves its direction on by four steps.
pub proof fn lemma_direction_quarter_turn(dx: int, dy: int)
    requires
        dx != 0 || dy != 0,
    ensures
        direction(-dy, dx) == (direction(dx, dy) + 4) % 16,
{
}

/// Stretching an offset leaves its direction as it is.
pub proof fn lemma_direction_of_multiple(dx: int, dy: int, factor: int)
    requires
        factor > 0,
    ensures
        direction(factor * dx, factor * dy) == direction(dx, dy),
{
    assert(factor * dx > factor * dy <==> dx > dy) by (nonlinear_arith)
        requires
            factor > 0,
    ;
    assert(factor * dx == factor * dy <==> dx == dy) by (nonlinear_arith)
        requires
            factor > 0,
    ;
    assert(-(factor * dx) < factor * dy <==> -dx < dy) by (nonlinear_arith)
        requires
            factor > 0,
    ;
    assert(-(factor * dx) == factor * dy <==> -dx == dy) by (nonlinear_arith)
        requires
            factor > 0,
    ;
    assert(factor * dx > 0 <==> dx > 0) by (nonlinear_arith)
        requires
            factor > 0,
    ;
    assert(factor * dx == 0 <==> dx == 0) by (nonlinear_arith)
        requires
            factor > 0,
    ;
    assert(factor * dy > 0 <==> dy > 0) by (nonlinear_arith)
        requires
            factor > 0,
    ;
    assert(factor * dy == 0 <==> dy == 0) by (nonlinear_arith)
        requires
            factor > 0,
    ;
}

/// With its ends at 0 and 360 degrees an arc goes all the way round: every direction
/// passes the angle test.
pub proof fn lemma_full_turn(dx: int, dy: int)
    ensures
        angle_in_range(dx, dy, 0, 360),
{
}

} // verus!
