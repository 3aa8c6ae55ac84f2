//! Counting the pixels of a shape.
//!
//! Painting a shape sets the pixels that the shape selects inside the image, and no
//! others. The lemmas here say how many pixels that is for a rectangle and for a disc that
//! lie wholly inside the image.

use vstd::prelude::*;
use vstd::relations::injective_on;
use vstd::set_lib::{
    lemma_int_range, lemma_map_size, lemma_set_disjoint_lens, lemma_set_subset_finite,
    set_int_range,
};
use crate::rgba::Rgba;
use crate::rgba_image::{is_grid, painted, Grid};
use crate::shape::{disc_covers, dist_sq, lemma_square_bounds, rect_covers};

verus! {

/// The pixels of an image of the given size that a shape selects, each as the pair of
/// its column and its row.
pub open spec fn cells(covers: spec_fn(int, int) -> bool, width: int, height: int) -> Set<
    (int, int),
> {
    Set::new(
        |cell: (int, int)| 0 <= cell.0 < width && 0 <= cell.1 < height && covers(cell.0, cell.1),
    )
}

/// All the positions of the rectangle at `(x, y)`, inside an image or not.
pub open spec fn rect_cells(x: int, y: int, width: int, height: int) -> Set<(int, int)> {
    Set::new(|cell: (int, int)| rect_covers(x, y, width, height, cell.0, cell.1))
}

/// The offsets `(dx, dy)` in whole pixels that lie at most `radius` from the origin.
pub open spec fn lattice_disc(radius: int) -> Set<(int, int)> {
    Set::new(|offset: (int, int)| dist_sq(offset.0, offset.1) <= radius * radius)
}

/// Painting a shape gives its colour to the pixels of `cells`, and leaves every other
/// pixel of the image as it was.
pub proof fn lemma_painted_cells(
    rows: Grid,
    width: nat,
    height: nat,
    covers: spec_fn(int, int) -> bool,
    color: Rgba,
    x: int,
    y: int,
)
    requires
        is_grid(rows, width, height),
        0 <= x < width,
        0 <= y < height,
    ensures
        painted(rows, covers, color)[y][x] == if cells(
            covers,
            width as int,
            height as int,
        ).contains((x, y)) {
            color
        } else {
            rows[y][x]
        },
{
}

/// A rectangle of `width` columns and `height` rows has `width * height` positions.
pub proof fn lemma_rect_cells_count(x: int, y: int, width: nat, height: nat)
    ensures
        rect_cells(x, y, width as int, height as int).finite(),
        rect_cells(x, y, width as int, height as int).len() == width * height,
    decreases height,
{
    let all = rect_cells(x, y, width as int, height as int);
    if height == 0 {
        assert(all =~= Set::<(int, int)>::empty());
        assert(width * 0 == 0);
    } else {
        let above = rect_cells(x, y, width as int, height - 1);
        let last = y + height - 1;
        let row = rect_cells(x, last, width as int, 1);
        lemma_rect_cells_count(x, y, width, (height - 1) as nat);
        let columns = set_int_range(x, x + width);
        let place = |px: int| (px, last);
        lemma_int_range(x, x + width);
        assert(injective_on(place, columns));
        assert forall|cell: (int, int)| row.contains(cell) implies columns.map(place).contains(
            cell,
        ) by {
            assert(columns.contains(cell.0) && place(cell.0) == cell);
        }
        assert(columns.map(place) =~= row);
        lemma_map_size(columns, row, place);
        assert(all =~= above + row);
        assert(above.disjoint(row));
        lemma_set_disjoint_lens(above, row);
        assert(width * (height - 1) + width == width * height) by (nonlinear_arith);
    }
}

/// A filled rectangle that lies wholly inside the image sets exactly `width * height`
/// pixels.
pub proof fn lemma_filled_rect_count(
    x: nat,
    y: nat,
    width: nat,
    height: nat,
    image_width: nat,
    image_height: nat,
)
    requires
        x + width <= image_width,
        y + height <= image_height,
    ensures
        cells(
            |px: int, py: int| rect_covers(x as int, y as int, width as int, height as int, px, py),
            image_width as int,
            image_height as int,
        ).finite(),
        cells(
            |px: int, py: int| rect_covers(x as int, y as int, width as int, height as int, px, py),
            image_width as int,
            image_height as int,
        ).len() == width * height,
{
    lemma_rect_cells_count(x as int, y as int, width, height);
    assert(cells(
        |px: int, py: int| rect_covers(x as int, y as int, width as int, height as int, px, py),
        image_width as int,
        image_height as int,
    ) =~= rect_cells(x as int, y as int, width as int, height as int));
}

/// There are finitely many offsets within a given distance of the origin.
pub proof fn lemma_lattice_disc_finite(radius: nat)
    ensures
        lattice_disc(radius as int).finite(),
{
    let side = 2 * radius + 1;
    let square = rect_cells(-radius, -radius, side as int, side as int);
    lemma_rect_cells_count(-radius, -radius, side, side);
    assert forall|offset: (int, int)| lattice_disc(radius as int).contains(
        offset,
    ) implies square.contains(offset) by {
        lemma_square_bounds(offset.0, radius as int);
        lemma_square_bounds(offset.1, radius as int);
    }
    lemma_set_subset_finite(square, lattice_disc(radius as int));
}

/// A filled circle that lies wholly inside the image sets as many pixels as there are
/// offsets `(dx, dy)` in whole pixels with `dx * dx + dy * dy <= radius * radius`.
pub proof fn lemma_filled_circle_count(
    cx: nat,
    cy: nat,
    radius: nat,
    image_width: nat,
    image_height: nat,
)
    requires
        radius <= cx,
        radius <= cy,
        cx + radius < image_width,
        cy + radius < image_height,
    ensures
        lattice_disc(radius as int).finite(),
        cells(
            |px: int, py: int| disc_covers(cx as int, cy as int, radius as int, px, py),
            image_width as int,
            image_height as int,
        ).finite(),
        cells(
            |px: int, py: int| disc_covers(cx as int, cy as int, radius as int, px, py),
            image_width as int,
            image_height as int,
        ).len() == lattice_disc(radius as int).len(),
{
    let offsets = lattice_disc(radius as int);
    let pixels = cells(
        |px: int, py: int| disc_covers(cx as int, cy as int, radius as int, px, py),
        image_width as int,
        image_height as int,
    );
    let shift = |offset: (int, int)| (offset.0 + cx, offset.1 + cy);
    lemma_lattice_disc_finite(radius);
    assert(injective_on(shift, offsets));
    assert forall|cell: (int, int)| pixels.contains(cell) implies offsets.map(shift).contains(
        cell,
    ) by {
        let offset = (cell.0 - cx, cell.1 - cy);
        assert(offsets.contains(offset) && shift(offset) == cell);
    }
    assert forall|cell: (int, int)| offsets.map(shift).contains(cell) implies pixels.contains(
        cell,
    ) by {
        let offset = choose|offset: (int, int)| offsets.contains(offset) && cell == shift(offset);
        lemma_square_bounds(offset.0, radius as int);
        lemma_square_bounds(offset.1, radius as int);
    }
    assert(offsets.map(shift) =~= pixels);
    lemma_map_size(offsets, pixels, shift);
}

} // verus!
