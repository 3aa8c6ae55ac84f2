//! The pixel buffer: a fixed-size grid of colours stored row by row.

use vstd::prelude::*;
use crate::rgba::{channels, transparent, Rgba};

verus! {

/// The pixels of an image as a grid: rows from top to bottom, the pixels of each row from
/// left to right.
pub type Grid = Seq<Seq<Rgba>>;

/// A `width` x `height` grid of pixels, stored row-major in one flat vector.
///
/// Its view is the grid itself: a sequence of `height` rows from top to bottom, each a
/// sequence of `width` colours from left to right, so `image@[y][x]` is the pixel at
/// column `x` of row `y`.
#[derive(Debug)]
pub struct RgbaImage {
    width: u32,
    height: u32,
    data: Vec<Rgba>,
}

/// A grid of `height` rows of `width` columns in which every pixel is transparent black.
pub open spec fn blank(width: nat, height: nat) -> Grid {
    Seq::new(height, |y: int| Seq::new(width, |x: int| transparent()))
}

/// Says that `rows` is a grid of exactly `height` rows, each `width` pixels long.
pub open spec fn is_grid(rows: Grid, width: nat, height: nat) -> bool {
    &&& rows.len() == height
    &&& forall|y: int| 0 <= y < height ==> (#[trigger] rows[y]).len() == width
}

/// The grid `rows` with the pixel at column `x` of row `y` replaced by `color`.
pub open spec fn with_pixel(rows: Grid, x: int, y: int, color: Rgba) -> Grid {
    rows.update(y, rows[y].update(x, color))
}

/// The grid `rows` after every pixel that `covers` selects has been set to `color`; the
/// other pixels keep their colour. `covers` is asked with the column first and the row
/// second, and only what it says of positions inside the grid matters.
pub open spec fn painted(
    rows: Grid,
    covers: spec_fn(int, int) -> bool,
    color: Rgba,
) -> Grid {
    Seq::new(
        rows.len(),
        |y: int|
            Seq::new(
                rows[y].len(),
                |x: int|
                    if covers(x, y) {
                        color
                    } else {
                        rows[y][x]
                    },
            ),
    )
}

/// The bytes of a run of pixels: four per pixel, in the order red, green, blue, alpha.
pub open spec fn row_bytes(row: Seq<Rgba>) -> Seq<u8>
    decreases row.len(),
{
    if row.len() == 0 {
        Seq::empty()
    } else {
        row_bytes(row.drop_last()) + channels(row.last())
    }
}

/// The bytes of a whole grid: the bytes of its rows, one row after the other.
pub open spec fn grid_bytes(rows: Grid) -> Seq<u8>
    decreases rows.len(),
{
    if rows.len() == 0 {
        Seq::empty()
    } else {
        grid_bytes(rows.drop_last()) + row_bytes(rows.last())
    }
}

/// A run of `n` pixels takes `4 * n` bytes.
pub proof fn lemma_row_bytes_len(row: Seq<Rgba>)
    ensures
        row_bytes(row).len() == 4 * row.len(),
    decreases row.len(),
{
    if row.len() > 0 {
        lemma_row_bytes_len(row.drop_last());
    }
}

/// The bytes of a grid are as many as four times its pixels.
pub proof fn lemma_grid_bytes_len(rows: Grid, width: nat)
    requires
        is_grid(rows, width, rows.len()),
    ensures
        grid_bytes(rows).len() == 4 * width * rows.len(),
    decreases rows.len(),
{
    if rows.len() > 0 {
        lemma_grid_bytes_len(rows.drop_last(), width);
        lemma_row_bytes_len(rows.last());
        assert(4 * width * (rows.len() - 1) + 4 * width == 4 * width * rows.len())
            by (nonlinear_arith);
    } else {
        assert(4 * width * 0 == 0);
    }
}

/// In the bytes of a grid the bytes of row `y` stand at `4 * width * y`.
pub proof fn lemma_grid_bytes_row(rows: Grid, width: nat, y: int)
    requires
        is_grid(rows, width, rows.len()),
        0 <= y < rows.len(),
    ensures
        0 <= 4 * width * y,
        4 * width * (y + 1) == 4 * width * y + 4 * width,
        4 * width * (y + 1) <= grid_bytes(rows).len(),
        grid_bytes(rows).subrange(4 * width * y, 4 * width * (y + 1)) == row_bytes(rows[y]),
    decreases rows.len(),
{
    let stride = 4 * width;
    assert(stride * (y + 1) == stride * y + stride && 0 <= stride * y) by (nonlinear_arith)
        requires
            0 <= y,
            0 <= stride,
    ;
    lemma_grid_bytes_len(rows, width);
    lemma_grid_bytes_len(rows.drop_last(), width);
    lemma_row_bytes_len(rows.last());
    assert(stride * (y + 1) <= stride * rows.len()) by (nonlinear_arith)
        requires
            y + 1 <= rows.len(),
            0 <= stride,
    ;
    if y == rows.len() - 1 {
        assert(grid_bytes(rows).subrange(stride * y, stride * (y + 1)) =~= row_bytes(rows[y]));
    } else {
        lemma_grid_bytes_row(rows.drop_last(), width, y);
        assert(grid_bytes(rows).subrange(stride * y, stride * (y + 1)) =~= grid_bytes(
            rows.drop_last(),
        ).subrange(stride * y, stride * (y + 1)));
    }
}

/// The place of the cell at column `x` of row `y` in row-major order.
pub open spec fn cell_index(width: int, x: int, y: int) -> int {
    y * width + x
}

/// In a grid every cell has a place in row-major order.
proof fn lemma_cell_index(width: int, height: int, x: int, y: int)
    requires
        0 <= x < width,
        0 <= y < height,
    ensures
        0 <= cell_index(width, x, y) < width * height,
        0 <= y * width <= width * height,
{
    assert(0 <= y * width + x < width * height && 0 <= y * width <= width * height)
        by (nonlinear_arith)
        requires
            0 <= x < width,
            0 <= y < height,
    ;
}

/// Two cells of a grid that share their place in row-major order are the same cell.
proof fn lemma_cell_index_unique(width: int, x1: int, y1: int, x2: int, y2: int)
    requires
        0 <= x1 < width,
        0 <= x2 < width,
        cell_index(width, x1, y1) == cell_index(width, x2, y2),
    ensures
        x1 == x2,
        y1 == y2,
{
    assert(y1 == y2) by (nonlinear_arith)
        requires
            0 <= x1 < width,
            0 <= x2 < width,
            y1 * width + x1 == y2 * width + x2,
    ;
}

impl View for RgbaImage {
    type V = Grid;

    closed spec fn view(&self) -> Grid {
        Seq::new(
            self.height as nat,
            |y: int|
                Seq::new(
                    self.width as nat,
                    |x: int| self.data@[cell_index(self.width as int, x, y)],
                ),
        )
    }
}

impl Clone for RgbaImage {
    /// An image of the same size with the same pixels.
    fn clone(&self) -> (copy: Self)
        ensures
            copy.width() == self.width(),
            copy.height() == self.height(),
            copy@ == self@,
    {
        proof {
            use_type_invariant(self);
        }
        let mut data: Vec<Rgba> = Vec::new();
        let mut i: usize = 0;
        while i < self.data.len()
            invariant
                i <= self.data@.len(),
                data@ == self.data@.take(i as int),
            decreases self.data@.len() - i,
        {
            data.push(self.data[i]);
            proof {
                assert(data@ =~= self.data@.take(i + 1));
            }
            i += 1;
        }
        proof {
            assert(data@ =~= self.data@);
        }
        RgbaImage { width: self.width, height: self.height, data }
    }
}

impl RgbaImage {
    #[verifier::type_invariant]
    spec fn well_formed(&self) -> bool {
        &&& self.width >= 1
        &&& self.height >= 1
        &&& self.data@.len() == self.width * self.height
    }

    /// The number of columns.
    pub closed spec fn spec_width(&self) -> u32 {
        self.width
    }

    /// The number of rows.
    pub closed spec fn spec_height(&self) -> u32 {
        self.height
    }

    /// The view of an image is always a grid of its own width and height.
    pub proof fn lemma_view_is_grid(&self)
        ensures
            is_grid(self@, self.width() as nat, self.height() as nat),
    {
    }

    /// Creates an image of the given size in which every pixel is transparent black.
    pub fn new(width: u32, height: u32) -> (image: Self)
        requires
            width >= 1,
            height >= 1,
            width * height <= usize::MAX,
        ensures
            image.width() == width,
            image.height() == height,
            image@ == blank(width as nat, height as nat),
    {
        let size: usize = (width as usize) * (height as usize);
        let mut data: Vec<Rgba> = Vec::new();
        let mut filled: usize = 0;
        while filled < size
            invariant
                filled <= size,
                data@.len() == filled,
                forall|i: int| 0 <= i < filled ==> data@[i] == transparent(),
            decreases size - filled,
        {
            data.push(Rgba { r: 0, g: 0, b: 0, a: 0 });
            filled += 1;
        }
        let image = RgbaImage { width, height, data };
        proof {
            assert forall|y: int, x: int| 0 <= y < height && 0 <= x < width implies 0
                <= #[trigger] cell_index(width as int, x, y) < size by {
                lemma_cell_index(width as int, height as int, x, y);
            }
            assert(image@ =~~= blank(width as nat, height as nat));
        }
        image
    }

    /// The number of columns; at least 1.
    #[verifier::when_used_as_spec(spec_width)]
    pub fn width(&self) -> (width: u32)
        ensures
            width == self.width(),
            width >= 1,
    {
        proof {
            use_type_invariant(self);
        }
        self.width
    }

    /// The number of rows; at least 1.
    #[verifier::when_used_as_spec(spec_height)]
    pub fn height(&self) -> (height: u32)
        ensures
            height == self.height(),
            height >= 1,
    {
        proof {
            use_type_invariant(self);
        }
        self.height
    }

    /// Writes `color` to the pixel at column `x` of row `y` and leaves every other pixel
    /// as it was. The position has to lie inside the image.
    pub fn set_pixel(&mut self, x: u32, y: u32, color: Rgba)
        requires
            x < old(self).width(),
            y < old(self).height(),
        ensures
            final(self).width() == old(self).width(),
            final(self).height() == old(self).height(),
            final(self)@ == with_pixel(old(self)@, x as int, y as int, color),
    {
        proof {
            use_type_invariant(&*self);
            lemma_cell_index(self.width as int, self.height as int, x as int, y as int);
            assert(self.data@.len() == self.data.len());
        }
        let index: usize = (y as usize) * (self.width as usize) + (x as usize);
        self.data[index] = color;
        proof {
            let width = self.width as int;
            assert forall|py: int, px: int|
                0 <= py < self.height && 0 <= px < width && !(px == x && py == y) implies
                #[trigger] cell_index(width, px, py) != index by {
                if cell_index(width, px, py) == index {
                    lemma_cell_index_unique(width, px, py, x as int, y as int);
                }
            }
            assert forall|py: int, px: int| 0 <= py < self.height && 0 <= px < width implies 0
                <= #[trigger] cell_index(width, px, py) < self.data@.len() by {
                lemma_cell_index(width, self.height as int, px, py);
            }
            assert(self@ =~~= with_pixel(old(self)@, x as int, y as int, color));
        }
    }

    /// Reads the pixel at column `x` of row `y`; the image stays as it is. The position has
    /// to lie inside the image.
    pub fn get_pixel(&mut self, x: u32, y: u32) -> (color: Rgba)
        requires
            x < old(self).width(),
            y < old(self).height(),
        ensures
            color == old(self)@[y as int][x as int],
            final(self).width() == old(self).width(),
            final(self).height() == old(self).height(),
            final(self)@ == old(self)@,
    {
        proof {
            use_type_invariant(&*self);
            lemma_cell_index(self.width as int, self.height as int, x as int, y as int);
            assert(self.data@.len() == self.data.len());
        }
        let index: usize = (y as usize) * (self.width as usize) + (x as usize);
        self.data[index]
    }

    /// The whole image as bytes: four per pixel in the order red, green, blue, alpha, the
    /// pixels of a row from left to right and the rows from top to bottom.
    pub fn to_u8_vec(&self) -> (bytes: Vec<u8>)
        ensures
            bytes@ == grid_bytes(self@),
    {
        proof {
            use_type_invariant(self);
        }
        let mut bytes: Vec<u8> = Vec::new();
        let mut y: u32 = 0;
        while y < self.height
            invariant
                y <= self.height,
                self.data@.len() == self.width * self.height,
                bytes@ == grid_bytes(self@.take(y as int)),
            decreases self.height - y,
        {
            let ghost done = bytes@;
            let mut x: u32 = 0;
            while x < self.width
                invariant
                    x <= self.width,
                    y < self.height,
                    self.data@.len() == self.width * self.height,
                    bytes@ == done + row_bytes(self@[y as int].take(x as int)),
                decreases self.width - x,
            {
                proof {
                    lemma_cell_index(self.width as int, self.height as int, x as int, y as int);
                    assert(self.data@.len() == self.data.len());
                }
                let index: usize = (y as usize) * (self.width as usize) + (x as usize);
                let color = self.data[index];
                bytes.push(color.r);
                bytes.push(color.g);
                bytes.push(color.b);
                bytes.push(color.a);
                proof {
                    let row = self@[y as int];
                    let next = row.take(x + 1);
                    assert(next.drop_last() =~= row.take(x as int));
                    assert(next.last() == color);
                    assert(bytes@ =~= done + row_bytes(next));
                }
                x += 1;
            }
            proof {
                let rows = self@.take(y + 1);
                assert(rows.drop_last() =~= self@.take(y as int));
                assert(self@[y as int].take(self.width as int) =~= self@[y as int]);
                assert(rows.last() == self@[y as int]);
            }
            y += 1;
        }
        proof {
            assert(self@.take(self.height as int) =~= self@);
        }
        bytes
    }
}

} // verus!
