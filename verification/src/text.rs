//! Compositing: laying a colour, weighted by how much of a pixel it covers, over what the
//! image already holds. This is how the pixels of rasterised glyphs reach the canvas.

use vstd::prelude::*;
use crate::canvas::Canvas;
use crate::rgba::Rgba;
use crate::rgba_image::{with_pixel, Grid};

verus! {

/// The opacity of `fg` laid over `bg`, as a fraction of `255 * 255`: with both alphas
/// taken as fractions of 255, it stands for `fg.a + bg.a * (1 - fg.a)`.
pub open spec fn blend_weight(bg: Rgba, fg: Rgba) -> int {
    255 * fg.a + bg.a * (255 - fg.a)
}

/// One colour channel of `fg` laid over `bg`: the two channel values, each weighted by
/// the share of its colour in the result, `fg.a` for the foreground and
/// `bg.a * (1 - fg.a)` for the background, divided by the opacity of the result. The
/// fraction is exact; only the quotient is cut down to a whole number.
pub open spec fn blend_channel(bg_channel: int, fg_channel: int, bg: Rgba, fg: Rgba) -> int {
    (255 * fg_channel * fg.a + bg_channel * bg.a * (255 - fg.a)) / blend_weight(bg, fg)
}

/// The colour that results from laying `fg` over `bg` ("source over"). A transparent
/// foreground leaves the background as it is; over a transparent background the
/// foreground stands alone; otherwise alpha and channels are mixed.
pub open spec fn blend(bg: Rgba, fg: Rgba) -> Rgba {
    if fg.a == 0 {
        bg
    } else if bg.a == 0 {
        fg
    } else {
        Rgba {
            r: blend_channel(bg.r as int, fg.r as int, bg, fg) as u8,
            g: blend_channel(bg.g as int, fg.g as int, bg, fg) as u8,
            b: blend_channel(bg.b as int, fg.b as int, bg, fg) as u8,
            a: (blend_weight(bg, fg) / 255) as u8,
        }
    }
}

/// The weights of the two colours are positive where neither is transparent, and a mixed
/// channel is a weighted mean of two bytes, hence a byte itself.
pub proof fn lemma_blend_in_range(bg_channel: u8, fg_channel: u8, bg: Rgba, fg: Rgba)
    requires
        fg.a != 0,
        bg.a != 0,
    ensures
        0 < blend_weight(bg, fg) <= 255 * 255,
        0 <= 255 * fg_channel * fg.a <= 255 * 255 * fg.a,
        0 <= bg_channel * bg.a * (255 - fg.a) <= 255 * bg.a * (255 - fg.a),
        0 <= bg.a * (255 - fg.a) <= 255 * (255 - fg.a),
        0 <= blend_channel(bg_channel as int, fg_channel as int, bg, fg) <= 255,
        0 <= blend_weight(bg, fg) / 255 <= 255,
{
    let fa = fg.a as int;
    let ba = bg.a as int;
    let rest = 255 - fa;
    let weight = blend_weight(bg, fg);
    assert(0 <= ba * rest <= 255 * rest) by (nonlinear_arith)
        requires
            0 <= ba <= 255,
            0 <= rest,
    ;
    assert(0 <= 255 * fg_channel * fa <= 255 * 255 * fa) by (nonlinear_arith)
        requires
            0 <= fg_channel <= 255,
            0 <= fa,
    ;
    assert(0 <= bg_channel * ba * rest <= 255 * ba * rest) by (nonlinear_arith)
        requires
            0 <= bg_channel <= 255,
            0 <= ba,
            0 <= rest,
    ;
    assert(bg_channel * bg.a * (255 - fg.a) == bg_channel * ba * rest);
    assert(bg.a * (255 - fg.a) == ba * rest);
    let mixed = 255 * fg_channel * fa + bg_channel * ba * rest;
    assert(0 <= mixed <= 255 * weight) by (nonlinear_arith)
        requires
            mixed == 255 * fg_channel * fa + bg_channel * ba * rest,
            weight == 255 * fa + ba * rest,
            0 <= 255 * fg_channel * fa <= 255 * 255 * fa,
            0 <= bg_channel * ba * rest <= 255 * ba * rest,
    ;
    assert(0 <= mixed / weight <= 255) by (nonlinear_arith)
        requires
            0 <= mixed <= 255 * weight,
            0 < weight,
    ;
}

/// Laying a fully transparent colour over a background changes nothing.
pub proof fn lemma_blend_transparent_foreground(bg: Rgba, fg: Rgba)
    requires
        fg.a == 0,
    ensures
        blend(bg, fg) == bg,
{
}

/// Over a fully transparent background the foreground comes out unchanged. Where the
/// foreground is fully transparent too, the result is the background, so the two have to
/// be the same colour there.
pub proof fn lemma_blend_transparent_background(bg: Rgba, fg: Rgba)
    requires
        bg.a == 0,
        fg.a != 0 || fg == bg,
    ensures
        blend(bg, fg) == fg,
{
}

/// A mixed channel lies between the channel of the background and that of the
/// foreground.
pub proof fn lemma_blend_channel_between(bg_channel: u8, fg_channel: u8, bg: Rgba, fg: Rgba)
    requires
        fg.a != 0,
        bg.a != 0,
    ensures
        bg_channel <= fg_channel ==> bg_channel <= blend_channel(
            bg_channel as int,
            fg_channel as int,
            bg,
            fg,
        ) <= fg_channel,
        fg_channel <= bg_channel ==> fg_channel <= blend_channel(
            bg_channel as int,
            fg_channel as int,
            bg,
            fg,
        ) <= bg_channel,
{
    lemma_blend_in_range(bg_channel, fg_channel, bg, fg);
    let fg_share = 255 * fg.a;
    let bg_share = bg.a * (255 - fg.a);
    let weight = blend_weight(bg, fg);
    let sum = 255 * fg_channel * fg.a + bg_channel * bg.a * (255 - fg.a);
    assert(sum == fg_channel * fg_share + bg_channel * bg_share) by (nonlinear_arith)
        requires
            sum == 255 * fg_channel * fg.a + bg_channel * bg.a * (255 - fg.a),
            fg_share == 255 * fg.a,
            bg_share == bg.a * (255 - fg.a),
    ;
    let low = if bg_channel <= fg_channel {
        bg_channel as int
    } else {
        fg_channel as int
    };
    let high = if bg_channel <= fg_channel {
        fg_channel as int
    } else {
        bg_channel as int
    };
    assert(low * weight <= sum <= high * weight) by (nonlinear_arith)
        requires
            sum == fg_channel * fg_share + bg_channel * bg_share,
            weight == fg_share + bg_share,
            0 <= fg_share,
            0 <= bg_share,
            low <= fg_channel <= high,
            low <= bg_channel <= high,
    ;
    assert(low <= sum / weight <= high) by (nonlinear_arith)
        requires
            low * weight <= sum <= high * weight,
            0 < weight,
    ;
}

/// The mix of two colours is at least as opaque as either of them.
pub proof fn lemma_blend_alpha_grows(bg: Rgba, fg: Rgba)
    ensures
        blend(bg, fg).a >= bg.a,
        blend(bg, fg).a >= fg.a,
{
    if fg.a != 0 && bg.a != 0 {
        lemma_blend_in_range(0, 0, bg, fg);
        let weight = blend_weight(bg, fg);
        assert(weight >= 255 * fg.a);
        assert(weight == 255 * bg.a + fg.a * (255 - bg.a)) by (nonlinear_arith)
            requires
                weight == 255 * fg.a + bg.a * (255 - fg.a),
        ;
        assert(fg.a * (255 - bg.a) >= 0) by (nonlinear_arith)
            requires
                fg.a >= 0,
                bg.a <= 255,
        ;
    }
}

/// Under a fully opaque foreground a channel of the mix is that of the foreground.
proof fn lemma_opaque_channel(bg_channel: u8, fg_channel: u8, bg: Rgba, fg: Rgba)
    requires
        fg.a == 255,
    ensures
        blend_weight(bg, fg) == 255 * 255,
        blend_channel(bg_channel as int, fg_channel as int, bg, fg) == fg_channel,
{
    let sum = 255 * fg_channel * fg.a + bg_channel * bg.a * (255 - fg.a);
    assert(sum == fg_channel * (255 * 255)) by (nonlinear_arith)
        requires
            sum == 255 * fg_channel * fg.a + bg_channel * bg.a * (255 - fg.a),
            fg.a == 255,
    ;
    assert(sum / 65025 == fg_channel);
}

/// A fully opaque colour hides whatever lies under it.
pub proof fn lemma_blend_opaque_foreground(bg: Rgba, fg: Rgba)
    requires
        fg.a == 255,
    ensures
        blend(bg, fg) == fg,
{
    if bg.a != 0 {
        lemma_opaque_channel(bg.r, fg.r, bg, fg);
        lemma_opaque_channel(bg.g, fg.g, bg, fg);
        lemma_opaque_channel(bg.b, fg.b, bg, fg);
    }
}

/// One channel of the mix of two colours neither of which is transparent.
fn mix_channel(bg_channel: u8, fg_channel: u8, bg: Rgba, fg: Rgba) -> (mixed: u8)
    requires
        fg.a != 0,
        bg.a != 0,
    ensures
        mixed == blend_channel(bg_channel as int, fg_channel as int, bg, fg),
{
    let rest: u32 = 255 - fg.a as u32;
    let fg_share: u32 = 255 * fg.a as u32;
    proof {
        lemma_blend_in_range(bg_channel, fg_channel, bg, fg);
        assert(bg.a * rest <= 255 * 255) by (nonlinear_arith)
            requires
                bg.a <= 255,
                rest <= 255,
        ;
    }
    let bg_share: u32 = bg.a as u32 * rest;
    proof {
        assert(fg_channel * fg_share <= 255 * 255 * 255 && bg_channel * bg_share <= 255 * 255
            * 255) by (nonlinear_arith)
            requires
                fg_channel <= 255,
                bg_channel <= 255,
                fg_share <= 255 * 255,
                bg_share <= 255 * 255,
        ;
        assert(fg_channel * fg_share == 255 * fg_channel * fg.a) by (nonlinear_arith)
            requires
                fg_share == 255 * fg.a,
        ;
        assert(bg_channel * bg_share == bg_channel * bg.a * (255 - fg.a)) by (nonlinear_arith)
            requires
                bg_share == bg.a * (255 - fg.a),
        ;
    }
    let sum: u32 = fg_channel as u32 * fg_share + bg_channel as u32 * bg_share;
    (sum / (fg_share + bg_share)) as u8
}

/// Lays `fg` over `bg` by the "source over" rule.
pub fn blend_colors(bg: Rgba, fg: Rgba) -> (mixed: Rgba)
    ensures
        mixed == blend(bg, fg),
{
    if fg.a == 0 {
        return bg;
    }
    if bg.a == 0 {
        return fg;
    }
    proof {
        lemma_blend_in_range(0, 0, bg, fg);
    }
    let weight: u32 = 255 * fg.a as u32 + bg.a as u32 * (255 - fg.a as u32);
    Rgba {
        r: mix_channel(bg.r, fg.r, bg, fg),
        g: mix_channel(bg.g, fg.g, bg, fg),
        b: mix_channel(bg.b, fg.b, bg, fg),
        a: (weight / 255) as u8,
    }
}

/// One pixel of a rasterised glyph: where it falls on the canvas, and the alpha with which
/// the colour of the text covers it.
#[derive(Debug, Clone, Copy, PartialEq, Eq, Structural)]
pub struct GlyphPixel {
    pub x: i32,
    pub y: i32,
    pub alpha: u8,
}

/// Says whether the position `(x, y)` lies inside the grid.
pub open spec fn inside(rows: Grid, x: int, y: int) -> bool {
    0 <= y < rows.len() && 0 <= x < rows[y].len()
}

/// The grid after `color` has been laid over the pixel at `(x, y)`. A position outside
/// the grid is passed over.
pub open spec fn blended_at(rows: Grid, x: int, y: int, color: Rgba) -> Grid {
    if inside(rows, x, y) {
        with_pixel(rows, x, y, blend(rows[y][x], color))
    } else {
        rows
    }
}

/// `color` with its alpha replaced.
pub open spec fn with_alpha(color: Rgba, alpha: u8) -> Rgba {
    Rgba { r: color.r, g: color.g, b: color.b, a: alpha }
}

/// The grid after the pixels of a glyph have been laid over it one after the other, first
/// to last, each in `color` with its own alpha. Where two of them fall on the same place,
/// the second is laid over what the first has left.
pub open spec fn composited(
    rows: Grid,
    pixels: Seq<GlyphPixel>,
    color: Rgba,
) -> Grid
    decreases pixels.len(),
{
    if pixels.len() == 0 {
        rows
    } else {
        let last = pixels.last();
        blended_at(
            composited(rows, pixels.drop_last(), color),
            last.x as int,
            last.y as int,
            with_alpha(color, last.alpha),
        )
    }
}

impl Canvas {
    /// Lays `color` over the pixel at column `x` of row `y`. A position outside the image
    /// is passed over: nothing is drawn, and that is no error.
    pub fn blend_pixel(&mut self, x: i32, y: i32, color: Rgba) -> (canvas: &mut Self)
        ensures
            canvas.image.width() == old(self).image.width(),
            canvas.image.height() == old(self).image.height(),
            canvas.image@ == blended_at(old(self).image@, x as int, y as int, color),
            *final(self) == *final(canvas),
    {
        proof {
            self.image.lemma_view_is_grid();
        }
        if x >= 0 && y >= 0 && (x as u32) < self.image.width() && (y as u32) < self.image.height() {
            let existing = self.image.get_pixel(x as u32, y as u32);
            let mixed = blend_colors(existing, color);
            self.image.set_pixel(x as u32, y as u32, mixed);
        }
        self
    }

    /// Lays the pixels of rasterised glyphs over the image, in the order given, each in
    /// `color` with the alpha of the pixel in place of that of the colour.
    pub fn draw_glyph_pixels(&mut self, pixels: &[GlyphPixel], color: Rgba) -> (canvas: &mut Self)
        ensures
            canvas.image.width() == old(self).image.width(),
            canvas.image.height() == old(self).image.height(),
            canvas.image@ == composited(old(self).image@, pixels@, color),
            *final(self) == *final(canvas),
    {
        let ghost before = self.image@;
        let mut i: usize = 0;
        while i < pixels.len()
            invariant
                i <= pixels@.len(),
                self.image.width() == old(self).image.width(),
                self.image.height() == old(self).image.height(),
                self.image@ == composited(before, pixels@.take(i as int), color),
            decreases pixels@.len() - i,
        {
            let pixel = pixels[i];
            proof {
                let next = pixels@.take(i + 1);
                assert(next.drop_last() =~= pixels@.take(i as int));
                assert(next.last() == pixel);
            }
            self.blend_pixel(
                pixel.x,
                pixel.y,
                Rgba { r: color.r, g: color.g, b: color.b, a: pixel.alpha },
            );
            i += 1;
        }
        proof {
            assert(pixels@.take(pixels@.len() as int) =~= pixels@);
        }
        self
    }
}

} // verus!
