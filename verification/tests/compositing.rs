use imagen::text::{blend_colors, GlyphPixel};
use imagen::{Canvas, Rgba};

const CLEAR: Rgba = Rgba { r: 0, g: 0, b: 0, a: 0 };

#[test]
fn transparent_foreground_leaves_the_background() {
    for bg in [
        Rgba::new(0, 0, 0, 0),
        Rgba::new(1, 2, 3, 0),
        Rgba::new(10, 20, 30, 40),
        Rgba::new(255, 255, 255, 255),
    ] {
        for fg in [Rgba::new(0, 0, 0, 0), Rgba::new(200, 100, 50, 0), Rgba::new(255, 255, 255, 0)] {
            assert_eq!(blend_colors(bg, fg), bg);
        }
    }
}

#[test]
fn transparent_background_leaves_the_foreground() {
    for bg in [Rgba::new(0, 0, 0, 0), Rgba::new(1, 2, 3, 0), Rgba::new(255, 255, 255, 0)] {
        for fg in [
            Rgba::new(10, 20, 30, 1),
            Rgba::new(200, 100, 50, 128),
            Rgba::new(255, 255, 255, 255),
        ] {
            assert_eq!(blend_colors(bg, fg), fg);
        }
    }
    assert_eq!(blend_colors(CLEAR, CLEAR), CLEAR);
}

#[test]
fn two_transparent_colors_give_the_background() {
    let bg = Rgba::new(1, 2, 3, 0);
    let fg = Rgba::new(4, 5, 6, 0);
    assert_eq!(blend_colors(bg, fg), bg);
}

#[test]
fn opaque_foreground_hides_the_background() {
    let fg = Rgba::new(200, 100, 50, 255);
    assert_eq!(blend_colors(Rgba::new(10, 20, 30, 255), fg), fg);
    assert_eq!(blend_colors(Rgba::new(10, 20, 30, 7), fg), fg);
}

#[test]
fn blend_mixes_by_source_over() {
    assert_eq!(
        blend_colors(Rgba::new(100, 0, 0, 128), Rgba::new(0, 100, 0, 128)),
        Rgba::new(33, 66, 0, 191)
    );
    assert_eq!(
        blend_colors(Rgba::new(255, 255, 255, 255), Rgba::new(0, 0, 0, 128)),
        Rgba::new(127, 127, 127, 255)
    );
    assert_eq!(
        blend_colors(Rgba::new(10, 20, 30, 255), Rgba::new(200, 100, 50, 64)),
        Rgba::new(57, 40, 35, 255)
    );
    assert_eq!(
        blend_colors(Rgba::new(10, 20, 30, 40), Rgba::new(200, 100, 50, 60)),
        Rgba::new(135, 72, 43, 90)
    );
}

#[test]
fn blend_with_faint_colors() {
    assert_eq!(
        blend_colors(Rgba::new(0, 0, 255, 255), Rgba::new(255, 0, 0, 1)),
        Rgba::new(1, 0, 254, 255)
    );
    assert_eq!(
        blend_colors(Rgba::new(0, 0, 255, 1), Rgba::new(255, 0, 0, 1)),
        Rgba::new(127, 0, 127, 1)
    );
}

#[test]
fn blend_pixel_lays_color_over_the_pixel() {
    let mut canvas = Canvas::new(4, 4);
    canvas.draw_filled_rect(0, 0, 4, 4, Rgba::new(255, 255, 255, 255));
    canvas.blend_pixel(2, 1, Rgba::new(0, 0, 0, 128));
    assert_eq!(canvas.image.get_pixel(2, 1), Rgba::new(127, 127, 127, 255));
    assert_eq!(canvas.image.get_pixel(1, 2), Rgba::new(255, 255, 255, 255));
}

#[test]
fn blend_pixel_on_a_clear_canvas_sets_the_color() {
    let mut canvas = Canvas::new(4, 4);
    canvas.blend_pixel(3, 3, Rgba::new(9, 8, 7, 6));
    assert_eq!(canvas.image.get_pixel(3, 3), Rgba::new(9, 8, 7, 6));
}

#[test]
fn blend_pixel_outside_is_passed_over() {
    let mut canvas = Canvas::new(4, 3);
    let color = Rgba::new(9, 8, 7, 255);
    canvas
        .blend_pixel(-1, 0, color)
        .blend_pixel(0, -1, color)
        .blend_pixel(4, 0, color)
        .blend_pixel(0, 3, color)
        .blend_pixel(i32::MIN, i32::MAX, color);
    assert_eq!(canvas.image.to_u8_vec(), vec![0u8; 48]);
}

#[test]
fn glyph_pixels_take_their_own_alpha() {
    let mut canvas = Canvas::new(3, 2);
    let color = Rgba::new(200, 100, 50, 255);
    let pixels = [
        GlyphPixel { x: 0, y: 0, alpha: 255 },
        GlyphPixel { x: 1, y: 0, alpha: 64 },
        GlyphPixel { x: 2, y: 1, alpha: 0 },
    ];
    canvas.draw_glyph_pixels(&pixels, color);
    assert_eq!(canvas.image.get_pixel(0, 0), Rgba::new(200, 100, 50, 255));
    assert_eq!(canvas.image.get_pixel(1, 0), Rgba::new(200, 100, 50, 64));
    assert_eq!(canvas.image.get_pixel(2, 1), CLEAR);
    assert_eq!(canvas.image.get_pixel(0, 1), CLEAR);
}

#[test]
fn glyph_pixels_are_laid_down_in_order() {
    let mut canvas = Canvas::new(2, 2);
    canvas.draw_filled_rect(0, 0, 2, 2, Rgba::new(0, 0, 0, 255));
    let white = [GlyphPixel { x: 1, y: 1, alpha: 128 }];
    let red = [GlyphPixel { x: 1, y: 1, alpha: 128 }];
    canvas
        .draw_glyph_pixels(&white, Rgba::new(255, 255, 255, 255))
        .draw_glyph_pixels(&red, Rgba::new(255, 0, 0, 255));
    assert_eq!(canvas.image.get_pixel(1, 1), Rgba::new(191, 63, 63, 255));
}

#[test]
fn glyph_pixels_on_one_place_match_one_after_the_other() {
    let color = Rgba::new(255, 255, 255, 255);
    let pixels = [
        GlyphPixel { x: 0, y: 0, alpha: 100 },
        GlyphPixel { x: 0, y: 0, alpha: 50 },
        GlyphPixel { x: 0, y: 0, alpha: 200 },
    ];
    let mut batch = Canvas::new(1, 1);
    batch.draw_filled_rect(0, 0, 1, 1, Rgba::new(10, 20, 30, 90));
    batch.draw_glyph_pixels(&pixels, color);
    let mut single = Canvas::new(1, 1);
    single.draw_filled_rect(0, 0, 1, 1, Rgba::new(10, 20, 30, 90));
    for pixel in pixels {
        single.blend_pixel(pixel.x, pixel.y, Rgba::new(255, 255, 255, pixel.alpha));
    }
    assert_eq!(batch.image.get_pixel(0, 0), single.image.get_pixel(0, 0));
    let mut by_hand = Rgba::new(10, 20, 30, 90);
    for alpha in [100, 50, 200] {
        by_hand = blend_colors(by_hand, Rgba::new(255, 255, 255, alpha));
    }
    assert_eq!(batch.image.get_pixel(0, 0), by_hand);
}

#[test]
fn glyph_pixels_outside_are_passed_over() {
    let mut canvas = Canvas::new(2, 2);
    let pixels = [
        GlyphPixel { x: -1, y: 0, alpha: 255 },
        GlyphPixel { x: 2, y: 1, alpha: 255 },
        GlyphPixel { x: 1, y: 1, alpha: 255 },
        GlyphPixel { x: 0, y: 2, alpha: 255 },
    ];
    canvas.draw_glyph_pixels(&pixels, Rgba::new(1, 2, 3, 4));
    assert_eq!(canvas.image.get_pixel(1, 1), Rgba::new(1, 2, 3, 255));
    assert_eq!(canvas.image.get_pixel(0, 0), CLEAR);
    assert_eq!(canvas.image.get_pixel(1, 0), CLEAR);
    assert_eq!(canvas.image.get_pixel(0, 1), CLEAR);
}

#[test]
fn no_glyph_pixels_change_nothing() {
    let mut canvas = Canvas::new(2, 2);
    canvas.draw_filled_rect(0, 0, 1, 1, Rgba::new(1, 2, 3, 4));
    let before = canvas.image.to_u8_vec();
    canvas.draw_glyph_pixels(&[], Rgba::new(255, 255, 255, 255));
    assert_eq!(canvas.image.to_u8_vec(), before);
}
