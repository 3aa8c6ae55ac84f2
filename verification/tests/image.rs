use imagen::{Canvas, ImageError, Rgba, RgbaImage};

const CLEAR: Rgba = Rgba { r: 0, g: 0, b: 0, a: 0 };
const RED: Rgba = Rgba { r: 255, g: 0, b: 0, a: 255 };

#[test]
fn color_new_keeps_channels() {
    let color = Rgba::new(1, 2, 3, 4);
    assert_eq!(color, Rgba { r: 1, g: 2, b: 3, a: 4 });
    assert_eq!(color.to_array(), [1, 2, 3, 4]);
}

#[test]
fn default_color_is_transparent_black() {
    assert_eq!(Rgba::default(), CLEAR);
    assert_eq!(Rgba::default().to_array(), [0, 0, 0, 0]);
}

#[test]
fn fresh_image_is_transparent_black() {
    for (width, height) in [(1u32, 1u32), (1, 7), (7, 1), (4, 4), (13, 5), (64, 48)] {
        let mut image = RgbaImage::new(width, height);
        assert_eq!(image.width(), width);
        assert_eq!(image.height(), height);
        for y in 0..height {
            for x in 0..width {
                assert_eq!(image.get_pixel(x, y), CLEAR);
            }
        }
        assert_eq!(image.to_u8_vec(), vec![0u8; (width * height * 4) as usize]);
    }
}

#[test]
fn fresh_canvas_is_transparent_black() {
    let mut canvas = Canvas::new(5, 3);
    assert_eq!(canvas.image.width(), 5);
    assert_eq!(canvas.image.height(), 3);
    for y in 0..3 {
        for x in 0..5 {
            assert_eq!(canvas.image.get_pixel(x, y), CLEAR);
        }
    }
}

#[test]
fn set_pixel_changes_one_pixel() {
    let mut image = RgbaImage::new(3, 2);
    image.set_pixel(2, 1, RED);
    for y in 0..2 {
        for x in 0..3 {
            let expected = if (x, y) == (2, 1) { RED } else { CLEAR };
            assert_eq!(image.get_pixel(x, y), expected);
        }
    }
}

#[test]
fn set_pixel_overwrites() {
    let mut image = RgbaImage::new(2, 2);
    image.set_pixel(0, 1, RED);
    image.set_pixel(0, 1, Rgba::new(9, 8, 7, 6));
    assert_eq!(image.get_pixel(0, 1), Rgba::new(9, 8, 7, 6));
}

#[test]
fn bytes_are_row_major_rgba() {
    let mut image = RgbaImage::new(2, 2);
    image.set_pixel(0, 0, Rgba::new(1, 2, 3, 4));
    image.set_pixel(1, 0, Rgba::new(5, 6, 7, 8));
    image.set_pixel(0, 1, Rgba::new(9, 10, 11, 12));
    image.set_pixel(1, 1, Rgba::new(13, 14, 15, 16));
    assert_eq!(image.to_u8_vec(), (1u8..=16).collect::<Vec<u8>>());
}

#[test]
fn bytes_of_a_wide_image_keep_rows_apart() {
    let mut image = RgbaImage::new(3, 2);
    image.set_pixel(2, 0, Rgba::new(1, 1, 1, 1));
    image.set_pixel(0, 1, Rgba::new(2, 2, 2, 2));
    let bytes = image.to_u8_vec();
    assert_eq!(bytes.len(), 24);
    assert_eq!(&bytes[8..12], &[1, 1, 1, 1]);
    assert_eq!(&bytes[12..16], &[2, 2, 2, 2]);
}

#[test]
fn clone_keeps_size_and_pixels() {
    let mut image = RgbaImage::new(3, 4);
    image.set_pixel(1, 2, RED);
    let mut copy = image.clone();
    assert_eq!(copy.width(), 3);
    assert_eq!(copy.height(), 4);
    assert_eq!(copy.get_pixel(1, 2), RED);
    assert_eq!(copy.to_u8_vec(), image.to_u8_vec());
    copy.set_pixel(0, 0, RED);
    assert_eq!(image.get_pixel(0, 0), CLEAR);
}

#[test]
fn draw_pixel_inside_sets_it() {
    let mut canvas = Canvas::new(20, 20);
    let gray = Rgba::new(100, 100, 100, 255);
    assert!(canvas.draw_pixel(10, 10, gray).is_ok());
    assert_eq!(canvas.image.get_pixel(10, 10), gray);
    assert_eq!(canvas.image.get_pixel(10, 11), CLEAR);
}

#[test]
fn draw_pixel_outside_is_refused() {
    let mut canvas = Canvas::new(4, 3);
    canvas.draw_pixel(1, 1, RED).unwrap();
    let before = canvas.image.to_u8_vec();
    assert_eq!(canvas.draw_pixel(4, 0, RED).err(), Some(ImageError::OutOfBounds));
    assert_eq!(canvas.draw_pixel(0, 3, RED).err(), Some(ImageError::OutOfBounds));
    assert_eq!(canvas.draw_pixel(u32::MAX, u32::MAX, RED).err(), Some(ImageError::OutOfBounds));
    assert_eq!(canvas.image.to_u8_vec(), before);
}

#[test]
fn draw_pixel_chains() {
    let mut canvas = Canvas::new(4, 4);
    canvas.draw_pixel(0, 0, RED).unwrap().draw_pixel(3, 3, RED).unwrap();
    assert_eq!(canvas.image.get_pixel(0, 0), RED);
    assert_eq!(canvas.image.get_pixel(3, 3), RED);
}
