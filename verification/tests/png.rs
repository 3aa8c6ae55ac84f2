use std::io::Read;

use imagen::codecs::png::{
    chunk_wrapper, crc, encode_to_png, idat_chunk, ihdr_chunk, png_from_idat, raw_scanlines,
};
use imagen::{Canvas, Codecs, ImageError, Rgba, RgbaImage};

const SIGNATURE: [u8; 8] = [0x89, 0x50, 0x4E, 0x47, 0x0D, 0x0A, 0x1A, 0x0A];

fn be(bytes: &[u8]) -> u32 {
    u32::from_be_bytes([bytes[0], bytes[1], bytes[2], bytes[3]])
}

fn inflate(data: &[u8]) -> Vec<u8> {
    let mut raw = Vec::new();
    flate2::read::ZlibDecoder::new(data).read_to_end(&mut raw).unwrap();
    raw
}

/// Splits a PNG stream into its chunks: type and data of each, after checking the
/// signature, the framing and every checksum.
fn chunks(png: &[u8]) -> Vec<([u8; 4], Vec<u8>)> {
    assert_eq!(&png[..8], &SIGNATURE);
    let mut at = 8;
    let mut found = Vec::new();
    while at < png.len() {
        let length = be(&png[at..at + 4]) as usize;
        let kind = [png[at + 4], png[at + 5], png[at + 6], png[at + 7]];
        let data = png[at + 8..at + 8 + length].to_vec();
        let sum = be(&png[at + 8 + length..at + 12 + length]);
        assert_eq!(sum, crc32fast::hash(&png[at + 4..at + 8 + length]));
        found.push((kind, data));
        at += 12 + length;
    }
    assert_eq!(at, png.len());
    found
}

#[test]
fn canvas_encodes_as_png() {
    let mut canvas = Canvas::new(3, 2);
    canvas.draw_pixel(2, 1, Rgba::new(1, 2, 3, 4)).unwrap();
    assert_eq!(canvas.encode(Codecs::PNG), encode_to_png(&canvas.image));
    let png = canvas.encode(Codecs::PNG).unwrap();
    let found = chunks(&png);
    assert_eq!(
        inflate(&found[1].1),
        vec![0, 0, 0, 0, 0, 0, 0, 0, 0, 0, 0, 0, 0, 0, 0, 0, 0, 0, 0, 0, 0, 0, 1, 2, 3, 4]
    );
}

#[test]
fn checksum_of_the_end_chunk() {
    assert_eq!(crc(b"IEND", &[]), [0xAE, 0x42, 0x60, 0x82]);
}

#[test]
fn checksum_covers_type_and_data() {
    assert_eq!(crc(b"abcd", b"xyz"), [0x8B, 0x88, 0x38, 0xC2]);
    assert_eq!(crc(b"tEXt", b"hello"), [0x5A, 0x80, 0xF3, 0x62]);
    assert_eq!(
        crc(b"IHDR", &[0, 0, 0, 1, 0, 0, 0, 1, 8, 6, 0, 0, 0]),
        [0x1F, 0x15, 0xC4, 0x89]
    );
}

#[test]
fn chunk_is_length_type_data_checksum() {
    assert_eq!(
        chunk_wrapper(b"tEXt", b"hello"),
        vec![0, 0, 0, 5, b't', b'E', b'X', b't', b'h', b'e', b'l', b'l', b'o', 0x5A, 0x80, 0xF3, 0x62]
    );
}

#[test]
fn empty_chunk_has_length_zero() {
    assert_eq!(
        chunk_wrapper(b"IEND", &[]),
        vec![0, 0, 0, 0, b'I', b'E', b'N', b'D', 0xAE, 0x42, 0x60, 0x82]
    );
}

#[test]
fn chunk_length_is_big_endian() {
    let data = vec![7u8; 0x0001_0203];
    let framed = chunk_wrapper(b"IDAT", &data);
    assert_eq!(&framed[..4], &[0x00, 0x01, 0x02, 0x03]);
    assert_eq!(framed.len(), 0x0001_0203 + 12);
    assert_eq!(&framed[4..8], b"IDAT");
    assert_eq!(framed[8], 7);
    assert_eq!(&framed[framed.len() - 4..], &crc(b"IDAT", &data));
}

#[test]
fn header_holds_size_and_format() {
    assert_eq!(ihdr_chunk(1, 2), [0, 0, 0, 1, 0, 0, 0, 2, 8, 6, 0, 0, 0]);
    assert_eq!(
        ihdr_chunk(0x0102_0304, 0xA0B0_C0D0),
        [0x01, 0x02, 0x03, 0x04, 0xA0, 0xB0, 0xC0, 0xD0, 8, 6, 0, 0, 0]
    );
    assert_eq!(
        ihdr_chunk(4096, u32::MAX),
        [0, 0, 0x10, 0, 0xFF, 0xFF, 0xFF, 0xFF, 8, 6, 0, 0, 0]
    );
}

#[test]
fn scanlines_start_with_the_filter_byte() {
    let mut image = RgbaImage::new(2, 2);
    image.set_pixel(0, 0, Rgba::new(1, 2, 3, 4));
    image.set_pixel(1, 0, Rgba::new(5, 6, 7, 8));
    image.set_pixel(0, 1, Rgba::new(9, 10, 11, 12));
    image.set_pixel(1, 1, Rgba::new(13, 14, 15, 16));
    assert_eq!(
        raw_scanlines(&image),
        vec![0, 1, 2, 3, 4, 5, 6, 7, 8, 0, 9, 10, 11, 12, 13, 14, 15, 16]
    );
}

#[test]
fn scanlines_take_whole_rows() {
    let image = RgbaImage::new(5, 3);
    assert_eq!(raw_scanlines(&image), vec![0u8; 3 * (1 + 5 * 4)]);
    let image = RgbaImage::new(1, 1);
    assert_eq!(raw_scanlines(&image), vec![0u8; 5]);
}

#[test]
fn idat_is_the_compressed_scanlines() {
    let mut image = RgbaImage::new(3, 2);
    image.set_pixel(1, 1, Rgba::new(50, 60, 70, 80));
    let data = idat_chunk(&image).unwrap();
    assert_ne!(data, raw_scanlines(&image));
    assert_eq!(data[0] & 0x0F, 8);
    assert_eq!(((data[0] as u16) * 256 + data[1] as u16) % 31, 0);
    assert_eq!(inflate(&data), raw_scanlines(&image));
}

#[test]
fn stream_is_put_together_from_idat() {
    let data = vec![1u8, 2, 3];
    let png = png_from_idat(2, 3, Ok(data.clone())).unwrap();
    let mut expected = SIGNATURE.to_vec();
    expected.extend(chunk_wrapper(b"IHDR", &ihdr_chunk(2, 3)));
    expected.extend(chunk_wrapper(b"IDAT", &data));
    expected.extend(chunk_wrapper(b"IEND", &[]));
    assert_eq!(png, expected);
}

#[test]
fn stream_with_empty_idat() {
    let png = png_from_idat(1, 1, Ok(Vec::new())).unwrap();
    assert_eq!(png.len(), 8 + 25 + 12 + 12);
    let found = chunks(&png);
    assert_eq!(found[1], (*b"IDAT", Vec::new()));
}

#[test]
fn failed_compression_is_passed_on() {
    assert_eq!(png_from_idat(2, 3, Err(ImageError::Encode)), Err(ImageError::Encode));
    assert_eq!(png_from_idat(2, 3, Err(ImageError::Font)), Err(ImageError::Font));
}

#[test]
fn encoded_image_has_signature_header_and_end() {
    for (width, height) in [(1u32, 1u32), (4, 4), (20, 20), (3, 17), (300, 2)] {
        let canvas = Canvas::new(width, height);
        let png = encode_to_png(&canvas.image).unwrap();
        assert_eq!(&png[..8], &SIGNATURE);
        assert_eq!(be(&png[8..12]), 13);
        assert_eq!(&png[12..16], b"IHDR");
        assert_eq!(be(&png[16..20]), width);
        assert_eq!(be(&png[20..24]), height);
        assert_eq!(&png[24..29], &[8, 6, 0, 0, 0]);
        assert_eq!(
            &png[png.len() - 12..],
            &[0, 0, 0, 0, b'I', b'E', b'N', b'D', 0xAE, 0x42, 0x60, 0x82]
        );
        let found = chunks(&png);
        assert_eq!(found.len(), 3);
        assert_eq!(found[0].0, *b"IHDR");
        assert_eq!(found[0].1, ihdr_chunk(width, height).to_vec());
        assert_eq!(found[1].0, *b"IDAT");
        assert_eq!(found[2], (*b"IEND", Vec::new()));
    }
}

#[test]
fn encoded_image_decodes_to_its_scanlines() {
    let mut canvas = Canvas::new(4, 4);
    canvas.draw_pixel(1, 1, Rgba::new(255, 0, 0, 255)).unwrap();
    let png = encode_to_png(&canvas.image).unwrap();
    let found = chunks(&png);
    let raw = inflate(&found[1].1);
    assert_eq!(raw.len(), 4 * 17);
    assert_eq!(
        &raw[17..34],
        &[0, 0x00, 0x00, 0x00, 0x00, 0xFF, 0x00, 0x00, 0xFF, 0x00, 0x00, 0x00, 0x00, 0x00, 0x00, 0x00, 0x00]
    );
    for row in [0, 2, 3] {
        assert_eq!(&raw[row * 17..(row + 1) * 17], &[0u8; 17]);
    }
}

#[test]
fn encoded_image_keeps_every_pixel() {
    let mut canvas = Canvas::new(37, 23);
    canvas
        .draw_filled_rect(0, 0, 37, 23, Rgba::new(10, 20, 30, 255))
        .draw_filled_circle(18, 11, 9, Rgba::new(200, 100, 50, 128))
        .draw_rounded_stroke_rect(2, 2, 30, 18, 2, 5, Rgba::new(1, 2, 3, 4));
    let png = encode_to_png(&canvas.image).unwrap();
    let found = chunks(&png);
    let raw = inflate(&found[1].1);
    assert_eq!(raw.len(), 23 * (1 + 37 * 4));
    for y in 0..23u32 {
        let line = &raw[(y as usize) * 149..(y as usize + 1) * 149];
        assert_eq!(line[0], 0);
        for x in 0..37u32 {
            let at = 1 + (x as usize) * 4;
            assert_eq!(&line[at..at + 4], &canvas.image.get_pixel(x, y).to_array());
        }
    }
}

#[test]
fn encoding_twice_gives_the_same_bytes() {
    let mut canvas = Canvas::new(16, 16);
    canvas.draw_filled_circle(8, 8, 5, Rgba::new(9, 9, 9, 255));
    assert_eq!(encode_to_png(&canvas.image), encode_to_png(&canvas.image));
}
