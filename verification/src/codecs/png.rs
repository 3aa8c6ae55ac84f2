//! The PNG encoder: the signature, then the three chunks IHDR, IDAT and IEND.
//!
//! A chunk is framed as the length of its data (four bytes, big-endian), its type (four
//! bytes), the data, and a CRC-32 over type and data (four bytes, big-endian). The IDAT
//! data is the zlib stream of the scanlines: for every row a filter byte 0 followed by the
//! four bytes of each of its pixels.

use vstd::prelude::*;
use crate::error::ImageError;
use crate::outside::{checksum, crc32, deflate_fast, deflated};
use crate::rgba::Rgba;
use crate::rgba_image::{
    grid_bytes, is_grid, lemma_grid_bytes_len, lemma_grid_bytes_row, lemma_row_bytes_len,
    row_bytes, Grid, RgbaImage,
};

verus! {

/// The eight bytes every PNG stream starts with.
pub open spec fn signature() -> Seq<u8> {
    seq![0x89u8, 0x50u8, 0x4Eu8, 0x47u8, 0x0Du8, 0x0Au8, 0x1Au8, 0x0Au8]
}

/// The chunk type `IHDR`.
pub open spec fn ihdr_tag() -> Seq<u8> {
    seq![0x49u8, 0x48u8, 0x44u8, 0x52u8]
}

/// The chunk type `IDAT`.
pub open spec fn idat_tag() -> Seq<u8> {
    seq![0x49u8, 0x44u8, 0x41u8, 0x54u8]
}

/// The chunk type `IEND`.
pub open spec fn iend_tag() -> Seq<u8> {
    seq![0x49u8, 0x45u8, 0x4Eu8, 0x44u8]
}

/// The four bytes of a number, most significant first.
pub open spec fn be_bytes(value: u32) -> Seq<u8> {
    seq![
        (value / 0x100_0000) as u8,
        (value / 0x1_0000 % 0x100) as u8,
        (value / 0x100 % 0x100) as u8,
        (value % 0x100) as u8,
    ]
}

/// The number that four bytes stand for, most significant first.
pub open spec fn be_value(bytes: Seq<u8>) -> int {
    bytes[0] * 0x100_0000 + bytes[1] * 0x1_0000 + bytes[2] * 0x100 + bytes[3]
}

/// A chunk: length of the data, type, data, checksum over type and data.
pub open spec fn chunk(kind: Seq<u8>, data: Seq<u8>) -> Seq<u8> {
    be_bytes(data.len() as u32) + kind + data + be_bytes(crc32(kind + data))
}

/// The data of the header chunk: width, height, bit depth 8, colour type 6 (truecolour
/// with alpha), and 0 for compression method, filter method and interlacing.
pub open spec fn header(width: u32, height: u32) -> Seq<u8> {
    be_bytes(width) + be_bytes(height) + seq![8u8, 6u8, 0u8, 0u8, 0u8]
}

/// One scanline: the filter byte 0 ("none") and the bytes of the pixels of the row.
pub open spec fn scanline(row: Seq<Rgba>) -> Seq<u8> {
    seq![0u8] + row_bytes(row)
}

/// The scanlines of a grid, one row after the other from top to bottom.
pub open spec fn scanlines(rows: Grid) -> Seq<u8>
    decreases rows.len(),
{
    if rows.len() == 0 {
        Seq::empty()
    } else {
        scanlines(rows.drop_last()) + scanline(rows.last())
    }
}

/// A whole PNG stream for an image of the given size whose IDAT chunk holds `data`.
pub open spec fn png_stream(width: u32, height: u32, data: Seq<u8>) -> Seq<u8> {
    signature() + chunk(ihdr_tag(), header(width, height)) + chunk(idat_tag(), data) + chunk(
        iend_tag(),
        Seq::empty(),
    )
}

/// What encoding the grid of an image of the given size gives: the PNG stream around the
/// compressed scanlines, or nothing where the compressor fails or its output is too long
/// for the length field of a chunk.
pub open spec fn encoded(width: u32, height: u32, rows: Grid) -> Option<Seq<u8>> {
    match deflated(scanlines(rows)) {
        Some(data) => if data.len() <= u32::MAX {
            Some(png_stream(width, height, data))
        } else {
            None
        },
        None => None,
    }
}

/// Four bytes, read back, give the number they were made of.
pub proof fn lemma_be_round_trip(value: u32)
    ensures
        be_bytes(value).len() == 4,
        be_value(be_bytes(value)) == value,
{
}

/// A PNG stream begins with the PNG signature.
pub proof fn lemma_png_begins_with_signature(width: u32, height: u32, data: Seq<u8>)
    ensures
        png_stream(width, height, data).len() == 57 + data.len(),
        png_stream(width, height, data).subrange(0, 8) == signature(),
{
    assert(png_stream(width, height, data).subrange(0, 8) =~= signature());
}

/// The first chunk of a PNG stream is the header, thirteen bytes long, and the first
/// eight bytes of its data read back as the width and the height of the image.
pub proof fn lemma_png_header_holds_size(width: u32, height: u32, data: Seq<u8>)
    ensures
        png_stream(width, height, data).len() >= 33,
        be_value(png_stream(width, height, data).subrange(8, 12)) == 13,
        png_stream(width, height, data).subrange(12, 16) == ihdr_tag(),
        be_value(png_stream(width, height, data).subrange(16, 20)) == width,
        be_value(png_stream(width, height, data).subrange(20, 24)) == height,
{
    let png = png_stream(width, height, data);
    assert(header(width, height).len() == 13);
    assert(png.subrange(8, 12) =~= be_bytes(13));
    assert(png.subrange(12, 16) =~= ihdr_tag());
    assert(png.subrange(16, 20) =~= be_bytes(width));
    assert(png.subrange(20, 24) =~= be_bytes(height));
    lemma_be_round_trip(13);
    lemma_be_round_trip(width);
    lemma_be_round_trip(height);
}

/// A PNG stream ends with the IEND chunk, whose data is empty: its last twelve bytes are
/// the length 0, the type `IEND` and the checksum over the type alone.
pub proof fn lemma_png_ends_with_empty_chunk(width: u32, height: u32, data: Seq<u8>)
    ensures
        png_stream(width, height, data).len() >= 12,
        ({
            let png = png_stream(width, height, data);
            let end = png.len() as int;
            &&& be_value(png.subrange(end - 12, end - 8)) == 0
            &&& png.subrange(end - 8, end - 4) == iend_tag()
            &&& png.subrange(end - 4, end) == be_bytes(crc32(iend_tag()))
        }),
{
    let png = png_stream(width, height, data);
    let end = png.len() as int;
    assert(iend_tag() + Seq::<u8>::empty() =~= iend_tag());
    assert(png.subrange(end - 12, end - 8) =~= be_bytes(0));
    assert(png.subrange(end - 8, end - 4) =~= iend_tag());
    assert(png.subrange(end - 4, end) =~= be_bytes(crc32(iend_tag())));
}

/// The four bytes of a number, most significant first.
fn be_bytes_of(value: u32) -> (bytes: [u8; 4])
    ensures
        bytes@ == be_bytes(value),
{
    let bytes = [
        (value / 0x100_0000) as u8,
        (value / 0x1_0000 % 0x100) as u8,
        (value / 0x100 % 0x100) as u8,
        (value % 0x100) as u8,
    ];
    assert(bytes@ =~= be_bytes(value));
    bytes
}

/// Appends the bytes of `source` to `target`.
fn append_bytes(target: &mut Vec<u8>, source: &[u8])
    ensures
        final(target)@ == old(target)@ + source@,
{
    let mut i: usize = 0;
    while i < source.len()
        invariant
            i <= source@.len(),
            target@ == old(target)@ + source@.take(i as int),
        decreases source@.len() - i,
    {
        target.push(source[i]);
        proof {
            assert(target@ =~= old(target)@ + source@.take(i + 1));
        }
        i += 1;
    }
    proof {
        assert(source@.take(source@.len() as int) =~= source@);
    }
}

/// The checksum of a chunk: the CRC-32 over its type followed by its data, as four bytes,
/// most significant first.
pub fn crc(chunk_type: &[u8; 4], data: &[u8]) -> (bytes: [u8; 4])
    ensures
        bytes@ == be_bytes(crc32(chunk_type@ + data@)),
{
    let mut covered: Vec<u8> = Vec::new();
    append_bytes(&mut covered, chunk_type.as_slice());
    append_bytes(&mut covered, data);
    proof {
        assert(covered@ =~= chunk_type@ + data@);
    }
    be_bytes_of(checksum(covered.as_slice()))
}

/// Frames `data` as a chunk of the given type. The length of the data has to fit the four
/// bytes that the chunk has for it.
pub fn chunk_wrapper(chunk_type: &[u8; 4], data: &[u8]) -> (framed: Vec<u8>)
    requires
        data@.len() <= u32::MAX,
    ensures
        framed@ == chunk(chunk_type@, data@),
{
    let mut framed: Vec<u8> = Vec::new();
    let length = be_bytes_of(data.len() as u32);
    append_bytes(&mut framed, length.as_slice());
    append_bytes(&mut framed, chunk_type.as_slice());
    append_bytes(&mut framed, data);
    let sum = crc(chunk_type, data);
    append_bytes(&mut framed, sum.as_slice());
    framed
}

/// The data of the header chunk for an image of the given size.
pub fn ihdr_chunk(width: u32, height: u32) -> (data: [u8; 13])
    ensures
        data@ == header(width, height),
{
    let w = be_bytes_of(width);
    let h = be_bytes_of(height);
    let data = [w[0], w[1], w[2], w[3], h[0], h[1], h[2], h[3], 8, 6, 0, 0, 0];
    assert(data@ =~= header(width, height));
    data
}

/// The scanlines of an image, uncompressed.
pub fn raw_scanlines(image: &RgbaImage) -> (raw: Vec<u8>)
    ensures
        raw@ == scanlines(image@),
{
    let bytes = image.to_u8_vec();
    let width = image.width();
    let height = image.height();
    proof {
        image.lemma_view_is_grid();
        lemma_grid_bytes_len(image@, width as nat);
        assert(bytes@.len() == bytes.len());
        assert(4 * width <= 4 * width * height) by (nonlinear_arith)
            requires
                height >= 1,
                width >= 0,
        ;
    }
    let stride: usize = 4 * (width as usize);
    let mut raw: Vec<u8> = Vec::new();
    let mut y: u32 = 0;
    while y < height
        invariant
            y <= height,
            width == image.width(),
            height == image.height(),
            is_grid(image@, width as nat, height as nat),
            bytes@ == grid_bytes(image@),
            bytes@.len() == 4 * width * height,
            stride == 4 * width,
            raw@ == scanlines(image@.take(y as int)),
        decreases height - y,
    {
        let ghost done = raw@;
        let ghost row = row_bytes(image@[y as int]);
        proof {
            lemma_grid_bytes_row(image@, width as nat, y as int);
            lemma_row_bytes_len(image@[y as int]);
            assert(bytes@.len() == bytes.len());
        }
        let start: usize = (y as usize) * stride;
        raw.push(0);
        let mut k: usize = 0;
        while k < stride
            invariant
                k <= stride,
                y < height,
                start == 4 * width * y,
                start + stride <= bytes@.len(),
                bytes@.len() == bytes.len(),
                row.len() == stride,
                bytes@.subrange(start as int, start + stride) == row,
                raw@ == done + seq![0u8] + row.take(k as int),
            decreases stride - k,
        {
            proof {
                assert(bytes@.subrange(start as int, start + stride)[k as int] == bytes@[start
                    + k]);
            }
            raw.push(bytes[start + k]);
            proof {
                assert(raw@ =~= done + seq![0u8] + row.take(k + 1));
            }
            k += 1;
        }
        proof {
            let rows = image@.take(y + 1);
            assert(rows.drop_last() =~= image@.take(y as int));
            assert(rows.last() == image@[y as int]);
            assert(row.take(stride as int) =~= row);
            assert(raw@ =~= done + scanline(image@[y as int]));
        }
        y += 1;
    }
    proof {
        assert(image@.take(height as int) =~= image@);
    }
    raw
}

/// The data of the IDAT chunk: the scanlines of the image, compressed. Succeeds exactly
/// where the compressor does; where it does not, the error is `Encode`.
pub fn idat_chunk(image: &RgbaImage) -> (result: Result<Vec<u8>, ImageError>)
    ensures
        match deflated(scanlines(image@)) {
            Some(stream) => result matches Ok(data) && data@ == stream,
            None => result == Err::<Vec<u8>, ImageError>(ImageError::Encode),
        },
{
    let raw = raw_scanlines(image);
    match deflate_fast(raw.as_slice()) {
        Ok(data) => Ok(data),
        Err(_) => Err(ImageError::Encode),
    }
}

/// Puts a PNG stream together from the size of the image and what became of compressing
/// its scanlines. A failed compression is passed on; data too long for the length field
/// of a chunk is refused with `Encode`; otherwise the stream is the signature and the
/// three chunks.
pub fn png_from_idat(
    width: u32,
    height: u32,
    idat: Result<Vec<u8>, ImageError>,
) -> (result: Result<Vec<u8>, ImageError>)
    ensures
        match idat {
            Ok(data) => if data@.len() <= u32::MAX {
                result matches Ok(png) && png@ == png_stream(width, height, data@)
            } else {
                result == Err::<Vec<u8>, ImageError>(ImageError::Encode)
            },
            Err(error) => result == Err::<Vec<u8>, ImageError>(error),
        },
{
    match idat {
        Ok(data) => {
            if data.len() > 0xFFFF_FFFF {
                return Err(ImageError::Encode);
            }
            let ihdr_type: [u8; 4] = [0x49, 0x48, 0x44, 0x52];
            let idat_type: [u8; 4] = [0x49, 0x44, 0x41, 0x54];
            let iend_type: [u8; 4] = [0x49, 0x45, 0x4E, 0x44];
            let signature: [u8; 8] = [0x89, 0x50, 0x4E, 0x47, 0x0D, 0x0A, 0x1A, 0x0A];
            let empty: Vec<u8> = Vec::new();
            proof {
                assert(ihdr_type@ =~= ihdr_tag());
                assert(idat_type@ =~= idat_tag());
                assert(iend_type@ =~= iend_tag());
                assert(signature@ =~= self::signature());
                assert(empty@ =~= Seq::<u8>::empty());
            }
            let header = ihdr_chunk(width, height);
            let mut png: Vec<u8> = Vec::new();
            append_bytes(&mut png, signature.as_slice());
            let ihdr = chunk_wrapper(&ihdr_type, header.as_slice());
            append_bytes(&mut png, ihdr.as_slice());
            let idat = chunk_wrapper(&idat_type, data.as_slice());
            append_bytes(&mut png, idat.as_slice());
            let iend = chunk_wrapper(&iend_type, empty.as_slice());
            append_bytes(&mut png, iend.as_slice());
            proof {
                assert(png@ =~= png_stream(width, height, data@));
            }
            Ok(png)
        },
        Err(error) => Err(error),
    }
}

/// Encodes an image as a PNG stream: the signature, the header chunk with the size of the
/// image, the IDAT chunk with its compressed scanlines, and the empty IEND chunk. Succeeds
/// exactly where the compressor succeeds and its output fits one chunk; otherwise the
/// error is `Encode`.
pub fn encode_to_png(image: &RgbaImage) -> (result: Result<Vec<u8>, ImageError>)
    ensures
        match encoded(image.width(), image.height(), image@) {
            Some(stream) => result matches Ok(png) && png@ == stream,
            None => result == Err::<Vec<u8>, ImageError>(ImageError::Encode),
        },
        result matches Ok(png) ==> {
            &&& png@.len() >= 57
            &&& png@.subrange(0, 8) == signature()
            &&& be_value(png@.subrange(8, 12)) == 13
            &&& png@.subrange(12, 16) == ihdr_tag()
            &&& be_value(png@.subrange(16, 20)) == image.width()
            &&& be_value(png@.subrange(20, 24)) == image.height()
            &&& be_value(png@.subrange(png@.len() - 12, png@.len() - 8)) == 0
            &&& png@.subrange(png@.len() - 8, png@.len() - 4) == iend_tag()
            &&& png@.subrange(png@.len() - 4, png@.len() as int) == be_bytes(crc32(iend_tag()))
        },
{
    let idat = idat_chunk(image);
    proof {
        match deflated(scanlines(image@)) {
            Some(data) => {
                lemma_png_begins_with_signature(image.width(), image.height(), data);
                lemma_png_header_holds_size(image.width(), image.height(), data);
                lemma_png_ends_with_empty_chunk(image.width(), image.height(), data);
            },
            None => {},
        }
    }
    png_from_idat(image.width(), image.height(), idat)
}

} // verus!
