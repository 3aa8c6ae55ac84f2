//! What the library takes on trust: its calls into `crc32fast`, `flate2` and the parts of
//! `std` that `vstd` says nothing of.
//!
//! Every function here only makes such a call. Its contract is believed, not proved; it
//! says no more than that the result is what the function called computes, under a name
//! that the contracts of the library can speak of.

use std::io::Write;
use vstd::prelude::*;

verus! {

/// The error of `std::io`, as the compressor hands it out. Nothing is known of its
/// contents.
#[verifier::external_type_specification]
#[verifier::external_body]
pub struct ExIoError(std::io::Error);

/// The CRC-32 checksum (IEEE) of a run of bytes.
pub uninterp spec fn crc32(bytes: Seq<u8>) -> u32;

/// What the compressor makes of a run of bytes at its fast level: the zlib stream, or
/// nothing where the compressor reports an error.
pub uninterp spec fn deflated(raw: Seq<u8>) -> Option<Seq<u8>>;

/// Calls `crc32fast::hash`, which computes the CRC-32 (IEEE) checksum of a byte slice.
/// The contract only gives that checksum its name.
#[verifier::external_body]
pub(crate) fn checksum(bytes: &[u8]) -> (sum: u32)
    ensures
        sum == crc32(bytes@),
{
    crc32fast::hash(bytes)
}

/// Runs `flate2::write::ZlibEncoder` at `flate2::Compression::fast()` over the bytes:
/// everything is written to the encoder, which is then finished. Either step may report an
/// error. The encoder writes into a vector in memory, so what comes of the call rests on
/// the bytes alone, and the contract gives it its name: the stream where both steps
/// succeed, nothing where one fails. Nothing is claimed of when they succeed.
#[verifier::external_body]
pub(crate) fn deflate_fast(raw: &[u8]) -> (result: Result<Vec<u8>, std::io::Error>)
    ensures
        match result {
            Ok(data) => deflated(raw@) == Some(data@),
            Err(_) => deflated(raw@) is None,
        },
{
    let mut encoder = flate2::write::ZlibEncoder::new(Vec::new(), flate2::Compression::fast());
    encoder.write_all(raw)?;
    encoder.finish()
}

/// Whether a character has the Unicode property `Uppercase`.
pub uninterp spec fn is_uppercase(c: char) -> bool;

/// Whether a character has the Unicode property `Lowercase`.
pub uninterp spec fn is_lowercase(c: char) -> bool;

/// The lowercase mapping of a character: the characters that stand for it in lower case.
pub uninterp spec fn lowercase(c: char) -> Seq<char>;

/// Calls `char::is_uppercase`; the contract only gives its answer a name.
#[verifier::external_body]
pub(crate) fn char_is_uppercase(c: char) -> (answer: bool)
    ensures
        answer == is_uppercase(c),
{
    c.is_uppercase()
}

/// Calls `char::is_lowercase`; the contract only gives its answer a name.
#[verifier::external_body]
pub(crate) fn char_is_lowercase(c: char) -> (answer: bool)
    ensures
        answer == is_lowercase(c),
{
    c.is_lowercase()
}

/// Calls `char::to_lowercase`, which yields the lowercase mapping of a character, and
/// collects what it yields. The contract only gives the mapping a name.
#[verifier::external_body]
pub(crate) fn char_to_lowercase(c: char) -> (mapping: Vec<char>)
    ensures
        mapping@ == lowercase(c),
{
    c.to_lowercase().collect()
}

/// Calls `String::push`, which appends one character to a string.
#[verifier::external_body]
pub(crate) fn push_char(text: &mut String, c: char)
    ensures
        final(text)@ == old(text)@.push(c),
{
    text.push(c)
}

} // verus!
