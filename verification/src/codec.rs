//! The compression codec: every message is deflated before it is written to
//! the wire and inflated after it is read.  The zlib work itself is done by
//! the `flate2` crate behind two trusted wrappers; everything stated of them
//! is phrased over `inflate_of`, the (named) result of zlib decoding.

use vstd::prelude::*;
use std::io::Read;
use std::io::Write;
use crate::command::is_utf8;
use crate::command::validate_utf8;
use crate::errors::CodecError;

verus! {

/// What zlib decoding yields on a byte sequence: the decoded payload, or
/// `None` when the bytes are not a single well-formed zlib stream.  Decoding
/// depends on the input bytes alone.
pub uninterp spec fn inflate_of(data: Seq<u8>) -> Option<Seq<u8>>;

/// Relies on `flate2::write::ZlibEncoder` (`new`, `write_all`, `finish`):
/// the encoder emits one zlib stream that decodes back to exactly the bytes
/// written into it, whatever compression level it was given.  Writing into a
/// `Vec` sink cannot fail.
#[verifier::external_body]
fn zlib_deflate(data: &[u8], best: bool) -> (r: Vec<u8>)
    ensures
        inflate_of(r@) == Some(data@),
{
    let level = if best {
        flate2::Compression::best()
    } else {
        flate2::Compression::default()
    };
    let mut encoder = flate2::write::ZlibEncoder::new(Vec::new(), level);
    encoder.write_all(data).expect("writing into a Vec sink cannot fail");
    encoder.finish().expect("writing into a Vec sink cannot fail")
}

/// Relies on `flate2::bufread::ZlibDecoder` (`new`, `read_to_end`): decoding
/// is a function of the input bytes alone, and a corrupt or truncated stream
/// is reported as an error rather than as partial output.
#[verifier::external_body]
fn zlib_inflate(data: &[u8]) -> (r: Option<Vec<u8>>)
    ensures
        match r {
            Some(v) => inflate_of(data@) == Some(v@),
            None => inflate_of(data@) is None,
        },
{
    let mut decoder = flate2::bufread::ZlibDecoder::new(data);
    let mut out: Vec<u8> = Vec::new();
    match decoder.read_to_end(&mut out) {
        Ok(_) => Some(out),
        Err(_) => None,
    }
}

/// Compresses a payload for the wire at the maximum level.  The
/// postcondition is the round-trip law: the bytes produced decode back to
/// exactly the payload given.
pub fn compress(data: &Vec<u8>) -> (r: Vec<u8>)
    ensures
        inflate_of(r@) == Some(data@),
{
    zlib_deflate(data.as_slice(), true)
}

/// Compresses at the default level.  The level is a sender-side choice
/// only: the contract — and so the receiver — cannot tell the difference.
pub fn compress_default(data: &Vec<u8>) -> (r: Vec<u8>)
    ensures
        inflate_of(r@) == Some(data@),
{
    zlib_deflate(data.as_slice(), false)
}

/// Inflates a received payload and checks that it decodes to text.
/// Succeeds exactly on well-formed zlib streams whose decoded bytes are
/// well-formed UTF-8; anything else is a `Corrupt` codec failure, never a
/// silently-empty or lossily-decoded result.
pub fn decompress(data: &Vec<u8>) -> (r: Result<Vec<u8>, CodecError>)
    ensures
        match r {
            Ok(v) => inflate_of(data@) == Some(v@) && is_utf8(v@),
            Err(e) => e == CodecError::Corrupt && match inflate_of(data@) {
                Option::None => true,
                Option::Some(m) => !is_utf8(m),
            },
        },
{
    match zlib_inflate(data.as_slice()) {
        Some(v) => {
            if validate_utf8(&v) {
                Ok(v)
            } else {
                Err(CodecError::Corrupt)
            }
        },
        None => Err(CodecError::Corrupt),
    }
}

/// The round-trip law as an executable witness: compressing any text
/// payload and decompressing the result returns the payload unchanged.
/// The body verifies only because the codec contracts pin the result down.
pub fn round_trip(data: &Vec<u8>) -> (r: Vec<u8>)
    requires
        is_utf8(data@),
    ensures
        r@ == data@,
{
    let wire = compress(data);
    match decompress(&wire) {
        Ok(v) => v,
        // unreachable: `compress` guarantees the wire bytes decode
        Err(_) => unreached(),
    }
}

} // verus!
