use cmdrelay::codec::{compress, compress_default, decompress, round_trip};
use cmdrelay::errors::CodecError;

#[test]
fn round_trip_simple_text() {
    let payload = b"hi\n".to_vec();
    let wire = compress(&payload);
    assert_eq!(decompress(&wire).unwrap(), payload);
}

#[test]
fn round_trip_empty() {
    let payload: Vec<u8> = Vec::new();
    let wire = compress(&payload);
    assert_eq!(decompress(&wire).unwrap(), payload);
}

#[test]
fn round_trip_long_text() {
    let mut payload = Vec::new();
    for i in 0..100_000usize {
        payload.push(((i % 94) + 32) as u8);
    }
    let wire = compress(&payload);
    assert!(wire.len() < payload.len());
    assert_eq!(decompress(&wire).unwrap(), payload);
}

#[test]
fn round_trip_multibyte_text() {
    let payload = "héllo wörld ☃ — ça va\n".as_bytes().to_vec();
    let wire = compress(&payload);
    assert_eq!(decompress(&wire).unwrap(), payload);
}

#[test]
fn non_text_payload_is_rejected() {
    // a well-formed zlib stream whose decoded bytes are not text is a
    // codec failure, never a lossily-decoded result
    let mut payload = Vec::new();
    for b in 0..=255u8 {
        payload.push(b);
    }
    let wire = compress(&payload);
    assert_eq!(decompress(&wire), Err(CodecError::Corrupt));
}

#[test]
fn round_trip_witness_returns_payload() {
    let payload = b"uname -a\n".to_vec();
    assert_eq!(round_trip(&payload), payload);
}

#[test]
fn decoding_is_level_agnostic() {
    // whatever level the sender chose, the receiver decodes the same text
    let payload = b"the same payload at two levels".to_vec();
    let best = compress(&payload);
    let default = compress_default(&payload);
    assert_eq!(decompress(&best).unwrap(), payload);
    assert_eq!(decompress(&default).unwrap(), payload);
}

#[test]
fn decompress_rejects_garbage() {
    let garbage = vec![0u8, 1, 2, 3, 4, 5, 6, 7];
    assert_eq!(decompress(&garbage), Err(CodecError::Corrupt));
}

#[test]
fn decompress_rejects_empty() {
    let empty: Vec<u8> = Vec::new();
    assert_eq!(decompress(&empty), Err(CodecError::Corrupt));
}

#[test]
fn decompress_rejects_truncated_stream() {
    let payload = b"a longer payload that compresses to more than a few bytes".to_vec();
    let mut wire = compress(&payload);
    wire.truncate(wire.len() / 2);
    assert_eq!(decompress(&wire), Err(CodecError::Corrupt));
}

#[test]
fn compressed_is_not_identity() {
    // the wire bytes are a real encoding, not the payload handed back
    let payload = b"echo hi\n".to_vec();
    let wire = compress(&payload);
    assert_ne!(wire, payload);
}
