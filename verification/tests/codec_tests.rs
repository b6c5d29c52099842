use blive::codec::{decode, encode, encode_op, CodecError, OperationCode, MAX_NESTING};
use std::io::Write;

/// Compresses bytes into one zlib stream, as the server batches frames.
fn zlib_compress(data: &[u8]) -> Vec<u8> {
    let mut encoder =
        flate2::write::ZlibEncoder::new(Vec::new(), flate2::Compression::default());
    encoder.write_all(data).unwrap();
    encoder.finish().unwrap()
}

/// Builds one frame by hand with an arbitrary version field.
fn frame_with_version(op: u32, version: u16, body: &[u8]) -> Vec<u8> {
    let mut out = Vec::new();
    out.extend_from_slice(&(16 + body.len() as u32).to_be_bytes());
    out.extend_from_slice(&16u16.to_be_bytes());
    out.extend_from_slice(&version.to_be_bytes());
    out.extend_from_slice(&op.to_be_bytes());
    out.extend_from_slice(&1u32.to_be_bytes());
    out.extend_from_slice(body);
    out
}

#[test]
fn encode_lays_out_the_header_big_endian() {
    let frame = encode(7, b"abc");
    assert_eq!(
        frame,
        vec![0, 0, 0, 19, 0, 16, 0, 0, 0, 0, 0, 7, 0, 0, 0, 1, b'a', b'b', b'c']
    );
}

#[test]
fn encode_op_uses_the_wire_code() {
    assert_eq!(encode_op(&OperationCode::Auth, b"x"), encode(7, b"x"));
    assert_eq!(encode_op(&OperationCode::Heartbeat, b""), encode(2, b""));
    assert_eq!(encode_op(&OperationCode::Unknown(42), b"y"), encode(42, b"y"));
}

#[test]
fn round_trip_yields_exactly_one_pair() {
    let body = b"payload bytes".to_vec();
    let decoded = decode(&encode(5, &body)).unwrap();
    assert_eq!(decoded, vec![(OperationCode::Message, body)]);
}

#[test]
fn round_trip_with_empty_body() {
    let decoded = decode(&encode(2, b"")).unwrap();
    assert_eq!(decoded, vec![(OperationCode::Heartbeat, Vec::new())]);
}

#[test]
fn round_trip_with_unknown_operation() {
    let decoded = decode(&encode(99, b"z")).unwrap();
    assert_eq!(decoded, vec![(OperationCode::Unknown(99), b"z".to_vec())]);
}

#[test]
fn decode_of_empty_buffer_is_empty() {
    assert_eq!(decode(b"").unwrap(), Vec::new());
}

#[test]
fn decode_walks_concatenated_frames_in_order() {
    let mut stream = encode(8, b"ack");
    stream.extend_from_slice(&encode(5, b"one"));
    stream.extend_from_slice(&encode(5, b"two"));
    let decoded = decode(&stream).unwrap();
    assert_eq!(
        decoded,
        vec![
            (OperationCode::AuthReply, b"ack".to_vec()),
            (OperationCode::Message, b"one".to_vec()),
            (OperationCode::Message, b"two".to_vec()),
        ]
    );
}

#[test]
fn flattening_recovers_the_original_pairs_in_order() {
    let mut inner = Vec::new();
    inner.extend_from_slice(&encode(5, b"first"));
    inner.extend_from_slice(&encode(5, b"second"));
    inner.extend_from_slice(&encode(3, b""));
    let wrapped = frame_with_version(5, 2, &zlib_compress(&inner));
    let decoded = decode(&wrapped).unwrap();
    assert_eq!(
        decoded,
        vec![
            (OperationCode::Message, b"first".to_vec()),
            (OperationCode::Message, b"second".to_vec()),
            (OperationCode::HeartbeatReply, Vec::new()),
        ]
    );
}

#[test]
fn flattening_handles_two_nesting_levels() {
    let inner = encode(5, b"deep");
    let once = frame_with_version(5, 2, &zlib_compress(&inner));
    let twice = frame_with_version(5, 2, &zlib_compress(&once));
    let decoded = decode(&twice).unwrap();
    assert_eq!(decoded, vec![(OperationCode::Message, b"deep".to_vec())]);
}

#[test]
fn compressed_frame_beside_plain_frames_keeps_order() {
    let mut inner = Vec::new();
    inner.extend_from_slice(&encode(5, b"b"));
    inner.extend_from_slice(&encode(5, b"c"));
    let mut stream = encode(5, b"a");
    stream.extend_from_slice(&frame_with_version(5, 2, &zlib_compress(&inner)));
    stream.extend_from_slice(&encode(5, b"d"));
    let decoded = decode(&stream).unwrap();
    let bodies: Vec<&[u8]> = decoded.iter().map(|p| p.1.as_slice()).collect();
    assert_eq!(bodies, vec![b"a" as &[u8], b"b", b"c", b"d"]);
}

#[test]
fn truncation_at_every_cut_point_matches_the_variant() {
    let mut stream = encode(5, b"hello");
    stream.extend_from_slice(&encode(8, b"worlds!"));
    let boundaries = [0usize, 21, 44];
    for k in 0..stream.len() {
        let r = decode(&stream[..k]);
        if boundaries.contains(&k) {
            assert!(r.is_ok(), "cut at {} is a frame boundary", k);
        } else {
            let within = if k < 21 { k } else { k - 21 };
            let expected = if within < 16 {
                CodecError::TruncatedHeader
            } else {
                CodecError::TruncatedBody
            };
            assert_eq!(r.unwrap_err(), expected, "cut at {}", k);
        }
    }
}

#[test]
fn total_length_shorter_than_header_is_a_truncated_body() {
    let mut bad = encode(5, b"abc");
    bad[0..4].copy_from_slice(&10u32.to_be_bytes());
    bad.truncate(16);
    assert_eq!(decode(&bad).unwrap_err(), CodecError::TruncatedBody);
}

#[test]
fn corrupt_zlib_body_fails_decompression() {
    let garbage = frame_with_version(5, 2, b"this is not a zlib stream");
    assert_eq!(decode(&garbage).unwrap_err(), CodecError::DecompressionFailed);
}

#[test]
fn error_in_a_later_frame_discards_the_whole_decode() {
    let mut stream = encode(5, b"fine");
    stream.extend_from_slice(&frame_with_version(5, 2, b"corrupt"));
    assert_eq!(decode(&stream).unwrap_err(), CodecError::DecompressionFailed);
}

#[test]
fn nesting_past_the_limit_is_refused() {
    let mut current = encode(5, b"core");
    for _ in 0..(MAX_NESTING + 1) {
        current = frame_with_version(5, 2, &zlib_compress(&current));
    }
    assert_eq!(decode(&current).unwrap_err(), CodecError::NestingTooDeep);
}

#[test]
fn nesting_at_the_limit_still_decodes() {
    let mut current = encode(5, b"core");
    for _ in 0..MAX_NESTING {
        current = frame_with_version(5, 2, &zlib_compress(&current));
    }
    let decoded = decode(&current).unwrap();
    assert_eq!(decoded, vec![(OperationCode::Message, b"core".to_vec())]);
}

#[test]
fn unhandled_versions_are_treated_as_plain() {
    let frame = frame_with_version(5, 1, b"raw");
    let decoded = decode(&frame).unwrap();
    assert_eq!(decoded, vec![(OperationCode::Message, b"raw".to_vec())]);
}

#[test]
fn operation_codes_map_both_ways() {
    let cases = [
        (2u32, OperationCode::Heartbeat),
        (3, OperationCode::HeartbeatReply),
        (5, OperationCode::Message),
        (7, OperationCode::Auth),
        (8, OperationCode::AuthReply),
        (12345, OperationCode::Unknown(12345)),
    ];
    for (code, op) in cases {
        assert_eq!(OperationCode::from_code(code), op);
        assert_eq!(op.code(), code);
    }
}
