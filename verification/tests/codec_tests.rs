use iter_keccak::decode;
use iter_keccak::encode;
use iter_keccak::DecodeError;

#[test]
fn encode_exact_bytes() {
    let blob = encode(0x01020304, &[0xaa]);
    assert_eq!(blob, vec![0x04, 0x03, 0x02, 0x01, 0x01, 0x00, 0x00, 0x00, 0xaa]);
}

#[test]
fn round_trip_empty() {
    let blob = encode(7, &[]);
    let (num_iter, data) = decode(&blob).unwrap();
    assert_eq!(num_iter, 7);
    assert_eq!(data, Vec::<u8>::new());
}

#[test]
fn round_trip_one_byte() {
    let blob = encode(u32::MAX, &[0x5a]);
    let (num_iter, data) = decode(&blob).unwrap();
    assert_eq!(num_iter, u32::MAX);
    assert_eq!(data, vec![0x5a]);
}

#[test]
fn round_trip_large_buffer() {
    let payload: Vec<u8> = (0..10_000u32).map(|i| (i % 251) as u8).collect();
    let blob = encode(3, &payload);
    let (num_iter, data) = decode(&blob).unwrap();
    assert_eq!(num_iter, 3);
    assert_eq!(data, payload);
}

#[test]
fn truncated_length_prefix_fails() {
    // Only six of the eight header bytes are present.
    let blob = [0x01, 0x00, 0x00, 0x00, 0x02, 0x00];
    assert_eq!(decode(&blob), Err(DecodeError::Truncated));
}

#[test]
fn empty_blob_fails() {
    assert_eq!(decode(&[]), Err(DecodeError::Truncated));
}

#[test]
fn truncated_data_fails() {
    // The length prefix announces three bytes; only two follow.
    let blob = [0x01, 0x00, 0x00, 0x00, 0x03, 0x00, 0x00, 0x00, 0xaa, 0xbb];
    assert_eq!(decode(&blob), Err(DecodeError::Truncated));
}

#[test]
fn trailing_bytes_fail() {
    // The length prefix announces one byte; two follow.
    let blob = [0x01, 0x00, 0x00, 0x00, 0x01, 0x00, 0x00, 0x00, 0xaa, 0xbb];
    assert_eq!(decode(&blob), Err(DecodeError::TrailingBytes));
}
