use p2p_node_handshake::{
    calculate_checksum, create_verack_message, decode_message, payload_length, send_message,
    HandshakeError, Message, TESTNET_MAGIC,
};

fn message(command: &str, payload: Vec<u8>) -> Message {
    let checksum = calculate_checksum(&payload);
    Message { magic: TESTNET_MAGIC, command: command.to_string(), payload, checksum }
}

#[test]
fn checksum_of_empty_payload() {
    assert_eq!(calculate_checksum(&[]), [0x5d, 0xf6, 0xe0, 0xe2]);
}

#[test]
fn checksum_is_deterministic() {
    let a = calculate_checksum(b"hello");
    let b = calculate_checksum(b"hello");
    assert_eq!(a, b);
    assert_ne!(a, calculate_checksum(b"hellp"));
}

#[test]
fn encodes_verack_frame() {
    let bytes = send_message(&create_verack_message());
    let mut expected = vec![0x0b, 0x11, 0x09, 0x07];
    expected.extend_from_slice(b"verack\0\0\0\0\0\0");
    expected.extend_from_slice(&[0, 0, 0, 0]);
    expected.extend_from_slice(&[0x5d, 0xf6, 0xe0, 0xe2]);
    assert_eq!(bytes, expected);
}

#[test]
fn encodes_length_little_endian() {
    let bytes = send_message(&message("version", vec![7u8; 300]));
    assert_eq!(&bytes[16..20], &[0x2c, 0x01, 0, 0]);
    assert_eq!(payload_length(&bytes), 300);
    assert_eq!(bytes.len(), 324);
}

#[test]
fn long_command_is_truncated() {
    let bytes = send_message(&message("abcdefghijklmnop", vec![]));
    assert_eq!(&bytes[4..16], b"abcdefghijkl");
}

#[test]
fn round_trip_keeps_fields() {
    let m = message("version", vec![1, 2, 3, 250]);
    let d = decode_message(&send_message(&m)).unwrap();
    assert_eq!(d.magic, TESTNET_MAGIC);
    assert_eq!(d.command, "version");
    assert_eq!(d.payload, vec![1, 2, 3, 250]);
    assert_eq!(d.checksum, m.checksum);
}

#[test]
fn round_trip_empty_payload_and_full_width_command() {
    let m = message("abcdefghijkl", vec![]);
    let d = decode_message(&send_message(&m)).unwrap();
    assert_eq!(d.command, "abcdefghijkl");
    assert!(d.payload.is_empty());
}

#[test]
fn decode_ignores_trailing_bytes() {
    let mut bytes = send_message(&message("ping", vec![9, 9]));
    bytes.extend_from_slice(&[1, 2, 3]);
    let d = decode_message(&bytes).unwrap();
    assert_eq!(d.payload, vec![9, 9]);
}

#[test]
fn bad_magic_is_rejected() {
    let mut m = message("version", vec![5, 6]);
    m.magic = 0xF9BEB4D9;
    assert_eq!(decode_message(&send_message(&m)).unwrap_err(), HandshakeError::BadMagic);
}

#[test]
fn flipped_payload_bit_is_rejected() {
    let mut bytes = send_message(&message("version", vec![0x10, 0x20, 0x30]));
    bytes[25] ^= 0x04;
    assert_eq!(decode_message(&bytes).unwrap_err(), HandshakeError::ChecksumMismatch);
}

#[test]
fn truncated_header_is_a_short_read() {
    let bytes = send_message(&message("verack", vec![]));
    assert_eq!(decode_message(&bytes[..23]).unwrap_err(), HandshakeError::ShortRead);
}

#[test]
fn truncated_payload_is_a_short_read_even_with_bad_magic() {
    let mut m = message("version", vec![1, 2, 3]);
    m.magic = 1;
    let bytes = send_message(&m);
    assert_eq!(decode_message(&bytes[..26]).unwrap_err(), HandshakeError::ShortRead);
}

#[test]
fn non_ascii_command_is_decoded_lossily() {
    let mut bytes = send_message(&message("ab", vec![]));
    bytes[6] = 0xff;
    let d = decode_message(&bytes).unwrap();
    assert_eq!(d.command, "ab\u{fffd}");
}
