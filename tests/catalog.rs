use p2p_node_handshake::{
    create_verack_message, create_version_message, create_wtxidrelay_message,
    serialize_network_address, version_message_at, HandshakeError, NetAddress, PROTOCOL_VERSION,
    START_HEIGHT, TESTNET_MAGIC,
};

fn local() -> NetAddress {
    NetAddress::V4([127, 0, 0, 1], 18333)
}

#[test]
fn serializes_ipv4_address() {
    let bytes = serialize_network_address(&local(), 0x409);
    let mut expected = vec![0, 0, 0, 0, 0, 0, 0x04, 0x09];
    expected.extend_from_slice(&[0; 10]);
    expected.extend_from_slice(&[0xff, 0xff, 127, 0, 0, 1, 0x47, 0x9d]);
    assert_eq!(bytes, expected);
}

#[test]
fn serializes_ipv6_address() {
    let mut ip = [0u8; 16];
    ip[15] = 1;
    let bytes = serialize_network_address(&NetAddress::V6(ip, 8333), 1);
    assert_eq!(bytes.len(), 26);
    assert_eq!(&bytes[8..24], &ip);
    assert_eq!(&bytes[24..], &[0x20, 0x8d]);
}

#[test]
fn relay_flag_omitted_below_70001() {
    let m = version_message_at(&local(), 100, 70000, true, 1_700_000_000, 42).unwrap();
    assert_eq!(m.payload.len(), 101);
    assert_eq!(&m.payload[97..], &[0, 0, 0, 100]);
}

#[test]
fn relay_flag_present_from_70001() {
    let m = version_message_at(&local(), 100, 70228, true, 1_700_000_000, 42).unwrap();
    assert_eq!(m.payload.len(), 102);
    assert_eq!(*m.payload.last().unwrap(), 0x01);
    let off = version_message_at(&local(), 100, 70228, false, 1_700_000_000, 42).unwrap();
    assert_eq!(*off.payload.last().unwrap(), 0x00);
}

#[test]
fn version_payload_layout() {
    let m = version_message_at(&local(), START_HEIGHT, PROTOCOL_VERSION, false, 0x0102030405060708, 0xAABB).unwrap();
    assert_eq!(m.magic, TESTNET_MAGIC);
    assert_eq!(m.command, "version");
    let p = &m.payload;
    assert_eq!(&p[0..4], &[0x00, 0x01, 0x12, 0x54]);
    assert_eq!(&p[4..12], &[0, 0, 0, 0, 0, 0, 0x04, 0x09]);
    assert_eq!(&p[12..20], &[1, 2, 3, 4, 5, 6, 7, 8]);
    assert_eq!(&p[20..46], serialize_network_address(&local(), 0x409).as_slice());
    assert_eq!(&p[46..72], serialize_network_address(&NetAddress::V4([0; 4], 0), 0x409).as_slice());
    assert_eq!(&p[72..80], &[0, 0, 0, 0, 0, 0, 0xAA, 0xBB]);
    assert_eq!(p[80], 16);
    assert_eq!(&p[81..97], b"/Satoshi:25.0.0/");
    assert_eq!(&p[97..101], &[0x00, 0x27, 0xac, 0x40]);
    assert_eq!(m.checksum, p2p_node_handshake::calculate_checksum(p));
}

#[test]
fn negative_start_height_is_invalid() {
    assert_eq!(
        version_message_at(&local(), -1, 70228, false, 0, 0).unwrap_err(),
        HandshakeError::InvalidArgument
    );
    assert_eq!(
        create_version_message(&local(), -5, 70228, false).unwrap_err(),
        HandshakeError::InvalidArgument
    );
}

#[test]
fn create_version_message_stamps_time() {
    let m = create_version_message(&local(), 7, 70228, true).unwrap();
    assert_eq!(m.payload.len(), 102);
    assert_eq!(&m.payload[97..101], &[0, 0, 0, 7]);
    let secs = u64::from_be_bytes(m.payload[12..20].try_into().unwrap());
    assert!(secs > 1_600_000_000);
}

#[test]
fn empty_messages() {
    let v = create_verack_message();
    assert_eq!(v.command, "verack");
    assert!(v.payload.is_empty());
    assert_eq!(v.checksum, [0x5d, 0xf6, 0xe0, 0xe2]);
    let w = create_wtxidrelay_message();
    assert_eq!(w.command, "wtxidrelay");
    assert!(w.payload.is_empty());
    assert_eq!(w.magic, TESTNET_MAGIC);
}
