use pingrs::checksum::calculate;
use pingrs::error::PingError;
use pingrs::{IcmpHeader, IcmpPacket, IcmpType, VERSION};

#[test]
fn test_version() {
    assert!(!VERSION.is_empty());
}

#[test]
fn test_icmp_packet_serialization() {
    let identifier = 12345;
    let sequence = 1;
    let payload = b"Hello, ICMP!".to_vec();

    let mut packet = IcmpPacket::new_echo_request(identifier, sequence, payload.clone());

    let bytes = packet.to_bytes();

    let deserialized = IcmpPacket::from_bytes(&bytes).expect("Failed to deserialize");

    assert_eq!(deserialized.header.icmp_type, IcmpType::EchoRequest.to_u8());
    assert_eq!(deserialized.header.code, 0);
    assert_eq!(deserialized.header.identifier, identifier);
    assert_eq!(deserialized.header.sequence, sequence);
    assert_eq!(deserialized.payload, payload);

    assert!(deserialized.verify_checksum());
}

#[test]
fn icmp_type_codes() {
    assert_eq!(IcmpType::from_u8(0), Some(IcmpType::EchoReply));
    assert_eq!(IcmpType::from_u8(8), Some(IcmpType::EchoRequest));
    assert_eq!(IcmpType::from_u8(3), None);
    assert_eq!(IcmpType::EchoReply.to_u8(), 0);
    assert_eq!(IcmpType::EchoRequest.to_u8(), 8);
    for v in 0..=255u8 {
        if let Some(t) = IcmpType::from_u8(v) {
            assert_eq!(t.to_u8(), v);
        }
    }
}

#[test]
fn header_encoding_is_network_order() {
    let mut h = IcmpHeader::new(IcmpType::EchoReply, 0x1234, 0xabcd);
    assert_eq!(h.checksum, 0);
    assert_eq!(h.code, 0);
    h.checksum = 0x0f0e;
    assert_eq!(h.to_bytes(), [0, 0, 0x0f, 0x0e, 0x12, 0x34, 0xab, 0xcd]);
    let back = IcmpHeader::from_bytes(&h.to_bytes()).unwrap();
    assert_eq!(back.icmp_type, 0);
    assert_eq!(back.checksum, 0x0f0e);
    assert_eq!(back.identifier, 0x1234);
    assert_eq!(back.sequence, 0xabcd);
}

#[test]
fn header_decoding_reads_first_eight_bytes() {
    let bytes = [8, 1, 2, 3, 4, 5, 6, 7, 99, 100];
    let h = IcmpHeader::from_bytes(&bytes).unwrap();
    assert_eq!(h.icmp_type, 8);
    assert_eq!(h.code, 1);
    assert_eq!(h.checksum, 0x0203);
    assert_eq!(h.identifier, 0x0405);
    assert_eq!(h.sequence, 0x0607);
}

#[test]
fn short_header_is_refused() {
    match IcmpHeader::from_bytes(&[8, 0, 0, 0, 0, 0, 0]) {
        Err(PingError::InvalidPacket(m)) => assert_eq!(m, "ICMP header must be at least 8 bytes"),
        other => panic!("unexpected {:?}", other),
    }
}

#[test]
fn short_packet_is_refused() {
    match IcmpPacket::from_bytes(&[0, 0, 0]) {
        Err(PingError::InvalidPacket(m)) => assert_eq!(m, "ICMP packet must be at least 8 bytes"),
        other => panic!("unexpected {:?}", other),
    }
}

#[test]
fn packet_decode_encode_roundtrip() {
    let bytes = vec![0, 0, 0x12, 0x34, 0, 7, 0, 9, 1, 2, 3];
    let p = IcmpPacket::from_bytes(&bytes).unwrap();
    assert_eq!(p.payload, vec![1, 2, 3]);
    assert_eq!(p.to_bytes_without_checksum(), bytes);
}

#[test]
fn to_bytes_stores_checksum() {
    let mut p = IcmpPacket::new_echo_request(1, 1, vec![]);
    p.header.checksum = 0x5555;
    let bytes = p.to_bytes();
    // The checksum is computed over the packet with a zero checksum field.
    assert_eq!(p.header.checksum, calculate(&[8, 0, 0, 0, 0, 1, 0, 1]));
    assert_eq!(p.header.checksum, 0xf7fd);
    assert_eq!(bytes, vec![8, 0, 0xf7, 0xfd, 0, 1, 0, 1]);
    assert!(p.verify_checksum());
    assert_eq!(p.to_bytes_without_checksum(), bytes);
}

#[test]
fn verify_checksum_detects_corruption() {
    let mut p = IcmpPacket::new_echo_request(7, 3, vec![1, 2, 3, 4, 5]);
    let _ = p.to_bytes();
    assert!(p.verify_checksum());
    p.payload[2] ^= 0x40;
    assert!(!p.verify_checksum());
}
