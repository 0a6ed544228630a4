use pingrs::session::{default_payload, PingerState};
use pingrs::IcmpPacket;

#[test]
fn requests_count_up_and_wrap() {
    let mut s = PingerState::new(0x4242);
    assert_eq!(s.sequence(), 0);
    let p = s.next_request(vec![1, 2]);
    assert_eq!(s.sequence(), 1);
    assert_eq!(p.header.icmp_type, 8);
    assert_eq!(p.header.code, 0);
    assert_eq!(p.header.identifier, 0x4242);
    assert_eq!(p.header.sequence, 1);
    assert_eq!(p.payload, vec![1, 2]);
    for _ in 0..65534 {
        s.next_request(vec![]);
    }
    assert_eq!(s.sequence(), 65535);
    let p = s.next_request(vec![]);
    assert_eq!(p.header.sequence, 0);
    assert_eq!(s.sequence(), 0);
    assert_eq!(s.identifier(), 0x4242);
}

#[test]
fn identifier_is_low_half_of_pid() {
    assert_eq!(PingerState::for_process(0x0001_2345).identifier(), 0x2345);
    assert_eq!(PingerState::for_process(77).identifier(), 77);
    assert_eq!(PingerState::for_process(77).sequence(), 0);
}

#[test]
fn replies_to_the_last_request_are_accepted() {
    let mut s = PingerState::new(9);
    let mut req = s.next_request(vec![5, 6, 7]);
    req.header.icmp_type = 0;
    let bytes = req.to_bytes();
    let reply = IcmpPacket::from_bytes(&bytes).unwrap();
    assert!(matches!(s.accept_reply(reply.clone()), Some(Ok(_))));
    s.next_request(vec![]);
    assert!(s.accept_reply(reply).is_none());
}

#[test]
fn default_payload_layout() {
    let p = default_payload(0x0102_0304_0506_0708_090a_0b0c_0d0e_0f10);
    let mut expected = b"pingrs".to_vec();
    expected.extend_from_slice(&0x0102_0304_0506_0708_090a_0b0c_0d0e_0f10u128.to_le_bytes());
    assert_eq!(p, expected);
    assert_eq!(default_payload(0).len(), 22);
}
