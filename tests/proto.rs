use gufo_ping::proto::{
    place_checksum, protocol, protocols, AvailabilityCache, Probe, ProtocolItem, Selection,
    SelectionPolicy,
};
use gufo_ping::PingError;
const TEST_REQUEST_ID: u16 = 0xbeef;
const TEST_SEQ: u16 = 1;
const TEST_SIGNATURE: u64 = 0xdeadbeef;
const TEST_TIMESTAMP: u64 = 0x01020304;

#[test]
fn test_settings() {
    assert_eq!(protocols(true).len(), AvailabilityCache::new().len());
}

#[test]
fn test_selection_policy_try_from() {
    let expected = [
        SelectionPolicy::IPv4Raw,
        SelectionPolicy::IPv4RawDgram,
        SelectionPolicy::IPv4DgramRaw,
        SelectionPolicy::IPv4Dgram,
        SelectionPolicy::IPv6Raw,
        SelectionPolicy::IPv6RawDgram,
        SelectionPolicy::IPv6DgramRaw,
        SelectionPolicy::IPv6Dgram,
    ];
    for (policy_id, expected) in expected.iter().enumerate() {
        let policy = SelectionPolicy::try_from(policy_id as u8).unwrap();
        assert_eq!(policy as u8, *expected as u8);
    }
}

#[test]
fn test_selection_policy_try_from_error() {
    assert!(SelectionPolicy::try_from(0xffu8).is_err())
}

#[test]
fn test_selection_policy_candidates() {
    let policies = [
        SelectionPolicy::IPv4Raw,
        SelectionPolicy::IPv4RawDgram,
        SelectionPolicy::IPv4DgramRaw,
        SelectionPolicy::IPv4Dgram,
        SelectionPolicy::IPv6Raw,
        SelectionPolicy::IPv6RawDgram,
        SelectionPolicy::IPv6DgramRaw,
        SelectionPolicy::IPv6Dgram,
    ];
    let expected = [
        vec![ProtocolItem::IPv4Raw],
        vec![ProtocolItem::IPv4Raw, ProtocolItem::IPv4Dgram],
        vec![ProtocolItem::IPv4Dgram, ProtocolItem::IPv4Raw],
        vec![ProtocolItem::IPv4Dgram],
        vec![ProtocolItem::IPv6Raw],
        vec![ProtocolItem::IPv6Raw, ProtocolItem::IPv6Dgram],
        vec![ProtocolItem::IPv6Dgram, ProtocolItem::IPv6Raw],
        vec![ProtocolItem::IPv6Dgram],
    ];
    for (p, e) in policies.iter().zip(expected.iter()) {
        let expected_indexes: Vec<usize> = e.iter().map(|x| x.clone() as usize).collect();
        assert_eq!(p.candidates(), expected_indexes);
    }
}

#[test]
fn test_v4_raw_encode1() {
    const SIZE: usize = 44;
    let proto = &protocol(ProtocolItem::IPv4Raw.index(), true);
    let mut buf = Vec::new();
    proto.encode_request(
        Probe::new(TEST_SEQ, TEST_SIGNATURE, TEST_TIMESTAMP),
        &mut buf,
        SIZE,
    );
    assert_eq!(
        buf,
        &[
            8, 0, 0x97, 0x6B, // Type, Code, Checksum
            0xBE, 0xEF, 0, 1, // Request id, sequence
            0, 0, 0, 0, 0xDE, 0xAD, 0xBE, 0xEF, // Signature
            0, 0, 0, 0, 1, 2, 3, 4, // Timestamp
        ]
    )
}

#[test]
fn test_v4_raw_encode2() {
    const SIZE: usize = 64;
    let proto = &protocol(ProtocolItem::IPv4Raw.index(), true);
    let mut buf = Vec::new();
    proto.encode_request(
        Probe::new(TEST_SEQ, TEST_SIGNATURE, TEST_TIMESTAMP),
        &mut buf,
        SIZE,
    );
    assert_eq!(
        buf,
        &[
            8, 0, 0xB5, 0x89, // Type, Code, Checksum
            0xBE, 0xEF, 0, 1, // Request id, sequence
            0, 0, 0, 0, 0xDE, 0xAD, 0xBE, 0xEF, // Signature
            0, 0, 0, 0, 1, 2, 3, 4, // Timestamp
            0x30, 0x30, 0x30, 0x30, 0x30, 0x30, 0x30, 0x30, 0x30, 0x30, 0x30, 0x30, 0x30, 0x30,
            0x30, 0x30, 0x30, 0x30, 0x30, 0x30, // Padding, 20x"A"
        ]
    )
}

#[test]
fn test_v4_raw_decode1() {
    let proto = &protocol(ProtocolItem::IPv4Raw.index(), true);
    let probe = proto
        .decode_reply(&[
            0, 0, 0, 0, 0, 0, 0, 0, 0, 0, 0, 0, 0, 0, 0, 0, 0, 0, 0,
            0, // IP header, faked
            0, 0, 0, 0, // Type, Code, Checksum (faked)
            0xBE, 0xEF, 0, 1, // Request id, sequence
            0, 0, 0, 0, 0xDE, 0xAD, 0xBE, 0xEF, // Signature
            0, 0, 0, 0, 1, 2, 3, 4, // Timestamp
        ])
        .unwrap();
    assert_eq!(probe.get_request_id(), TEST_REQUEST_ID);
    assert_eq!(probe.get_seq(), TEST_SEQ);
    assert_eq!(probe.get_signature(), TEST_SIGNATURE);
    assert_eq!(probe.get_ts(), TEST_TIMESTAMP);
}
#[test]
fn test_v4_raw_decode2() {
    let proto = &protocol(ProtocolItem::IPv4Raw.index(), true);
    let probe = proto
        .decode_reply(&[
            0, 0, 0, 0, 0, 0, 0, 0, 0, 0, 0, 0, 0, 0, 0, 0, 0, 0, 0,
            0, // IP header, faked
            0, 0, 0, 0, // Type, Code, Checksum (faked)
            0xBE, 0xEF, 0, 1, // Request id, sequence
            0, 0, 0, 0, 0xDE, 0xAD, 0xBE, 0xEF, // Signature
            0, 0, 0, 0, 1, 2, 3, 4, // Timestamp
            0x30, 0x30, 0x30, 0x30, 0x30, 0x30, 0x30, 0x30, 0x30, 0x30, 0x30, 0x30, 0x30, 0x30,
            0x30, 0x30, 0x30, 0x30, 0x30, 0x30, // Padding, 20x"A"
        ])
        .unwrap();
    assert_eq!(probe.get_request_id(), TEST_REQUEST_ID);
    assert_eq!(probe.get_seq(), TEST_SEQ);
    assert_eq!(probe.get_signature(), TEST_SIGNATURE);
    assert_eq!(probe.get_ts(), TEST_TIMESTAMP);
}
#[test]
fn test_v4_raw_decode_too_short() {
    let proto = &protocol(ProtocolItem::IPv4Raw.index(), true);
    let probe = proto.decode_reply(&[
        0, // IP header, faked
        0, 0, 0, 0, // Type, Code, Checksum (faked)
        0xBE, 0xEF, 0, 1, // Request id, sequence
        0, 0, 0, 0, 0xDE, 0xAD, 0xBE, 0xEF, // Signature
        0, 0, 0, 0, 1, 2, 3, 4, // Timestamp
    ]);
    assert!(probe.is_none());
}

#[test]
fn test_v4_raw_decode_invalid_type() {
    let proto = &protocol(ProtocolItem::IPv4Raw.index(), true);
    let probe = proto.decode_reply(&[
        0, 0, 0, 0, 0, 0, 0, 0, 0, 0, 0, 0, 0, 0, 0, 0, 0, 0, 0, 0, // IP header, faked
        8, 0, 0, 0, // Type, Code, Checksum (faked)
        0xBE, 0xEF, 0, 1, // Request id, sequence
        0, 0, 0, 0, 0xDE, 0xAD, 0xBE, 0xEF, // Signature
        0, 0, 0, 0, 1, 2, 3, 4, // Timestamp
        0x30, 0x30, 0x30, 0x30, 0x30, 0x30, 0x30, 0x30, 0x30, 0x30, 0x30, 0x30, 0x30, 0x30,
        0x30, 0x30, 0x30, 0x30, 0x30, 0x30, // Padding, 20x"A"
    ]);
    assert!(probe.is_none())
}
#[test]
fn test_v4_dgram_encode1() {
    const SIZE: usize = 44;
    let proto = &protocol(ProtocolItem::IPv4Dgram.index(), true);
    let mut buf = Vec::new();
    proto.encode_request(
        Probe::new(TEST_SEQ, TEST_SIGNATURE, TEST_TIMESTAMP),
        &mut buf,
        SIZE,
    );
    assert_eq!(
        buf,
        &[
            8, 0, 0, 0, // Type, Code, Checksum
            0xBE, 0xEF, 0, 1, // Request id, sequence
            0, 0, 0, 0, 0xDE, 0xAD, 0xBE, 0xEF, // Signature
            0, 0, 0, 0, 1, 2, 3, 4, // Timestamp
        ]
    )
}

#[test]
fn test_v4_dgram_encode2() {
    const SIZE: usize = 64;
    let proto = &protocol(ProtocolItem::IPv4Dgram.index(), true);
    let mut buf = Vec::new();
    proto.encode_request(
        Probe::new(TEST_SEQ, TEST_SIGNATURE, TEST_TIMESTAMP),
        &mut buf,
        SIZE,
    );
    assert_eq!(
        buf,
        &[
            8, 0, 0, 0, // Type, Code, Checksum
            0xBE, 0xEF, 0, 1, // Request id, sequence
            0, 0, 0, 0, 0xDE, 0xAD, 0xBE, 0xEF, // Signature
            0, 0, 0, 0, 1, 2, 3, 4, // Timestamp
            0x30, 0x30, 0x30, 0x30, 0x30, 0x30, 0x30, 0x30, 0x30, 0x30, 0x30, 0x30, 0x30, 0x30,
            0x30, 0x30, 0x30, 0x30, 0x30, 0x30, // Padding, 20x"A"
        ]
    )
}

#[test]
fn test_v4_dgram_decode1() {
    let proto = &protocol(ProtocolItem::IPv4Dgram.index(), true);
    let probe = proto
        .decode_reply(&[
            0, 0, 0, 0, // Type, Code, Checksum (faked)
            0xBE, 0xEF, 0, 1, // Request id, sequence
            0, 0, 0, 0, 0xDE, 0xAD, 0xBE, 0xEF, // Signature
            0, 0, 0, 0, 1, 2, 3, 4, // Timestamp
        ])
        .unwrap();
    assert_eq!(probe.get_request_id(), TEST_REQUEST_ID);
    assert_eq!(probe.get_seq(), TEST_SEQ);
    assert_eq!(probe.get_signature(), TEST_SIGNATURE);
    assert_eq!(probe.get_ts(), TEST_TIMESTAMP);
}
#[test]
fn test_v4_dgram_decode2() {
    let proto = &protocol(ProtocolItem::IPv4Dgram.index(), true);
    let probe = proto
        .decode_reply(&[
            0, 0, 0, 0, // Type, Code, Checksum (faked)
            0xBE, 0xEF, 0, 1, // Request id, sequence
            0, 0, 0, 0, 0xDE, 0xAD, 0xBE, 0xEF, // Signature
            0, 0, 0, 0, 1, 2, 3, 4, // Timestamp
            0x30, 0x30, 0x30, 0x30, 0x30, 0x30, 0x30, 0x30, 0x30, 0x30, 0x30, 0x30, 0x30, 0x30,
            0x30, 0x30, 0x30, 0x30, 0x30, 0x30, // Padding, 20x"A"
        ])
        .unwrap();
    assert_eq!(probe.get_request_id(), TEST_REQUEST_ID);
    assert_eq!(probe.get_seq(), TEST_SEQ);
    assert_eq!(probe.get_signature(), TEST_SIGNATURE);
    assert_eq!(probe.get_ts(), TEST_TIMESTAMP);
}
#[test]
fn test_v4_dgram_decode_too_short() {
    let proto = &protocol(ProtocolItem::IPv4Dgram.index(), true);
    let probe = proto.decode_reply(&[
        0, // IP header, faked
        0, 0, 0, 0, // Type, Code, Checksum (faked)
        0xBE, 0xEF, 0, 1, // Request id, sequence
    ]);
    assert!(probe.is_none());
}

#[test]
fn test_v4_dgram_decode_invalid_type() {
    let proto = &protocol(ProtocolItem::IPv4Dgram.index(), true);
    let probe = proto.decode_reply(&[
        8, 0, 0, 0, // Type, Code, Checksum (faked)
        0xBE, 0xEF, 0, 1, // Request id, sequence
        0, 0, 0, 0, 0xDE, 0xAD, 0xBE, 0xEF, // Signature
        0, 0, 0, 0, 1, 2, 3, 4, // Timestamp
        0x30, 0x30, 0x30, 0x30, 0x30, 0x30, 0x30, 0x30, 0x30, 0x30, 0x30, 0x30, 0x30, 0x30,
        0x30, 0x30, 0x30, 0x30, 0x30, 0x30, // Padding, 20x"A"
    ]);
    assert!(probe.is_none())
}
#[test]
fn test_v6_raw_encode1() {
    const SIZE: usize = 64;
    let proto = &protocol(ProtocolItem::IPv6Raw.index(), true);
    let mut buf = Vec::new();
    proto.encode_request(
        Probe::new(TEST_SEQ, TEST_SIGNATURE, TEST_TIMESTAMP),
        &mut buf,
        SIZE,
    );
    assert_eq!(
        buf,
        &[
            0x80, 0, 0x1F, 0x6B, // Type, Code, Checksum
            0xBE, 0xEF, 0, 1, // Request id, sequence
            0, 0, 0, 0, 0xDE, 0xAD, 0xBE, 0xEF, // Signature
            0, 0, 0, 0, 1, 2, 3, 4, // Timestamp
        ]
    )
}

#[test]
fn test_v6_raw_encode2() {
    const SIZE: usize = 84;
    let proto = &protocol(ProtocolItem::IPv6Raw.index(), true);
    let mut buf = Vec::new();
    proto.encode_request(
        Probe::new(TEST_SEQ, TEST_SIGNATURE, TEST_TIMESTAMP),
        &mut buf,
        SIZE,
    );
    assert_eq!(
        buf,
        &[
            0x80, 0, 0x3D, 0x89, // Type, Code, Checksum
            0xBE, 0xEF, 0, 1, // Request id, sequence
            0, 0, 0, 0, 0xDE, 0xAD, 0xBE, 0xEF, // Signature
            0, 0, 0, 0, 1, 2, 3, 4, // Timestamp
            0x30, 0x30, 0x30, 0x30, 0x30, 0x30, 0x30, 0x30, 0x30, 0x30, 0x30, 0x30, 0x30, 0x30,
            0x30, 0x30, 0x30, 0x30, 0x30, 0x30, // Padding, 20x"A"
        ]
    )
}

#[test]
fn test_v6_raw_decode1() {
    let proto = &protocol(ProtocolItem::IPv6Raw.index(), true);
    let probe = proto
        .decode_reply(&[
            0x81, 0, 0, 0, // Type, Code, Checksum (faked)
            0xBE, 0xEF, 0, 1, // Request id, sequence
            0, 0, 0, 0, 0xDE, 0xAD, 0xBE, 0xEF, // Signature
            0, 0, 0, 0, 1, 2, 3, 4, // Timestamp
        ])
        .unwrap();
    assert_eq!(probe.get_request_id(), TEST_REQUEST_ID);
    assert_eq!(probe.get_seq(), TEST_SEQ);
    assert_eq!(probe.get_signature(), TEST_SIGNATURE);
    assert_eq!(probe.get_ts(), TEST_TIMESTAMP);
}
#[test]
fn test_v6_raw_decode2() {
    let proto = &protocol(ProtocolItem::IPv6Raw.index(), true);
    let probe = proto
        .decode_reply(&[
            0x81, 0, 0, 0, // Type, Code, Checksum (faked)
            0xBE, 0xEF, 0, 1, // Request id, sequence
            0, 0, 0, 0, 0xDE, 0xAD, 0xBE, 0xEF, // Signature
            0, 0, 0, 0, 1, 2, 3, 4, // Timestamp
            0x30, 0x30, 0x30, 0x30, 0x30, 0x30, 0x30, 0x30, 0x30, 0x30, 0x30, 0x30, 0x30, 0x30,
            0x30, 0x30, 0x30, 0x30, 0x30, 0x30, // Padding, 20x"A"
        ])
        .unwrap();
    assert_eq!(probe.get_request_id(), TEST_REQUEST_ID);
    assert_eq!(probe.get_seq(), TEST_SEQ);
    assert_eq!(probe.get_signature(), TEST_SIGNATURE);
    assert_eq!(probe.get_ts(), TEST_TIMESTAMP);
}
#[test]
fn test_v6_raw_decode_too_short() {
    let proto = &protocol(ProtocolItem::IPv6Raw.index(), true);
    let probe = proto.decode_reply(&[
        0, // Short packet
    ]);
    assert!(probe.is_none());
}

#[test]
fn test_v6_raw_decode_invalid_type() {
    let proto = &protocol(ProtocolItem::IPv6Raw.index(), true);
    let probe = proto.decode_reply(&[
        0, 0, 0, 0, 0, 0, 0, 0, 0, 0, 0, 0, 0, 0, 0, 0, 0, 0, 0, 0, 0, 0, 0, 0, 0, 0, 0, 0, 0,
        0, 0, 0, 0, 0, 0, 0, 0, 0, 0, 0, // IP header, faked
        8, 0, 0, 0, // Type, Code, Checksum (faked)
        0xBE, 0xEF, 0, 1, // Request id, sequence
        0, 0, 0, 0, 0xDE, 0xAD, 0xBE, 0xEF, // Signature
        0, 0, 0, 0, 1, 2, 3, 4, // Timestamp
        0x30, 0x30, 0x30, 0x30, 0x30, 0x30, 0x30, 0x30, 0x30, 0x30, 0x30, 0x30, 0x30, 0x30,
        0x30, 0x30, 0x30, 0x30, 0x30, 0x30, // Padding, 20x"A"
    ]);
    assert!(probe.is_none())
}
#[test]
fn test_v6_dgram_encode1() {
    const SIZE: usize = 64;
    let proto = &protocol(ProtocolItem::IPv6Dgram.index(), true);
    let mut buf = Vec::new();
    proto.encode_request(
        Probe::new(TEST_SEQ, TEST_SIGNATURE, TEST_TIMESTAMP),
        &mut buf,
        SIZE,
    );
    assert_eq!(
        buf,
        &[
            0x80, 0, 0, 0, // Type, Code, Checksum
            0xBE, 0xEF, 0, 1, // Request id, sequence
            0, 0, 0, 0, 0xDE, 0xAD, 0xBE, 0xEF, // Signature
            0, 0, 0, 0, 1, 2, 3, 4, // Timestamp
        ]
    )
}

#[test]
fn test_v6_dgram_encode2() {
    const SIZE: usize = 84;
    let proto = &protocol(ProtocolItem::IPv6Dgram.index(), true);
    let mut buf = Vec::new();
    proto.encode_request(
        Probe::new(TEST_SEQ, TEST_SIGNATURE, TEST_TIMESTAMP),
        &mut buf,
        SIZE,
    );
    assert_eq!(
        buf,
        &[
            0x80, 0, 0, 0, // Type, Code, Checksum
            0xBE, 0xEF, 0, 1, // Request id, sequence
            0, 0, 0, 0, 0xDE, 0xAD, 0xBE, 0xEF, // Signature
            0, 0, 0, 0, 1, 2, 3, 4, // Timestamp
            0x30, 0x30, 0x30, 0x30, 0x30, 0x30, 0x30, 0x30, 0x30, 0x30, 0x30, 0x30, 0x30, 0x30,
            0x30, 0x30, 0x30, 0x30, 0x30, 0x30, // Padding, 20x"A"
        ]
    )
}

#[test]
fn test_v6_dgram_decode1() {
    let proto = &protocol(ProtocolItem::IPv6Dgram.index(), true);
    let probe = proto
        .decode_reply(&[
            0x81, 0, 0, 0, // Type, Code, Checksum (faked)
            0xBE, 0xEF, 0, 1, // Request id, sequence
            0, 0, 0, 0, 0xDE, 0xAD, 0xBE, 0xEF, // Signature
            0, 0, 0, 0, 1, 2, 3, 4, // Timestamp
        ])
        .unwrap();
    assert_eq!(probe.get_request_id(), TEST_REQUEST_ID);
    assert_eq!(probe.get_seq(), TEST_SEQ);
    assert_eq!(probe.get_signature(), TEST_SIGNATURE);
    assert_eq!(probe.get_ts(), TEST_TIMESTAMP);
}
#[test]
fn test_v6_dgram_decode2() {
    let proto = &protocol(ProtocolItem::IPv6Dgram.index(), true);
    let probe = proto
        .decode_reply(&[
            0x81, 0, 0, 0, // Type, Code, Checksum (faked)
            0xBE, 0xEF, 0, 1, // Request id, sequence
            0, 0, 0, 0, 0xDE, 0xAD, 0xBE, 0xEF, // Signature
            0, 0, 0, 0, 1, 2, 3, 4, // Timestamp
            0x30, 0x30, 0x30, 0x30, 0x30, 0x30, 0x30, 0x30, 0x30, 0x30, 0x30, 0x30, 0x30, 0x30,
            0x30, 0x30, 0x30, 0x30, 0x30, 0x30, // Padding, 20x"A"
        ])
        .unwrap();
    assert_eq!(probe.get_request_id(), TEST_REQUEST_ID);
    assert_eq!(probe.get_seq(), TEST_SEQ);
    assert_eq!(probe.get_signature(), TEST_SIGNATURE);
    assert_eq!(probe.get_ts(), TEST_TIMESTAMP);
}
#[test]
fn test_v6_dgram_decode_too_short() {
    let proto = &protocol(ProtocolItem::IPv6Dgram.index(), true);
    let probe = proto.decode_reply(&[
        0, // Short packet
    ]);
    assert!(probe.is_none());
}

#[test]
fn test_v6_dgram_decode_invalid_type() {
    let proto = &protocol(ProtocolItem::IPv6Dgram.index(), true);
    let probe = proto.decode_reply(&[
        8, 0, 0, 0, // Type, Code, Checksum (faked)
        0xBE, 0xEF, 0, 1, // Request id, sequence
        0, 0, 0, 0, 0xDE, 0xAD, 0xBE, 0xEF, // Signature
        0, 0, 0, 0, 1, 2, 3, 4, // Timestamp
        0x30, 0x30, 0x30, 0x30, 0x30, 0x30, 0x30, 0x30, 0x30, 0x30, 0x30, 0x30, 0x30, 0x30,
        0x30, 0x30, 0x30, 0x30, 0x30, 0x30, // Padding, 20x"A"
    ]);
    assert!(probe.is_none())
}

#[test]
fn encode_then_decode_round_trip() {
    let probe = Probe::new(0x1234, 0x0123456789abcdef, 0xfedcba9876543210);
    for idx in 0..4 {
        let proto = protocol(idx, true);
        let mut buf = Vec::new();
        proto.encode_request(probe, &mut buf, proto.ip_header_size + 100);
        assert_eq!(buf.len(), 100);
        buf[0] = proto.icmp_reply_type;
        let mut datagram = vec![0x45u8; proto.skip_reply];
        datagram.extend_from_slice(&buf);
        let decoded = proto.decode_reply(&datagram).unwrap();
        assert_eq!(decoded, probe);
        assert_eq!(decoded.get_request_id(), 0xcdef);
    }
}

#[test]
fn checksum_known_vectors() {
    let proto = protocol(ProtocolItem::IPv4Raw.index(), true);
    let mut buf = Vec::new();
    proto.encode_request(Probe::new(1, 0xdeadbeef, 0x01020304), &mut buf, 44);
    assert_eq!(&buf[2..4], &[0x97, 0x6B]);
    proto.encode_request(Probe::new(1, 0xdeadbeef, 0x01020304), &mut buf, 64);
    assert_eq!(&buf[2..4], &[0xB5, 0x89]);
}

#[test]
fn decode_shorter_than_header_is_none() {
    let proto = protocol(ProtocolItem::IPv4Raw.index(), true);
    assert!(proto.decode_reply(&[0u8; 10]).is_none());
    assert!(proto.decode_reply(&[]).is_none());
    assert!(proto.decode_reply(&[0u8; 43]).is_none());
    assert!(proto.decode_reply(&[0u8; 44]).is_some());
}

#[test]
fn probe_getters() {
    let p = Probe::new(7, 0x1111_2222_3333_4444, 99);
    assert_eq!(p.get_seq(), 7);
    assert_eq!(p.get_signature(), 0x1111_2222_3333_4444);
    assert_eq!(p.get_ts(), 99);
    assert_eq!(p.get_request_id(), 0x4444);
}

#[test]
fn registry_without_linux_features() {
    let r = protocols(false);
    assert!(r[0].has_platform_support);
    assert!(!r[1].has_platform_support);
    assert!(r[2].has_platform_support);
    assert!(!r[3].has_platform_support);
}

fn registry(supported: [bool; 4]) -> Vec<gufo_ping::Proto> {
    let mut r = protocols(true);
    for (p, s) in r.iter_mut().zip(supported.iter()) {
        p.has_platform_support = *s;
    }
    r
}

#[test]
fn selection_falls_back_to_datagram() {
    let reg = registry([true; 4]);
    let avail = [Some(false), Some(true), None, None];
    let r = SelectionPolicy::IPv4RawDgram.resolve(&reg, &avail);
    assert!(matches!(r, Selection::Selected(1)));
}

#[test]
fn selection_permission_denied() {
    let reg = registry([true; 4]);
    let avail = [Some(false), Some(false), None, None];
    let r = SelectionPolicy::IPv4RawDgram.resolve(&reg, &avail);
    assert!(matches!(r, Selection::Failed(PingError::PermissionDenied)));
}

#[test]
fn selection_not_implemented() {
    let reg = registry([false, false, true, true]);
    let avail = [None, None, None, None];
    let r = SelectionPolicy::IPv4RawDgram.resolve(&reg, &avail);
    assert!(matches!(r, Selection::Failed(PingError::NotImplemented)));
}

#[test]
fn selection_asks_for_probe_in_order() {
    let reg = registry([true; 4]);
    let mut cache = AvailabilityCache::new();
    let r = SelectionPolicy::IPv6DgramRaw.resolve(&reg, cache.as_slice());
    assert!(matches!(r, Selection::Probe(3)));
    cache.record(3, false);
    let r = SelectionPolicy::IPv6DgramRaw.resolve(&reg, cache.as_slice());
    assert!(matches!(r, Selection::Probe(2)));
    cache.record(2, true);
    cache.record(2, false);
    assert_eq!(cache.get(2), Some(true));
    let r = SelectionPolicy::IPv6DgramRaw.resolve(&reg, cache.as_slice());
    assert!(matches!(r, Selection::Selected(2)));
}

#[test]
fn selection_skips_unsupported_without_probe() {
    let reg = registry([true, false, true, true]);
    let avail = [None, None, None, None];
    let r = SelectionPolicy::IPv4DgramRaw.resolve(&reg, &avail);
    assert!(matches!(r, Selection::Probe(0)));
}

#[test]
fn place_checksum_sets_field() {
    let mut msg = vec![8u8, 0, 0, 0, 1, 2, 3, 4, 5];
    place_checksum(&mut msg, [0xab, 0xcd]);
    assert_eq!(msg, vec![8u8, 0, 0xab, 0xcd, 1, 2, 3, 4, 5]);
}
