use rumpunch::codec::{read_varint, write_varint};
use rumpunch::{
    Ack, ErrorKind, Message, Payload, PayloadKind, PeerAddr, ProbeReply, ProbeRequest,
    SampleReply, SampleRequest, StartReply, StartRequest, StopRequest,
};
use std::collections::HashSet;

#[test]
fn kinds_are_unique() {
    // Try to check that all the Payload::KIND values are unique
    let values = vec![ProbeRequest::KIND, ProbeReply::KIND];
    let set: HashSet<&PayloadKind> = HashSet::from_iter(values.iter());
    assert_eq!(values.len(), set.len());
}

#[test]
fn all_payload_kinds_are_unique() {
    let values = vec![
        ProbeRequest::KIND,
        ProbeReply::KIND,
        StartRequest::KIND,
        StartReply::KIND,
        StopRequest::KIND,
        Ack::KIND,
        SampleRequest::KIND,
        SampleReply::KIND,
    ];
    let set: HashSet<&PayloadKind> = HashSet::from_iter(values.iter());
    assert_eq!(values.len(), set.len());
    let tags: HashSet<u64> = values.iter().map(|k| k.tag()).collect();
    assert_eq!(tags.len(), values.len());
}

#[test]
fn varint_exact_bytes() {
    let mut out = Vec::new();
    write_varint(&mut out, 0);
    write_varint(&mut out, 127);
    write_varint(&mut out, 128);
    write_varint(&mut out, 300);
    write_varint(&mut out, u32::MAX as u64);
    assert_eq!(
        out,
        vec![0x00, 0x7f, 0x80, 0x01, 0xac, 0x02, 0xff, 0xff, 0xff, 0xff, 0x0f]
    );
    assert_eq!(read_varint(&out, 4), Some((300, 6)));
    let mut big = Vec::new();
    write_varint(&mut big, u64::MAX);
    assert_eq!(big.len(), 10);
    assert_eq!(read_varint(&big, 0), Some((u64::MAX, 10)));
}

#[test]
fn varint_rejects_non_canonical_and_truncated() {
    // A continuation byte followed by a zero group is not canonical.
    assert_eq!(read_varint(&[0x80, 0x00], 0), None);
    // Truncated.
    assert_eq!(read_varint(&[0x80], 0), None);
    assert_eq!(read_varint(&[], 0), None);
    // Eleven bytes never fit in 64 bits.
    assert_eq!(read_varint(&[0xff; 11], 0), None);
}

fn round_trip<P: Payload + Clone>(payload: P) -> (Message, P) {
    let m = Message::new("alice".to_string(), 77, payload);
    let bytes = m.to_bytes();
    let back = Message::from_bytes(&bytes).expect("decodes");
    assert_eq!(back.peer_id(), "alice");
    assert_eq!(back.msg_id(), 77);
    assert_eq!(back.kind(), P::KIND);
    assert_eq!(back.payload(), m.payload());
    let p = P::from_message(&back).expect("payload decodes");
    (back, p)
}

#[test]
fn round_trip_each_kind() {
    round_trip(ProbeRequest {});
    round_trip(Ack {});
    round_trip(SampleReply {});
    let (_, p) = round_trip(ProbeReply { public_addr: PeerAddr::V4([10, 0, 0, 7], 4000) });
    assert_eq!(p.public_addr, PeerAddr::V4([10, 0, 0, 7], 4000));
    let v6 = PeerAddr::V6([0x20, 0x01, 0x0d, 0xb8, 0, 0, 0, 0, 0, 0, 0, 0, 0, 0, 0, 1], 65535);
    let (_, p) = round_trip(ProbeReply { public_addr: v6 });
    assert_eq!(p.public_addr, v6);
    let (_, p) = round_trip(StartRequest { connect_to: "bob ✓".to_string() });
    assert_eq!(p.connect_to, "bob ✓");
    let (_, p) = round_trip(StopRequest { connect_to: String::new() });
    assert_eq!(p.connect_to, "");
    let (_, p) = round_trip(StartReply { connection_id: None });
    assert_eq!(p.connection_id, None);
    let (_, p) = round_trip(StartReply { connection_id: Some(u32::MAX) });
    assert_eq!(p.connection_id, Some(u32::MAX));
    let (_, p) = round_trip(SampleRequest { connection_id: 9, src_port: 50000, seq_number: 3 });
    assert_eq!((p.connection_id, p.src_port, p.seq_number), (9, 50000, 3));
}

#[test]
fn message_bytes_exact() {
    let m = Message::new("ab".to_string(), 300, StartReply { connection_id: Some(5) });
    assert_eq!(
        m.to_bytes(),
        vec![0x02, b'a', b'b', 0xac, 0x02, 0x03, 0x02, 0x01, 0x05]
    );
}

#[test]
fn wire_format_matches_postcard() {
    let m = Message::new("peer".to_string(), 123456, StartRequest { connect_to: "bob".to_string() });
    let payload = postcard::to_stdvec(&"bob").unwrap();
    let expected = postcard::to_stdvec(&("peer", 123456u32, 2u32, payload.clone())).unwrap();
    assert_eq!(m.to_bytes(), expected);

    let addr = ProbeReply { public_addr: PeerAddr::V4([127, 0, 0, 1], 4000) };
    assert_eq!(addr.to_bytes(), postcard::to_stdvec(&(0u32, [127u8, 0, 0, 1], 4000u16)).unwrap());

    let reply = StartReply { connection_id: Some(1 << 20) };
    assert_eq!(reply.to_bytes(), postcard::to_stdvec(&Some(1u32 << 20)).unwrap());

    let sample = SampleRequest { connection_id: 70000, src_port: 443, seq_number: 129 };
    assert_eq!(sample.to_bytes(), postcard::to_stdvec(&(70000u32, 443u16, 129u16)).unwrap());
}

#[test]
fn corrupted_bytes_never_panic() {
    let m = Message::new("carol".to_string(), 42, SampleRequest { connection_id: 1, src_port: 2, seq_number: 3 });
    let bytes = m.to_bytes();
    for i in 0..bytes.len() {
        for x in [0u8, 1, 0x7f, 0x80, 0xff] {
            let mut b = bytes.clone();
            b[i] = x;
            match Message::from_bytes(&b) {
                Ok(back) => assert_eq!(back.to_bytes(), b),
                Err(e) => assert_eq!(*e.kind(), ErrorKind::FromBytes),
            }
        }
    }
}

#[test]
fn malformed_messages_are_rejected() {
    let bytes = Message::new("x".to_string(), 1, Ack {}).to_bytes();
    // Truncated.
    for n in 0..bytes.len() {
        let e = Message::from_bytes(&bytes[..n]).unwrap_err();
        assert_eq!(*e.kind(), ErrorKind::FromBytes);
    }
    // Trailing bytes.
    let mut long = bytes.clone();
    long.push(0);
    assert!(Message::from_bytes(&long).is_err());
    // Unknown kind tag.
    let mut unknown = bytes.clone();
    unknown[3] = 8;
    assert!(Message::from_bytes(&unknown).is_err());
    // Invalid UTF-8 in the peer id.
    let bad_text = vec![0x01, 0xff, 0x01, 0x05, 0x00];
    assert!(Message::from_bytes(&bad_text).is_err());
}

#[test]
fn wrong_kind_is_a_distinct_error() {
    let m = Message::new("x".to_string(), 1, Ack {});
    let e = ProbeReply::from_message(&m).unwrap_err();
    assert_eq!(*e.kind(), ErrorKind::WrongKind);
    let m = Message::new("x".to_string(), 1, StartRequest { connect_to: "y".to_string() });
    assert!(StopRequest::from_message(&m).is_err());
    assert_eq!(*StopRequest::from_message(&m).unwrap_err().kind(), ErrorKind::WrongKind);
}

#[test]
fn malformed_payload_is_from_bytes_error() {
    // An ack that carries bytes is not an ack.
    let mut bytes = Message::new("x".to_string(), 1, Ack {}).to_bytes();
    let last = bytes.len() - 1;
    bytes[last] = 1;
    bytes.push(9);
    let m = Message::from_bytes(&bytes).unwrap();
    assert_eq!(*Ack::from_message(&m).unwrap_err().kind(), ErrorKind::FromBytes);
}
