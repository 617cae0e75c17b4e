use bytes::Bytes;
use scrcpy_custom::network::protocol::{FecPacket, Packet, PacketType};

#[test]
fn test_packet_serialization() {
    let data = Bytes::from_static(b"test data");
    let packet = Packet::new(PacketType::Video, 12345, 1, data.clone());

    let serialized = packet.to_bytes();
    let deserialized = Packet::from_bytes(serialized.freeze()).unwrap();

    assert_eq!(deserialized.packet_type, PacketType::Video);
    assert_eq!(deserialized.pts, 12345);
    assert_eq!(deserialized.seq, 1);
    assert_eq!(deserialized.data, data);
}

#[test]
fn packet_header_layout_is_little_endian() {
    let packet = Packet::new(PacketType::Audio, 0x0102030405060708, 0x0A0B0C0D, Bytes::from_static(b"xy"));
    let bytes = packet.to_bytes().freeze();
    let expected: Vec<u8> = vec![
        2, 8, 7, 6, 5, 4, 3, 2, 1, 0x0D, 0x0C, 0x0B, 0x0A, 2, 0, 0, 0, b'x', b'y',
    ];
    assert_eq!(bytes.as_ref(), expected.as_slice());
    assert_eq!(packet.serialize(), expected);
}

#[test]
fn negative_pts_round_trips() {
    let packet = Packet::new(PacketType::Control, -1, u32::MAX, Bytes::new());
    let bytes = packet.to_bytes().freeze();
    assert_eq!(&bytes[1..9], &[0xFF; 8]);
    let back = Packet::from_bytes(bytes).unwrap();
    assert_eq!(back.packet_type, PacketType::Control);
    assert_eq!(back.pts, -1);
    assert_eq!(back.seq, u32::MAX);
    assert_eq!(back.data.len(), 0);

    let low = Packet::new(PacketType::Handshake, i64::MIN, 0, Bytes::from_static(b"z"));
    let back = Packet::from_bytes(low.to_bytes().freeze()).unwrap();
    assert_eq!(back.pts, i64::MIN);
    assert_eq!(back.packet_type, PacketType::Handshake);
}

#[test]
fn every_kind_round_trips() {
    let kinds = [
        (PacketType::Video, 1u8),
        (PacketType::Audio, 2),
        (PacketType::Control, 3),
        (PacketType::Fec, 4),
        (PacketType::Handshake, 5),
    ];
    for (kind, tag) in kinds {
        assert_eq!(kind.tag(), tag);
        assert_eq!(PacketType::try_from(tag), Ok(kind));
        let p = Packet::new(kind, 7, 9, Bytes::from_static(b"abc"));
        let back = Packet::from_bytes(p.to_bytes().freeze()).unwrap();
        assert_eq!(back.packet_type, kind);
        assert_eq!(back.data, Bytes::from_static(b"abc"));
    }
    assert_eq!(PacketType::try_from(0), Err(()));
    assert_eq!(PacketType::try_from(6), Err(()));
}

#[test]
fn parse_reports_each_fault() {
    assert_eq!(Packet::from_bytes(Bytes::from(vec![1u8; 16])).unwrap_err(), "Packet too short");
    let mut bad_kind = vec![0u8; 17];
    bad_kind[0] = 9;
    assert_eq!(Packet::from_bytes(Bytes::from(bad_kind)).unwrap_err(), "Invalid packet type");
    let mut short = vec![0u8; 17];
    short[0] = 1;
    short[13] = 5;
    short.extend_from_slice(&[1, 2, 3, 4]);
    assert_eq!(Packet::from_bytes(Bytes::from(short)).unwrap_err(), "Incomplete packet");
}

#[test]
fn parse_ignores_bytes_after_the_payload() {
    let p = Packet::new(PacketType::Video, 5, 6, Bytes::from_static(b"ABCD"));
    let mut bytes = p.serialize();
    bytes.extend_from_slice(&[0, 0, 0, 0, 0]);
    let back = Packet::from_bytes(Bytes::from(bytes)).unwrap();
    assert_eq!(back.data, Bytes::from_static(b"ABCD"));
    assert_eq!(back.pts, 5);
    assert_eq!(back.seq, 6);
}

#[test]
fn keyframe_detection() {
    let video = |d: &'static [u8]| Packet::new(PacketType::Video, 0, 0, Bytes::from_static(d));
    // H.264 IDR, long and short start code.
    assert!(video(&[0, 0, 0, 1, 0x65, 0x88]).is_keyframe());
    assert!(video(&[0, 0, 1, 0x65, 0x88]).is_keyframe());
    assert!(video(&[0, 0, 1, 0x65]).is_keyframe());
    // H.264 non-IDR slice.
    assert!(!video(&[0, 0, 0, 1, 0x41, 0x9A]).is_keyframe());
    // H.265 IDR_W_RADL (19) and IDR_N_LP (20).
    assert!(video(&[0, 0, 0, 1, 19 << 1, 1]).is_keyframe());
    assert!(video(&[0, 0, 0, 1, 20 << 1, 1]).is_keyframe());
    // H.265 trailing picture (1).
    assert!(!video(&[0, 0, 0, 1, 1 << 1, 1]).is_keyframe());
    // No start code, or nothing after it.
    assert!(!video(&[1, 2, 3, 4, 0x65]).is_keyframe());
    assert!(!video(&[0, 0, 0, 1]).is_keyframe());
    assert!(!video(&[0, 0, 1]).is_keyframe());
    assert!(!video(&[]).is_keyframe());
    // Only video packets are keyframes.
    let audio = Packet::new(PacketType::Audio, 0, 0, Bytes::from_static(&[0, 0, 0, 1, 0x65]));
    assert!(!audio.is_keyframe());
}

#[test]
fn fec_packet_round_trip() {
    let p = FecPacket::new(0x01020304, 5, 4, 2, Bytes::from_static(b"parity"));
    let bytes = p.to_bytes().freeze();
    let expected: Vec<u8> = vec![4, 3, 2, 1, 5, 4, 2, b'p', b'a', b'r', b'i', b't', b'y'];
    assert_eq!(bytes.as_ref(), expected.as_slice());
    let back = FecPacket::from_bytes(bytes).unwrap();
    assert_eq!(back.block_id, 0x01020304);
    assert_eq!(back.index, 5);
    assert_eq!(back.data_count, 4);
    assert_eq!(back.parity_count, 2);
    assert_eq!(back.data, Bytes::from_static(b"parity"));
    assert_eq!(
        FecPacket::from_bytes(Bytes::from_static(&[0, 0, 0, 0, 1, 2])).unwrap_err(),
        "FEC packet too short"
    );
    let bare = FecPacket::from_bytes(Bytes::from_static(&[1, 0, 0, 0, 1, 2, 3])).unwrap();
    assert_eq!(bare.block_id, 1);
    assert_eq!(bare.data.len(), 0);
}

#[test]
fn payload_length_and_checked_framing() {
    let p = Packet::new(PacketType::Video, 1, 2, Bytes::from_static(b"hello"));
    assert_eq!(p.payload_len(), 5);
    let framed = p.try_to_bytes().unwrap().freeze();
    assert_eq!(framed.len(), 22);
    assert_eq!(framed, p.to_bytes().freeze());
}
