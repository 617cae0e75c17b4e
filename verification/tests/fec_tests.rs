use bytes::Bytes;
use scrcpy_custom::network::fec::{FecDecoder, FecEncoder};
use scrcpy_custom::network::protocol::{FecPacket, Packet, PacketType};
use scrcpy_custom::network::NetworkError;

fn sample_packets(n: usize, len: usize) -> Vec<Packet> {
    let mut packets = Vec::new();
    for i in 0..n {
        packets.push(Packet::new(
            PacketType::Video,
            (i as i64) * 1000,
            i as u32,
            Bytes::from(vec![i as u8 + 1; len]),
        ));
    }
    packets
}

fn framed(p: &Packet) -> Bytes {
    Bytes::from(p.serialize())
}

#[test]
fn test_fec_encode_decode() {
    let mut encoder = FecEncoder::new(4, 2).unwrap();
    let mut decoder = FecDecoder::new(4, 2).unwrap();

    // Create test packets
    let mut packets = Vec::new();
    for i in 0..4 {
        packets.push(Packet::new(
            PacketType::Video,
            i * 1000,
            i as u32,
            Bytes::from(vec![i as u8; 100]),
        ));
    }

    // Encode
    let mut all_fec_packets = Vec::new();
    for packet in &packets {
        let fec_packets = encoder.encode(packet.clone());
        all_fec_packets.extend(fec_packets);
    }

    // Should have 2 FEC packets (parity shards)
    assert_eq!(all_fec_packets.len(), 2);

    // Simulate packet loss - drop packet 1
    decoder.add_data_packet(0, packets[0].data.clone());
    // Skip packet 1 (lost)
    decoder.add_data_packet(2, packets[2].data.clone());
    decoder.add_data_packet(3, packets[3].data.clone());

    // Add FEC packets
    for fec_packet in all_fec_packets {
        if let Some(recovered) = decoder.add_fec_packet(fec_packet).unwrap() {
            // Should recover packet 1
            assert!(!recovered.is_empty());
        }
    }
}

#[test]
fn single_lost_shard_is_recovered_exactly() {
    let mut encoder = FecEncoder::new(4, 2).unwrap();
    let mut decoder = FecDecoder::new_at(4, 2, 0).unwrap();
    let packets = sample_packets(4, 100);
    let mut parity: Vec<FecPacket> = Vec::new();
    for p in &packets {
        parity.extend(encoder.encode(p.clone()));
    }
    assert_eq!(parity.len(), 2);
    assert_eq!(parity[0].block_id, 0);
    assert_eq!(parity[0].index, 4);
    assert_eq!(parity[1].index, 5);
    assert_eq!(parity[0].data_count, 4);
    assert_eq!(parity[0].parity_count, 2);
    assert_eq!(parity[0].data.len(), 117);
    assert_ne!(parity[0].data, parity[1].data);

    assert!(decoder.add_data_packet_at(0, framed(&packets[0]), 1).is_none());
    assert!(decoder.add_data_packet_at(2, framed(&packets[2]), 2).is_none());
    assert!(decoder.add_data_packet_at(3, framed(&packets[3]), 3).is_none());
    let mut parity = parity.into_iter();
    let recovered = decoder.add_fec_packet_at(parity.next().unwrap(), 4).unwrap().unwrap();
    assert_eq!(recovered.len(), 1);
    assert_eq!(recovered[0].packet_type, PacketType::Video);
    assert_eq!(recovered[0].pts, 1000);
    assert_eq!(recovered[0].seq, 1);
    assert_eq!(recovered[0].data, Bytes::from(vec![2u8; 100]));
    // The block is recovered: no second reconstruction.
    assert!(decoder.add_fec_packet_at(parity.next().unwrap(), 5).unwrap().is_none());
    assert!(decoder.add_data_packet_at(1, framed(&packets[1]), 6).is_none());
}

#[test]
fn two_lost_shards_of_unequal_length_are_recovered() {
    let mut encoder = FecEncoder::new(3, 2).unwrap();
    let mut decoder = FecDecoder::new_at(3, 2, 0).unwrap();
    let packets = vec![
        Packet::new(PacketType::Video, 10, 0, Bytes::from_static(b"short")),
        Packet::new(PacketType::Audio, 20, 1, Bytes::from_static(b"a much longer payload")),
        Packet::new(PacketType::Control, -30, 2, Bytes::new()),
    ];
    let mut parity: Vec<FecPacket> = Vec::new();
    for p in &packets {
        parity.extend(encoder.encode(p.clone()));
    }
    assert_eq!(parity.len(), 2);
    assert_eq!(parity[0].data.len(), 17 + 21);
    let mut parity = parity.into_iter();
    assert!(decoder.add_fec_packet_at(parity.next().unwrap(), 1).unwrap().is_none());
    assert!(decoder.add_fec_packet_at(parity.next().unwrap(), 2).unwrap().is_none());
    let recovered = decoder.add_data_packet_at(1, framed(&packets[1]), 3).unwrap();
    assert_eq!(recovered.len(), 2);
    assert_eq!(recovered[0].packet_type, PacketType::Video);
    assert_eq!(recovered[0].pts, 10);
    assert_eq!(recovered[0].seq, 0);
    assert_eq!(recovered[0].data, Bytes::from_static(b"short"));
    assert_eq!(recovered[1].packet_type, PacketType::Control);
    assert_eq!(recovered[1].pts, -30);
    assert_eq!(recovered[1].seq, 2);
    assert_eq!(recovered[1].data.len(), 0);
}

#[test]
fn complete_block_needs_no_recovery() {
    let mut decoder = FecDecoder::new_at(2, 1, 0).unwrap();
    let packets = sample_packets(2, 10);
    assert!(decoder.add_data_packet_at(0, framed(&packets[0]), 1).is_none());
    assert!(decoder.add_data_packet_at(1, framed(&packets[1]), 1).is_none());
    // Block 1 is independent of block 0.
    assert!(decoder.add_data_packet_at(2, framed(&packets[0]), 1).is_none());
}

#[test]
fn encoder_blocks_and_flush() {
    let mut encoder = FecEncoder::new(3, 1).unwrap();
    let packets = sample_packets(4, 8);
    assert!(encoder.encode(packets[0].clone()).is_empty());
    assert!(encoder.encode(packets[1].clone()).is_empty());
    let first = encoder.encode(packets[2].clone());
    assert_eq!(first.len(), 1);
    assert_eq!(first[0].block_id, 0);
    assert_eq!(first[0].index, 3);
    assert!(encoder.flush().is_empty());
    assert!(encoder.encode(packets[3].clone()).is_empty());
    let flushed = encoder.flush();
    assert_eq!(flushed.len(), 1);
    assert_eq!(flushed[0].block_id, 1);
    assert_eq!(flushed[0].data.len(), 25);
    assert!(encoder.flush().is_empty());

    // A flushed block decodes with the filler packets in place.
    let mut decoder = FecDecoder::new_at(3, 1, 0).unwrap();
    let filler = Packet::new(PacketType::Video, 0, 0, Bytes::new());
    assert!(decoder.add_data_packet_at(4, framed(&filler), 0).is_none());
    assert!(decoder.add_data_packet_at(5, framed(&filler), 0).is_none());
    let mut flushed = flushed.into_iter();
    let recovered = decoder.add_fec_packet_at(flushed.next().unwrap(), 0).unwrap().unwrap();
    assert_eq!(recovered.len(), 1);
    assert_eq!(recovered[0].seq, 3);
    assert_eq!(recovered[0].pts, 3000);
    assert_eq!(recovered[0].data, Bytes::from(vec![4u8; 8]));
}

#[test]
fn geometry_is_checked() {
    assert!(matches!(FecEncoder::new(0, 2), Err(NetworkError::Protocol(_))));
    assert!(matches!(FecEncoder::new(4, 0), Err(NetworkError::Protocol(_))));
    assert!(matches!(FecEncoder::new(200, 57), Err(NetworkError::Protocol(_))));
    assert!(FecEncoder::new(200, 56).is_ok());
    assert!(matches!(FecDecoder::new(0, 1), Err(NetworkError::Protocol(_))));
    assert!(matches!(FecDecoder::new_at(1, 0, 0), Err(NetworkError::Protocol(_))));
    assert!(FecDecoder::new(255, 1).is_ok());
}

#[test]
fn foreign_parity_packets_are_refused() {
    let mut decoder = FecDecoder::new_at(4, 2, 0).unwrap();
    let wrong_k = FecPacket::new(0, 4, 5, 2, Bytes::from_static(b"x"));
    assert!(matches!(decoder.add_fec_packet_at(wrong_k, 0), Err(NetworkError::Protocol(_))));
    let zero_r = FecPacket::new(0, 4, 4, 0, Bytes::from_static(b"x"));
    assert!(matches!(decoder.add_fec_packet_at(zero_r, 0), Err(NetworkError::Protocol(_))));
    let data_index = FecPacket::new(0, 3, 4, 2, Bytes::from_static(b"x"));
    assert!(matches!(decoder.add_fec_packet_at(data_index, 0), Err(NetworkError::Protocol(_))));
    // An index past the block is not stored and recovers nothing.
    let past = FecPacket::new(0, 6, 4, 2, Bytes::from_static(b"x"));
    assert!(decoder.add_fec_packet_at(past, 0).unwrap().is_none());
}

#[test]
fn mismatch_drops_the_block() {
    let mut encoder = FecEncoder::new(2, 1).unwrap();
    let packets = sample_packets(2, 4);
    let mut parity: Vec<FecPacket> = Vec::new();
    for p in &packets {
        parity.extend(encoder.encode(p.clone()));
    }
    let mut decoder = FecDecoder::new_at(2, 1, 0).unwrap();
    assert!(decoder.add_data_packet_at(0, framed(&packets[0]), 0).is_none());
    let wrong = FecPacket::new(0, 2, 3, 1, Bytes::from_static(b"x"));
    assert!(decoder.add_fec_packet_at(wrong, 0).is_err());
    // The data shard went with the block: parity alone is not enough.
    let mut parity = parity.into_iter();
    assert!(decoder.add_fec_packet_at(parity.next().unwrap(), 0).unwrap().is_none());
    let recovered = decoder.add_data_packet_at(1, framed(&packets[1]), 0).unwrap();
    assert_eq!(recovered.len(), 1);
    assert_eq!(recovered[0].seq, 0);
    assert_eq!(recovered[0].data, Bytes::from(vec![1u8; 4]));
}

#[test]
fn cleanup_drops_old_blocks_at_most_every_five_seconds() {
    let mut encoder = FecEncoder::new(2, 1).unwrap();
    let packets = sample_packets(2, 4);
    let mut parity: Vec<FecPacket> = Vec::new();
    for p in &packets {
        parity.extend(encoder.encode(p.clone()));
    }
    let parity = parity.pop().unwrap();

    // Within five seconds of the last cleanup nothing is dropped.
    let mut decoder = FecDecoder::new_at(2, 1, 10_000).unwrap();
    assert!(decoder.add_data_packet_at(0, framed(&packets[0]), 0).is_none());
    decoder.cleanup_at(14_999);
    let recovered = decoder.add_fec_packet_at(parity.clone(), 14_999).unwrap().unwrap();
    assert_eq!(recovered[0].seq, 1);

    // After it, a block of ten seconds or more is gone.
    let mut decoder = FecDecoder::new_at(2, 1, 0).unwrap();
    assert!(decoder.add_data_packet_at(0, framed(&packets[0]), 0).is_none());
    decoder.cleanup_at(10_000);
    assert!(decoder.add_fec_packet_at(parity.clone(), 10_000).unwrap().is_none());

    // A younger block stays.
    let mut decoder = FecDecoder::new_at(2, 1, 0).unwrap();
    assert!(decoder.add_data_packet_at(0, framed(&packets[0]), 1).is_none());
    decoder.cleanup_at(10_000);
    let recovered = decoder.add_fec_packet_at(parity, 10_000).unwrap().unwrap();
    assert_eq!(recovered[0].data, Bytes::from(vec![2u8; 4]));
}

#[test]
fn block_ids_wrap_with_the_sequence_numbers() {
    let mut decoder = FecDecoder::new_at(4, 2, 0).unwrap();
    let p = Packet::new(PacketType::Video, 1, u32::MAX, Bytes::from_static(b"q"));
    assert!(decoder.add_data_packet_at(u32::MAX, framed(&p), 0).is_none());
}

#[test]
fn oversized_payloads_are_not_encoded() {
    let mut encoder = FecEncoder::new(1, 1).unwrap();
    let big = Packet::new(PacketType::Video, 0, 0, Bytes::from(vec![0u8; 20 * 1024 * 1024 + 1]));
    assert!(encoder.try_encode(big).is_none());
    let limit = Packet::new(PacketType::Video, 0, 0, Bytes::from(vec![7u8; 20 * 1024 * 1024]));
    let parity = encoder.try_encode(limit).unwrap();
    assert_eq!(parity.len(), 1);
    assert_eq!(parity[0].data.len(), 20 * 1024 * 1024 + 17);
    // With one data shard the parity shard is the data shard itself.
    assert_eq!(parity[0].data[0], 1);
    assert_eq!(parity[0].data[17], 7);
}
