use bytes::Bytes;
use scrcpy_custom::network::fec::{FecDecoder, FecEncoder};
use scrcpy_custom::network::negotiation::{ConnectionNegotiator, DeviceCapabilities};
use scrcpy_custom::network::protocol::{FecPacket, Packet, PacketType};
use scrcpy_custom::network::quic::{estimate_bandwidth, DatagramReceiver};
use scrcpy_custom::network::tcp::{
    audio_next, begin_audio, control_frame, device_name, parse_stream_header, parse_video_metadata,
    record_packet, stream_packet, AudioStage, Demand, SocketEvent, VideoHandshake, VideoMetadata,
};
use scrcpy_custom::network::{ConnectionMode, NetworkError, NetworkStats};

fn datagram(kind: PacketType, seq: u32, payload: &'static [u8]) -> Bytes {
    Packet::new(kind, seq as i64 * 100, seq, Bytes::from_static(payload)).to_bytes().freeze()
}

#[test]
fn test_device_capabilities() {
    let caps = DeviceCapabilities::default();
    assert_eq!(caps.max_resolution, (1920, 1080));
    assert!(caps.video_codecs.contains(&"h264".to_string()));
}

#[test]
fn device_capabilities_defaults() {
    let caps = DeviceCapabilities::default();
    assert_eq!(caps.device_name, "Android Device");
    assert_eq!(caps.video_codecs, vec!["h264".to_string(), "h265".to_string()]);
    assert_eq!(caps.audio_codecs, vec!["aac".to_string(), "opus".to_string()]);
    assert_eq!(caps.max_bitrate, 20);
    assert!(caps.audio_supported);
    assert_eq!(caps.preferred_mode, "tcp");
}

#[test]
fn test_connection_negotiator_creation() {
    let tcp_addr = "127.0.0.1:5555".to_string();
    let quic_addr = Some("127.0.0.1:5556".to_string());

    let negotiator = ConnectionNegotiator::new(tcp_addr, quic_addr, true);
    assert_eq!(negotiator.prefer_quic(), true);
}

#[test]
fn negotiation_order_and_fallback() {
    let both = ConnectionNegotiator::new("a:1".to_string(), Some("a:2".to_string()), true);
    assert_eq!(both.first_attempt(), ConnectionMode::Quic);
    assert_eq!(both.next_attempt(ConnectionMode::Quic), Some(ConnectionMode::Tcp));
    assert_eq!(both.next_attempt(ConnectionMode::Tcp), None);
    assert_eq!(both.timeout_ms(), 5000);
    assert_eq!(both.tcp_addr(), "a:1");
    assert_eq!(both.quic_addr().as_deref(), Some("a:2"));
    let no_addr = ConnectionNegotiator::new("a:1".to_string(), None, true);
    assert_eq!(no_addr.first_attempt(), ConnectionMode::Tcp);
    let not_preferred = ConnectionNegotiator::new("a:1".to_string(), Some("a:2".to_string()), false);
    assert_eq!(not_preferred.first_attempt(), ConnectionMode::Tcp);
    assert_eq!(ConnectionMode::Tcp.name(), "TCP");
    assert_eq!(ConnectionMode::Quic.name(), "QUIC");
    assert!(ConnectionMode::Quic.is_wireless());
    assert!(!ConnectionMode::Tcp.is_wireless());
}

#[test]
fn datagram_loss_accounting() {
    let mut receiver = DatagramReceiver::new(FecDecoder::new_at(4, 2, 0).unwrap());
    for seq in [1u32, 2, 4, 5, 8] {
        let out = receiver.on_datagram(datagram(PacketType::Video, seq, b"1234"), 20, 64_000, 0);
        let out = out.unwrap();
        assert_eq!(out[0].seq, seq);
    }
    let stats = receiver.stats();
    assert_eq!(stats.packets_received, 5);
    assert_eq!(stats.packets_lost, 3);
    assert_eq!(stats.packet_loss_milli, 37_500);
    assert_eq!(stats.bytes_received, 5 * 21);
    assert_eq!(stats.rtt_ms, 20);
    assert_eq!(stats.bandwidth_kbps, 204_800);
}

#[test]
fn consecutive_datagrams_lose_nothing() {
    let mut receiver = DatagramReceiver::new(FecDecoder::new_at(4, 2, 0).unwrap());
    for seq in 1u32..=50 {
        receiver.account(seq, 100, 5, 1000);
    }
    let stats = receiver.stats();
    assert_eq!(stats.packets_lost, 0);
    assert_eq!(stats.packets_received, 50);
    assert_eq!(stats.packet_loss_milli, 0);
    assert_eq!(stats.bytes_received, 5000);
    // A datagram from the past counts as received and as no loss.
    receiver.account(10, 1, 5, 1000);
    assert_eq!(receiver.stats().packets_lost, 0);
    receiver.account(12, 1, 5, 1000);
    assert_eq!(receiver.stats().packets_lost, 1);
}

#[test]
fn bandwidth_estimate() {
    // 125000 bytes in flight at 10 ms: 100 Mbit/s.
    assert_eq!(estimate_bandwidth(125_000, 10), 800_000);
    assert_eq!(estimate_bandwidth(0, 10), 0);
    assert_eq!(estimate_bandwidth(1, 3), 21);
    assert_eq!(estimate_bandwidth(1000, 0), u64::MAX);
    assert_eq!(estimate_bandwidth(u64::MAX, 1), u64::MAX);
}

#[test]
fn malformed_datagram_is_a_protocol_error() {
    let mut receiver = DatagramReceiver::new(FecDecoder::new_at(4, 2, 0).unwrap());
    let out = receiver.on_datagram(Bytes::from_static(b"short"), 1, 1, 0);
    assert_eq!(out.unwrap_err(), NetworkError::Protocol("Packet too short".to_string()));
    let mut bad = vec![0u8; 17];
    bad[0] = 77;
    let out = receiver.on_datagram(Bytes::from(bad), 1, 1, 0);
    assert_eq!(out.unwrap_err(), NetworkError::Protocol("Invalid packet type".to_string()));
    assert_eq!(receiver.stats(), NetworkStats::default());
}

#[test]
fn parity_datagrams_are_absorbed_and_recover_lost_packets() {
    let mut encoder = FecEncoder::new(2, 1).unwrap();
    let first = Packet::new(PacketType::Video, 11, 0, Bytes::from_static(b"first"));
    let second = Packet::new(PacketType::Audio, 22, 1, Bytes::from_static(b"second!"));
    assert!(encoder.encode(first.clone()).is_empty());
    let parity: Vec<FecPacket> = encoder.encode(second.clone());
    let parity_payload = parity[0].to_bytes().freeze();
    let parity_datagram = Packet::new(PacketType::Fec, 0, 2, parity_payload).to_bytes().freeze();

    let mut receiver = DatagramReceiver::new(FecDecoder::new_at(2, 1, 0).unwrap());
    // The first packet is lost; the second arrives, then the parity.
    let out = receiver.on_datagram(second.to_bytes().freeze(), 1, 1, 0).unwrap();
    assert_eq!(out.len(), 1);
    assert_eq!(out[0].data, Bytes::from_static(b"second!"));
    let out = receiver.on_datagram(parity_datagram, 1, 1, 0).unwrap();
    assert_eq!(out.len(), 1);
    assert_eq!(out[0].packet_type, PacketType::Video);
    assert_eq!(out[0].pts, 11);
    assert_eq!(out[0].seq, 0);
    assert_eq!(out[0].data, Bytes::from_static(b"first"));
    assert_eq!(receiver.stats().packets_received, 2);

    // A parity payload too short for its header recovers nothing.
    let stub = Packet::new(PacketType::Fec, 0, 3, Bytes::from_static(b"abc")).to_bytes().freeze();
    assert!(receiver.on_datagram(stub, 1, 1, 0).unwrap().is_empty());
    // One with a foreign geometry is a protocol error.
    let foreign = FecPacket::new(9, 3, 3, 1, Bytes::from_static(b"x")).to_bytes().freeze();
    let foreign = Packet::new(PacketType::Fec, 0, 4, foreign).to_bytes().freeze();
    assert!(matches!(receiver.on_datagram(foreign, 1, 1, 0), Err(NetworkError::Protocol(_))));
}

#[test]
fn stream_header_parsing() {
    let header = [0, 0, 0, 0, 0, 0, 0x41, 0x1B, 0, 0, 0, 4];
    assert_eq!(parse_stream_header(&header).unwrap(), (16667, 4));
    let negative = [0xFF; 12];
    assert!(matches!(parse_stream_header(&negative), Err(NetworkError::Protocol(_))));
    let limit = [0xFF, 0xFF, 0xFF, 0xFF, 0xFF, 0xFF, 0xFF, 0xFE, 0x01, 0x40, 0, 0];
    assert_eq!(parse_stream_header(&limit).unwrap(), (-2, 20 * 1024 * 1024));
    let over = [0, 0, 0, 0, 0, 0, 0, 0, 0x01, 0x40, 0, 1];
    assert!(matches!(parse_stream_header(&over), Err(NetworkError::Protocol(_))));
}

#[test]
fn clean_wired_path() {
    let mut name = [0u8; 64];
    name[..5].copy_from_slice(b"pixel");
    let mut metadata = Vec::new();
    metadata.extend_from_slice(&0x68323634u32.to_be_bytes());
    metadata.extend_from_slice(&1080u32.to_be_bytes());
    metadata.extend_from_slice(&2400u32.to_be_bytes());

    let (mut handshake, demand) = VideoHandshake::start();
    assert_eq!(demand, Demand::Connect { timeout_ms: 5000 });
    let demand = handshake.step(SocketEvent::Connected).unwrap();
    assert_eq!(demand, Demand::Read { len: 64, timeout_ms: 10_000 });
    let demand = handshake.step(SocketEvent::Data(name.to_vec())).unwrap();
    assert_eq!(demand, Demand::Read { len: 1, timeout_ms: 10_000 });
    let demand = handshake.step(SocketEvent::Data(vec![0])).unwrap();
    assert_eq!(demand, Demand::Read { len: 12, timeout_ms: 10_000 });
    let demand = handshake.step(SocketEvent::Data(metadata.clone())).unwrap();
    assert_eq!(demand, Demand::Nothing);
    assert_eq!(device_name(&name), b"pixel".to_vec());
    let raw: [u8; 12] = metadata.try_into().unwrap();
    assert_eq!(
        parse_video_metadata(&raw),
        VideoMetadata { codec_id: 0x68323634, width: 1080, height: 2400 }
    );

    let mut stats = NetworkStats::default();
    let frames: [(u64, &[u8]); 2] = [(0, b"ABCDEFGH"), (16667, b"IJKL")];
    for (pts, payload) in frames {
        let mut header = [0u8; 12];
        header[..8].copy_from_slice(&pts.to_be_bytes());
        header[8..].copy_from_slice(&(payload.len() as u32).to_be_bytes());
        let (parsed_pts, len) = parse_stream_header(&header).unwrap();
        assert_eq!(len, payload.len());
        let packet = stream_packet(PacketType::Video, parsed_pts, payload.to_vec());
        assert_eq!(packet.packet_type, PacketType::Video);
        assert_eq!(packet.pts, pts as i64);
        assert_eq!(packet.seq, 0);
        assert_eq!(packet.data.as_ref(), payload);
        record_packet(&mut stats, &packet);
    }
    assert_eq!(stats.packets_received, 2);
    assert_eq!(stats.bytes_received, 12);
}

#[test]
fn video_handshake_failures() {
    let (mut h, _) = VideoHandshake::start();
    assert_eq!(h.step(SocketEvent::TimedOut), Err(NetworkError::Timeout));
    assert_eq!(
        h.step(SocketEvent::Failed("refused".to_string())),
        Err(NetworkError::ConnectionFailed("refused".to_string()))
    );
    assert!(matches!(h.step(SocketEvent::Data(vec![1])), Err(NetworkError::Protocol(_))));
    h.step(SocketEvent::Connected).unwrap();
    assert!(matches!(h.step(SocketEvent::Connected), Err(NetworkError::Protocol(_))));
    assert!(matches!(h.step(SocketEvent::Data(vec![0; 63])), Err(NetworkError::Protocol(_))));
    assert_eq!(h.step(SocketEvent::TimedOut), Err(NetworkError::Timeout));
    h.step(SocketEvent::Data(vec![0; 64])).unwrap();
    assert!(matches!(h.step(SocketEvent::TimedOut), Err(NetworkError::ConnectionFailed(_))));
    h.step(SocketEvent::Data(vec![7])).unwrap();
    assert!(matches!(
        h.step(SocketEvent::Failed("eof".to_string())),
        Err(NetworkError::ConnectionFailed(_))
    ));
    assert_eq!(h.step(SocketEvent::Data(vec![0; 12])), Ok(Demand::Nothing));
    assert!(matches!(h.step(SocketEvent::Data(vec![0; 12])), Err(NetworkError::Protocol(_))));
}

#[test]
fn device_name_keeps_inner_zero_bytes() {
    let mut name = [0u8; 64];
    name[0] = b'a';
    name[2] = b'b';
    assert_eq!(device_name(&name), vec![b'a', 0, b'b']);
    assert_eq!(device_name(&[0u8; 64]), Vec::<u8>::new());
    assert_eq!(device_name(&[b'x'; 64]), vec![b'x'; 64]);
}

#[test]
fn graceful_audio_downgrade() {
    let (stage, demand) = begin_audio(true);
    assert_eq!(stage, AudioStage::Connecting);
    assert_eq!(demand, Demand::Connect { timeout_ms: 5000 });
    let (stage, demand) = audio_next(stage, SocketEvent::Connected);
    assert_eq!(stage, AudioStage::AwaitCodec);
    assert_eq!(demand, Demand::Read { len: 4, timeout_ms: 10_000 });
    // The device declines audio with a codec id of zero.
    assert_eq!(
        audio_next(stage, SocketEvent::Data(vec![0, 0, 0, 0])),
        (AudioStage::Off, Demand::Nothing)
    );
    assert_eq!(
        audio_next(stage, SocketEvent::Data(b"opus".to_vec())),
        (AudioStage::On, Demand::Nothing)
    );
    assert_eq!(audio_next(stage, SocketEvent::TimedOut).0, AudioStage::Off);
    assert_eq!(audio_next(stage, SocketEvent::Failed("x".to_string())).0, AudioStage::Off);
    assert_eq!(audio_next(stage, SocketEvent::Data(vec![1, 2, 3])).0, AudioStage::Off);
    assert_eq!(audio_next(AudioStage::Connecting, SocketEvent::TimedOut).0, AudioStage::Off);
    assert_eq!(
        audio_next(AudioStage::Connecting, SocketEvent::Failed("refused".to_string())).0,
        AudioStage::Off
    );
    assert_eq!(begin_audio(false), (AudioStage::Off, Demand::Nothing));
    assert_eq!(audio_next(AudioStage::On, SocketEvent::TimedOut).0, AudioStage::On);
}

#[test]
fn control_messages_are_framed_as_control_packets() {
    let framed = control_frame(Bytes::from_static(b"\x00\x00\x00\x00\x08\x00\x00\x00")).unwrap().freeze();
    assert_eq!(framed.len(), 25);
    let back = Packet::from_bytes(framed).unwrap();
    assert_eq!(back.packet_type, PacketType::Control);
    assert_eq!(back.pts, 0);
    assert_eq!(back.seq, 0);
    assert_eq!(back.data.as_ref(), b"\x00\x00\x00\x00\x08\x00\x00\x00");
}
