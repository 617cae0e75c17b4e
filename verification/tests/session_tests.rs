use scrcpy_custom::network::protocol::PacketType;
use scrcpy_custom::session::{
    endpoint_port, find_bytes, handle_connection_error, parse_hw_decoder, playout, route, Playout,
    Route,
};
use scrcpy_custom::video::decoder::HwDecoder;

#[test]
fn packets_are_routed_by_kind() {
    assert_eq!(route(PacketType::Video, true), Route::VideoDecoder);
    assert_eq!(route(PacketType::Video, false), Route::VideoDecoder);
    assert_eq!(route(PacketType::Audio, true), Route::AudioDecoder);
    assert_eq!(route(PacketType::Audio, false), Route::Ignore);
    for audio in [true, false] {
        assert_eq!(route(PacketType::Control, audio), Route::Ignore);
        assert_eq!(route(PacketType::Handshake, audio), Route::Ignore);
        assert_eq!(route(PacketType::Fec, audio), Route::Ignore);
    }
}

#[test]
fn a_session_without_audio_bypasses_sync() {
    assert_eq!(playout(false), Playout::VideoOnly);
    assert_eq!(playout(true), Playout::Synced);
}

#[test]
fn tunnel_redirects_the_port() {
    assert_eq!(endpoint_port(true, 27183), 5555);
    assert_eq!(endpoint_port(false, 27183), 27183);
}

#[test]
fn refused_connections_are_recognised() {
    assert!(handle_connection_error(b"Connection refused (os error 111)"));
    assert!(handle_connection_error(b"os error 10061"));
    assert!(handle_connection_error(b"x10061"));
    assert!(!handle_connection_error(b"connection refused"));
    assert!(!handle_connection_error(b"Connection reset"));
    assert!(!handle_connection_error(b"1006"));
    assert!(!handle_connection_error(b""));
}

#[test]
fn byte_search() {
    assert!(find_bytes(b"abcabd", b"abd"));
    assert!(find_bytes(b"abc", b""));
    assert!(find_bytes(b"", b""));
    assert!(!find_bytes(b"ab", b"abc"));
    assert!(!find_bytes(b"aaaa", b"ab"));
    assert!(find_bytes(b"aaab", b"ab"));
}

#[test]
fn decoder_names() {
    assert_eq!(parse_hw_decoder(b"auto"), HwDecoder::Auto);
    assert_eq!(parse_hw_decoder(b"NVDEC"), HwDecoder::Nvdec);
    assert_eq!(parse_hw_decoder(b"Qsv"), HwDecoder::Qsv);
    assert_eq!(parse_hw_decoder(b"vaapi"), HwDecoder::Vaapi);
    assert_eq!(parse_hw_decoder(b"none"), HwDecoder::Off);
    assert_eq!(parse_hw_decoder(b""), HwDecoder::Off);
    assert_eq!(parse_hw_decoder(b"auto "), HwDecoder::Off);
}
