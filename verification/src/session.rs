//! Decisions of the receive loop and of session start-up, on plain values.
use crate::network::PacketType;
use crate::video::decoder::HwDecoder;
use vstd::prelude::*;

verus! {

/// Where the receive loop sends a packet.
#[derive(Debug, Clone, Copy, PartialEq, Eq, Structural)]
pub enum Route {
    /// To the video decoder.
    VideoDecoder,
    /// To the audio decoder and on to the player.
    AudioDecoder,
    /// Nowhere: the packet is dropped.
    Ignore,
}

/// The route of a packet: video to the video decoder; audio to the audio
/// decoder while the session has an audio decoder and a player; everything
/// else is dropped.
pub open spec fn route_of(kind: PacketType, audio_ready: bool) -> Route {
    match kind {
        PacketType::Video => Route::VideoDecoder,
        PacketType::Audio => if audio_ready {
            Route::AudioDecoder
        } else {
            Route::Ignore
        },
        _ => Route::Ignore,
    }
}

/// The route of a packet of the given kind.
pub fn route(kind: PacketType, audio_ready: bool) -> (r: Route)
    ensures
        r == route_of(kind, audio_ready),
{
    match kind {
        PacketType::Video => Route::VideoDecoder,
        PacketType::Audio => {
            if audio_ready {
                Route::AudioDecoder
            } else {
                Route::Ignore
            }
        },
        _ => Route::Ignore,
    }
}

/// How frames reach the sink.
#[derive(Debug, Clone, Copy, PartialEq, Eq, Structural)]
pub enum Playout {
    /// Through the sync engine, aligned with audio.
    Synced,
    /// Straight to the sink: a session without audio never waits for it.
    VideoOnly,
}

/// The playout of a session: synced only while audio is on.
pub fn playout(audio_on: bool) -> (p: Playout)
    ensures
        p == if audio_on {
            Playout::Synced
        } else {
            Playout::VideoOnly
        },
{
    if audio_on {
        Playout::Synced
    } else {
        Playout::VideoOnly
    }
}

/// The port of the local tunnel to the device.
pub const TUNNEL_PORT: u16 = 5555;

/// The port to connect to: that of the local tunnel once the device server
/// was started through it, the configured one otherwise.
pub fn endpoint_port(tunnel_ready: bool, configured: u16) -> (port: u16)
    ensures
        port == if tunnel_ready {
            TUNNEL_PORT
        } else {
            configured
        },
{
    if tunnel_ready {
        TUNNEL_PORT
    } else {
        configured
    }
}

/// Whether `pattern` occurs in `text` at position `at`.
pub open spec fn occurs_at(text: Seq<u8>, pattern: Seq<u8>, at: int) -> bool {
    0 <= at && at + pattern.len() <= text.len() && text.subrange(at, at + pattern.len())
        == pattern
}

/// Whether `pattern` occurs somewhere in `text`.
pub open spec fn contains_bytes(text: Seq<u8>, pattern: Seq<u8>) -> bool {
    exists|at: int| occurs_at(text, pattern, at)
}

/// Whether `pattern` occurs somewhere in `text`.
pub fn find_bytes(text: &[u8], pattern: &[u8]) -> (found: bool)
    ensures
        found == contains_bytes(text@, pattern@),
{
    let n = text.len();
    let m = pattern.len();
    if m > n {
        assert forall|at: int| !occurs_at(text@, pattern@, at) by {}
        return false;
    }
    let mut at: usize = 0;
    while at <= n - m
        invariant
            m <= n,
            n == text@.len(),
            m == pattern@.len(),
            0 <= at <= n - m + 1,
            forall|j: int| 0 <= j < at ==> !occurs_at(text@, pattern@, j),
        decreases n - m + 1 - at,
    {
        let mut i: usize = 0;
        while i < m && text[at + i] == pattern[i]
            invariant
                0 <= i <= m,
                at + m <= n,
                n == text@.len(),
                m == pattern@.len(),
                forall|j: int| 0 <= j < i ==> text@[at + j] == pattern@[j],
            decreases m - i,
        {
            i = i + 1;
        }
        if i == m {
            assert(text@.subrange(at as int, at + m) =~= pattern@);
            assert(occurs_at(text@, pattern@, at as int));
            return true;
        }
        assert(!occurs_at(text@, pattern@, at as int)) by {
            if occurs_at(text@, pattern@, at as int) {
                assert(text@.subrange(at as int, at + m)[i as int] == pattern@[i as int]);
            }
        }
        at = at + 1;
    }
    assert forall|j: int| !occurs_at(text@, pattern@, j) by {}
    false
}

/// The words by which a refused connection is known in an error message.
pub open spec fn refusal_marks() -> (Seq<u8>, Seq<u8>) {
    (
        seq![0x31u8, 0x30, 0x30, 0x36, 0x31],
        seq![
            0x43u8,
            0x6F,
            0x6E,
            0x6E,
            0x65,
            0x63,
            0x74,
            0x69,
            0x6F,
            0x6E,
            0x20,
            0x72,
            0x65,
            0x66,
            0x75,
            0x73,
            0x65,
            0x64,
        ],
    )
}

/// Whether an error message reports a refused connection: it holds the
/// system's error number 10061 or the words "Connection refused". The
/// caller then tells the user how to set up the device.
pub fn handle_connection_error(message: &[u8]) -> (refused: bool)
    ensures
        refused == (contains_bytes(message@, refusal_marks().0) || contains_bytes(
            message@,
            refusal_marks().1,
        )),
{
    let number: [u8; 5] = [0x31, 0x30, 0x30, 0x36, 0x31];
    let words: [u8; 18] = [
        0x43,
        0x6F,
        0x6E,
        0x6E,
        0x65,
        0x63,
        0x74,
        0x69,
        0x6F,
        0x6E,
        0x20,
        0x72,
        0x65,
        0x66,
        0x75,
        0x73,
        0x65,
        0x64,
    ];
    assert(number@ =~= refusal_marks().0);
    assert(words@ =~= refusal_marks().1);
    find_bytes(message, number.as_slice()) || find_bytes(message, words.as_slice())
}

/// `b` in lower case if it is an ASCII capital, else `b`.
pub open spec fn ascii_lower(b: u8) -> u8 {
    if 0x41 <= b <= 0x5A {
        (b + 0x20) as u8
    } else {
        b
    }
}

/// Whether `name` spells `word`, capitals counting as small letters.
pub open spec fn spells(name: Seq<u8>, word: Seq<u8>) -> bool {
    name.len() == word.len() && forall|i: int|
        0 <= i < name.len() ==> ascii_lower(#[trigger] name[i]) == word[i]
}

fn spells_word(name: &[u8], word: &[u8]) -> (same: bool)
    ensures
        same == spells(name@, word@),
{
    if name.len() != word.len() {
        return false;
    }
    let mut i: usize = 0;
    while i < name.len()
        invariant
            0 <= i <= name@.len(),
            name@.len() == word@.len(),
            forall|j: int| 0 <= j < i ==> ascii_lower(#[trigger] name@[j]) == word@[j],
        decreases name@.len() - i,
    {
        let b = name[i];
        let low = if 0x41 <= b && b <= 0x5A {
            b + 0x20
        } else {
            b
        };
        if low != word[i] {
            return false;
        }
        i = i + 1;
    }
    true
}

/// The decoder preference that a name stands for: "nvdec", "qsv", "vaapi"
/// and "auto" in any mix of capitals and small letters; every other name
/// asks for software decoding.
pub open spec fn hw_decoder_of(name: Seq<u8>) -> HwDecoder {
    if spells(name, seq![0x6Eu8, 0x76, 0x64, 0x65, 0x63]) {
        HwDecoder::Nvdec
    } else if spells(name, seq![0x71u8, 0x73, 0x76]) {
        HwDecoder::Qsv
    } else if spells(name, seq![0x76u8, 0x61, 0x61, 0x70, 0x69]) {
        HwDecoder::Vaapi
    } else if spells(name, seq![0x61u8, 0x75, 0x74, 0x6F]) {
        HwDecoder::Auto
    } else {
        HwDecoder::Off
    }
}

/// Reads a decoder preference from its name.
pub fn parse_hw_decoder(name: &[u8]) -> (hint: HwDecoder)
    ensures
        hint == hw_decoder_of(name@),
{
    let nvdec: [u8; 5] = [0x6E, 0x76, 0x64, 0x65, 0x63];
    let qsv: [u8; 3] = [0x71, 0x73, 0x76];
    let vaapi: [u8; 5] = [0x76, 0x61, 0x61, 0x70, 0x69];
    let auto: [u8; 4] = [0x61, 0x75, 0x74, 0x6F];
    assert(nvdec@ =~= seq![0x6Eu8, 0x76, 0x64, 0x65, 0x63]);
    assert(qsv@ =~= seq![0x71u8, 0x73, 0x76]);
    assert(vaapi@ =~= seq![0x76u8, 0x61, 0x61, 0x70, 0x69]);
    assert(auto@ =~= seq![0x61u8, 0x75, 0x74, 0x6F]);
    if spells_word(name, nvdec.as_slice()) {
        HwDecoder::Nvdec
    } else if spells_word(name, qsv.as_slice()) {
        HwDecoder::Qsv
    } else if spells_word(name, vaapi.as_slice()) {
        HwDecoder::Vaapi
    } else if spells_word(name, auto.as_slice()) {
        HwDecoder::Auto
    } else {
        HwDecoder::Off
    }
}

} // verus!
