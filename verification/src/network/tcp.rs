//! The stream transport's framing and handshake: what each socket is asked
//! for next, and what the bytes that came back mean.
use super::buffer::{bytes_as_slice, bytes_from_vec, bytes_mut_seq, bytes_seq};
use super::protocol::{frame, Packet, PacketType, PacketView, MAX_PAYLOAD};
use super::quic::capped_sum;
use super::wire::{
    be_value, i64_from_bits, i64_of_bits, lemma_value_bounds, u32_from_be, u64_from_be,
};
use super::{NetworkError, NetworkStats};
use bytes::{Bytes, BytesMut};
use vstd::prelude::*;

verus! {

/// Length of the frame header on either socket: pts and payload length.
pub const STREAM_HEADER_SIZE: usize = 12;

/// Length of the device name that opens the video socket.
pub const DEVICE_NAME_SIZE: usize = 64;

/// Milliseconds allowed for a connect.
pub const CONNECT_TIMEOUT_MS: u64 = 5000;

/// Milliseconds allowed for each read of the handshake.
pub const READ_TIMEOUT_MS: u64 = 10000;

/// Frames that the channel between the socket readers and the consumer holds.
pub const CHANNEL_CAPACITY: usize = 100;

/// What a frame header announces: the timestamp and the payload length.
/// `None` where the length is over the packet limit.
pub open spec fn stream_header_fields(h: Seq<u8>) -> Option<(i64, nat)>
    recommends
        h.len() == 12,
{
    if be_value(h.subrange(8, 12)) > MAX_PAYLOAD {
        None
    } else {
        Some((i64_of_bits(be_value(h.subrange(0, 8)) as u64), be_value(h.subrange(8, 12))))
    }
}

/// Reads a frame header: the timestamp, big endian, then the payload
/// length, big endian. A length over 20 MiB is a protocol error.
pub fn parse_stream_header(header: &[u8; 12]) -> (r: Result<(i64, usize), NetworkError>)
    ensures
        match stream_header_fields(header@) {
            Some((pts, len)) => r is Ok && r.unwrap().0 == pts && r.unwrap().1 == len,
            None => r is Err && r.unwrap_err() is Protocol,
        },
{
    proof {
        lemma_value_bounds(header@.subrange(0, 8));
        lemma_value_bounds(header@.subrange(8, 12));
    }
    let pts = i64_from_bits(u64_from_be(header.as_slice(), 0));
    let len = u32_from_be(header.as_slice(), 8) as usize;
    if len > MAX_PAYLOAD {
        return Err(NetworkError::Protocol("Packet too large".to_owned()));
    }
    Ok((pts, len))
}

/// The packet for a frame read from a socket: the kind is that of the
/// socket, the sequence number is zero.
pub fn stream_packet(kind: PacketType, pts: i64, payload: Vec<u8>) -> (p: Packet)
    ensures
        p@ == (PacketView { kind, pts, seq: 0, data: payload@ }),
{
    Packet::new(kind, pts, 0, bytes_from_vec(payload))
}

/// The bytes written to the video socket for an encoded control message:
/// a framed control packet with timestamp and sequence number zero. `None`
/// for a message too long for the header's 32-bit length field.
pub fn control_frame(encoded: Bytes) -> (out: Option<BytesMut>)
    ensures
        out is Some <==> bytes_seq(encoded).len() <= u32::MAX,
        out is Some ==> bytes_mut_seq(out.unwrap()) == frame(
            (PacketView { kind: PacketType::Control, pts: 0, seq: 0, data: bytes_seq(encoded) }),
        ),
{
    Packet::new(PacketType::Control, 0, 0, encoded).try_to_bytes()
}

/// Counts a packet that the stream transport hands on.
pub fn record_packet(stats: &mut NetworkStats, packet: &Packet)
    ensures
        *final(stats) == (NetworkStats {
            bytes_received: capped_sum(old(stats).bytes_received, packet@.data.len() as u64),
            packets_received: capped_sum(old(stats).packets_received, 1),
            ..*old(stats)
        }),
{
    let len = bytes_as_slice(&packet.data).len() as u64;
    stats.bytes_received = if stats.bytes_received > u64::MAX - len {
        u64::MAX
    } else {
        stats.bytes_received + len
    };
    stats.packets_received = if stats.packets_received == u64::MAX {
        u64::MAX
    } else {
        stats.packets_received + 1
    };
}

/// `s` without the zero bytes at its end.
pub open spec fn without_trailing_nul(s: Seq<u8>) -> Seq<u8>
    decreases s.len(),
{
    if s.len() > 0 && s.last() == 0 {
        without_trailing_nul(s.drop_last())
    } else {
        s
    }
}

/// The device name in the 64 bytes that open the video socket: the bytes
/// up to the trailing zero padding.
pub fn device_name(raw: &[u8; 64]) -> (name: Vec<u8>)
    ensures
        name@ == without_trailing_nul(raw@),
{
    let mut end: usize = 64;
    assert(raw@.subrange(0, 64) =~= raw@);
    while end > 0 && raw[end - 1] == 0
        invariant
            0 <= end <= 64,
            without_trailing_nul(raw@) == without_trailing_nul(raw@.subrange(0, end as int)),
        decreases end,
    {
        assert(raw@.subrange(0, end as int).drop_last() =~= raw@.subrange(0, end - 1));
        end = end - 1;
    }
    let mut name: Vec<u8> = Vec::with_capacity(end);
    let mut i: usize = 0;
    while i < end
        invariant
            0 <= i <= end <= 64,
            name@ =~= raw@.subrange(0, i as int),
        decreases end - i,
    {
        name.push(raw[i]);
        i = i + 1;
    }
    name
}

/// What the device says of its video stream.
#[derive(Debug, Clone, Copy, PartialEq, Eq, Structural)]
pub struct VideoMetadata {
    pub codec_id: u32,
    pub width: u32,
    pub height: u32,
}

/// The metadata in the 12 bytes that follow the dummy byte: codec id,
/// width and height, each big endian.
pub fn parse_video_metadata(raw: &[u8; 12]) -> (m: VideoMetadata)
    ensures
        m.codec_id == be_value(raw@.subrange(0, 4)),
        m.width == be_value(raw@.subrange(4, 8)),
        m.height == be_value(raw@.subrange(8, 12)),
{
    VideoMetadata {
        codec_id: u32_from_be(raw.as_slice(), 0),
        width: u32_from_be(raw.as_slice(), 4),
        height: u32_from_be(raw.as_slice(), 8),
    }
}

/// What a socket reported.
#[derive(Debug)]
pub enum SocketEvent {
    /// The connect succeeded.
    Connected,
    /// The read that was asked for is complete.
    Data(Vec<u8>),
    /// The connect or the read failed, with the system's words.
    Failed(String),
    /// The connect or the read ran out of time.
    TimedOut,
}

/// What a handshake needs next from its socket.
#[derive(Debug, Clone, Copy, PartialEq, Eq, Structural)]
pub enum Demand {
    /// Connect and switch off coalescing, within the given time.
    Connect { timeout_ms: u64 },
    /// Read exactly `len` bytes within the given time.
    Read { len: usize, timeout_ms: u64 },
    /// Nothing more: the handshake on this socket is over.
    Nothing,
}

/// Where the handshake on the video socket stands.
#[derive(Debug, Clone, Copy, PartialEq, Eq, Structural)]
pub enum VideoStage {
    Connecting,
    AwaitName,
    AwaitDummy,
    AwaitMetadata,
    Done,
}

/// How a step of the video handshake can fail.
#[derive(Debug, Clone, Copy, PartialEq, Eq, Structural)]
pub enum HandshakeFault {
    /// A connect or the read of the device name ran out of time.
    Timeout,
    /// The connect or a read failed, or the metadata did not arrive.
    ConnectionFailed,
    /// The socket reported something that was not asked for.
    Protocol,
}

/// What the socket is asked for on entering a stage.
pub open spec fn video_demand(stage: VideoStage) -> Demand {
    match stage {
        VideoStage::Connecting => Demand::Connect { timeout_ms: CONNECT_TIMEOUT_MS },
        VideoStage::AwaitName => Demand::Read { len: 64, timeout_ms: READ_TIMEOUT_MS },
        VideoStage::AwaitDummy => Demand::Read { len: 1, timeout_ms: READ_TIMEOUT_MS },
        VideoStage::AwaitMetadata => Demand::Read { len: 12, timeout_ms: READ_TIMEOUT_MS },
        VideoStage::Done => Demand::Nothing,
    }
}

/// How many bytes a stage waits for; zero where it waits for none.
pub open spec fn awaited_len(stage: VideoStage) -> nat {
    match video_demand(stage) {
        Demand::Read { len, .. } => len as nat,
        _ => 0,
    }
}

/// The stage after `stage`.
pub open spec fn next_video_stage(stage: VideoStage) -> VideoStage {
    match stage {
        VideoStage::Connecting => VideoStage::AwaitName,
        VideoStage::AwaitName => VideoStage::AwaitDummy,
        VideoStage::AwaitDummy => VideoStage::AwaitMetadata,
        _ => VideoStage::Done,
    }
}

/// One step of the video handshake. The connect, then the reads of the
/// name, the dummy byte and the metadata follow one another. A time-out of
/// the connect or of the name is a time-out; one of the later reads, and
/// every failure, is a failed connection. Anything that was not asked for
/// is a protocol error.
pub open spec fn video_step(stage: VideoStage, event: SocketEvent) -> Result<
    VideoStage,
    HandshakeFault,
> {
    match event {
        SocketEvent::Failed(_) => if stage == VideoStage::Done {
            Err(HandshakeFault::Protocol)
        } else {
            Err(HandshakeFault::ConnectionFailed)
        },
        SocketEvent::TimedOut => if stage == VideoStage::Connecting || stage
            == VideoStage::AwaitName {
            Err(HandshakeFault::Timeout)
        } else if stage == VideoStage::Done {
            Err(HandshakeFault::Protocol)
        } else {
            Err(HandshakeFault::ConnectionFailed)
        },
        SocketEvent::Connected => if stage == VideoStage::Connecting {
            Ok(VideoStage::AwaitName)
        } else {
            Err(HandshakeFault::Protocol)
        },
        SocketEvent::Data(bytes) => if stage != VideoStage::Connecting && stage
            != VideoStage::Done && bytes@.len() == awaited_len(stage) {
            Ok(next_video_stage(stage))
        } else {
            Err(HandshakeFault::Protocol)
        },
    }
}

/// The error that reports a fault, with the system's words where there are any.
pub open spec fn fault_matches(e: NetworkError, f: HandshakeFault) -> bool {
    match f {
        HandshakeFault::Timeout => e is Timeout,
        HandshakeFault::ConnectionFailed => e is ConnectionFailed,
        HandshakeFault::Protocol => e is Protocol,
    }
}

/// The handshake on the video socket.
#[derive(Debug)]
pub struct VideoHandshake {
    stage: VideoStage,
    name: Vec<u8>,
    metadata: Option<VideoMetadata>,
}

impl VideoHandshake {
    /// The stage that the handshake is in.
    pub closed spec fn stage(&self) -> VideoStage {
        self.stage
    }

    /// The device name, once it was read.
    pub closed spec fn name(&self) -> Seq<u8> {
        self.name@
    }

    /// The metadata, once it was read.
    pub closed spec fn metadata(&self) -> Option<VideoMetadata> {
        self.metadata
    }

    /// A handshake that has yet to connect, and the demand to do so.
    pub fn start() -> (r: (Self, Demand))
        ensures
            r.0.stage() == VideoStage::Connecting,
            r.0.name() == Seq::<u8>::empty(),
            r.0.metadata() is None,
            r.1 == video_demand(VideoStage::Connecting),
    {
        (
            VideoHandshake { stage: VideoStage::Connecting, name: Vec::new(), metadata: None },
            Demand::Connect { timeout_ms: CONNECT_TIMEOUT_MS },
        )
    }

    /// Takes what the socket reported and says what to ask of it next. On a
    /// fault the handshake stays where it was. The name is kept when the 64
    /// bytes arrive, the metadata when the 12 bytes arrive.
    pub fn step(&mut self, event: SocketEvent) -> (r: Result<Demand, NetworkError>)
        ensures
            event matches SocketEvent::Failed(words) ==> (old(self).stage() != VideoStage::Done
                ==> r == Err::<Demand, NetworkError>(NetworkError::ConnectionFailed(words))),
            match video_step(old(self).stage(), event) {
                Ok(next) => {
                    &&& r == Ok::<Demand, NetworkError>(video_demand(next))
                    &&& final(self).stage() == next
                    &&& final(self).name() == if old(self).stage() == VideoStage::AwaitName {
                        without_trailing_nul(event->Data_0@)
                    } else {
                        old(self).name()
                    }
                    &&& if old(self).stage() == VideoStage::AwaitMetadata {
                        &&& final(self).metadata() is Some
                        &&& final(self).metadata().unwrap().codec_id == be_value(
                            event->Data_0@.subrange(0, 4),
                        )
                        &&& final(self).metadata().unwrap().width == be_value(
                            event->Data_0@.subrange(4, 8),
                        )
                        &&& final(self).metadata().unwrap().height == be_value(
                            event->Data_0@.subrange(8, 12),
                        )
                    } else {
                        final(self).metadata() == old(self).metadata()
                    }
                },
                Err(f) => {
                    &&& r is Err
                    &&& fault_matches(r.unwrap_err(), f)
                    &&& *final(self) == *old(self)
                },
            },
    {
        match event {
            SocketEvent::Failed(words) => {
                if self.stage == VideoStage::Done {
                    Err(NetworkError::Protocol("handshake is over".to_owned()))
                } else {
                    Err(NetworkError::ConnectionFailed(words))
                }
            },
            SocketEvent::TimedOut => {
                if self.stage == VideoStage::Connecting || self.stage == VideoStage::AwaitName {
                    Err(NetworkError::Timeout)
                } else if self.stage == VideoStage::Done {
                    Err(NetworkError::Protocol("handshake is over".to_owned()))
                } else {
                    Err(NetworkError::ConnectionFailed("Video metadata handshake failed".to_owned()))
                }
            },
            SocketEvent::Connected => {
                if self.stage == VideoStage::Connecting {
                    self.stage = VideoStage::AwaitName;
                    Ok(Demand::Read { len: DEVICE_NAME_SIZE, timeout_ms: READ_TIMEOUT_MS })
                } else {
                    Err(NetworkError::Protocol("unexpected connect".to_owned()))
                }
            },
            SocketEvent::Data(bytes) => {
                match self.stage {
                    VideoStage::AwaitName => {
                        if bytes.len() != DEVICE_NAME_SIZE {
                            return Err(NetworkError::Protocol("unexpected read".to_owned()));
                        }
                        let mut raw = [0u8; 64];
                        let mut i: usize = 0;
                        while i < 64
                            invariant
                                0 <= i <= 64,
                                bytes@.len() == 64,
                                forall|j: int| 0 <= j < i ==> raw@[j] == bytes@[j],
                            decreases 64 - i,
                        {
                            raw[i] = bytes[i];
                            i = i + 1;
                        }
                        assert(raw@ =~= bytes@);
                        self.name = device_name(&raw);
                        self.stage = VideoStage::AwaitDummy;
                        Ok(Demand::Read { len: 1, timeout_ms: READ_TIMEOUT_MS })
                    },
                    VideoStage::AwaitDummy => {
                        if bytes.len() != 1 {
                            return Err(NetworkError::Protocol("unexpected read".to_owned()));
                        }
                        self.stage = VideoStage::AwaitMetadata;
                        Ok(Demand::Read { len: STREAM_HEADER_SIZE, timeout_ms: READ_TIMEOUT_MS })
                    },
                    VideoStage::AwaitMetadata => {
                        if bytes.len() != 12 {
                            return Err(NetworkError::Protocol("unexpected read".to_owned()));
                        }
                        let mut raw = [0u8; 12];
                        let mut i: usize = 0;
                        while i < 12
                            invariant
                                0 <= i <= 12,
                                bytes@.len() == 12,
                                forall|j: int| 0 <= j < i ==> raw@[j] == bytes@[j],
                            decreases 12 - i,
                        {
                            raw[i] = bytes[i];
                            i = i + 1;
                        }
                        assert(raw@ =~= bytes@);
                        self.metadata = Some(parse_video_metadata(&raw));
                        self.stage = VideoStage::Done;
                        Ok(Demand::Nothing)
                    },
                    _ => Err(NetworkError::Protocol("unexpected read".to_owned())),
                }
            },
        }
    }
}

/// Where the handshake on the audio socket stands.
#[derive(Debug, Clone, Copy, PartialEq, Eq, Structural)]
pub enum AudioStage {
    /// No audio in this session.
    Off,
    Connecting,
    AwaitCodec,
    /// The device sends audio.
    On,
}

/// The stage that the audio handshake starts in.
pub open spec fn audio_start(enabled: bool) -> AudioStage {
    if enabled {
        AudioStage::Connecting
    } else {
        AudioStage::Off
    }
}

/// What the audio socket is asked for on entering a stage.
pub open spec fn audio_demand(stage: AudioStage) -> Demand {
    match stage {
        AudioStage::Connecting => Demand::Connect { timeout_ms: CONNECT_TIMEOUT_MS },
        AudioStage::AwaitCodec => Demand::Read { len: 4, timeout_ms: READ_TIMEOUT_MS },
        _ => Demand::Nothing,
    }
}

/// One step of the audio handshake. Nothing that happens on the audio
/// socket ends the session: a failed or late connect, a failed or late
/// read, and a codec id of zero, with which the device declines audio, all
/// leave the session without audio.
pub open spec fn audio_step(stage: AudioStage, event: SocketEvent) -> AudioStage {
    match (stage, event) {
        (AudioStage::Connecting, SocketEvent::Connected) => AudioStage::AwaitCodec,
        (AudioStage::AwaitCodec, SocketEvent::Data(bytes)) => if bytes@.len() == 4 && be_value(
            bytes@,
        ) != 0 {
            AudioStage::On
        } else {
            AudioStage::Off
        },
        (AudioStage::On, _) => AudioStage::On,
        _ => AudioStage::Off,
    }
}

/// Starts the audio handshake.
pub fn begin_audio(enabled: bool) -> (r: (AudioStage, Demand))
    ensures
        r.0 == audio_start(enabled),
        r.1 == audio_demand(r.0),
{
    if enabled {
        (AudioStage::Connecting, Demand::Connect { timeout_ms: CONNECT_TIMEOUT_MS })
    } else {
        (AudioStage::Off, Demand::Nothing)
    }
}

/// Takes what the audio socket reported; returns the next stage and what
/// to ask of the socket.
pub fn audio_next(stage: AudioStage, event: SocketEvent) -> (r: (AudioStage, Demand))
    ensures
        r.0 == audio_step(stage, event),
        r.1 == audio_demand(r.0),
{
    match stage {
        AudioStage::Connecting => match event {
            SocketEvent::Connected => (
                AudioStage::AwaitCodec,
                Demand::Read { len: 4, timeout_ms: READ_TIMEOUT_MS },
            ),
            _ => (AudioStage::Off, Demand::Nothing),
        },
        AudioStage::AwaitCodec => match event {
            SocketEvent::Data(bytes) => {
                if bytes.len() == 4 {
                    assert(bytes@.subrange(0, 4) =~= bytes@);
                    let id = u32_from_be(bytes.as_slice(), 0);
                    if id != 0 {
                        return (AudioStage::On, Demand::Nothing);
                    }
                }
                (AudioStage::Off, Demand::Nothing)
            },
            _ => (AudioStage::Off, Demand::Nothing),
        },
        AudioStage::On => (AudioStage::On, Demand::Nothing),
        AudioStage::Off => (AudioStage::Off, Demand::Nothing),
    }
}

} // verus!
