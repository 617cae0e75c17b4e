//! Packet framing: the data packet, the parity packet carried inside it, the
//! keyframe predicate and the control messages.
use super::buffer::{
    bytes_as_slice, bytes_mut_extend, bytes_mut_seq, bytes_mut_with_capacity,
    bytes_seq, bytes_slice,
};
use super::wire::{
    i64_from_bits, i64_of_bits, i64_to_bits, le_i64, le_u32, le_value, lemma_fixed_width_round_trip,
    lemma_value_bounds, u32_from_le, u32_to_le, u64_from_le, u64_to_le,
};
use bytes::{Bytes, BytesMut};
use vstd::prelude::*;

verus! {

/// The kind of a packet, a one-byte tag on the wire.
#[derive(Debug, Clone, Copy, PartialEq, Eq, Structural)]
pub enum PacketType {
    /// Video frame packet
    Video,
    /// Audio frame packet
    Audio,
    /// Control message
    Control,
    /// Parity packet of the erasure code
    Fec,
    /// Handshake and capability negotiation
    Handshake,
}

/// The tag that stands for a kind on the wire.
pub open spec fn kind_tag(kind: PacketType) -> u8 {
    match kind {
        PacketType::Video => 1,
        PacketType::Audio => 2,
        PacketType::Control => 3,
        PacketType::Fec => 4,
        PacketType::Handshake => 5,
    }
}

/// The kind that a tag stands for, if any.
pub open spec fn kind_of_tag(tag: u8) -> Option<PacketType> {
    if tag == 1 {
        Some(PacketType::Video)
    } else if tag == 2 {
        Some(PacketType::Audio)
    } else if tag == 3 {
        Some(PacketType::Control)
    } else if tag == 4 {
        Some(PacketType::Fec)
    } else if tag == 5 {
        Some(PacketType::Handshake)
    } else {
        None
    }
}

impl PacketType {
    /// The tag written for this kind.
    pub fn tag(self) -> (t: u8)
        ensures
            t == kind_tag(self),
            kind_of_tag(t) == Some(self),
    {
        match self {
            PacketType::Video => 1,
            PacketType::Audio => 2,
            PacketType::Control => 3,
            PacketType::Fec => 4,
            PacketType::Handshake => 5,
        }
    }

    /// Reads a tag; any value outside 1..=5 is no kind.
    pub fn try_from(value: u8) -> (r: Result<PacketType, ()>)
        ensures
            r.ok() == kind_of_tag(value),
    {
        match value {
            1 => Ok(PacketType::Video),
            2 => Ok(PacketType::Audio),
            3 => Ok(PacketType::Control),
            4 => Ok(PacketType::Fec),
            5 => Ok(PacketType::Handshake),
            _ => Err(()),
        }
    }
}

/// The unit of media delivery.
#[derive(Debug, Clone)]
pub struct Packet {
    /// Packet type
    pub packet_type: PacketType,
    /// Presentation timestamp in microseconds
    pub pts: i64,
    /// Sequence number for ordering and loss detection
    pub seq: u32,
    /// Payload data
    pub data: Bytes,
}

/// A packet as a mathematical value.
pub struct PacketView {
    pub kind: PacketType,
    pub pts: i64,
    pub seq: u32,
    pub data: Seq<u8>,
}

impl View for Packet {
    type V = PacketView;

    open spec fn view(&self) -> PacketView {
        PacketView {
            kind: self.packet_type,
            pts: self.pts,
            seq: self.seq,
            data: bytes_seq(self.data),
        }
    }
}

/// Length of the data packet header: kind, pts, seq, length.
pub const HEADER_SIZE: usize = 17;

/// Length of the parity packet header: block id, shard index, k, r.
pub const FEC_HEADER_SIZE: usize = 7;

/// Largest payload that a packet may carry: 20 MiB.
pub const MAX_PAYLOAD: usize = 20971520;

/// Why a byte string is not a framed packet.
#[derive(Debug)]
pub enum FrameFault {
    /// Fewer bytes than a header.
    TooShort,
    /// The tag names no kind.
    InvalidKind,
    /// Fewer payload bytes than the header announces.
    Incomplete,
}

/// The message that reports a fault.
pub open spec fn fault_text(f: FrameFault) -> Seq<char> {
    match f {
        FrameFault::TooShort => "Packet too short"@,
        FrameFault::InvalidKind => "Invalid packet type"@,
        FrameFault::Incomplete => "Incomplete packet"@,
    }
}

/// The bytes of a framed packet: tag, pts, seq and payload length in little
/// endian, then the payload.
pub open spec fn frame(p: PacketView) -> Seq<u8> {
    seq![kind_tag(p.kind)] + le_i64(p.pts) + le_u32(p.seq) + le_u32(p.data.len() as u32) + p.data
}

/// The packet that a byte string starts with. Bytes after the announced
/// payload are not part of it.
pub open spec fn parse_frame(b: Seq<u8>) -> Result<PacketView, FrameFault> {
    if b.len() < 17 {
        Err(FrameFault::TooShort)
    } else if kind_of_tag(b[0]) is None {
        Err(FrameFault::InvalidKind)
    } else if b.len() - 17 < le_value(b.subrange(13, 17)) {
        Err(FrameFault::Incomplete)
    } else {
        Ok(
            PacketView {
                kind: kind_of_tag(b[0]).unwrap(),
                pts: i64_of_bits(le_value(b.subrange(1, 9)) as u64),
                seq: le_value(b.subrange(9, 13)) as u32,
                data: b.subrange(17, 17 + le_value(b.subrange(13, 17)) as int),
            },
        )
    }
}

/// Parsing a framed packet gives the packet back, whatever bytes follow it.
pub proof fn lemma_parse_frame_with_tail(p: PacketView, tail: Seq<u8>)
    requires
        p.data.len() <= u32::MAX,
    ensures
        frame(p).len() == 17 + p.data.len(),
        parse_frame(frame(p) + tail) == Ok::<PacketView, FrameFault>(p),
{
    let b = frame(p) + tail;
    let n = p.data.len() as u32;
    lemma_fixed_width_round_trip(p.seq, 0, p.pts);
    lemma_fixed_width_round_trip(n, 0, 0);
    assert(b.subrange(1, 9) =~= le_i64(p.pts));
    assert(b.subrange(9, 13) =~= le_u32(p.seq));
    assert(b.subrange(13, 17) =~= le_u32(n));
    assert(b.subrange(17, 17 + n) =~= p.data);
    assert(b[0] == kind_tag(p.kind));
}

/// Framing round trip: every packet whose payload is at most 20 MiB is what
/// parsing its serialised form returns.
pub proof fn lemma_frame_round_trip(p: PacketView)
    requires
        p.data.len() <= MAX_PAYLOAD,
    ensures
        parse_frame(frame(p)) == Ok::<PacketView, FrameFault>(p),
{
    lemma_parse_frame_with_tail(p, Seq::empty());
    assert(frame(p) + Seq::<u8>::empty() =~= frame(p));
}

/// Whether `d` starts with the four-byte start code 00 00 00 01.
pub open spec fn long_start_code(d: Seq<u8>) -> bool {
    d.len() >= 4 && d[0] == 0 && d[1] == 0 && d[2] == 0 && d[3] == 1
}

/// Whether `d` starts with the three-byte start code 00 00 01.
pub open spec fn short_start_code(d: Seq<u8>) -> bool {
    d.len() >= 3 && d[0] == 0 && d[1] == 0 && d[2] == 1
}

/// Whether a NAL header byte announces an IDR picture, in H.264 (type 5) or
/// in H.265 (types 19 and 20).
pub open spec fn idr_header(h: u8) -> bool {
    h & 0x1F == 5 || (h >> 1) & 0x3F == 19 || (h >> 1) & 0x3F == 20
}

/// Whether a packet is a video keyframe: a video payload that begins with a
/// start code followed by an IDR header byte.
pub open spec fn keyframe(p: PacketView) -> bool {
    &&& p.kind == PacketType::Video
    &&& if long_start_code(p.data) {
        p.data.len() > 4 && idr_header(p.data[4])
    } else {
        short_start_code(p.data) && p.data.len() > 3 && idr_header(p.data[3])
    }
}

/// The seventeen header bytes of a packet with the given fields.
fn header_bytes(kind: PacketType, pts: i64, seq: u32, len: u32) -> (out: Vec<u8>)
    ensures
        out@ == seq![kind_tag(kind)] + le_i64(pts) + le_u32(seq) + le_u32(len),
{
    let mut out: Vec<u8> = Vec::with_capacity(HEADER_SIZE);
    out.push(kind.tag());
    let p = u64_to_le(i64_to_bits(pts));
    let s = u32_to_le(seq);
    let l = u32_to_le(len);
    out.extend_from_slice(&p);
    out.extend_from_slice(&s);
    out.extend_from_slice(&l);
    out
}

impl Packet {
    /// Create a new packet
    pub fn new(packet_type: PacketType, pts: i64, seq: u32, data: Bytes) -> (p: Packet)
        ensures
            p@ == (PacketView { kind: packet_type, pts, seq, data: bytes_seq(data) }),
            p.data == data,
    {
        Packet { packet_type, pts, seq, data }
    }

    /// The length of the payload in bytes.
    pub fn payload_len(&self) -> (n: usize)
        ensures
            n == self@.data.len(),
    {
        bytes_as_slice(&self.data).len()
    }

    /// The framed packet, or `None` for a payload too long for the
    /// header's 32-bit length field.
    pub fn try_to_bytes(&self) -> (buf: Option<BytesMut>)
        ensures
            buf is Some <==> self@.data.len() <= u32::MAX,
            buf is Some ==> bytes_mut_seq(buf.unwrap()) == frame(self@),
    {
        if self.payload_len() as u64 > u32::MAX as u64 {
            None
        } else {
            Some(self.to_bytes())
        }
    }

    /// The framed packet as a vector.
    pub fn serialize(&self) -> (out: Vec<u8>)
        requires
            self@.data.len() <= u32::MAX,
        ensures
            out@ == frame(self@),
            out@.len() == 17 + self@.data.len(),
    {
        let payload = bytes_as_slice(&self.data);
        let mut out = header_bytes(self.packet_type, self.pts, self.seq, payload.len() as u32);
        out.extend_from_slice(payload);
        proof {
            lemma_parse_frame_with_tail(self@, Seq::empty());
        }
        out
    }

    /// Serialize packet to bytes (for sending)
    pub fn to_bytes(&self) -> (buf: BytesMut)
        requires
            self@.data.len() <= u32::MAX,
        ensures
            bytes_mut_seq(buf) == frame(self@),
    {
        let framed = self.serialize();
        let mut buf = bytes_mut_with_capacity(framed.len());
        bytes_mut_extend(&mut buf, framed.as_slice());
        buf
    }

    /// Deserialize packet from bytes (for receiving). Bytes after the
    /// announced payload are ignored.
    pub fn from_bytes(buf: Bytes) -> (r: Result<Packet, &'static str>)
        ensures
            match parse_frame(bytes_seq(buf)) {
                Ok(v) => r is Ok && r.unwrap()@ == v,
                Err(f) => r is Err && r.unwrap_err()@ == fault_text(f),
            },
    {
        let b = bytes_as_slice(&buf);
        if b.len() < HEADER_SIZE {
            return Err("Packet too short");
        }
        let packet_type = match PacketType::try_from(b[0]) {
            Ok(k) => k,
            Err(_) => {
                return Err("Invalid packet type");
            },
        };
        proof {
            lemma_value_bounds(b@.subrange(1, 9));
            lemma_value_bounds(b@.subrange(9, 13));
            lemma_value_bounds(b@.subrange(13, 17));
        }
        let pts = i64_from_bits(u64_from_le(b, 1));
        let seq = u32_from_le(b, 9);
        let len = u32_from_le(b, 13) as usize;
        if b.len() - HEADER_SIZE < len {
            return Err("Incomplete packet");
        }
        let data = bytes_slice(&buf, HEADER_SIZE, HEADER_SIZE + len);
        Ok(Packet::new(packet_type, pts, seq, data))
    }

    /// Check if this is a video keyframe (IDR picture), in H.264 or H.265.
    pub fn is_keyframe(&self) -> (k: bool)
        ensures
            k == keyframe(self@),
    {
        if self.packet_type != PacketType::Video {
            return false;
        }
        let d = bytes_as_slice(&self.data);
        let n = d.len();
        let nal_start: usize = if n >= 4 && d[0] == 0 && d[1] == 0 && d[2] == 0 && d[3] == 1 {
            4
        } else if n >= 3 && d[0] == 0 && d[1] == 0 && d[2] == 1 {
            3
        } else {
            return false;
        };
        if n <= nal_start {
            return false;
        }
        let h = d[nal_start];
        let nal_type = (h >> 1) & 0x3F;
        (h & 0x1F) == 5 || nal_type == 19 || nal_type == 20
    }
}

/// Control messages sent between client and device.
#[derive(Debug)]
pub enum ControlMessage {
    /// Set video bitrate (Mbps)
    SetBitrate(u32),
    /// Set video resolution
    SetResolution { width: u32, height: u32 },
    /// Set frame rate
    SetFrameRate(u32),
    /// Request keyframe
    RequestKeyframe,
    /// Capability announcement from the device
    Capabilities { max_resolution: (u32, u32), codecs: Vec<String>, audio_supported: bool },
    /// Acknowledge receipt
    Ack { seq: u32 },
}

/// A parity shard of the erasure code, with the block it belongs to.
#[derive(Debug, Clone)]
pub struct FecPacket {
    /// Block ID (identifies which group of packets this shard belongs to)
    pub block_id: u32,
    /// Index within the block
    pub index: u8,
    /// Number of data shards in the block
    pub data_count: u8,
    /// Number of parity shards in the block
    pub parity_count: u8,
    /// Shard bytes
    pub data: Bytes,
}

/// A parity packet as a mathematical value.
pub struct FecPacketView {
    pub block_id: u32,
    pub index: u8,
    pub data_count: u8,
    pub parity_count: u8,
    pub data: Seq<u8>,
}

impl View for FecPacket {
    type V = FecPacketView;

    open spec fn view(&self) -> FecPacketView {
        FecPacketView {
            block_id: self.block_id,
            index: self.index,
            data_count: self.data_count,
            parity_count: self.parity_count,
            data: bytes_seq(self.data),
        }
    }
}

/// The bytes of a parity packet: block id in little endian, shard index, k,
/// r, then the shard.
pub open spec fn fec_frame(p: FecPacketView) -> Seq<u8> {
    le_u32(p.block_id) + seq![p.index, p.data_count, p.parity_count] + p.data
}

/// The parity packet that a byte string spells, if it holds a whole header.
pub open spec fn parse_fec_frame(b: Seq<u8>) -> Option<FecPacketView> {
    if b.len() < 7 {
        None
    } else {
        Some(
            FecPacketView {
                block_id: le_value(b.subrange(0, 4)) as u32,
                index: b[4],
                data_count: b[5],
                parity_count: b[6],
                data: b.subrange(7, b.len() as int),
            },
        )
    }
}

/// Parsing a serialised parity packet gives the packet back.
pub proof fn lemma_fec_frame_round_trip(p: FecPacketView)
    ensures
        parse_fec_frame(fec_frame(p)) == Some(p),
{
    let b = fec_frame(p);
    lemma_fixed_width_round_trip(p.block_id, 0, 0);
    assert(b.subrange(0, 4) =~= le_u32(p.block_id));
    assert(b.subrange(7, b.len() as int) =~= p.data);
}

impl FecPacket {
    /// Create new FEC packet
    pub fn new(block_id: u32, index: u8, data_count: u8, parity_count: u8, data: Bytes) -> (p:
        FecPacket)
        ensures
            p@ == (FecPacketView {
                block_id,
                index,
                data_count,
                parity_count,
                data: bytes_seq(data),
            }),
            p.data == data,
    {
        FecPacket { block_id, index, data_count, parity_count, data }
    }

    /// Serialize to bytes
    pub fn to_bytes(&self) -> (buf: BytesMut)
        ensures
            bytes_mut_seq(buf) == fec_frame(self@),
    {
        let shard = bytes_as_slice(&self.data);
        let mut buf = bytes_mut_with_capacity(FEC_HEADER_SIZE);
        let id = u32_to_le(self.block_id);
        bytes_mut_extend(&mut buf, &id);
        let rest = [self.index, self.data_count, self.parity_count];
        bytes_mut_extend(&mut buf, &rest);
        bytes_mut_extend(&mut buf, shard);
        proof {
            assert(rest@ =~= seq![self.index, self.data_count, self.parity_count]);
        }
        buf
    }

    /// Deserialize from bytes
    pub fn from_bytes(buf: Bytes) -> (r: Result<FecPacket, &'static str>)
        ensures
            match parse_fec_frame(bytes_seq(buf)) {
                Some(v) => r is Ok && r.unwrap()@ == v,
                None => r is Err && r.unwrap_err()@ == "FEC packet too short"@,
            },
    {
        let b = bytes_as_slice(&buf);
        if b.len() < FEC_HEADER_SIZE {
            return Err("FEC packet too short");
        }
        proof {
            lemma_value_bounds(b@.subrange(0, 4));
        }
        let block_id = u32_from_le(b, 0);
        let data = bytes_slice(&buf, FEC_HEADER_SIZE, b.len());
        Ok(FecPacket::new(block_id, b[4], b[5], b[6], data))
    }
}

} // verus!
