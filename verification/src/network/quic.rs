//! Receive side of the datagram transport: loss accounting, statistics and
//! the routing of each datagram through the FEC decoder.
use super::buffer::{bytes_as_slice, bytes_seq};
use super::fec::{
    add_data_step, add_fec_step, cleanup_step, packet_views, DecoderView, FecDecoder,
};
use super::protocol::{
    fault_text, parse_fec_frame, parse_frame, FecPacket, Packet, PacketType, PacketView,
};
use super::{NetworkError, NetworkStats};
use bytes::Bytes;
use vstd::prelude::*;

verus! {

/// Initial round-trip estimate of the connection, in milliseconds.
pub const INITIAL_RTT_MS: u64 = 100;

/// Keep-alive interval, in milliseconds.
pub const KEEP_ALIVE_MS: u64 = 1000;

/// Idle time after which the connection is given up, in milliseconds.
pub const IDLE_TIMEOUT_MS: u32 = 30000;

/// Receive window and send window of the connection, in bytes: 8 MiB.
pub const CONNECTION_WINDOW: u32 = 8388608;

/// Receive window of each stream, in bytes: 2 MiB.
pub const STREAM_WINDOW: u32 = 2097152;

/// `a + b`, stopping at the largest value.
pub open spec fn capped_sum(a: u64, b: u64) -> u64 {
    if a + b > u64::MAX {
        u64::MAX
    } else {
        (a + b) as u64
    }
}

/// The packets that went missing between the last sequence number seen and
/// `seq`: the numbers strictly between them.
pub open spec fn gap(last_seq: u32, seq: u32) -> u64 {
    if seq > last_seq + 1 {
        (seq - last_seq - 1) as u64
    } else {
        0
    }
}

/// The loss in thousandths of a percent: `100 * lost / (lost + received)`.
/// `previous` stands where nothing was counted yet.
pub open spec fn loss_milli(lost: u64, received: u64, previous: u64) -> u64 {
    if lost + received == 0 {
        previous
    } else {
        (100000 * lost as int / (lost + received)) as u64
    }
}

/// The bandwidth estimate in kbit/s for a congestion window in bytes and a
/// round-trip time in milliseconds: `cwnd * 8 / (rtt * 125)` Mbit/s. With no
/// round-trip time measured the estimate is unbounded, and the largest
/// number stands for every estimate above it.
pub open spec fn bandwidth_kbps(cwnd_bytes: u64, rtt_ms: u64) -> u64 {
    if rtt_ms == 0 || cwnd_bytes as int * 64 / (rtt_ms as int) > u64::MAX {
        u64::MAX
    } else {
        (cwnd_bytes as int * 64 / (rtt_ms as int)) as u64
    }
}

/// The counters of the datagram path.
pub struct Tally {
    pub last_seq: u32,
    pub stats: NetworkStats,
}

/// The counters after a datagram of `len` bytes with sequence number `seq`
/// arrived, on a path with the given round-trip time and congestion window.
pub open spec fn tally_step(t: Tally, seq: u32, len: u64, rtt_ms: u64, cwnd_bytes: u64) -> Tally {
    let lost = capped_sum(t.stats.packets_lost, gap(t.last_seq, seq));
    let received = capped_sum(t.stats.packets_received, 1);
    Tally {
        last_seq: seq,
        stats: NetworkStats {
            rtt_ms,
            packet_loss_milli: loss_milli(lost, received, t.stats.packet_loss_milli),
            bandwidth_kbps: bandwidth_kbps(cwnd_bytes, rtt_ms),
            bytes_received: capped_sum(t.stats.bytes_received, len),
            packets_received: received,
            packets_lost: lost,
        },
    }
}

/// The number of lost packets after a run of datagrams.
pub open spec fn lost_after(last_seq: u32, lost: u64, seqs: Seq<u32>) -> u64
    decreases seqs.len(),
{
    if seqs.len() == 0 {
        lost
    } else {
        lost_after(seqs[0], capped_sum(lost, gap(last_seq, seqs[0])), seqs.drop_first())
    }
}

/// Monotonic sequence accounting: a run of datagrams whose sequence
/// numbers follow the last one seen without a gap leaves the number of
/// lost packets as it was.
pub proof fn lemma_no_gap_no_loss(last_seq: u32, lost: u64, seqs: Seq<u32>)
    requires
        forall|i: int| 0 <= i < seqs.len() ==> #[trigger] seqs[i] == last_seq + 1 + i,
    ensures
        lost_after(last_seq, lost, seqs) == lost,
    decreases seqs.len(),
{
    if seqs.len() > 0 {
        let rest = seqs.drop_first();
        assert(seqs[0] == last_seq + 1);
        assert forall|i: int| 0 <= i < rest.len() implies #[trigger] rest[i] == seqs[0] + 1 + i by {
            assert(rest[i] == seqs[i + 1]);
        }
        lemma_no_gap_no_loss(seqs[0], lost, rest);
    }
}

fn add_capped(a: u64, b: u64) -> (c: u64)
    ensures
        c == capped_sum(a, b),
{
    if a > u64::MAX - b {
        u64::MAX
    } else {
        a + b
    }
}

/// The bandwidth estimate of `bandwidth_kbps`.
pub fn estimate_bandwidth(cwnd_bytes: u64, rtt_ms: u64) -> (kbps: u64)
    ensures
        kbps == bandwidth_kbps(cwnd_bytes, rtt_ms),
{
    if rtt_ms == 0 {
        return u64::MAX;
    }
    let wide: u128 = (cwnd_bytes as u128) * 64 / (rtt_ms as u128);
    if wide > u64::MAX as u128 {
        u64::MAX
    } else {
        wide as u64
    }
}

/// What the receiver hands on for one datagram.
pub open spec fn delivered(
    d: DecoderView,
    datagram: Seq<u8>,
    now: u64,
) -> Option<(DecoderView, Seq<PacketView>)> {
    let cleaned = cleanup_step(d, now);
    match parse_frame(datagram) {
        Err(_) => None,
        Ok(p) => if p.kind == PacketType::Fec {
            match parse_fec_frame(p.data) {
                None => Some((cleaned, Seq::empty())),
                Some(f) => match add_fec_step(cleaned, f, now).1 {
                    None => None,
                    Some(out) => Some((add_fec_step(cleaned, f, now).0, out)),
                },
            }
        } else {
            let step = add_data_step(cleaned, p.seq, datagram.subrange(0, 17 + p.data.len() as int), now);
            Some((step.0, seq![p] + step.1))
        },
    }
}

/// The decoder after a datagram that was refused: one that is no framed
/// packet leaves it untouched; a parity packet that the decoder refuses
/// has been through the cleanup and the decoder's own refusal.
pub open spec fn after_refusal(d: DecoderView, datagram: Seq<u8>, now: u64) -> DecoderView {
    match parse_frame(datagram) {
        Err(_) => d,
        Ok(p) => match parse_fec_frame(p.data) {
            Some(f) => add_fec_step(cleanup_step(d, now), f, now).0,
            None => d,
        },
    }
}

/// Receive state of the datagram transport: the statistics, the last
/// sequence number seen and the connection's FEC decoder.
pub struct DatagramReceiver {
    stats: NetworkStats,
    fec_decoder: FecDecoder,
    last_seq: u32,
}

impl DatagramReceiver {
    /// The counters.
    pub closed spec fn tally(&self) -> Tally {
        Tally { last_seq: self.last_seq, stats: self.stats }
    }

    /// The FEC decoder.
    pub closed spec fn decoder(&self) -> DecoderView {
        self.fec_decoder@
    }

    /// The receiver's invariant: that of its decoder.
    pub closed spec fn wf(&self) -> bool {
        self.fec_decoder.wf()
    }

    /// A receiver that has seen nothing, around the given decoder.
    pub fn new(fec_decoder: FecDecoder) -> (r: Self)
        requires
            fec_decoder.wf(),
        ensures
            r.wf(),
            r.decoder() == fec_decoder@,
            r.tally() == (Tally { last_seq: 0, stats: crate::network::no_traffic() }),
    {
        DatagramReceiver {
            stats: NetworkStats {
                rtt_ms: 0,
                packet_loss_milli: 0,
                bandwidth_kbps: 0,
                bytes_received: 0,
                packets_received: 0,
                packets_lost: 0,
            },
            fec_decoder,
            last_seq: 0,
        }
    }

    /// Get network statistics
    pub fn stats(&self) -> (s: NetworkStats)
        ensures
            s == self.tally().stats,
    {
        self.stats
    }

    /// Counts one datagram: the gap before it as lost packets, itself as
    /// received, and refreshes round-trip time, loss and bandwidth.
    pub fn account(&mut self, seq: u32, len: usize, path_rtt_ms: u64, cwnd_bytes: u64)
        ensures
            final(self).tally() == tally_step(
                old(self).tally(),
                seq,
                len as u64,
                path_rtt_ms,
                cwnd_bytes,
            ),
            final(self).decoder() == old(self).decoder(),
            old(self).wf() ==> final(self).wf(),
    {
        let missing: u64 = if seq as u64 > self.last_seq as u64 + 1 {
            (seq - self.last_seq - 1) as u64
        } else {
            0
        };
        self.stats.packets_lost = add_capped(self.stats.packets_lost, missing);
        self.last_seq = seq;
        self.stats.bytes_received = add_capped(self.stats.bytes_received, len as u64);
        self.stats.packets_received = add_capped(self.stats.packets_received, 1);
        self.stats.rtt_ms = path_rtt_ms;
        let total: u128 = self.stats.packets_lost as u128 + self.stats.packets_received as u128;
        if total > 0 {
            let ratio: u128 = 100000 * (self.stats.packets_lost as u128) / total;
            assert(ratio <= 100000) by (nonlinear_arith)
                requires
                    ratio == 100000 * (self.stats.packets_lost as int) / (total as int),
                    total > 0,
                    self.stats.packets_lost <= total,
            ;
            self.stats.packet_loss_milli = ratio as u64;
        }
        self.stats.bandwidth_kbps = estimate_bandwidth(cwnd_bytes, path_rtt_ms);
    }

    /// Takes in one datagram, received at time `now_ms` on a path with the
    /// given round-trip time and congestion window, and returns the packets
    /// to hand on, in order. A datagram that is no framed packet is a
    /// protocol error and counts for nothing. Any other is counted. A parity
    /// packet goes to the FEC decoder and what it recovers is handed on; a
    /// parity payload too short for its header recovers nothing. A packet of
    /// another kind is handed on, after its framed bytes went to the decoder
    /// as a data shard, followed by what that recovered.
    pub fn on_datagram(
        &mut self,
        datagram: Bytes,
        path_rtt_ms: u64,
        cwnd_bytes: u64,
        now_ms: u64,
    ) -> (out: Result<Vec<Packet>, NetworkError>)
        requires
            old(self).wf(),
        ensures
            final(self).wf(),
            match delivered(old(self).decoder(), bytes_seq(datagram), now_ms) {
                Some((d, packets)) => {
                    &&& out is Ok
                    &&& packet_views(out.unwrap()@) == packets
                    &&& final(self).decoder() == d
                },
                None => {
                    &&& out is Err
                    &&& out.unwrap_err() is Protocol
                    &&& final(self).decoder() == after_refusal(
                        old(self).decoder(),
                        bytes_seq(datagram),
                        now_ms,
                    )
                },
            },
            parse_frame(bytes_seq(datagram)) matches Err(f) ==> out matches Err(
                NetworkError::Protocol(words),
            ) && words@ == fault_text(f),
            final(self).tally() == match parse_frame(bytes_seq(datagram)) {
                Ok(p) => tally_step(
                    old(self).tally(),
                    p.seq,
                    bytes_seq(datagram).len() as u64,
                    path_rtt_ms,
                    cwnd_bytes,
                ),
                Err(_) => old(self).tally(),
            },
    {
        let raw_len = bytes_as_slice(&datagram).len();
        let packet = match Packet::from_bytes(datagram.clone()) {
            Ok(p) => p,
            Err(text) => {
                return Err(NetworkError::Protocol(text.to_owned()));
            },
        };
        self.account(packet.seq, raw_len, path_rtt_ms, cwnd_bytes);
        self.fec_decoder.cleanup_at(now_ms);
        if packet.packet_type == PacketType::Fec {
            let fec_packet = match FecPacket::from_bytes(packet.data.clone()) {
                Ok(f) => f,
                Err(_) => {
                    let none: Vec<Packet> = Vec::new();
                    assert(packet_views(none@) =~= Seq::empty());
                    return Ok(none);
                },
            };
            match self.fec_decoder.add_fec_packet_at(fec_packet, now_ms) {
                Ok(Some(recovered)) => Ok(recovered),
                Ok(None) => {
                    let none: Vec<Packet> = Vec::new();
                    assert(packet_views(none@) =~= Seq::empty());
                    Ok(none)
                },
                Err(e) => Err(e),
            }
        } else {
            let payload_len = bytes_as_slice(&packet.data).len();
            let shard = super::buffer::bytes_slice(&datagram, 0, 17 + payload_len);
            let recovered = self.fec_decoder.add_data_packet_at(packet.seq, shard, now_ms);
            let ghost first = packet@;
            let mut out: Vec<Packet> = Vec::new();
            out.push(packet);
            match recovered {
                Some(mut more) => {
                    let ghost tail = packet_views(more@);
                    out.append(&mut more);
                    assert(packet_views(out@) =~= seq![first] + tail);
                },
                None => {
                    assert(packet_views(out@) =~= seq![first] + Seq::empty());
                },
            }
            Ok(out)
        }
    }
}

} // verus!
