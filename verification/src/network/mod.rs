//! Transport layer: wire framing, erasure coding and receive-side bookkeeping.
use vstd::prelude::*;

pub mod buffer;
pub mod codec;
pub mod fec;
pub mod negotiation;
pub mod protocol;
pub mod quic;
pub mod tcp;
pub mod wire;

pub use fec::{FecDecoder, FecEncoder};
pub use negotiation::{ConnectionNegotiator, DeviceCapabilities};
pub use protocol::{ControlMessage, FecPacket, Packet, PacketType};

verus! {

/// What can go wrong on the network path.
#[derive(Debug, Clone, PartialEq, Eq)]
pub enum NetworkError {
    /// Transport setup failed.
    ConnectionFailed(String),
    /// A socket read or write failed.
    Io(String),
    /// The peer sent malformed framing.
    Protocol(String),
    /// The peer closed the connection cleanly.
    ConnectionClosed,
    /// A handshake step took too long.
    Timeout,
    /// The datagram transport reported an internal error.
    Quic(String),
    /// A codec or configuration was rejected by the backend.
    Unsupported(String),
    /// A decoder reported an error it cannot recover from.
    Decode(String),
}

/// Which transport carries the session.
#[derive(Debug, Clone, Copy, PartialEq, Eq, Structural)]
pub enum ConnectionMode {
    Tcp,
    Quic,
}

/// Network statistics for monitoring and adaptive bitrate. Fractions are
/// kept as integers: the loss in thousandths of a percent, the bandwidth in
/// kilobits per second.
#[derive(Debug, Clone, Copy, PartialEq, Eq, Structural)]
pub struct NetworkStats {
    /// Round-trip time in milliseconds
    pub rtt_ms: u64,
    /// Packet loss in thousandths of a percent (0 to 100000)
    pub packet_loss_milli: u64,
    /// Current bandwidth estimate (kbit/s)
    pub bandwidth_kbps: u64,
    /// Bytes received
    pub bytes_received: u64,
    /// Packets received
    pub packets_received: u64,
    /// Packets lost
    pub packets_lost: u64,
}

/// One in the unit of the quality score: parts per million.
pub const QUALITY_ONE: u32 = 1000000;

/// The quality score in parts per million:
/// `0.6 * (1 - min(rtt / 500, 1)) + 0.4 * (1 - min(loss / 5, 1))` with the
/// round-trip time in milliseconds and the loss in percent.
pub open spec fn quality_ppm(rtt_ms: u64, loss_milli: u64) -> int {
    1000000 - 1200 * (if rtt_ms < 500 {
        rtt_ms as int
    } else {
        500
    }) - 80 * (if loss_milli < 5000 {
        loss_milli as int
    } else {
        5000
    })
}

/// Statistics before anything was received.
pub open spec fn no_traffic() -> NetworkStats {
    NetworkStats {
        rtt_ms: 0,
        packet_loss_milli: 0,
        bandwidth_kbps: 0,
        bytes_received: 0,
        packets_received: 0,
        packets_lost: 0,
    }
}

impl Default for NetworkStats {
    fn default() -> (s: NetworkStats)
        ensures
            s == no_traffic(),
    {
        NetworkStats {
            rtt_ms: 0,
            packet_loss_milli: 0,
            bandwidth_kbps: 0,
            bytes_received: 0,
            packets_received: 0,
            packets_lost: 0,
        }
    }
}

impl NetworkStats {
    /// Calculate network quality score, from 0 (poor) to 1000000
    /// (excellent): full marks at no delay and no loss, none at 500 ms and
    /// 5 % or worse.
    pub fn quality_score(&self) -> (q: u32)
        ensures
            q == quality_ppm(self.rtt_ms, self.packet_loss_milli),
            0 <= q <= QUALITY_ONE,
            self.rtt_ms == 0 && self.packet_loss_milli == 0 ==> q == QUALITY_ONE,
            self.rtt_ms >= 500 && self.packet_loss_milli >= 5000 ==> q == 0,
    {
        let rtt: u32 = if self.rtt_ms < 500 {
            self.rtt_ms as u32
        } else {
            500
        };
        let loss: u32 = if self.packet_loss_milli < 5000 {
            self.packet_loss_milli as u32
        } else {
            5000
        };
        QUALITY_ONE - 1200 * rtt - 80 * loss
    }
}

} // verus!
