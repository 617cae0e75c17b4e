//! Connection negotiation: the device's capabilities and the order in
//! which the transports are tried.
use super::ConnectionMode;
use vstd::prelude::*;

verus! {

/// Device capabilities exchanged during handshake
#[derive(Debug)]
pub struct DeviceCapabilities {
    /// Device name/model
    pub device_name: String,
    /// Maximum supported resolution
    pub max_resolution: (u32, u32),
    /// Supported video codecs
    pub video_codecs: Vec<String>,
    /// Supported audio codecs
    pub audio_codecs: Vec<String>,
    /// Maximum bitrate (Mbps)
    pub max_bitrate: u32,
    /// Supports audio streaming
    pub audio_supported: bool,
    /// Preferred connection mode, "tcp" or "quic"
    pub preferred_mode: String,
}

impl Default for DeviceCapabilities {
    /// What is assumed of a device that has not said otherwise.
    fn default() -> (c: DeviceCapabilities)
        ensures
            c.device_name@ == "Android Device"@,
            c.max_resolution == (1920u32, 1080u32),
            c.video_codecs@.len() == 2,
            c.video_codecs@[0]@ == "h264"@,
            c.video_codecs@[1]@ == "h265"@,
            c.audio_codecs@.len() == 2,
            c.audio_codecs@[0]@ == "aac"@,
            c.audio_codecs@[1]@ == "opus"@,
            c.max_bitrate == 20,
            c.audio_supported,
            c.preferred_mode@ == "tcp"@,
    {
        let mut video_codecs: Vec<String> = Vec::new();
        video_codecs.push("h264".to_owned());
        video_codecs.push("h265".to_owned());
        let mut audio_codecs: Vec<String> = Vec::new();
        audio_codecs.push("aac".to_owned());
        audio_codecs.push("opus".to_owned());
        DeviceCapabilities {
            device_name: "Android Device".to_owned(),
            max_resolution: (1920, 1080),
            video_codecs,
            audio_codecs,
            max_bitrate: 20,
            audio_supported: true,
            preferred_mode: "tcp".to_owned(),
        }
    }
}

/// Milliseconds allowed for each connection attempt.
pub const ATTEMPT_TIMEOUT_MS: u64 = 5000;

/// The transport to try first: the wireless one if it is preferred and an
/// address for it is known, the wired one otherwise.
pub open spec fn first_choice(prefer_quic: bool, has_quic_addr: bool) -> ConnectionMode {
    if prefer_quic && has_quic_addr {
        ConnectionMode::Quic
    } else {
        ConnectionMode::Tcp
    }
}

/// The transport to fall back to when an attempt has failed: the wired one
/// after the wireless one, none after the wired one.
pub open spec fn fallback(failed: ConnectionMode) -> Option<ConnectionMode> {
    match failed {
        ConnectionMode::Quic => Some(ConnectionMode::Tcp),
        ConnectionMode::Tcp => None,
    }
}

/// Connection negotiator with automatic fallback
#[derive(Debug)]
pub struct ConnectionNegotiator {
    tcp_addr: String,
    quic_addr: Option<String>,
    prefer_quic: bool,
}

impl ConnectionNegotiator {
    /// Whether the wireless transport is preferred.
    pub closed spec fn prefers_quic(&self) -> bool {
        self.prefer_quic
    }

    /// The wired address.
    pub closed spec fn tcp_address(&self) -> Seq<char> {
        self.tcp_addr@
    }

    /// The wireless address, if there is one.
    pub closed spec fn quic_address(&self) -> Option<Seq<char>> {
        match self.quic_addr {
            Some(a) => Some(a@),
            None => None,
        }
    }

    /// Whether an address for the wireless transport is known.
    pub open spec fn has_quic_addr(&self) -> bool {
        self.quic_address() is Some
    }

    /// Create a new connection negotiator from the wired address, which is
    /// always there as a fallback, the wireless address if there is one,
    /// and whether to try the wireless transport first.
    pub fn new(tcp_addr: String, quic_addr: Option<String>, prefer_quic: bool) -> (n: Self)
        ensures
            n.prefers_quic() == prefer_quic,
            n.tcp_address() == tcp_addr@,
            n.quic_address() == match quic_addr {
                Some(a) => Some(a@),
                None => None::<Seq<char>>,
            },
    {
        ConnectionNegotiator { tcp_addr, quic_addr, prefer_quic }
    }

    /// The wired address.
    pub fn tcp_addr(&self) -> (a: &String)
        ensures
            a@ == self.tcp_address(),
    {
        &self.tcp_addr
    }

    /// The wireless address, if there is one.
    pub fn quic_addr(&self) -> (a: &Option<String>)
        ensures
            self.quic_address() == match *a {
                Some(s) => Some(s@),
                None => None::<Seq<char>>,
            },
    {
        &self.quic_addr
    }

    /// Whether the wireless transport is preferred.
    pub fn prefer_quic(&self) -> (p: bool)
        ensures
            p == self.prefers_quic(),
    {
        self.prefer_quic
    }

    /// Milliseconds allowed for each attempt.
    pub fn timeout_ms(&self) -> (t: u64)
        ensures
            t == ATTEMPT_TIMEOUT_MS,
    {
        ATTEMPT_TIMEOUT_MS
    }

    /// The transport to try first.
    pub fn first_attempt(&self) -> (mode: ConnectionMode)
        ensures
            mode == first_choice(self.prefers_quic(), self.has_quic_addr()),
    {
        if self.prefer_quic && self.quic_addr.is_some() {
            ConnectionMode::Quic
        } else {
            ConnectionMode::Tcp
        }
    }

    /// The transport to try after `failed` could not connect; `None` when
    /// every attempt has failed.
    pub fn next_attempt(&self, failed: ConnectionMode) -> (mode: Option<ConnectionMode>)
        ensures
            mode == fallback(failed),
    {
        match failed {
            ConnectionMode::Quic => Some(ConnectionMode::Tcp),
            ConnectionMode::Tcp => None,
        }
    }
}

impl ConnectionMode {
    /// The transport's name.
    pub fn name(&self) -> (n: &'static str)
        ensures
            n@ == match *self {
                ConnectionMode::Tcp => "TCP"@,
                ConnectionMode::Quic => "QUIC"@,
            },
    {
        match self {
            ConnectionMode::Tcp => "TCP",
            ConnectionMode::Quic => "QUIC",
        }
    }

    /// Check if wireless (QUIC)
    pub fn is_wireless(&self) -> (w: bool)
        ensures
            w == (*self == ConnectionMode::Quic),
    {
        match self {
            ConnectionMode::Tcp => false,
            ConnectionMode::Quic => true,
        }
    }
}

} // verus!
