//! Session configuration and the client's choice of audio codec.
use vstd::prelude::*;

verus! {

/// Connection mode of the configuration
#[derive(Debug, Clone, Copy, PartialEq, Eq, Structural)]
pub enum ConnectionMode {
    Tcp,
    Quic,
}

/// Target resolution
#[derive(Debug, Clone, Copy, PartialEq, Eq, Structural)]
pub enum Resolution {
    /// 1280x720
    HD720,
    /// 1920x1080
    FHD1080,
    /// 2560x1440
    QHD1440,
}

/// The width and height in pixels that a resolution stands for.
pub open spec fn resolution_size(r: Resolution) -> (u32, u32) {
    match r {
        Resolution::HD720 => (1280, 720),
        Resolution::FHD1080 => (1920, 1080),
        Resolution::QHD1440 => (2560, 1440),
    }
}

impl Resolution {
    pub fn width(&self) -> (w: u32)
        ensures
            w == resolution_size(*self).0,
    {
        match self {
            Resolution::HD720 => 1280,
            Resolution::FHD1080 => 1920,
            Resolution::QHD1440 => 2560,
        }
    }

    pub fn height(&self) -> (h: u32)
        ensures
            h == resolution_size(*self).1,
    {
        match self {
            Resolution::HD720 => 720,
            Resolution::FHD1080 => 1080,
            Resolution::QHD1440 => 1440,
        }
    }
}

/// Video codec
#[derive(Debug, Clone, Copy, PartialEq, Eq, Structural)]
pub enum VideoCodec {
    H264,
    H265,
}

/// Audio codec
#[derive(Debug, Clone, Copy, PartialEq, Eq, Structural)]
pub enum AudioCodec {
    Aac,
    Opus,
}

/// Where to connect.
#[derive(Debug)]
pub struct ConnectionConfig {
    /// Connection mode (TCP or QUIC)
    pub mode: ConnectionMode,
    /// Server IP address, in text
    pub host: String,
    /// Server port
    pub port: u16,
}

/// Video configuration
#[derive(Debug)]
pub struct VideoConfig {
    /// Target resolution
    pub resolution: Resolution,
    /// Video codec
    pub codec: VideoCodec,
    /// Initial bitrate (Mbps)
    pub bitrate: u32,
    /// Enable hardware decoding
    pub hw_accel: bool,
    /// Hardware decoder preference (nvdec, qsv, vaapi, auto)
    pub hw_decoder: String,
}

/// Audio configuration
#[derive(Debug, Clone, Copy, PartialEq, Eq, Structural)]
pub struct AudioConfig {
    /// Enable audio streaming
    pub enabled: bool,
    /// Sample rate (Hz)
    pub sample_rate: u32,
    /// Number of channels
    pub channels: u16,
    /// Audio codec
    pub codec: AudioCodec,
}

/// Performance tuning
#[derive(Debug, Clone, Copy, PartialEq, Eq, Structural)]
pub struct PerformanceConfig {
    /// Video frame buffer size
    pub video_buffer_size: usize,
    /// Audio buffer size
    pub audio_buffer_size: usize,
    /// Jitter buffer size (ms) for wireless
    pub jitter_buffer_ms: u32,
    /// Enable adaptive bitrate
    pub adaptive_bitrate: bool,
    /// FEC redundancy percentage (0-50)
    pub fec_redundancy: u8,
}

/// Application configuration
#[derive(Debug)]
pub struct Config {
    /// Connection configuration
    pub connection: ConnectionConfig,
    /// Video configuration
    pub video: VideoConfig,
    /// Audio configuration
    pub audio: AudioConfig,
    /// Performance tuning
    pub performance: PerformanceConfig,
}

/// The audio settings of a fresh configuration.
pub open spec fn default_audio() -> AudioConfig {
    AudioConfig { enabled: true, sample_rate: 48000, channels: 2, codec: AudioCodec::Aac }
}

/// The performance settings of a fresh configuration.
pub open spec fn default_performance() -> PerformanceConfig {
    PerformanceConfig {
        video_buffer_size: 16,
        audio_buffer_size: 64,
        jitter_buffer_ms: 30,
        adaptive_bitrate: true,
        fec_redundancy: 10,
    }
}

impl Default for Config {
    /// The configuration of a wired session on the local tunnel: TCP to
    /// 127.0.0.1:5555, 1080p H.264 at 8 Mbps with any hardware decoder,
    /// stereo AAC at 48 kHz, and the default buffer sizes.
    fn default() -> (c: Config)
        ensures
            c.connection.mode == ConnectionMode::Tcp,
            c.connection.host@ == "127.0.0.1"@,
            c.connection.port == 5555,
            c.video.resolution == Resolution::FHD1080,
            c.video.codec == VideoCodec::H264,
            c.video.bitrate == 8,
            c.video.hw_accel,
            c.video.hw_decoder@ == "auto"@,
            c.audio == default_audio(),
            c.performance == default_performance(),
    {
        Config {
            connection: ConnectionConfig {
                mode: ConnectionMode::Tcp,
                host: "127.0.0.1".to_owned(),
                port: 5555,
            },
            video: VideoConfig {
                resolution: Resolution::FHD1080,
                codec: VideoCodec::H264,
                bitrate: 8,
                hw_accel: true,
                hw_decoder: "auto".to_owned(),
            },
            audio: AudioConfig {
                enabled: true,
                sample_rate: 48000,
                channels: 2,
                codec: AudioCodec::Aac,
            },
            performance: PerformanceConfig {
                video_buffer_size: 16,
                audio_buffer_size: 64,
                jitter_buffer_ms: 30,
                adaptive_bitrate: true,
                fec_redundancy: 10,
            },
        }
    }
}

/// The audio settings that the client announces: no audio if the user
/// asked for none or no decoder could be built; otherwise Opus if its
/// decoder could be built, else AAC.
pub open spec fn negotiated_audio(
    audio: AudioConfig,
    no_audio: bool,
    opus_available: bool,
    aac_available: bool,
) -> AudioConfig {
    if no_audio {
        AudioConfig { enabled: false, ..audio }
    } else if opus_available {
        AudioConfig { enabled: true, codec: AudioCodec::Opus, ..audio }
    } else if aac_available {
        AudioConfig { enabled: true, codec: AudioCodec::Aac, ..audio }
    } else {
        AudioConfig { enabled: false, ..audio }
    }
}

/// Chooses the audio codec to request from the device, given which of the
/// client's decoders could be built.
pub fn negotiate_audio(
    audio: AudioConfig,
    no_audio: bool,
    opus_available: bool,
    aac_available: bool,
) -> (out: AudioConfig)
    ensures
        out == negotiated_audio(audio, no_audio, opus_available, aac_available),
{
    let mut out = audio;
    if no_audio {
        out.enabled = false;
    } else if opus_available {
        out.enabled = true;
        out.codec = AudioCodec::Opus;
    } else if aac_available {
        out.enabled = true;
        out.codec = AudioCodec::Aac;
    } else {
        out.enabled = false;
    }
    out
}

/// Data shards in each FEC block.
pub const FEC_DATA_SHARDS: usize = 10;

/// The parity shards per block of ten data shards for a redundancy in
/// percent: that share of ten, rounded down, at least 1; redundancies over
/// 50 % count as 50 %.
pub open spec fn parity_shards_for(redundancy_percent: u8) -> nat {
    let capped: nat = if redundancy_percent > 50 {
        50
    } else {
        redundancy_percent as nat
    };
    if capped < 10 {
        1
    } else {
        capped / 10
    }
}

/// The block geometry for a redundancy in percent: data shards, then
/// parity shards.
pub fn fec_geometry(redundancy_percent: u8) -> (g: (usize, usize))
    ensures
        g.0 == FEC_DATA_SHARDS,
        g.1 == parity_shards_for(redundancy_percent),
        1 <= g.1 <= 5,
{
    let capped: usize = if redundancy_percent > 50 {
        50
    } else {
        redundancy_percent as usize
    };
    let parity = capped / 10;
    if parity == 0 {
        (FEC_DATA_SHARDS, 1)
    } else {
        (FEC_DATA_SHARDS, parity)
    }
}

} // verus!
