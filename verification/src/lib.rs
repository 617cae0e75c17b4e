//! Data plane of a low-latency screen-mirroring client: wire framing,
//! forward error correction, transport bookkeeping, A/V synchronisation,
//! the audio jitter buffer and adaptive bitrate control.
//!
//! The functions here work on plain values and never block: sockets,
//! codecs, the audio device and the window belong to the program around
//! the library, which hands in what it read and carries out what comes
//! back.
pub mod audio;
pub mod clock;
pub mod config;
pub mod control;
pub mod network;
pub mod session;
pub mod sync;
pub mod video;
