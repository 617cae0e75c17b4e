//! Audio decoding descriptors and the jitter buffer in front of the sink.
pub mod decoder;
pub mod player;

pub use decoder::DecodedAudio;
pub use player::JitterBuffer;
