//! What an audio decoder hands on, and which configurations the Opus path
//! accepts.
use crate::network::NetworkError;
use vstd::prelude::*;

verus! {

/// Decoded audio samples with metadata, of whatever sample type the sink
/// plays.
#[derive(Debug)]
pub struct DecodedAudio<S> {
    pub pts: i64,
    pub samples: Vec<S>,
    pub sample_rate: u32,
    pub channels: u16,
}

/// Samples per channel that one Opus frame can decode to at most.
pub const OPUS_MAX_FRAME_SAMPLES: usize = 5760;

/// The configurations that the Opus path decodes: one or two channels at
/// 8, 12, 16, 24 or 48 kHz.
pub open spec fn opus_supports(sample_rate: u32, channels: u16) -> bool {
    &&& channels == 1 || channels == 2
    &&& sample_rate == 8000 || sample_rate == 12000 || sample_rate == 16000 || sample_rate
        == 24000 || sample_rate == 48000
}

/// Checks a configuration for the Opus path and returns the size of its
/// output buffer in samples, `5760 * channels`. Any other configuration is
/// unsupported.
pub fn opus_output_capacity(sample_rate: u32, channels: u16) -> (r: Result<usize, NetworkError>)
    ensures
        opus_supports(sample_rate, channels) ==> r == Ok::<usize, NetworkError>(
            (5760 * channels) as usize,
        ),
        !opus_supports(sample_rate, channels) ==> r is Err && r.unwrap_err() is Unsupported,
{
    let channels_ok = channels == 1 || channels == 2;
    let rate_ok = sample_rate == 8000 || sample_rate == 12000 || sample_rate == 16000
        || sample_rate == 24000 || sample_rate == 48000;
    if channels_ok && rate_ok {
        Ok(OPUS_MAX_FRAME_SAMPLES * (channels as usize))
    } else {
        Err(NetworkError::Unsupported("Opus configuration".to_owned()))
    }
}

} // verus!
