//! Video decoding descriptors: pixel formats, decoded frames and the
//! packing of a decoder's planes into one buffer.
pub mod decoder;

pub use decoder::{DecodedFrame, PixelFormat};
