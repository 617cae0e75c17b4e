//! Control loops that steer the device's encoder.
pub mod bitrate;

pub use bitrate::BitrateController;
