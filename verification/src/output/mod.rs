//! Turning downloaded transport streams into one MP4 file.
pub mod export;
