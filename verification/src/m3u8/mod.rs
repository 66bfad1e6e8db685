//! The master-playlist model: alternative renditions, variant streams and
//! media segments, and the parser that reads them from playlist text.
pub mod attr_laws;
pub mod laws;
pub mod media;
pub mod playlist;
pub mod segment;
