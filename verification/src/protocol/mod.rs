//! Renditions that carry the stream they are downloaded through.
pub mod media;
