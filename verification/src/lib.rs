//! Master-playlist parsing and export planning for M3U8 (HLS) streams.
pub mod m3u8;
pub mod message;
pub mod output;
pub mod pattern;
pub mod protocol;
pub mod stream;
pub mod text;
pub mod url_parts;
