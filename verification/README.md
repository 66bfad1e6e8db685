# m3u8_flash

A library, verified with Verus, that reads HLS master playlists (M3U8) and
plans their export to MP4, with a small command-line tool and WebSocket
service around it.

- `src/text.rs` — splitting text into lines and attributes, taking quotes
  out, reading and writing unsigned decimal numbers.
- `src/pattern.rs` — tag tests on a line, through the `regex` crate.
- `src/url_parts.rs` — the parts of an address, through the `url` crate, and
  the `scheme://domain[:port]` base address built from them.
- `src/stream.rs` — a variant stream.
- `src/m3u8/` — renditions, segments, the master playlist and its reader
  (`Playlist::scan`), and the laws that reading guarantees (`laws.rs`).
- `src/protocol/` — a rendition together with its stream, and the preparation
  of its download.
- `src/output/` — the ffmpeg arguments of an export and the files it consumes.
- `src/message.rs` — the messages of the export service.
- `app/` — fetching over HTTP, running ffmpeg, the CLI and the WebSocket
  service; JSON copies of the library's types.
