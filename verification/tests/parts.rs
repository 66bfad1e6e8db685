use m3u8_flash::m3u8::media::{Media as Rendition, MediaType as RenditionType};
use m3u8_flash::m3u8::playlist::ScanError;
use m3u8_flash::m3u8::segment::Segment;
use m3u8_flash::message::{CommandData, Message};
use m3u8_flash::output::export::{convert_args, convert_ts_to_mp4, Export};
use m3u8_flash::protocol::media::{Media, MediaType};
use m3u8_flash::stream::Stream;
use m3u8_flash::text::{chars_of, parse_usize, push_decimal, split_chars, string_of, without_char};

#[test]
fn segment_new_is_empty() {
    let s = Segment::new();
    assert_eq!(s.duration, 0);
    assert_eq!(s.url, "");
    assert!(s.data.is_empty());
}

#[test]
fn rendition_new_defaults() {
    let m = Rendition::new();
    assert!(matches!(m._type, RenditionType::Audio));
    assert_eq!(m.url, "");
    assert_eq!(m.group_id, "");
    assert_eq!(m.name, "");
    assert_eq!(m.language, "");
    assert!(!m.default && !m.auto_select && !m.forced);
}

#[test]
fn media_new_defaults() {
    let m = Media::new();
    assert_eq!(m._type, MediaType::Audio);
    assert_eq!(m.url, "");
    assert!(!m.default && !m.auto_select && !m.forced);
    assert_eq!(m.stream.url, "");
    assert_eq!(m.stream.base_url, "");
    assert_eq!(m.stream.output_path, "");
    assert_eq!(m.stream.bandwidth, 0);
}

#[test]
fn stream_new_defaults() {
    let s = Stream::new();
    assert_eq!(s.url, "");
    assert_eq!(s.base_url, "");
    assert_eq!(s.codecs, "");
    assert_eq!(s.resolution, "");
    assert_eq!(s.bandwidth, 0);
}

#[test]
fn media_save_places_stream() {
    let mut m = Media::new();
    m.url = "HTTPS://Cdn.Example.com:8443/audio/en.m3u8?x=1".to_string();
    m.group_id = "aud".to_string();
    let t = m.save("42".to_string()).ok().unwrap();
    assert_eq!(t.folder_path, "./generated/42/audio/");
    assert_eq!(t.file_name, "audio.ts");
    assert_eq!(m.stream.url, "https://cdn.example.com:8443/audio/en.m3u8?x=1");
    assert_eq!(m.stream.base_url, "https://cdn.example.com:8443");
    assert_eq!(m.url, "HTTPS://Cdn.Example.com:8443/audio/en.m3u8?x=1");
    assert_eq!(m.group_id, "aud");
}

#[test]
fn media_save_refuses_relative_address() {
    let mut m = Media::new();
    m.url = "audio/en.m3u8".to_string();
    assert!(matches!(m.save("7".to_string()), Err(ScanError::InvalidUrl)));
    assert_eq!(m.stream.url, "");
    assert_eq!(m.stream.base_url, "");
}

fn export(audio: bool) -> Export {
    let mut video = Stream::new();
    video.output_path = "./generated/video/video.ts".to_string();
    let audio = if audio {
        let mut m = Media::new();
        m.stream.output_path = "./generated/1/audio/audio.ts".to_string();
        Some(m)
    } else {
        None
    };
    Export { video, audio }
}

#[test]
fn export_args_with_audio() {
    let args = export(true).ffmpeg_args("out/movie.mp4");
    assert_eq!(
        args,
        vec![
            "-i", "./generated/video/video.ts", "-i", "./generated/1/audio/audio.ts", "-c:v", "copy",
            "-c:a", "aac", "-strict", "experimental", "out/movie.mp4"
        ]
    );
}

#[test]
fn export_args_without_audio() {
    let args = export(false).ffmpeg_args("movie.mp4");
    assert_eq!(
        args,
        vec!["-i", "./generated/video/video.ts", "-c:v", "copy", "-c:a", "aac", "-strict", "experimental", "movie.mp4"]
    );
}

#[test]
fn export_intermediate_files() {
    assert_eq!(
        export(true).intermediate_files(),
        vec!["./generated/video/video.ts", "./generated/1/audio/audio.ts"]
    );
    assert_eq!(export(false).intermediate_files(), vec!["./generated/video/video.ts"]);
}

#[test]
fn convert_ts_to_mp4_succeeds() {
    assert!(convert_ts_to_mp4("in.ts", "out.mp4", None).is_ok());
    assert!(convert_ts_to_mp4("in.ts", "out.mp4", Some("a.ts".to_string())).is_ok());
}

#[test]
fn convert_args_copy_both_streams() {
    assert_eq!(convert_args("in.ts", "out.mp4"), vec!["-i", "in.ts", "-c:v", "copy", "-c:a", "copy", "out.mp4"]);
}

#[test]
fn message_export_request() {
    let m = Message::Command(CommandData::StartExport { uid: "9".to_string(), url: "https://e.x/m.m3u8".to_string() });
    let (uid, url) = m.export_request().unwrap();
    assert_eq!(uid, "9");
    assert_eq!(url, "https://e.x/m.m3u8");
    assert!(Message::Ping.export_request().is_none());
    assert!(Message::Pong.export_request().is_none());
    assert!(Message::Text { text: "hi".to_string() }.export_request().is_none());
}

fn pieces(s: &str, sep: char) -> Vec<String> {
    split_chars(&chars_of(s), sep).iter().map(|p| string_of(p)).collect()
}

#[test]
fn split_like_str_split() {
    for s in ["", "a", "\n", "a\nb", "a\n\nb\n", "\n\n"] {
        let expected: Vec<String> = s.split('\n').map(|p| p.to_string()).collect();
        assert_eq!(pieces(s, '\n'), expected);
    }
}

#[test]
fn law_split_join() {
    for s in ["", "x", "#EXTM3U\nhttp://a\n", "a,,b,"] {
        assert_eq!(pieces(s, ',').join(","), s);
        assert_eq!(pieces(s, '\n').join("\n"), s);
    }
}

#[test]
fn without_char_removes_every_occurrence() {
    assert_eq!(string_of(&without_char(&chars_of("\"a\"b\"\""), '"')), "ab");
    assert_eq!(string_of(&without_char(&chars_of(""), '"')), "");
}

#[test]
fn parse_usize_like_from_str_radix() {
    for s in ["0", "42", "+7", "007", "", "+", "-1", "1a", " 1", "18446744073709551615", "18446744073709551616"] {
        assert_eq!(parse_usize(&chars_of(s)), usize::from_str_radix(s, 10).ok(), "{:?}", s);
    }
}

#[test]
fn law_decimal_roundtrip() {
    for n in [0u64, 7, 10, 443, 8080, 65535, 4294967296] {
        let mut s = String::new();
        push_decimal(&mut s, n);
        assert_eq!(s, n.to_string());
        assert_eq!(parse_usize(&chars_of(&s)), Some(n as usize));
    }
}

use m3u8_flash::url_parts::{base_url, UrlParts};

fn parts(domain: Option<&str>, port: Option<u16>) -> UrlParts {
    UrlParts {
        serialization: "https://cdn.example.com:8443/v/index.m3u8".to_string(),
        scheme: "https".to_string(),
        domain: domain.map(|d| d.to_string()),
        port,
    }
}

#[test]
fn base_url_from_parts() {
    assert_eq!(base_url(&parts(Some("cdn.example.com"), Some(8443))), "https://cdn.example.com:8443");
    assert_eq!(base_url(&parts(Some("cdn.example.com"), None)), "https://cdn.example.com");
    assert_eq!(base_url(&parts(None, Some(0))), "https://:0");
    assert_eq!(base_url(&parts(None, None)), "https://");
}

#[test]
fn stream_locate_sets_address_only() {
    let mut s = Stream::new();
    s.bandwidth = 77;
    s.codecs = "avc1".to_string();
    s.output_path = "v.ts".to_string();
    s.locate(&parts(Some("cdn.example.com"), Some(8443)));
    assert_eq!(s.url, "https://cdn.example.com:8443/v/index.m3u8");
    assert_eq!(s.base_url, "https://cdn.example.com:8443");
    assert_eq!(s.bandwidth, 77);
    assert_eq!(s.codecs, "avc1");
    assert_eq!(s.output_path, "v.ts");
}
