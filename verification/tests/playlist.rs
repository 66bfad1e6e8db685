use m3u8_flash::m3u8::media::MediaType;
use m3u8_flash::m3u8::playlist::{Playlist, ScanError};

const MASTER: &str = "#EXTM3U\n\
#EXT-X-VERSION:3\n\
#EXT-X-MEDIA:TYPE=AUDIO,GROUP-ID=\"aud\",LANGUAGE=\"en\",NAME=\"English\",DEFAULT=YES,AUTOSELECT=YES,URI=\"audio/en.m3u8\"\n\
#EXT-X-MEDIA:TYPE=SUBTITLES,GROUP-ID=\"subs\",LANGUAGE=\"it\",DEFAULT=\"YES\",AUTOSELECT=\"YES\",FORCED=NO,URI=\"subs/it.m3u8\"\n\
#EXT-X-STREAM-INF:BANDWIDTH=1280000,CODECS=\"avc1.4d401f,mp4a.40.2\",RESOLUTION=640x360\n\
https://cdn.example.com/video/360p.m3u8\n\
#EXT-X-STREAM-INF:BANDWIDTH=2560000,RESOLUTION=1280x720\n\
http://Media.Example.COM:8080/video/720p.m3u8\n";

fn scanned(text: &str) -> Playlist {
    let mut p = Playlist::new("https://example.com/master.m3u8".to_string());
    assert_eq!(p.scan(text), Ok(()));
    p
}

#[test]
fn new_playlist_is_empty() {
    let p = Playlist::new("https://example.com/master.m3u8".to_string());
    assert_eq!(p.url, "https://example.com/master.m3u8");
    assert!(p.media.is_empty());
    assert!(p.playlists.is_empty());
}

#[test]
fn scan_reads_renditions_in_order() {
    let p = scanned(MASTER);
    assert_eq!(p.media.len(), 2);
    let a = &p.media[0];
    assert!(matches!(a._type, MediaType::Audio));
    assert_eq!(a.group_id, "aud");
    assert_eq!(a.language, "en");
    assert_eq!(a.url, "audio/en.m3u8");
    assert_eq!(a.name, "");
    assert!(a.default);
    assert!(a.auto_select);
    assert!(!a.forced);
    let s = &p.media[1];
    assert!(matches!(s._type, MediaType::Subtitles));
    assert_eq!(s.group_id, "subs");
    assert_eq!(s.language, "it");
    // DEFAULT is read without its quotes, AUTOSELECT as written.
    assert!(s.default);
    assert!(!s.auto_select);
    assert!(!s.forced);
}

#[test]
fn scan_reads_streams_in_order() {
    let p = scanned(MASTER);
    assert_eq!(p.playlists.len(), 2);
    let low = &p.playlists[0];
    assert_eq!(low.bandwidth, 1280000);
    // The codec list is cut at its first comma, as the attributes are.
    assert_eq!(low.codecs, "avc1.4d401f");
    assert_eq!(low.resolution, "640x360");
    assert_eq!(low.url, "https://cdn.example.com/video/360p.m3u8");
    assert_eq!(low.base_url, "https://cdn.example.com");
    let high = &p.playlists[1];
    assert_eq!(high.bandwidth, 2560000);
    assert_eq!(high.codecs, "");
    assert_eq!(high.resolution, "1280x720");
    // The URL parser lower-cases the host; the explicit port is kept.
    assert_eq!(high.url, "http://media.example.com:8080/video/720p.m3u8");
    assert_eq!(high.base_url, "http://media.example.com:8080");
}

#[test]
fn scan_default_port_and_ip_host() {
    let p = scanned("#EXTM3U\nhttps://example.com:443/a.m3u8\nhttp://127.0.0.1:8000/b.m3u8\n");
    assert_eq!(p.playlists.len(), 2);
    assert_eq!(p.playlists[0].url, "https://example.com/a.m3u8");
    assert_eq!(p.playlists[0].base_url, "https://example.com");
    // An IP address is no domain: the base address has no host.
    assert_eq!(p.playlists[1].url, "http://127.0.0.1:8000/b.m3u8");
    assert_eq!(p.playlists[1].base_url, "http://:8000");
}

#[test]
fn scan_uri_with_scheme_is_cut_at_colon() {
    let p = scanned("#EXTM3U\n#EXT-X-MEDIA:TYPE=AUDIO,URI=\"https://cdn.example.com/a.m3u8\"\n");
    assert_eq!(p.media.len(), 1);
    assert_eq!(p.media[0].url, "https");
}

#[test]
fn scan_stream_description_resets_after_address() {
    let p = scanned(
        "#EXTM3U\n#EXT-X-STREAM-INF:BANDWIDTH=+500,CODECS=\"mp4a.40.2\"\nhttp://a.example/1\nhttp://a.example/2\n",
    );
    assert_eq!(p.playlists.len(), 2);
    assert_eq!(p.playlists[0].bandwidth, 500);
    assert_eq!(p.playlists[0].codecs, "mp4a.40.2");
    assert_eq!(p.playlists[1].bandwidth, 0);
    assert_eq!(p.playlists[1].codecs, "");
    assert_eq!(p.playlists[1].url, "http://a.example/2");
}

#[test]
fn scan_ignores_other_lines() {
    let p = scanned("#EXTM3U\n#EXT-X-INDEPENDENT-SEGMENTS\n\n# comment\nftp://x.example/a\n");
    assert!(p.media.is_empty());
    assert!(p.playlists.is_empty());
}

#[test]
fn scan_crlf_lines() {
    let p = scanned("#EXTM3U\r\n#EXT-X-MEDIA:TYPE=AUDIO,LANGUAGE=\"en\"\r\nhttps://a.example/v.m3u8\r\n");
    assert_eq!(p.media.len(), 1);
    assert_eq!(p.media[0].language, "en\r");
    assert_eq!(p.playlists.len(), 1);
    assert_eq!(p.playlists[0].url, "https://a.example/v.m3u8");
}

#[test]
fn scan_appends_to_what_is_held() {
    let mut p = scanned("#EXTM3U\n#EXT-X-MEDIA:TYPE=AUDIO,GROUP-ID=\"one\"\nhttp://a.example/1\n");
    assert_eq!(p.scan("#EXTM3U\n#EXT-X-MEDIA:TYPE=SUBTITLES,GROUP-ID=\"two\"\nhttp://a.example/2\n"), Ok(()));
    assert_eq!(p.media.len(), 2);
    assert_eq!(p.media[0].group_id, "one");
    assert_eq!(p.media[1].group_id, "two");
    assert_eq!(p.playlists.len(), 2);
    assert_eq!(p.playlists[0].url, "http://a.example/1");
    assert_eq!(p.playlists[1].url, "http://a.example/2");
}

#[test]
fn scan_empty_text_is_not_m3u8() {
    let mut p = Playlist::new("u".to_string());
    assert_eq!(p.scan(""), Err(ScanError::NotM3u8));
}

#[test]
fn scan_header_must_be_on_first_line() {
    let mut p = Playlist::new("u".to_string());
    assert_eq!(p.scan("#EXT-X-VERSION:3\n#EXTM3U\n"), Err(ScanError::NotM3u8));
    // The header may stand anywhere in the first line.
    let q = scanned("  #EXTM3U  \n");
    assert!(q.media.is_empty());
}

#[test]
fn scan_missing_value() {
    let mut p = Playlist::new("u".to_string());
    assert_eq!(p.scan("#EXTM3U\n#EXT-X-MEDIA:TYPE\n"), Err(ScanError::MissingValue));
    assert_eq!(p.scan("#EXTM3U\n#EXT-X-STREAM-INF:RESOLUTION\n"), Err(ScanError::MissingValue));
    // An attribute that is not read may lack its value.
    let q = scanned("#EXTM3U\n#EXT-X-MEDIA:CHARACTERISTICS,TYPE=AUDIO\n");
    assert_eq!(q.media.len(), 1);
}

#[test]
fn scan_invalid_bandwidth() {
    let mut p = Playlist::new("u".to_string());
    assert_eq!(p.scan("#EXTM3U\n#EXT-X-STREAM-INF:BANDWIDTH=fast\n"), Err(ScanError::InvalidBandwidth));
    assert_eq!(p.scan("#EXTM3U\n#EXT-X-STREAM-INF:BANDWIDTH=-5\n"), Err(ScanError::InvalidBandwidth));
    assert_eq!(p.scan("#EXTM3U\n#EXT-X-STREAM-INF:BANDWIDTH=\n"), Err(ScanError::InvalidBandwidth));
    assert_eq!(
        p.scan("#EXTM3U\n#EXT-X-STREAM-INF:BANDWIDTH=999999999999999999999999\n"),
        Err(ScanError::InvalidBandwidth)
    );
}

#[test]
fn scan_invalid_url() {
    let mut p = Playlist::new("u".to_string());
    assert_eq!(p.scan("#EXTM3U\nhttpfoo\n"), Err(ScanError::InvalidUrl));
    assert_eq!(p.scan("#EXTM3U\nhttp://[::1\n"), Err(ScanError::InvalidUrl));
}

#[test]
fn failed_scan_leaves_playlist_unchanged() {
    let mut p = scanned("#EXTM3U\n#EXT-X-MEDIA:TYPE=AUDIO\nhttp://a.example/1\n");
    assert_eq!(
        p.scan("#EXTM3U\n#EXT-X-MEDIA:TYPE=AUDIO\nhttp://a.example/2\n#EXT-X-STREAM-INF:BANDWIDTH=x\n"),
        Err(ScanError::InvalidBandwidth)
    );
    assert_eq!(p.media.len(), 1);
    assert_eq!(p.playlists.len(), 1);
    assert_eq!(p.playlists[0].url, "http://a.example/1");
}

#[test]
fn first_failing_line_decides_the_error() {
    let mut p = Playlist::new("u".to_string());
    assert_eq!(
        p.scan("#EXTM3U\n#EXT-X-STREAM-INF:BANDWIDTH=x\nhttpfoo\n"),
        Err(ScanError::InvalidBandwidth)
    );
    assert_eq!(
        p.scan("#EXTM3U\nhttpfoo\n#EXT-X-STREAM-INF:BANDWIDTH=x\n"),
        Err(ScanError::InvalidUrl)
    );
}

#[test]
fn law_counts_match_lines() {
    // One rendition per rendition line, one stream per address line.
    let p = scanned(MASTER);
    let media_lines = MASTER.split('\n').filter(|l| l.contains("#EXT-X-MEDIA:")).count();
    let url_lines = MASTER
        .split('\n')
        .filter(|l| !l.contains("#EXT-X-MEDIA:") && !l.contains("#EXT-X-STREAM-INF:") && l.starts_with("http"))
        .count();
    assert_eq!(p.media.len(), media_lines);
    assert_eq!(p.playlists.len(), url_lines);
}

#[test]
fn law_unquoted_values() {
    let p = scanned("#EXTM3U\n#EXT-X-MEDIA:URI=\"a\"\"b\",GROUP-ID=\"g\",LANGUAGE=\"\"\n#EXT-X-STREAM-INF:CODECS=\"x\"\"\"\nhttp://a.example/\n");
    assert_eq!(p.media[0].url, "ab");
    assert_eq!(p.media[0].group_id, "g");
    assert_eq!(p.media[0].language, "");
    assert_eq!(p.playlists[0].codecs, "x");
    for m in &p.media {
        assert!(!m.url.contains('"') && !m.group_id.contains('"') && !m.language.contains('"'));
    }
}
