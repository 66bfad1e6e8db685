//! A master playlist and the reading of its text: every `#EXT-X-MEDIA` line
//! gives an alternative rendition, every `#EXT-X-STREAM-INF` line describes
//! the next variant stream, and the `http` line that follows gives that
//! stream's address.
use vstd::prelude::*;

use crate::m3u8::media::{Media, MediaType, MediaView};
use crate::pattern::regex_is_match;
use crate::stream::{Stream, StreamView};
use crate::text::{
    chars_of, contains_text, lemma_split_nonempty, parse_usize, parse_usize_spec, piece, remove_char, same_chars,
    split_chars, split_on, starts_with, string_of, without_char,
};
use crate::url_parts::{parse_url, url_parse};

verus! {

/// Why a playlist text could not be read. Each is a text on which reading
/// the playlist stops.
#[derive(Debug, Clone, Copy, PartialEq, Eq, Structural)]
pub enum ScanError {
    /// The first line does not hold `#EXTM3U`.
    NotM3u8,
    /// An attribute that is read has its name but no `=` and value.
    MissingValue,
    /// A `BANDWIDTH` value is not an unsigned decimal number that fits.
    InvalidBandwidth,
    /// A line that begins with `http` is not a URL.
    InvalidUrl,
}

/// A master playlist: its own address, its alternative renditions and its
/// variant streams.
#[derive(Debug, Clone)]
pub struct Playlist {
    pub url: String,
    pub media: Vec<Media>,
    pub playlists: Vec<Stream>,
}

/// The mathematical value of a [`Playlist`].
pub struct PlaylistView {
    pub url: Seq<char>,
    pub media: Seq<MediaView>,
    pub playlists: Seq<StreamView>,
}

impl View for Playlist {
    type V = PlaylistView;

    open spec fn view(&self) -> PlaylistView {
        PlaylistView {
            url: self.url@,
            media: self.media@.map_values(|m: Media| m@),
            playlists: self.playlists@.map_values(|s: Stream| s@),
        }
    }
}

// ---------------------------------------------------------------------------
// What reading a playlist text gives
// ---------------------------------------------------------------------------

/// The name of an attribute `NAME=value`: what stands before the first `=`.
pub open spec fn attr_key(part: Seq<char>) -> Seq<char> {
    piece(part, '=', 0)
}

/// The value of an attribute: what stands between the first and the second
/// `=`, or `None` where the attribute holds no `=`.
pub open spec fn attr_value(part: Seq<char>) -> Option<Seq<char>> {
    if split_on(part, '=').len() > 1 {
        Some(split_on(part, '=')[1])
    } else {
        None
    }
}

/// A value with its double quotes taken out.
pub open spec fn unquote(v: Seq<char>) -> Seq<char> {
    remove_char(v, '"')
}

/// The attributes of a tag line: the text between its first and second `:`,
/// split at each `,`.
pub open spec fn attr_list(row: Seq<char>) -> Seq<Seq<char>> {
    split_on(piece(row, ':', 1), ',')
}

/// What one attribute of an `#EXT-X-MEDIA` line does to the rendition.
/// `TYPE` (`AUDIO` or `SUBTITLES`), `URI`, `GROUP-ID`, `LANGUAGE` and
/// `DEFAULT` are read with quotes taken out; `AUTOSELECT` and `FORCED` are
/// compared with `YES` as written; other attributes are passed over.
pub open spec fn media_attr(m: MediaView, part: Seq<char>) -> Result<MediaView, ScanError> {
    let key = attr_key(part);
    let value = attr_value(part);
    if key == "TYPE"@ || key == "URI"@ || key == "GROUP-ID"@ || key == "LANGUAGE"@ || key
        == "DEFAULT"@ || key == "AUTOSELECT"@ || key == "FORCED"@ {
        match value {
            None => Err(ScanError::MissingValue),
            Some(v) => Ok(
                if key == "TYPE"@ {
                    if unquote(v) == "AUDIO"@ {
                        MediaView { _type: MediaType::Audio, ..m }
                    } else if unquote(v) == "SUBTITLES"@ {
                        MediaView { _type: MediaType::Subtitles, ..m }
                    } else {
                        m
                    }
                } else if key == "URI"@ {
                    MediaView { url: unquote(v), ..m }
                } else if key == "GROUP-ID"@ {
                    MediaView { group_id: unquote(v), ..m }
                } else if key == "LANGUAGE"@ {
                    MediaView { language: unquote(v), ..m }
                } else if key == "DEFAULT"@ {
                    MediaView { default: unquote(v) == "YES"@, ..m }
                } else if key == "AUTOSELECT"@ {
                    MediaView { auto_select: v == "YES"@, ..m }
                } else {
                    MediaView { forced: v == "YES"@, ..m }
                },
            ),
        }
    } else {
        Ok(m)
    }
}

/// The attributes `parts` applied one after another, left to right; the
/// first that fails decides the error.
pub open spec fn media_attrs(m: MediaView, parts: Seq<Seq<char>>) -> Result<MediaView, ScanError>
    decreases parts.len(),
{
    if parts.len() == 0 {
        Ok(m)
    } else {
        match media_attrs(m, parts.drop_last()) {
            Ok(m2) => media_attr(m2, parts.last()),
            Err(e) => Err(e),
        }
    }
}

/// The rendition that an `#EXT-X-MEDIA` line describes.
pub open spec fn media_of_row(row: Seq<char>) -> Result<MediaView, ScanError> {
    media_attrs(MediaView::empty(), attr_list(row))
}

/// What one attribute of an `#EXT-X-STREAM-INF` line does to the stream
/// being described: `BANDWIDTH` is read as a decimal number, `CODECS` with
/// quotes taken out, `RESOLUTION` as written; others are passed over.
pub open spec fn stream_attr(s: StreamView, part: Seq<char>) -> Result<StreamView, ScanError> {
    let key = attr_key(part);
    let value = attr_value(part);
    if key == "BANDWIDTH"@ || key == "CODECS"@ || key == "RESOLUTION"@ {
        match value {
            None => Err(ScanError::MissingValue),
            Some(v) => if key == "BANDWIDTH"@ {
                match parse_usize_spec(v) {
                    Some(n) => Ok(StreamView { bandwidth: n, ..s }),
                    None => Err(ScanError::InvalidBandwidth),
                }
            } else if key == "CODECS"@ {
                Ok(StreamView { codecs: unquote(v), ..s })
            } else {
                Ok(StreamView { resolution: v, ..s })
            },
        }
    } else {
        Ok(s)
    }
}

/// The attributes `parts` applied one after another to a stream.
pub open spec fn stream_attrs(s: StreamView, parts: Seq<Seq<char>>) -> Result<
    StreamView,
    ScanError,
>
    decreases parts.len(),
{
    if parts.len() == 0 {
        Ok(s)
    } else {
        match stream_attrs(s, parts.drop_last()) {
            Ok(s2) => stream_attr(s2, parts.last()),
            Err(e) => Err(e),
        }
    }
}

/// Where the reading of a playlist text stands after some of its lines.
pub struct ScanState {
    /// The renditions read so far.
    pub media: Seq<MediaView>,
    /// The streams whose address has been read.
    pub streams: Seq<StreamView>,
    /// The stream being described, whose address has not come yet.
    pub pending: StreamView,
}

/// The state before any line.
pub open spec fn scan_start() -> ScanState {
    ScanState { media: Seq::empty(), streams: Seq::empty(), pending: StreamView::empty() }
}

/// A line that announces an alternative rendition.
pub open spec fn is_media_row(row: Seq<char>) -> bool {
    contains_text(row, "#EXT-X-MEDIA:"@)
}

/// A line that describes the next variant stream.
pub open spec fn is_stream_row(row: Seq<char>) -> bool {
    !is_media_row(row) && contains_text(row, "#EXT-X-STREAM-INF:"@)
}

/// A line that gives the address of the stream just described.
pub open spec fn is_url_row(row: Seq<char>) -> bool {
    !is_media_row(row) && !contains_text(row, "#EXT-X-STREAM-INF:"@) && starts_with(row, "http"@)
}

/// What one line does to the state; `first` tells the first line, which must
/// hold `#EXTM3U`.
pub open spec fn scan_row(st: ScanState, row: Seq<char>, first: bool) -> Result<
    ScanState,
    ScanError,
> {
    if first && !contains_text(row, "#EXTM3U"@) {
        Err(ScanError::NotM3u8)
    } else if is_media_row(row) {
        match media_of_row(row) {
            Ok(m) => Ok(ScanState { media: st.media.push(m), ..st }),
            Err(e) => Err(e),
        }
    } else if is_stream_row(row) {
        match stream_attrs(st.pending, attr_list(row)) {
            Ok(p) => Ok(ScanState { pending: p, ..st }),
            Err(e) => Err(e),
        }
    } else if is_url_row(row) {
        match url_parse(row) {
            Some(u) => Ok(
                ScanState {
                    streams: st.streams.push(st.pending.located(u)),
                    pending: StreamView::empty(),
                    ..st
                },
            ),
            None => Err(ScanError::InvalidUrl),
        }
    } else {
        Ok(st)
    }
}

/// The state after the first `n` lines; the first line that fails decides
/// the error.
pub open spec fn scan_rows(rows: Seq<Seq<char>>, n: int) -> Result<ScanState, ScanError>
    decreases n,
{
    if n <= 0 {
        Ok(scan_start())
    } else {
        match scan_rows(rows, n - 1) {
            Ok(st) => scan_row(st, rows[n - 1], n - 1 == 0),
            Err(e) => Err(e),
        }
    }
}

/// The lines of a playlist text: the pieces between its `\n` characters.
pub open spec fn text_rows(text: Seq<char>) -> Seq<Seq<char>> {
    split_on(text, '\n')
}

/// What reading a whole playlist text gives.
pub open spec fn scan_text(text: Seq<char>) -> Result<ScanState, ScanError> {
    scan_rows(text_rows(text), text_rows(text).len() as int)
}

// ---------------------------------------------------------------------------
// Lemmas: the first failure decides
// ---------------------------------------------------------------------------

/// Once some first attributes of a rendition fail, all of them fail alike.
pub proof fn lemma_media_attrs_err(m: MediaView, parts: Seq<Seq<char>>, k: int, e: ScanError)
    requires
        0 <= k <= parts.len(),
        media_attrs(m, parts.take(k)) == Err::<MediaView, ScanError>(e),
    ensures
        media_attrs(m, parts) == Err::<MediaView, ScanError>(e),
    decreases parts.len(),
{
    if k == parts.len() {
        assert(parts.take(k) == parts);
    } else {
        assert(parts.drop_last().take(k) == parts.take(k));
        lemma_media_attrs_err(m, parts.drop_last(), k, e);
    }
}

/// Once some first attributes of a stream fail, all of them fail alike.
pub proof fn lemma_stream_attrs_err(s: StreamView, parts: Seq<Seq<char>>, k: int, e: ScanError)
    requires
        0 <= k <= parts.len(),
        stream_attrs(s, parts.take(k)) == Err::<StreamView, ScanError>(e),
    ensures
        stream_attrs(s, parts) == Err::<StreamView, ScanError>(e),
    decreases parts.len(),
{
    if k == parts.len() {
        assert(parts.take(k) == parts);
    } else {
        assert(parts.drop_last().take(k) == parts.take(k));
        lemma_stream_attrs_err(s, parts.drop_last(), k, e);
    }
}

/// Once some first lines fail, every longer run of lines fails alike.
pub proof fn lemma_scan_rows_err(rows: Seq<Seq<char>>, k: int, n: int, e: ScanError)
    requires
        0 <= k <= n,
        scan_rows(rows, k) == Err::<ScanState, ScanError>(e),
    ensures
        scan_rows(rows, n) == Err::<ScanState, ScanError>(e),
    decreases n,
{
    if n > k {
        lemma_scan_rows_err(rows, k, n - 1, e);
    }
}

// ---------------------------------------------------------------------------
// Reading, executable
// ---------------------------------------------------------------------------

/// Whether `a` holds exactly the characters of `lit`.
fn is_text(a: &[char], lit: &str) -> (r: bool)
    ensures
        r == (a@ == lit@),
{
    let l = chars_of(lit);
    same_chars(a, l.as_slice())
}

/// The characters of an optional vector.
pub open spec fn opt_seq(o: Option<Vec<char>>) -> Option<Seq<char>> {
    match o {
        Some(v) => Some(v@),
        None => None,
    }
}

/// Splits `NAME=value` into its name and its value.
fn split_attr(part: &[char]) -> (r: (Vec<char>, Option<Vec<char>>))
    ensures
        r.0@ == attr_key(part@),
        opt_seq(r.1) == attr_value(part@),
{
    let mut kv = split_chars(part, '=');
    proof {
        lemma_split_nonempty(part@, '=');
    }
    let ghost kv0 = kv@;
    let value = if kv.len() > 1 {
        Some(kv.remove(1))
    } else {
        None
    };
    assert(kv[0] == kv0[0]);
    let key = kv.remove(0);
    (key, value)
}

/// The attributes of a tag line.
fn attr_list_of(row: &[char]) -> (r: Vec<Vec<char>>)
    ensures
        r.len() == attr_list(row@).len(),
        forall|k: int| 0 <= k < r.len() ==> (#[trigger] r[k])@ == attr_list(row@)[k],
{
    let mut fields = split_chars(row, ':');
    let second: Vec<char> = if fields.len() > 1 {
        fields.remove(1)
    } else {
        Vec::new()
    };
    assert(second@ == piece(row@, ':', 1));
    split_chars(second.as_slice(), ',')
}

/// Applies one attribute of an `#EXT-X-MEDIA` line to `m`.
fn apply_media_attr(m: &mut Media, part: &[char]) -> (r: Result<(), ScanError>)
    ensures
        match media_attr(old(m)@, part@) {
            Ok(mv) => r is Ok && final(m)@ == mv,
            Err(e) => r == Err::<(), ScanError>(e),
        },
{
    let (key, value) = split_attr(part);
    let k = key.as_slice();
    let is_type = is_text(k, "TYPE");
    let is_uri = is_text(k, "URI");
    let is_group = is_text(k, "GROUP-ID");
    let is_language = is_text(k, "LANGUAGE");
    let is_default = is_text(k, "DEFAULT");
    let is_autoselect = is_text(k, "AUTOSELECT");
    let is_forced = is_text(k, "FORCED");
    if !(is_type || is_uri || is_group || is_language || is_default || is_autoselect
        || is_forced) {
        return Ok(());
    }
    match value {
        None => Err(ScanError::MissingValue),
        Some(v) => {
            let raw = v.as_slice();
            let bare = without_char(raw, '"');
            if is_type {
                if is_text(bare.as_slice(), "AUDIO") {
                    m._type = MediaType::Audio;
                } else if is_text(bare.as_slice(), "SUBTITLES") {
                    m._type = MediaType::Subtitles;
                }
            } else if is_uri {
                m.url = string_of(bare.as_slice());
            } else if is_group {
                m.group_id = string_of(bare.as_slice());
            } else if is_language {
                m.language = string_of(bare.as_slice());
            } else if is_default {
                m.default = is_text(bare.as_slice(), "YES");
            } else if is_autoselect {
                m.auto_select = is_text(raw, "YES");
            } else {
                m.forced = is_text(raw, "YES");
            }
            Ok(())
        },
    }
}

/// Reads the rendition that an `#EXT-X-MEDIA` line describes.
fn read_media(row: &[char]) -> (r: Result<Media, ScanError>)
    ensures
        match media_of_row(row@) {
            Ok(mv) => r matches Ok(m) && m@ == mv,
            Err(e) => r matches Err(e2) && e2 == e,
        },
{
    let parts = attr_list_of(row);
    let ghost ps = attr_list(row@);
    let mut m = Media::new();
    let mut i: usize = 0;
    assert(ps.take(0) == Seq::<Seq<char>>::empty());
    while i < parts.len()
        invariant
            i <= parts.len(),
            parts.len() == ps.len(),
            ps == attr_list(row@),
            forall|k: int| 0 <= k < parts.len() ==> (#[trigger] parts[k])@ == ps[k],
            media_attrs(MediaView::empty(), ps.take(i as int)) == Ok::<MediaView, ScanError>(m@),
        decreases parts.len() - i,
    {
        assert(ps.take(i as int + 1).drop_last() == ps.take(i as int));
        assert(ps.take(i as int + 1).last() == parts[i as int]@);
        match apply_media_attr(&mut m, parts[i].as_slice()) {
            Ok(()) => {},
            Err(e) => {
                proof {
                    lemma_media_attrs_err(MediaView::empty(), ps, i as int + 1, e);
                }
                return Err(e);
            },
        }
        i = i + 1;
    }
    assert(ps.take(parts.len() as int) == ps);
    Ok(m)
}

/// Applies one attribute of an `#EXT-X-STREAM-INF` line to `s`.
fn apply_stream_attr(s: &mut Stream, part: &[char]) -> (r: Result<(), ScanError>)
    ensures
        match stream_attr(old(s)@, part@) {
            Ok(sv) => r is Ok && final(s)@ == sv,
            Err(e) => r == Err::<(), ScanError>(e),
        },
{
    let (key, value) = split_attr(part);
    let k = key.as_slice();
    let is_bandwidth = is_text(k, "BANDWIDTH");
    let is_codecs = is_text(k, "CODECS");
    let is_resolution = is_text(k, "RESOLUTION");
    if !(is_bandwidth || is_codecs || is_resolution) {
        return Ok(());
    }
    match value {
        None => Err(ScanError::MissingValue),
        Some(v) => {
            let raw = v.as_slice();
            if is_bandwidth {
                match parse_usize(raw) {
                    Some(n) => {
                        s.bandwidth = n;
                        Ok(())
                    },
                    None => Err(ScanError::InvalidBandwidth),
                }
            } else if is_codecs {
                let bare = without_char(raw, '"');
                s.codecs = string_of(bare.as_slice());
                Ok(())
            } else {
                s.resolution = string_of(raw);
                Ok(())
            }
        },
    }
}

/// Applies the attributes of an `#EXT-X-STREAM-INF` line to `s`.
fn read_stream_attrs(s: &mut Stream, row: &[char]) -> (r: Result<(), ScanError>)
    ensures
        match stream_attrs(old(s)@, attr_list(row@)) {
            Ok(sv) => r is Ok && final(s)@ == sv,
            Err(e) => r == Err::<(), ScanError>(e),
        },
{
    let parts = attr_list_of(row);
    let ghost ps = attr_list(row@);
    let ghost s0 = s@;
    let mut i: usize = 0;
    assert(ps.take(0) == Seq::<Seq<char>>::empty());
    while i < parts.len()
        invariant
            i <= parts.len(),
            parts.len() == ps.len(),
            ps == attr_list(row@),
            s0 == old(s)@,
            forall|k: int| 0 <= k < parts.len() ==> (#[trigger] parts[k])@ == ps[k],
            stream_attrs(s0, ps.take(i as int)) == Ok::<StreamView, ScanError>(s@),
        decreases parts.len() - i,
    {
        assert(ps.take(i as int + 1).drop_last() == ps.take(i as int));
        assert(ps.take(i as int + 1).last() == parts[i as int]@);
        match apply_stream_attr(s, parts[i].as_slice()) {
            Ok(()) => {},
            Err(e) => {
                proof {
                    lemma_stream_attrs_err(s0, ps, i as int + 1, e);
                }
                return Err(e);
            },
        }
        i = i + 1;
    }
    assert(ps.take(parts.len() as int) == ps);
    Ok(())
}

/// The renditions of a vector, as values.
pub open spec fn media_views(v: Seq<Media>) -> Seq<MediaView> {
    v.map_values(|m: Media| m@)
}

/// The streams of a vector, as values.
pub open spec fn stream_views(v: Seq<Stream>) -> Seq<StreamView> {
    v.map_values(|s: Stream| s@)
}

impl Playlist {
    /// A playlist at `url` with no renditions and no streams yet.
    pub fn new(url: String) -> (p: Self)
        ensures
            p@ == (PlaylistView { url: url@, media: Seq::empty(), playlists: Seq::empty() }),
    {
        let p = Playlist { url: url, media: Vec::new(), playlists: Vec::new() };
        assert(p@.media == Seq::<MediaView>::empty());
        assert(p@.playlists == Seq::<StreamView>::empty());
        p
    }

    /// Reads the playlist text `response` (what the playlist's address
    /// served). Where the whole text reads (`scan_text`), its renditions and
    /// streams are appended, in the order of their lines, to those already
    /// held; where it does not, the error of the first failing line is
    /// returned and the playlist is left as it was.
    pub fn scan(&mut self, response: &str) -> (r: Result<(), ScanError>)
        ensures
            match scan_text(response@) {
                Ok(st) => r is Ok && final(self)@ == (PlaylistView {
                    url: old(self)@.url,
                    media: old(self)@.media + st.media,
                    playlists: old(self)@.playlists + st.streams,
                }),
                Err(e) => r == Err::<(), ScanError>(e) && final(self)@ == old(self)@,
            },
    {
        let text = chars_of(response);
        let rows = split_chars(text.as_slice(), '\n');
        let ghost rs = text_rows(response@);
        let mut media: Vec<Media> = Vec::new();
        let mut streams: Vec<Stream> = Vec::new();
        let mut pending = Stream::new();
        let mut i: usize = 0;
        assert(media_views(media@) == Seq::<MediaView>::empty());
        assert(stream_views(streams@) == Seq::<StreamView>::empty());
        while i < rows.len()
            invariant
                i <= rows.len(),
                rows.len() == rs.len(),
                rs == text_rows(response@),
                forall|k: int| 0 <= k < rows.len() ==> (#[trigger] rows[k])@ == rs[k],
                scan_rows(rs, i as int) == Ok::<ScanState, ScanError>(
                    ScanState {
                        media: media_views(media@),
                        streams: stream_views(streams@),
                        pending: pending@,
                    },
                ),
                self@ == old(self)@,
            decreases rows.len() - i,
        {
            let row = rows[i].as_slice();
            let line = string_of(row);
            let ghost st = ScanState {
                media: media_views(media@),
                streams: stream_views(streams@),
                pending: pending@,
            };
            assert(row@ == rs[i as int]);
            proof {
                reveal_strlit("#EXTM3U");
                reveal_strlit("#EXT-X-MEDIA:");
                reveal_strlit("#EXT-X-STREAM-INF:");
                reveal_strlit("^http");
                reveal_strlit("http");
            }
            assert("^http"@.drop_first() == "http"@);
            if i == 0 && !regex_is_match("#EXTM3U", line.as_str()) {
                proof {
                    lemma_scan_rows_err(rs, 1, rs.len() as int, ScanError::NotM3u8);
                }
                return Err(ScanError::NotM3u8);
            }
            if regex_is_match("#EXT-X-MEDIA:", line.as_str()) {
                match read_media(row) {
                    Ok(m) => {
                        media.push(m);
                        assert(media_views(media@) == st.media.push(m@));
                    },
                    Err(e) => {
                        proof {
                            lemma_scan_rows_err(rs, i as int + 1, rs.len() as int, e);
                        }
                        return Err(e);
                    },
                }
            } else if regex_is_match("#EXT-X-STREAM-INF:", line.as_str()) {
                match read_stream_attrs(&mut pending, row) {
                    Ok(()) => {},
                    Err(e) => {
                        proof {
                            lemma_scan_rows_err(rs, i as int + 1, rs.len() as int, e);
                        }
                        return Err(e);
                    },
                }
            } else if regex_is_match("^http", line.as_str()) {
                match parse_url(line.as_str()) {
                    Some(u) => {
                        let mut done = Stream::new();
                        std::mem::swap(&mut done, &mut pending);
                        done.locate(&u);
                        streams.push(done);
                        assert(stream_views(streams@) == st.streams.push(st.pending.located(u@)));
                    },
                    None => {
                        proof {
                            lemma_scan_rows_err(
                                rs,
                                i as int + 1,
                                rs.len() as int,
                                ScanError::InvalidUrl,
                            );
                        }
                        return Err(ScanError::InvalidUrl);
                    },
                }
            }
            i = i + 1;
        }
        let ghost old_media = self@.media;
        let ghost old_streams = self@.playlists;
        let ghost new_media = media_views(media@);
        let ghost new_streams = stream_views(streams@);
        self.media.append(&mut media);
        self.playlists.append(&mut streams);
        assert(self@.media == old_media + new_media);
        assert(self@.playlists == old_streams + new_streams);
        Ok(())
    }
}

} // verus!
