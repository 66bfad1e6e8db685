//! What reading a playlist text guarantees, whatever the text.
use vstd::prelude::*;

use crate::m3u8::media::MediaView;
use crate::m3u8::playlist::{
    attr_key, attr_list, attr_value, is_media_row, is_stream_row, is_url_row, media_attr, media_attrs, media_of_row,
    scan_row, scan_rows, scan_start, scan_text, stream_attr, stream_attrs, text_rows,
    ScanError, ScanState,
};
use crate::stream::StreamView;
use crate::text::{contains_text, lemma_remove_char_free, lemma_split_nonempty, remove_char};
use crate::url_parts::{base_url_spec, url_parse};
use crate::m3u8::attr_laws::{
    law_media_default_absent, law_media_default_last, law_stream_resolution_absent,
};

verus! {

/// The lines among the first `n` that announce a rendition, in order.
pub open spec fn media_lines(rows: Seq<Seq<char>>, n: int) -> Seq<Seq<char>>
    decreases n,
{
    if n <= 0 {
        Seq::empty()
    } else if is_media_row(rows[n - 1]) {
        media_lines(rows, n - 1).push(rows[n - 1])
    } else {
        media_lines(rows, n - 1)
    }
}

/// The lines among the first `n` that give a stream's address, in order.
pub open spec fn url_lines(rows: Seq<Seq<char>>, n: int) -> Seq<Seq<char>>
    decreases n,
{
    if n <= 0 {
        Seq::empty()
    } else if is_url_row(rows[n - 1]) {
        url_lines(rows, n - 1).push(rows[n - 1])
    } else {
        url_lines(rows, n - 1)
    }
}

/// The attributes of a rendition never fail with `NotM3u8`.
proof fn lemma_media_attrs_not_header(m: MediaView, parts: Seq<Seq<char>>)
    ensures
        media_attrs(m, parts) != Err::<MediaView, ScanError>(ScanError::NotM3u8),
    decreases parts.len(),
{
    if parts.len() > 0 {
        lemma_media_attrs_not_header(m, parts.drop_last());
    }
}

/// The attributes of a stream never fail with `NotM3u8`.
proof fn lemma_stream_attrs_not_header(s: StreamView, parts: Seq<Seq<char>>)
    ensures
        stream_attrs(s, parts) != Err::<StreamView, ScanError>(ScanError::NotM3u8),
    decreases parts.len(),
{
    if parts.len() > 0 {
        lemma_stream_attrs_not_header(s, parts.drop_last());
    }
}

/// `NotM3u8` comes from the first line only, and only where it lacks
/// `#EXTM3U`.
proof fn lemma_header_error_source(rows: Seq<Seq<char>>, n: int)
    ensures
        scan_rows(rows, n) == Err::<ScanState, ScanError>(ScanError::NotM3u8) ==> n >= 1
            && !contains_text(rows[0], "#EXTM3U"@),
    decreases n,
{
    if n > 0 {
        lemma_header_error_source(rows, n - 1);
        match scan_rows(rows, n - 1) {
            Ok(st) => {
                let row = rows[n - 1];
                lemma_media_attrs_not_header(MediaView::empty(), attr_list(row));
                lemma_stream_attrs_not_header(st.pending, attr_list(row));
            },
            Err(e) => {},
        }
    }
}

/// A playlist text is refused as not being M3U8 exactly when its first line
/// does not hold `#EXTM3U`.
pub proof fn law_header_required(text: Seq<char>)
    ensures
        scan_text(text) == Err::<ScanState, ScanError>(ScanError::NotM3u8) <==> !contains_text(
            text_rows(text)[0],
            "#EXTM3U"@,
        ),
{
    let rows = text_rows(text);
    lemma_split_nonempty(text, '\n');
    lemma_header_error_source(rows, rows.len() as int);
    if !contains_text(rows[0], "#EXTM3U"@) {
        assert(scan_rows(rows, 0) == Ok::<ScanState, ScanError>(scan_start()));
        assert(scan_rows(rows, 1) == scan_row(scan_start(), rows[0], true));
        crate::m3u8::playlist::lemma_scan_rows_err(
            rows,
            1,
            rows.len() as int,
            ScanError::NotM3u8,
        );
    }
}

/// After the first `n` lines have been read, the renditions are those that
/// the rendition lines describe, one for each such line and in their order,
/// and the streams sit at the addresses of the address lines, one for each
/// such line and in their order.
pub proof fn law_scan_lines(rows: Seq<Seq<char>>, n: int)
    requires
        0 <= n <= rows.len(),
    ensures
        scan_rows(rows, n) matches Ok(st) ==> {
            &&& st.media.len() == media_lines(rows, n).len()
            &&& forall|j: int|
                0 <= j < st.media.len() ==> media_of_row(#[trigger] media_lines(rows, n)[j]) == Ok::<
                    MediaView,
                    ScanError,
                >(st.media[j])
            &&& st.streams.len() == url_lines(rows, n).len()
            &&& forall|j: int|
                0 <= j < st.streams.len() ==> (url_parse(#[trigger] url_lines(rows, n)[j]) matches Some(
                    u,
                ) && st.streams[j].url == u.serialization && st.streams[j].base_url
                    == base_url_spec(u))
        },
    decreases n,
{
    if n > 0 {
        law_scan_lines(rows, n - 1);
        match scan_rows(rows, n - 1) {
            Ok(prev) => {
                let row = rows[n - 1];
                let ml = media_lines(rows, n);
                let ul = url_lines(rows, n);
                let pml = media_lines(rows, n - 1);
                let pul = url_lines(rows, n - 1);
                match scan_rows(rows, n) {
                    Ok(st) => {
                        if is_media_row(row) {
                            assert(ml == pml.push(row));
                            assert(ul == pul);
                            assert forall|j: int| 0 <= j < st.media.len() implies media_of_row(
                                #[trigger] ml[j],
                            ) == Ok::<MediaView, ScanError>(st.media[j]) by {
                                if j < pml.len() {
                                    assert(ml[j] == pml[j]);
                                }
                            }
                        } else if is_stream_row(row) {
                            assert(ml == pml);
                            assert(ul == pul);
                        } else if is_url_row(row) {
                            assert(ml == pml);
                            assert(ul == pul.push(row));
                            assert forall|j: int| 0 <= j < st.streams.len() implies (url_parse(
                                #[trigger] ul[j],
                            ) matches Some(u) && st.streams[j].url == u.serialization
                                && st.streams[j].base_url == base_url_spec(u)) by {
                                if j < pul.len() {
                                    assert(ul[j] == pul[j]);
                                    assert(st.streams[j] == prev.streams[j]);
                                }
                            }
                        } else {
                            assert(ml == pml);
                            assert(ul == pul);
                        }
                    },
                    Err(_) => {},
                }
            },
            Err(_) => {},
        }
    }
}

/// The same, for a whole playlist text.
pub proof fn law_scan_text_lines(text: Seq<char>)
    ensures
        scan_text(text) matches Ok(st) ==> {
            let rows = text_rows(text);
            let n = rows.len() as int;
            &&& st.media.len() == media_lines(rows, n).len()
            &&& forall|j: int|
                0 <= j < st.media.len() ==> media_of_row(#[trigger] media_lines(rows, n)[j]) == Ok::<
                    MediaView,
                    ScanError,
                >(st.media[j])
            &&& st.streams.len() == url_lines(rows, n).len()
            &&& forall|j: int|
                0 <= j < st.streams.len() ==> (url_parse(#[trigger] url_lines(rows, n)[j]) matches Some(
                    u,
                ) && st.streams[j].url == u.serialization && st.streams[j].base_url
                    == base_url_spec(u))
        },
{
    let rows = text_rows(text);
    law_scan_lines(rows, rows.len() as int);
}

/// What a run of `#EXT-X-STREAM-INF` lines describes, read from a stream
/// that nothing is known of: their attributes, line after line.
pub open spec fn describe(lines: Seq<Seq<char>>) -> Result<StreamView, ScanError>
    decreases lines.len(),
{
    if lines.len() == 0 {
        Ok(StreamView::empty())
    } else {
        match describe(lines.drop_last()) {
            Ok(s) => stream_attrs(s, attr_list(lines.last())),
            Err(e) => Err(e),
        }
    }
}

/// The stream description lines among the first `n` that come after the
/// last address line (all of them, where there is none).
pub open spec fn open_description(rows: Seq<Seq<char>>, n: int) -> Seq<Seq<char>>
    decreases n,
{
    if n <= 0 {
        Seq::empty()
    } else if is_url_row(rows[n - 1]) {
        Seq::empty()
    } else if is_stream_row(rows[n - 1]) {
        open_description(rows, n - 1).push(rows[n - 1])
    } else {
        open_description(rows, n - 1)
    }
}

/// For each address line among the first `n`, in order, the stream
/// description lines between the address line before it and itself.
pub open spec fn descriptions(rows: Seq<Seq<char>>, n: int) -> Seq<Seq<Seq<char>>>
    decreases n,
{
    if n <= 0 {
        Seq::empty()
    } else if is_url_row(rows[n - 1]) {
        descriptions(rows, n - 1).push(open_description(rows, n - 1))
    } else {
        descriptions(rows, n - 1)
    }
}

/// Each stream is its own description and nothing else: the `j`-th stream
/// is what the `#EXT-X-STREAM-INF` lines between the `(j-1)`-th and the
/// `j`-th address line describe of a stream that nothing is known of,
/// placed at the `j`-th address. Nothing of an earlier stream is carried
/// over to a later one; the stream still being described is what the lines
/// after the last address describe.
pub proof fn law_stream_descriptions(rows: Seq<Seq<char>>, n: int)
    requires
        0 <= n <= rows.len(),
    ensures
        scan_rows(rows, n) matches Ok(st) ==> {
            &&& describe(open_description(rows, n)) == Ok::<StreamView, ScanError>(st.pending)
            &&& st.streams.len() == descriptions(rows, n).len()
            &&& st.streams.len() == url_lines(rows, n).len()
            &&& forall|j: int|
                0 <= j < st.streams.len() ==> (describe(#[trigger] descriptions(rows, n)[j]) matches Ok(
                    d,
                ) && url_parse(url_lines(rows, n)[j]) matches Some(u) && st.streams[j]
                    == d.located(u))
        },
    decreases n,
{
    law_scan_lines(rows, n);
    if n > 0 {
        law_stream_descriptions(rows, n - 1);
        match scan_rows(rows, n - 1) {
            Ok(prev) => {
                let row = rows[n - 1];
                let od = open_description(rows, n);
                let pod = open_description(rows, n - 1);
                let ds = descriptions(rows, n);
                let pds = descriptions(rows, n - 1);
                let ul = url_lines(rows, n);
                let pul = url_lines(rows, n - 1);
                match scan_rows(rows, n) {
                    Ok(st) => {
                        if is_media_row(row) {
                            assert(od == pod);
                            assert(ds == pds);
                            assert(ul == pul);
                        } else if is_stream_row(row) {
                            assert(od == pod.push(row));
                            assert(od.drop_last() == pod);
                            assert(ds == pds);
                            assert(ul == pul);
                        } else if is_url_row(row) {
                            assert(od == Seq::<Seq<char>>::empty());
                            assert(ds == pds.push(pod));
                            assert(ul == pul.push(row));
                            assert forall|j: int| 0 <= j < st.streams.len() implies (describe(
                                #[trigger] ds[j],
                            ) matches Ok(d) && url_parse(ul[j]) matches Some(u) && st.streams[j]
                                == d.located(u)) by {
                                if j < pds.len() {
                                    assert(ds[j] == pds[j]);
                                    assert(ul[j] == pul[j]);
                                    assert(st.streams[j] == prev.streams[j]);
                                }
                            }
                        } else {
                            assert(od == pod);
                            assert(ds == pds);
                            assert(ul == pul);
                        }
                    },
                    Err(_) => {},
                }
            },
            Err(_) => {},
        }
    }
}

/// A stream whose description lines carry no `RESOLUTION` attribute has an
/// empty resolution, whatever streams came before it.
pub proof fn law_stream_resolution_fresh(rows: Seq<Seq<char>>, n: int, j: int)
    requires
        0 <= n <= rows.len(),
        0 <= j < descriptions(rows, n).len(),
        forall|l: int, i: int|
            0 <= l < descriptions(rows, n)[j].len() && 0 <= i < attr_list(
                descriptions(rows, n)[j][l],
            ).len() ==> attr_key(#[trigger] attr_list(descriptions(rows, n)[j][l])[i])
                != "RESOLUTION"@,
    ensures
        scan_rows(rows, n) matches Ok(st) ==> st.streams[j].resolution == Seq::<char>::empty(),
{
    law_stream_descriptions(rows, n);
    let lines = descriptions(rows, n)[j];
    lemma_describe_no_resolution(lines);
}

/// Description lines with no `RESOLUTION` attribute describe a stream with
/// an empty resolution.
proof fn lemma_describe_no_resolution(lines: Seq<Seq<char>>)
    requires
        forall|l: int, i: int|
            0 <= l < lines.len() && 0 <= i < attr_list(lines[l]).len() ==> attr_key(
                #[trigger] attr_list(lines[l])[i],
            ) != "RESOLUTION"@,
    ensures
        describe(lines) matches Ok(d) ==> d.resolution == Seq::<char>::empty(),
    decreases lines.len(),
{
    if lines.len() > 0 {
        let prev = lines.drop_last();
        assert forall|l: int, i: int|
            0 <= l < prev.len() && 0 <= i < attr_list(prev[l]).len() implies attr_key(
            #[trigger] attr_list(prev[l])[i],
        ) != "RESOLUTION"@ by {
            assert(prev[l] == lines[l]);
        }
        lemma_describe_no_resolution(prev);
        let parts = attr_list(lines.last());
        assert forall|i: int| 0 <= i < parts.len() implies attr_key(#[trigger] parts[i])
            != "RESOLUTION"@ by {
            assert(lines.last() == lines[lines.len() - 1]);
        }
        if let Ok(s) = describe(prev) {
            law_stream_resolution_absent(s, parts);
        }
    }
}

/// The `j`-th rendition read is the default one exactly when the last
/// `DEFAULT` attribute of its line (`k`-th of the line's attributes) has the
/// value `YES` once quotes are taken out; a line with no `DEFAULT` attribute
/// gives a rendition that is not the default.
pub proof fn law_scan_media_default(rows: Seq<Seq<char>>, n: int, j: int, k: int)
    requires
        0 <= n <= rows.len(),
        0 <= j < media_lines(rows, n).len(),
    ensures
        scan_rows(rows, n) matches Ok(st) ==> {
            let parts = attr_list(media_lines(rows, n)[j]);
            &&& (0 <= k < parts.len() && attr_key(parts[k]) == "DEFAULT"@ && (forall|i: int|
                k < i < parts.len() ==> attr_key(#[trigger] parts[i]) != "DEFAULT"@))
                ==> (attr_value(parts[k]) matches Some(v) && st.media[j].default == (remove_char(
                v,
                '"',
            ) == "YES"@))
            &&& (forall|i: int| 0 <= i < parts.len() ==> attr_key(#[trigger] parts[i]) != "DEFAULT"@)
                ==> !st.media[j].default
        },
{
    law_scan_lines(rows, n);
    let parts = attr_list(media_lines(rows, n)[j]);
    if 0 <= k < parts.len() && attr_key(parts[k]) == "DEFAULT"@ && (forall|i: int|
        k < i < parts.len() ==> attr_key(#[trigger] parts[i]) != "DEFAULT"@) {
        law_media_default_last(MediaView::empty(), parts, k);
    }
    if forall|i: int| 0 <= i < parts.len() ==> attr_key(#[trigger] parts[i]) != "DEFAULT"@ {
        law_media_default_absent(MediaView::empty(), parts);
    }
}

/// A rendition whose address, group and language hold no double quote.
pub open spec fn media_unquoted(m: MediaView) -> bool {
    !m.url.contains('"') && !m.group_id.contains('"') && !m.language.contains('"')
}

/// A stream whose codecs hold no double quote.
pub open spec fn stream_unquoted(s: StreamView) -> bool {
    !s.codecs.contains('"')
}

proof fn lemma_media_attrs_unquoted(m: MediaView, parts: Seq<Seq<char>>)
    requires
        media_unquoted(m),
    ensures
        media_attrs(m, parts) matches Ok(m2) ==> media_unquoted(m2),
    decreases parts.len(),
{
    if parts.len() > 0 {
        lemma_media_attrs_unquoted(m, parts.drop_last());
        match media_attrs(m, parts.drop_last()) {
            Ok(m1) => {
                let v = crate::m3u8::playlist::attr_value(parts.last());
                match v {
                    Some(v) => lemma_remove_char_free(v, '"'),
                    None => {},
                }
                assert(media_attr(m1, parts.last()) matches Ok(m2) ==> media_unquoted(m2));
            },
            Err(_) => {},
        }
    }
}

proof fn lemma_stream_attrs_unquoted(s: StreamView, parts: Seq<Seq<char>>)
    requires
        stream_unquoted(s),
    ensures
        stream_attrs(s, parts) matches Ok(s2) ==> stream_unquoted(s2),
    decreases parts.len(),
{
    if parts.len() > 0 {
        lemma_stream_attrs_unquoted(s, parts.drop_last());
        match stream_attrs(s, parts.drop_last()) {
            Ok(s1) => {
                let v = crate::m3u8::playlist::attr_value(parts.last());
                match v {
                    Some(v) => lemma_remove_char_free(v, '"'),
                    None => {},
                }
                assert(stream_attr(s1, parts.last()) matches Ok(s2) ==> stream_unquoted(s2));
            },
            Err(_) => {},
        }
    }
}

proof fn lemma_scan_rows_unquoted(rows: Seq<Seq<char>>, n: int)
    ensures
        scan_rows(rows, n) matches Ok(st) ==> {
            &&& forall|j: int| 0 <= j < st.media.len() ==> media_unquoted(#[trigger] st.media[j])
            &&& forall|j: int|
                0 <= j < st.streams.len() ==> stream_unquoted(#[trigger] st.streams[j])
            &&& stream_unquoted(st.pending)
        },
    decreases n,
{
    if n <= 0 {
        assert(!Seq::<char>::empty().contains('"'));
    } else {
        lemma_scan_rows_unquoted(rows, n - 1);
        match scan_rows(rows, n - 1) {
            Ok(prev) => {
                let row = rows[n - 1];
                assert(!Seq::<char>::empty().contains('"'));
                assert(media_unquoted(MediaView::empty()));
                lemma_media_attrs_unquoted(MediaView::empty(), attr_list(row));
                lemma_stream_attrs_unquoted(prev.pending, attr_list(row));
                match scan_rows(rows, n) {
                    Ok(st) => {
                        assert forall|j: int| 0 <= j < st.media.len() implies media_unquoted(
                            #[trigger] st.media[j],
                        ) by {
                            if j < prev.media.len() {
                                assert(st.media[j] == prev.media[j]);
                            }
                        }
                        assert forall|j: int| 0 <= j < st.streams.len() implies stream_unquoted(
                            #[trigger] st.streams[j],
                        ) by {
                            if j < prev.streams.len() {
                                assert(st.streams[j] == prev.streams[j]);
                            }
                        }
                    },
                    Err(_) => {},
                }
            },
            Err(_) => {},
        }
    }
}

/// The texts that are read with their quotes taken out hold no double quote
/// afterwards: a rendition's address, group and language, a stream's codecs.
pub proof fn law_scan_unquoted(text: Seq<char>)
    ensures
        scan_text(text) matches Ok(st) ==> {
            &&& forall|j: int| 0 <= j < st.media.len() ==> media_unquoted(#[trigger] st.media[j])
            &&& forall|j: int|
                0 <= j < st.streams.len() ==> stream_unquoted(#[trigger] st.streams[j])
        },
{
    lemma_scan_rows_unquoted(text_rows(text), text_rows(text).len() as int);
}

} // verus!
