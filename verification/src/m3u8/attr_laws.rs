//! What the attributes of a tag line do, whatever the line: which attribute
//! sets which field, and which attribute of a line decides it.
use vstd::prelude::*;

use crate::m3u8::media::MediaView;
use crate::m3u8::playlist::{
    attr_key, attr_value, media_attr, media_attrs, stream_attr, stream_attrs, ScanError,
};
use crate::stream::StreamView;
use crate::text::{lemma_remove_char_absent, lemma_split_pair, parse_usize_spec, remove_char};

verus! {

/// The name and value of `name=value`, where neither holds `=`.
proof fn lemma_attr_parts(name: Seq<char>, v: Seq<char>)
    requires
        !name.contains('='),
        !v.contains('='),
    ensures
        attr_key(name + seq!['='] + v) == name,
        attr_value(name + seq!['='] + v) == Some(v),
{
    lemma_split_pair(name, v, '=');
}

/// An attribute not named `DEFAULT` leaves a rendition's default flag as it
/// was.
pub proof fn law_media_default_untouched(m: MediaView, part: Seq<char>)
    ensures
        attr_key(part) != "DEFAULT"@ ==> (media_attr(m, part) matches Ok(m2) ==> m2.default
            == m.default),
{
}

/// An attribute named `DEFAULT` sets a rendition's default flag to whether
/// its value, quotes taken out, is `YES`; without a value it fails.
pub proof fn law_media_default_set(m: MediaView, part: Seq<char>)
    ensures
        attr_key(part) == "DEFAULT"@ ==> match attr_value(part) {
            Some(v) => media_attr(m, part) matches Ok(m2) && m2.default == (remove_char(v, '"')
                == "YES"@),
            None => media_attr(m, part) == Err::<MediaView, ScanError>(ScanError::MissingValue),
        },
{
    reveal_strlit("DEFAULT");
    reveal_strlit("TYPE");
    reveal_strlit("URI");
    reveal_strlit("GROUP-ID");
    reveal_strlit("LANGUAGE");
    reveal_strlit("AUTOSELECT");
    reveal_strlit("FORCED");
    if attr_key(part) == "DEFAULT"@ {
        let key = attr_key(part);
        assert(key.len() == 7);
        assert(key != "TYPE"@);
        assert(key != "URI"@);
        assert(key != "GROUP-ID"@);
        assert(key != "LANGUAGE"@);
    }
}

/// `DEFAULT=value` sets the default flag to whether `value`, quotes taken
/// out, is `YES`, and changes nothing else of the rendition. So `DEFAULT=NO`
/// gives `false`, and `DEFAULT=YES` and `DEFAULT="YES"` give `true`.
pub proof fn law_default_attribute(m: MediaView, v: Seq<char>)
    requires
        !v.contains('='),
    ensures
        media_attr(m, "DEFAULT="@ + v) matches Ok(m2) && m2.default == (remove_char(v, '"')
            == "YES"@) && (MediaView { default: m.default, ..m2 }) == m,
        media_attr(m, "DEFAULT=NO"@) == Ok::<MediaView, ScanError>(
            (MediaView { default: false, ..m }),
        ),
        media_attr(m, "DEFAULT=YES"@) == Ok::<MediaView, ScanError>(
            (MediaView { default: true, ..m }),
        ),
{
    reveal_strlit("DEFAULT=");
    reveal_strlit("DEFAULT");
    reveal_strlit("DEFAULT=NO");
    reveal_strlit("DEFAULT=YES");
    reveal_strlit("NO");
    reveal_strlit("YES");
    reveal_strlit("TYPE");
    reveal_strlit("URI");
    reveal_strlit("GROUP-ID");
    reveal_strlit("LANGUAGE");
    reveal_strlit("AUTOSELECT");
    reveal_strlit("FORCED");
    let name = "DEFAULT"@;
    assert(!name.contains('='));
    assert("DEFAULT="@ == name + seq!['=']);
    assert("DEFAULT="@ + v == name + seq!['='] + v);
    lemma_attr_parts(name, v);
    let no = "NO"@;
    let yes = "YES"@;
    assert(!no.contains('='));
    assert(!yes.contains('='));
    assert("DEFAULT=NO"@ == name + seq!['='] + no);
    assert("DEFAULT=YES"@ == name + seq!['='] + yes);
    lemma_attr_parts(name, no);
    lemma_attr_parts(name, yes);
    assert(!no.contains('"'));
    assert(!yes.contains('"'));
    lemma_remove_char_absent(no, '"');
    lemma_remove_char_absent(yes, '"');
}

/// The default flag of a rendition is decided by the last `DEFAULT`
/// attribute of its line: where `parts[k]` is named `DEFAULT` and no later
/// attribute is, the flag is whether its value, quotes taken out, is `YES`.
pub proof fn law_media_default_last(m: MediaView, parts: Seq<Seq<char>>, k: int)
    requires
        0 <= k < parts.len(),
        attr_key(parts[k]) == "DEFAULT"@,
        forall|i: int| k < i < parts.len() ==> attr_key(#[trigger] parts[i]) != "DEFAULT"@,
    ensures
        media_attrs(m, parts) matches Ok(m2) ==> (attr_value(parts[k]) matches Some(v)
            && m2.default == (remove_char(v, '"') == "YES"@)),
    decreases parts.len(),
{
    if media_attrs(m, parts) is Ok {
        let prev = media_attrs(m, parts.drop_last());
        if let Ok(m1) = prev {
            if k == parts.len() - 1 {
                law_media_default_set(m1, parts.last());
            } else {
                assert forall|i: int| k < i < parts.drop_last().len() implies attr_key(
                    #[trigger] parts.drop_last()[i],
                ) != "DEFAULT"@ by {
                    assert(parts.drop_last()[i] == parts[i]);
                }
                assert(parts.drop_last()[k] == parts[k]);
                law_media_default_last(m, parts.drop_last(), k);
                law_media_default_untouched(m1, parts.last());
            }
        }
    }
}

/// A line with no `DEFAULT` attribute leaves the default flag as it was, so
/// a rendition read from such a line is not the default one.
pub proof fn law_media_default_absent(m: MediaView, parts: Seq<Seq<char>>)
    requires
        forall|i: int| 0 <= i < parts.len() ==> attr_key(#[trigger] parts[i]) != "DEFAULT"@,
    ensures
        media_attrs(m, parts) matches Ok(m2) ==> m2.default == m.default,
    decreases parts.len(),
{
    if parts.len() > 0 {
        assert forall|i: int| 0 <= i < parts.drop_last().len() implies attr_key(
            #[trigger] parts.drop_last()[i],
        ) != "DEFAULT"@ by {
            assert(parts.drop_last()[i] == parts[i]);
        }
        law_media_default_absent(m, parts.drop_last());
        if let Ok(m1) = media_attrs(m, parts.drop_last()) {
            law_media_default_untouched(m1, parts.last());
        }
    }
}

/// An attribute not named `BANDWIDTH` (`AVERAGE-BANDWIDTH` among them)
/// leaves a stream's bandwidth as it was.
pub proof fn law_stream_bandwidth_untouched(s: StreamView, part: Seq<char>)
    ensures
        attr_key(part) != "BANDWIDTH"@ ==> (stream_attr(s, part) matches Ok(s2) ==> s2.bandwidth
            == s.bandwidth),
{
}

/// An attribute named `BANDWIDTH` sets a stream's bandwidth to its value
/// read as an unsigned decimal number; a value that does not read fails.
pub proof fn law_stream_bandwidth_set(s: StreamView, part: Seq<char>)
    ensures
        attr_key(part) == "BANDWIDTH"@ ==> match attr_value(part) {
            Some(v) => match parse_usize_spec(v) {
                Some(n) => stream_attr(s, part) matches Ok(s2) && s2.bandwidth == n,
                None => stream_attr(s, part) == Err::<StreamView, ScanError>(
                    ScanError::InvalidBandwidth,
                ),
            },
            None => stream_attr(s, part) == Err::<StreamView, ScanError>(ScanError::MissingValue),
        },
{
}

/// `AVERAGE-BANDWIDTH=value` does not change a stream's bandwidth.
pub proof fn law_average_bandwidth_ignored(s: StreamView, v: Seq<char>)
    requires
        !v.contains('='),
    ensures
        stream_attr(s, "AVERAGE-BANDWIDTH="@ + v) == Ok::<StreamView, ScanError>(s),
{
    reveal_strlit("AVERAGE-BANDWIDTH=");
    reveal_strlit("AVERAGE-BANDWIDTH");
    reveal_strlit("BANDWIDTH");
    reveal_strlit("CODECS");
    reveal_strlit("RESOLUTION");
    let name = "AVERAGE-BANDWIDTH"@;
    assert(!name.contains('='));
    assert("AVERAGE-BANDWIDTH="@ + v == name + seq!['='] + v);
    lemma_attr_parts(name, v);
}

/// The bandwidth of a stream is decided by the last attribute named exactly
/// `BANDWIDTH`: where `parts[k]` is one and no later attribute is, the
/// bandwidth is its value read as a decimal number.
pub proof fn law_stream_bandwidth_last(s: StreamView, parts: Seq<Seq<char>>, k: int)
    requires
        0 <= k < parts.len(),
        attr_key(parts[k]) == "BANDWIDTH"@,
        forall|i: int| k < i < parts.len() ==> attr_key(#[trigger] parts[i]) != "BANDWIDTH"@,
    ensures
        stream_attrs(s, parts) matches Ok(s2) ==> (attr_value(parts[k]) matches Some(v)
            && parse_usize_spec(v) == Some(s2.bandwidth)),
    decreases parts.len(),
{
    if stream_attrs(s, parts) is Ok {
        if let Ok(s1) = stream_attrs(s, parts.drop_last()) {
            if k == parts.len() - 1 {
                law_stream_bandwidth_set(s1, parts.last());
            } else {
                assert forall|i: int| k < i < parts.drop_last().len() implies attr_key(
                    #[trigger] parts.drop_last()[i],
                ) != "BANDWIDTH"@ by {
                    assert(parts.drop_last()[i] == parts[i]);
                }
                assert(parts.drop_last()[k] == parts[k]);
                law_stream_bandwidth_last(s, parts.drop_last(), k);
                law_stream_bandwidth_untouched(s1, parts.last());
            }
        }
    }
}

/// Attributes none of which is named `BANDWIDTH` leave the bandwidth as it
/// was.
pub proof fn law_stream_bandwidth_absent(s: StreamView, parts: Seq<Seq<char>>)
    requires
        forall|i: int| 0 <= i < parts.len() ==> attr_key(#[trigger] parts[i]) != "BANDWIDTH"@,
    ensures
        stream_attrs(s, parts) matches Ok(s2) ==> s2.bandwidth == s.bandwidth,
    decreases parts.len(),
{
    if parts.len() > 0 {
        assert forall|i: int| 0 <= i < parts.drop_last().len() implies attr_key(
            #[trigger] parts.drop_last()[i],
        ) != "BANDWIDTH"@ by {
            assert(parts.drop_last()[i] == parts[i]);
        }
        law_stream_bandwidth_absent(s, parts.drop_last());
        if let Ok(s1) = stream_attrs(s, parts.drop_last()) {
            law_stream_bandwidth_untouched(s1, parts.last());
        }
    }
}

/// Attributes none of which is named `RESOLUTION` leave the resolution as it
/// was.
pub proof fn law_stream_resolution_absent(s: StreamView, parts: Seq<Seq<char>>)
    requires
        forall|i: int| 0 <= i < parts.len() ==> attr_key(#[trigger] parts[i]) != "RESOLUTION"@,
    ensures
        stream_attrs(s, parts) matches Ok(s2) ==> s2.resolution == s.resolution,
    decreases parts.len(),
{
    if parts.len() > 0 {
        assert forall|i: int| 0 <= i < parts.drop_last().len() implies attr_key(
            #[trigger] parts.drop_last()[i],
        ) != "RESOLUTION"@ by {
            assert(parts.drop_last()[i] == parts[i]);
        }
        law_stream_resolution_absent(s, parts.drop_last());
    }
}

} // verus!
