//! An alternative rendition together with its stream, and the preparation of
//! its download.
use vstd::prelude::*;

use crate::m3u8::playlist::ScanError;
use crate::stream::{Stream, StreamView};
use crate::text::push_str;
use crate::url_parts::{parse_url, url_parse};

verus! {

/// The kind of an alternative rendition.
#[derive(Debug, Clone, Copy, PartialEq, Eq, Structural)]
pub enum MediaType {
    Audio,
    Subtitles,
}

/// An alternative rendition and the stream its data is read from.
#[derive(Debug, Clone)]
pub struct Media {
    pub _type: MediaType,
    pub url: String,
    pub group_id: String,
    pub name: String,
    pub default: bool,
    pub auto_select: bool,
    pub forced: bool,
    pub language: String,
    pub stream: Stream,
}

/// Where a rendition's download is written: a folder and a file name in it.
pub struct DownloadTarget {
    pub folder_path: String,
    pub file_name: String,
}

/// The folder that the audio of the download `uid` is written to.
pub open spec fn audio_folder(uid: Seq<char>) -> Seq<char> {
    "./generated/"@ + uid + "/audio/"@
}

/// The audio folder of a download is `./generated/`, then the whole job
/// name unchanged, then `/audio/`: its length is the job name's plus 19, and
/// the job name stands, character for character, right after the prefix.
pub proof fn law_audio_folder(uid: Seq<char>)
    ensures
        audio_folder(uid).len() == uid.len() + 19,
        audio_folder(uid).take(12) == "./generated/"@,
        audio_folder(uid).subrange(12, 12 + uid.len() as int) == uid,
        audio_folder(uid).skip(12 + uid.len() as int) == "/audio/"@,
{
    reveal_strlit("./generated/");
    reveal_strlit("/audio/");
    let f = audio_folder(uid);
    assert(f.take(12) =~= "./generated/"@);
    assert(f.subrange(12, 12 + uid.len() as int) =~= uid);
    assert(f.skip(12 + uid.len() as int) =~= "/audio/"@);
}

impl Media {
    /// An audio rendition with empty texts, every flag off, and a stream
    /// that nothing is known of.
    pub fn new() -> (m: Self)
        ensures
            m._type == MediaType::Audio,
            m.url@ == Seq::<char>::empty(),
            m.group_id@ == Seq::<char>::empty(),
            m.name@ == Seq::<char>::empty(),
            m.language@ == Seq::<char>::empty(),
            !m.default,
            !m.auto_select,
            !m.forced,
            m.stream@ == StreamView::empty(),
    {
        Media {
            _type: MediaType::Audio,
            auto_select: false,
            default: false,
            forced: false,
            group_id: String::new(),
            language: String::new(),
            name: String::new(),
            url: String::new(),
            stream: Stream::new(),
        }
    }

    /// Prepares the download of this rendition for the download `uid`: the
    /// rendition's address is parsed and its stream placed there, and the
    /// target is `./generated/{uid}/audio/` with the file `audio.ts`. Where
    /// the address is not a URL, `InvalidUrl` is returned and nothing
    /// changes. Fetching and writing the stream's data is the caller's.
    pub fn save(&mut self, uid: String) -> (r: Result<DownloadTarget, ScanError>)
        ensures
            url_parse(old(self).url@) is None ==> r == Err::<DownloadTarget, ScanError>(
                ScanError::InvalidUrl,
            ) && *final(self) == *old(self),
            url_parse(old(self).url@) matches Some(u) ==> r matches Ok(t) && t.folder_path@
                == audio_folder(uid@) && t.file_name@ == "audio.ts"@ && final(self).stream@
                == old(self).stream@.located(u),
            r matches Ok(t) ==> t.folder_path@.len() == uid@.len() + 19
                && t.folder_path@.subrange(12, 12 + uid@.len() as int) == uid@,
            final(self)._type == old(self)._type,
            final(self).url == old(self).url,
            final(self).group_id == old(self).group_id,
            final(self).name == old(self).name,
            final(self).default == old(self).default,
            final(self).auto_select == old(self).auto_select,
            final(self).forced == old(self).forced,
            final(self).language == old(self).language,
    {
        match parse_url(self.url.as_str()) {
            None => Err(ScanError::InvalidUrl),
            Some(u) => {
                let mut folder_path = String::new();
                push_str(&mut folder_path, "./generated/");
                push_str(&mut folder_path, uid.as_str());
                push_str(&mut folder_path, "/audio/");
                let mut file_name = String::new();
                push_str(&mut file_name, "audio.ts");
                self.stream.locate(&u);
                proof {
                    law_audio_folder(uid@);
                }
                Ok(DownloadTarget { folder_path, file_name })
            },
        }
    }
}

} // verus!
