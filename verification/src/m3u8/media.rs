//! An alternative rendition (`#EXT-X-MEDIA`) of a master playlist.
use vstd::prelude::*;

verus! {

/// The kind of an alternative rendition.
#[derive(Debug, Clone, Copy, PartialEq, Eq, Structural)]
pub enum MediaType {
    Audio,
    Subtitles,
}

/// An alternative rendition as the master playlist announces it.
#[derive(Debug, Clone)]
pub struct Media {
    pub _type: MediaType,
    pub url: String,
    pub group_id: String,
    pub name: String,
    pub default: bool,
    pub auto_select: bool,
    pub forced: bool,
    pub language: String,
}

/// The mathematical value of a [`Media`].
pub struct MediaView {
    pub _type: MediaType,
    pub url: Seq<char>,
    pub group_id: Seq<char>,
    pub name: Seq<char>,
    pub default: bool,
    pub auto_select: bool,
    pub forced: bool,
    pub language: Seq<char>,
}

impl View for Media {
    type V = MediaView;

    open spec fn view(&self) -> MediaView {
        MediaView {
            _type: self._type,
            url: self.url@,
            group_id: self.group_id@,
            name: self.name@,
            default: self.default,
            auto_select: self.auto_select,
            forced: self.forced,
            language: self.language@,
        }
    }
}

impl MediaView {
    /// An audio rendition with empty texts and every flag off.
    pub open spec fn empty() -> MediaView {
        MediaView {
            _type: MediaType::Audio,
            url: Seq::<char>::empty(),
            group_id: Seq::<char>::empty(),
            name: Seq::<char>::empty(),
            default: false,
            auto_select: false,
            forced: false,
            language: Seq::<char>::empty(),
        }
    }
}

impl Media {
    /// An audio rendition with empty texts and every flag off.
    pub fn new() -> (m: Self)
        ensures
            m@ == MediaView::empty(),
    {
        Media {
            _type: MediaType::Audio,
            auto_select: false,
            default: false,
            forced: false,
            group_id: String::new(),
            language: String::new(),
            name: String::new(),
            url: String::new(),
        }
    }
}

} // verus!
