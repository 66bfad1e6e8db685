//! A variant stream of a master playlist: where it is, how it is encoded,
//! and where its downloaded data is written.
use vstd::prelude::*;

use crate::url_parts::{base_url, base_url_spec, UrlParts, UrlPartsView};

verus! {

/// One variant stream announced by a master playlist.
#[derive(Debug, Clone)]
pub struct Stream {
    /// The stream's own playlist address, as the URL parser serializes it.
    pub url: String,
    /// `scheme://domain[:port]` of `url`.
    pub base_url: String,
    /// Where the downloaded stream is written.
    pub output_path: String,
    /// Peak bits per second (`BANDWIDTH`).
    pub bandwidth: usize,
    /// The `CODECS` attribute, quotes taken out.
    pub codecs: String,
    /// The `RESOLUTION` attribute as written.
    pub resolution: String,
}

/// The mathematical value of a [`Stream`].
pub struct StreamView {
    pub url: Seq<char>,
    pub base_url: Seq<char>,
    pub output_path: Seq<char>,
    pub bandwidth: usize,
    pub codecs: Seq<char>,
    pub resolution: Seq<char>,
}

impl View for Stream {
    type V = StreamView;

    open spec fn view(&self) -> StreamView {
        StreamView {
            url: self.url@,
            base_url: self.base_url@,
            output_path: self.output_path@,
            bandwidth: self.bandwidth,
            codecs: self.codecs@,
            resolution: self.resolution@,
        }
    }
}

impl StreamView {
    /// A stream that nothing is known of yet: empty texts, zero bandwidth.
    pub open spec fn empty() -> StreamView {
        StreamView {
            url: Seq::<char>::empty(),
            base_url: Seq::<char>::empty(),
            output_path: Seq::<char>::empty(),
            bandwidth: 0,
            codecs: Seq::<char>::empty(),
            resolution: Seq::<char>::empty(),
        }
    }

    /// The same stream, placed at the parsed address `u`.
    pub open spec fn located(self, u: UrlPartsView) -> StreamView {
        StreamView { url: u.serialization, base_url: base_url_spec(u), ..self }
    }
}

impl Stream {
    /// A stream with empty texts and zero bandwidth.
    pub fn new() -> (s: Self)
        ensures
            s@ == StreamView::empty(),
    {
        Stream {
            url: String::new(),
            base_url: String::new(),
            output_path: String::new(),
            bandwidth: 0,
            codecs: String::new(),
            resolution: String::new(),
        }
    }

    /// Places the stream at a parsed address: `url` becomes the address's
    /// serialization and `base_url` its `scheme://domain[:port]`; nothing
    /// else changes.
    pub fn locate(&mut self, location: &UrlParts)
        ensures
            final(self)@ == old(self)@.located(location@),
    {
        self.url = location.serialization.clone();
        self.base_url = base_url(location);
    }
}

} // verus!
