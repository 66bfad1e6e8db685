//! The parts of an absolute URL that the library reads, taken from the
//! `url` crate's parser, and the base address built from them.
use vstd::prelude::*;

use crate::text::{decimal, push_char, push_decimal, push_str};

verus! {

/// What the library keeps of a parsed URL: its serialization, its scheme,
/// its host when that is a domain, and its explicit port.
#[derive(Debug, Clone)]
pub struct UrlParts {
    pub serialization: String,
    pub scheme: String,
    pub domain: Option<String>,
    pub port: Option<u16>,
}

/// The mathematical value of a [`UrlParts`].
pub struct UrlPartsView {
    pub serialization: Seq<char>,
    pub scheme: Seq<char>,
    pub domain: Option<Seq<char>>,
    pub port: Option<u16>,
}

/// The characters of an optional string.
pub open spec fn opt_chars(o: Option<String>) -> Option<Seq<char>> {
    match o {
        Some(s) => Some(s@),
        None => None,
    }
}

impl View for UrlParts {
    type V = UrlPartsView;

    open spec fn view(&self) -> UrlPartsView {
        UrlPartsView {
            serialization: self.serialization@,
            scheme: self.scheme@,
            domain: opt_chars(self.domain),
            port: self.port,
        }
    }
}

/// What `url::Url::parse` makes of `input`: `None` where it refuses the
/// input, else the parts that the library reads of the URL.
pub uninterp spec fn url_parse(input: Seq<char>) -> Option<UrlPartsView>;

/// The value of an optional parse result.
pub open spec fn opt_parts(o: Option<UrlParts>) -> Option<UrlPartsView> {
    match o {
        Some(p) => Some(p@),
        None => None,
    }
}

/// `url::Url::parse(input)`, read through `to_string`, `scheme`, `domain`
/// and `port`. The result is claimed to be the named `url_parse` of the
/// input: the same text always parses to the same parts. What the parser
/// accepts and how it normalises is not stated.
#[verifier::external_body]
pub(crate) fn parse_url(input: &str) -> (r: Option<UrlParts>)
    ensures
        opt_parts(r) == url_parse(input@),
{
    match url::Url::parse(input) {
        Ok(u) => Some(
            UrlParts {
                serialization: u.to_string(),
                scheme: u.scheme().to_string(),
                domain: u.domain().map(String::from),
                port: u.port(),
            },
        ),
        Err(_) => None,
    }
}

/// The domain, or the empty text where the URL has none.
pub open spec fn domain_or_empty(d: Option<Seq<char>>) -> Seq<char> {
    match d {
        Some(s) => s,
        None => Seq::<char>::empty(),
    }
}

/// `:` and the port in decimal, or nothing where no port is given.
pub open spec fn port_suffix(p: Option<u16>) -> Seq<char> {
    match p {
        Some(n) => seq![':'] + decimal(n as nat),
        None => Seq::<char>::empty(),
    }
}

/// `scheme://domain[:port]`, the address that segment paths are resolved
/// against.
pub open spec fn base_url_spec(u: UrlPartsView) -> Seq<char> {
    u.scheme + seq![':', '/', '/'] + domain_or_empty(u.domain) + port_suffix(u.port)
}

/// Builds `scheme://domain[:port]` from the parts of a URL (no domain gives
/// the empty text in its place, no port gives nothing after it).
pub fn base_url(u: &UrlParts) -> (r: String)
    ensures
        r@ == base_url_spec(u@),
{
    let mut s = String::new();
    push_str(&mut s, u.scheme.as_str());
    push_char(&mut s, ':');
    push_char(&mut s, '/');
    push_char(&mut s, '/');
    match &u.domain {
        Some(d) => push_str(&mut s, d.as_str()),
        None => {},
    }
    match u.port {
        Some(p) => {
            push_char(&mut s, ':');
            push_decimal(&mut s, p as u64);
        },
        None => {},
    }
    proof {
        let uv = u@;
        assert(s@ == base_url_spec(uv));
    }
    s
}

} // verus!
