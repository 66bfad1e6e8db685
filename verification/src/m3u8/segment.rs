//! One media segment of a stream.
use vstd::prelude::*;

verus! {

/// A media segment: its duration, its address and its downloaded bytes.
#[derive(Debug, Clone)]
pub struct Segment {
    pub duration: usize,
    pub url: String,
    pub data: Vec<u8>,
}

impl Segment {
    /// A segment of zero duration, with an empty address and no data.
    pub fn new() -> (s: Self)
        ensures
            s.duration == 0,
            s.url@ == Seq::<char>::empty(),
            s.data@ == Seq::<u8>::empty(),
    {
        Segment { url: String::new(), duration: 0, data: Vec::new() }
    }
}

} // verus!
