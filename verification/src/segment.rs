//! Segments: chunks of relocatable code or data. A source file can hold
//! content destined for different regions of the target's memory; the
//! spans of a segment are placed by the out-of-scope linker, so only the
//! data model lives here.

use vstd::prelude::*;

verus! {

/// One relocatable chunk of output. Its load address, run address and
/// alignment are determined by the linker script, out of this crate's
/// scope.
#[derive(Debug)]
pub struct Segment {
    /// The spans making up the segment, in order.
    pub spans: Vec<Span>,
}

/// One span of a segment.
#[derive(Debug, Clone, Copy, PartialEq, Eq, Structural)]
pub enum Span {
    /// A span of packed data.
    Data,
}

impl Segment {
    /// An empty segment.
    pub fn new() -> (s: Segment)
        ensures
            s.spans@ == Seq::<Span>::empty(),
    {
        Segment { spans: Vec::new() }
    }
}

} // verus!
