//! Byte spans and source locations.
//!
//! A span is a half-open-free pair of byte offsets into a single source
//! file: `start` is the offset of the first byte of the spanned text and
//! `end` the offset one past its last byte. The cursor classifier treats
//! both boundaries as inside the span.

use vstd::prelude::*;

verus! {

/// Identity of a source file, a dense index into the file table.
#[derive(Clone, Copy, PartialEq, Eq, Structural, Debug)]
pub struct FileId(pub u32);

/// A region of a source file, in byte offsets.
#[derive(Clone, Copy, PartialEq, Eq, Structural, Debug)]
pub struct Span {
    pub start: u32,
    pub end: u32,
}

impl Span {
    /// Whether the byte position `i` lies on or between this span's
    /// boundaries. Both endpoints count as inside: a cursor sitting right
    /// after the last byte of a name still belongs to that name.
    pub open spec fn contains(self, i: int) -> bool {
        self.start <= i <= self.end
    }

    #[verifier::allow_in_spec]
    pub fn new(start: u32, end: u32) -> (s: Span)
        returns (Span { start, end }),
    {
        Span { start, end }
    }
}

/// A span paired with the file it lies in.
#[derive(Clone, Copy, PartialEq, Eq, Structural, Debug)]
pub struct Location {
    pub span: Span,
    pub file: FileId,
}

impl Location {
    #[verifier::allow_in_spec]
    pub fn new(span: Span, file: FileId) -> (l: Location)
        returns (Location { span, file }),
    {
        Location { span, file }
    }
}

} // verus!
