use core::ops::Range;
use vstd::prelude::*;

verus! {

/// Failure of a byte-offset to line-number translation.
#[derive(Debug, PartialEq, Eq, Structural)]
pub enum LineError {
    /// The offset lies at or past the end of the document.
    OffsetOutOfBound(usize),
    /// The requested range has `start > end`; the literal bound values
    /// supplied by the caller are kept for diagnostics.
    InvalidRange { start: usize, end: usize },
}

/// Failure of the structural validation of a section.
#[derive(Debug, PartialEq, Eq)]
pub enum SectionError {
    /// The outer byte range of the section is out of bounds or one of its
    /// endpoints splits a multi-byte character.
    InvalidSectionRange(Range<usize>),
    /// An ancestor headline's title could not be resolved.
    ParentTitleError,
    /// A kind-specific inner range is out of bounds, escapes the outer
    /// range, or one of its endpoints splits a multi-byte character.
    InvalidOrgKindRange(Range<usize>),
}

} // verus!
