use core::ops::Range;
use vstd::prelude::*;

verus! {

/// The sub-ranges that belong to a section variant. A kind carries no
/// behaviour; containment within the section's outer range is checked by the
/// section's validation.
pub enum OrgKind {
    /// Text before the first headline, with its single content range.
    Preamble { content: Range<usize> },
    /// A headline of the given level, its own line's range, and the ordered
    /// ranges of the body text belonging to it, nested sub-headlines
    /// excluded.
    Headline { level: usize, headline_range: Range<usize>, content_ranges: Vec<Range<usize>> },
}

/// The kind-specific inner ranges in the order in which validation examines
/// them: a preamble's content range alone, or a headline's own range
/// followed by its content ranges.
pub open spec fn kind_ranges(kind: OrgKind) -> Seq<Range<usize>> {
    match kind {
        OrgKind::Preamble { content } => seq![content],
        OrgKind::Headline { headline_range, content_ranges, .. } => seq![headline_range]
            + content_ranges@,
    }
}

} // verus!
