use crate::errors::SectionError;
use crate::org_kind::{kind_ranges, OrgKind};
use crate::outline::headline_title;
use core::marker::PhantomData;
use core::ops::Range;
use vstd::prelude::*;
use vstd::string::StringSliceAdditionalSpecFns;
use vstd::utf8::{
    encode_utf8_valid_utf8, is_char_boundary, is_char_boundary_iff_not_is_continuation_byte,
    is_char_boundary_start_end_of_seq, valid_utf8, valid_utf8_split,
};

verus! {

broadcast use encode_utf8_valid_utf8;

/// True when `r` is a well-formed span of a document of these bytes: ordered
/// endpoints, inside the document, and neither endpoint splitting a
/// multi-byte character.
pub open spec fn span_valid(bytes: Seq<u8>, r: Range<usize>) -> bool {
    &&& r.start <= r.end
    &&& r.end <= bytes.len()
    &&& is_char_boundary(bytes, r.start as int)
    &&& is_char_boundary(bytes, r.end as int)
}

/// True when `inner` lies within `outer`.
pub open spec fn span_within(outer: Range<usize>, inner: Range<usize>) -> bool {
    outer.start <= inner.start && inner.end <= outer.end
}

/// What validation asks of a kind-specific inner range: a well-formed span
/// of the document that lies within the section's outer range.
pub open spec fn inner_ok(bytes: Seq<u8>, outer: Range<usize>, inner: Range<usize>) -> bool {
    span_valid(bytes, inner) && span_within(outer, inner)
}

/// The first range of `rs`, in order, that validation rejects.
pub open spec fn first_bad_inner(bytes: Seq<u8>, outer: Range<usize>, rs: Seq<Range<usize>>) -> Option<Range<usize>>
    decreases rs.len(),
{
    if rs.len() == 0 {
        None
    } else if !inner_ok(bytes, outer, rs[0]) {
        Some(rs[0])
    } else {
        first_bad_inner(bytes, outer, rs.drop_first())
    }
}

/// Phase marker of a section that has not yet passed validation.
pub struct Unvalidated;

/// Phase marker of a section that has passed validation.
pub struct Validated;

/// One discovered section: its kind, its outer byte range, the line pair the
/// caller computed for that range, and the ordered chain of ancestor
/// headline handles, outermost first. The phase marker `S` makes the text
/// and title accessors unreachable until validation has succeeded.
pub struct OrgSection<S> {
    state: PhantomData<S>,
    kind: OrgKind,
    byte_range: Range<usize>,
    line_range: (usize, usize),
    parent_headlines: Vec<orgize::Headline>,
}

impl<S> OrgSection<S> {
    /// The kind of this section.
    pub closed spec fn spec_kind(&self) -> OrgKind {
        self.kind
    }

    /// The outer byte range of this section.
    pub closed spec fn spec_byte_range(&self) -> Range<usize> {
        self.byte_range
    }

    /// The precomputed line pair of this section.
    pub closed spec fn spec_line_range(&self) -> (usize, usize) {
        self.line_range
    }

    /// The ancestor headline handles, outermost first.
    pub closed spec fn parents(&self) -> Seq<orgize::Headline> {
        self.parent_headlines@
    }

    /// Every range check that validation performs, in one predicate: the
    /// outer range is a well-formed span and no inner range is rejected.
    pub open spec fn ranges_valid(&self, bytes: Seq<u8>) -> bool {
        &&& span_valid(bytes, self.spec_byte_range())
        &&& first_bad_inner(bytes, self.spec_byte_range(), kind_ranges(self.spec_kind())) is None
    }
}

impl OrgSection<Unvalidated> {
    /// Wraps the parts of a discovered section, not yet validated.
    pub fn new(
        kind: OrgKind,
        byte_range: Range<usize>,
        line_range: (usize, usize),
        parent_headlines: Vec<orgize::Headline>,
    ) -> (r: Self)
        ensures
            r.spec_kind() == kind,
            r.spec_byte_range() == byte_range,
            r.spec_line_range() == line_range,
            r.parents() == parent_headlines@,
    {
        Self { state: PhantomData, kind, byte_range, line_range, parent_headlines }
    }

    /// Checks every range of this section against `content` and promotes it
    /// to the validated phase, or hands it back unchanged beside the error:
    /// the outer range is checked first, then the kind-specific inner
    /// ranges in order, and the first failure wins.
    pub fn validate(self, content: &str) -> (r: Result<
        OrgSection<Validated>,
        (OrgSection<Unvalidated>, SectionError),
    >)
        ensures
            match r {
                Ok(v) => {
                    &&& self.ranges_valid(content.spec_bytes())
                    &&& v.spec_kind() == self.spec_kind()
                    &&& v.spec_byte_range() == self.spec_byte_range()
                    &&& v.spec_line_range() == self.spec_line_range()
                    &&& v.parents() == self.parents()
                },
                Err((s, e)) => {
                    &&& s == self
                    &&& !self.ranges_valid(content.spec_bytes())
                    &&& if !span_valid(content.spec_bytes(), self.spec_byte_range()) {
                        e == SectionError::InvalidSectionRange(self.spec_byte_range())
                    } else {
                        first_bad_inner(
                            content.spec_bytes(),
                            self.spec_byte_range(),
                            kind_ranges(self.spec_kind()),
                        ) matches Some(bad) && e == SectionError::InvalidOrgKindRange(bad)
                    }
                },
            },
    {
        let outer_ok = self.byte_range.start <= self.byte_range.end
            && self.byte_range.end <= content.as_bytes().len()
            && content.is_char_boundary(self.byte_range.start)
            && content.is_char_boundary(self.byte_range.end);
        if !outer_ok {
            let bad = Range { start: self.byte_range.start, end: self.byte_range.end };
            return Err((self, SectionError::InvalidSectionRange(bad)));
        }
        let bad_inner = find_bad_inner(content, &self.byte_range, &self.kind);
        if let Some(bad) = bad_inner {
            return Err((self, SectionError::InvalidOrgKindRange(bad)));
        }
        let OrgSection { state: _, kind, byte_range, line_range, parent_headlines } = self;
        Ok(OrgSection { state: PhantomData, kind, byte_range, line_range, parent_headlines })
    }
}

/// Checks one inner range as validation does.
fn inner_range_ok(content: &str, outer: &Range<usize>, inner: &Range<usize>) -> (r: bool)
    ensures
        r == inner_ok(content.spec_bytes(), *outer, *inner),
{
    inner.start <= inner.end && inner.end <= content.as_bytes().len() && outer.start <= inner.start
        && inner.end <= outer.end && content.is_char_boundary(inner.start)
        && content.is_char_boundary(inner.end)
}

/// Finds the first kind-specific range that validation rejects, if any.
fn find_bad_inner(content: &str, outer: &Range<usize>, kind: &OrgKind) -> (r: Option<Range<usize>>)
    ensures
        r == first_bad_inner(content.spec_bytes(), *outer, kind_ranges(*kind)),
{
    let ghost bytes = content.spec_bytes();
    let ghost krs = kind_ranges(*kind);
    match kind {
        OrgKind::Preamble { content: c } => {
            if !inner_range_ok(content, outer, c) {
                proof {
                    lemma_first_bad_at(bytes, *outer, krs, 0);
                }
                Some(Range { start: c.start, end: c.end })
            } else {
                proof {
                    lemma_first_bad_none(bytes, *outer, krs);
                }
                None
            }
        },
        OrgKind::Headline { headline_range, content_ranges, .. } => {
            if !inner_range_ok(content, outer, headline_range) {
                proof {
                    lemma_first_bad_at(bytes, *outer, krs, 0);
                }
                return Some(Range { start: headline_range.start, end: headline_range.end });
            }
            let mut i: usize = 0;
            while i < content_ranges.len()
                invariant
                    i <= content_ranges@.len(),
                    bytes == content.spec_bytes(),
                    krs == kind_ranges(*kind),
                    krs == seq![*headline_range] + content_ranges@,
                    forall|j: int| 0 <= j < i + 1 ==> inner_ok(bytes, *outer, krs[j]),
                decreases content_ranges@.len() - i,
            {
                let cr = vstd::slice::slice_index_get(content_ranges.as_slice(), i);
                proof {
                    assert(krs[i + 1] == *cr);
                }
                if !inner_range_ok(content, outer, cr) {
                    proof {
                        lemma_first_bad_at(bytes, *outer, krs, i + 1);
                    }
                    return Some(Range { start: cr.start, end: cr.end });
                }
                i += 1;
            }
            proof {
                lemma_first_bad_none(bytes, *outer, krs);
            }
            None
        },
    }
}

/// When every range of `rs` passes, none is rejected.
proof fn lemma_first_bad_none(bytes: Seq<u8>, outer: Range<usize>, rs: Seq<Range<usize>>)
    requires
        forall|j: int| 0 <= j < rs.len() ==> inner_ok(bytes, outer, rs[j]),
    ensures
        first_bad_inner(bytes, outer, rs) is None,
    decreases rs.len(),
{
    if rs.len() > 0 {
        lemma_first_bad_none(bytes, outer, rs.drop_first());
    }
}

/// When the ranges before `k` pass and the one at `k` is rejected, the
/// rejected one at `k` is the first.
proof fn lemma_first_bad_at(bytes: Seq<u8>, outer: Range<usize>, rs: Seq<Range<usize>>, k: int)
    requires
        0 <= k < rs.len(),
        forall|j: int| 0 <= j < k ==> inner_ok(bytes, outer, rs[j]),
        !inner_ok(bytes, outer, rs[k]),
    ensures
        first_bad_inner(bytes, outer, rs) == Some(rs[k]),
    decreases rs.len(),
{
    if k > 0 {
        lemma_first_bad_at(bytes, outer, rs.drop_first(), k - 1);
    }
}

impl OrgSection<Validated> {
    /// Wraps the parts of a section directly in the validated phase, without
    /// running validation, so that tests can exercise the accessors on
    /// ranges they know to be sound.
    pub fn new_test(
        kind: OrgKind,
        byte_range: Range<usize>,
        line_range: (usize, usize),
        parent_headlines: Vec<orgize::Headline>,
    ) -> (r: Self)
        ensures
            r.spec_kind() == kind,
            r.spec_byte_range() == byte_range,
            r.spec_line_range() == line_range,
            r.parents() == parent_headlines@,
    {
        Self { state: PhantomData, kind, byte_range, line_range, parent_headlines }
    }

    /// The verbatim text of this section: the bytes of `content` spanned by
    /// the outer byte range, which validation has shown to end on character
    /// boundaries.
    pub fn get_text<'a>(&self, content: &'a str) -> (r: &'a str)
        requires
            span_valid(content.spec_bytes(), self.spec_byte_range()),
        ensures
            r.spec_bytes() == content.spec_bytes().subrange(
                self.spec_byte_range().start as int,
                self.spec_byte_range().end as int,
            ),
    {
        let ghost bytes = content.spec_bytes();
        let ghost start = self.byte_range.start as int;
        let ghost end = self.byte_range.end as int;
        let (prefix, _) = content.split_at(self.byte_range.end);
        proof {
            lemma_boundary_in_prefix(bytes, end, start);
            assert(prefix.spec_bytes() =~= bytes.subrange(0, end));
        }
        let (_, text) = prefix.split_at(self.byte_range.start);
        proof {
            assert(text.spec_bytes() =~= bytes.subrange(start, end));
        }
        text
    }

    /// Resolves each ancestor handle to its title through the outline tree
    /// `org`, outermost ancestor first; when any ancestor fails to resolve,
    /// the title error is returned instead.
    pub fn get_parent_titles(&self, org: &orgize::Org) -> (r: Result<Vec<String>, SectionError>)
        ensures
            r matches Ok(titles) ==> titles@.len() == self.parents().len(),
            r matches Err(e) ==> e == SectionError::ParentTitleError,
            self.parents().len() == 0 ==> (r matches Ok(titles) && titles@.len() == 0),
    {
        let mut resolved: Vec<Option<String>> = Vec::new();
        let mut i: usize = 0;
        while i < self.parent_headlines.len()
            invariant
                resolved@.len() == i,
                i <= self.parent_headlines@.len(),
            decreases self.parent_headlines@.len() - i,
        {
            let h = &self.parent_headlines[i];
            resolved.push(headline_title(org, h));
            i += 1;
        }
        collect_titles(resolved)
    }
}

/// A character boundary of a document at or before a cut that is itself a
/// boundary is a boundary of the prefix up to that cut.
proof fn lemma_boundary_in_prefix(bytes: Seq<u8>, cut: int, i: int)
    requires
        valid_utf8(bytes),
        0 <= i <= cut <= bytes.len(),
        is_char_boundary(bytes, cut),
        is_char_boundary(bytes, i),
    ensures
        is_char_boundary(bytes.subrange(0, cut), i),
{
    valid_utf8_split(bytes, cut);
    let prefix = bytes.subrange(0, cut);
    if i == cut {
        is_char_boundary_start_end_of_seq(prefix);
    } else {
        is_char_boundary_iff_not_is_continuation_byte(bytes, i);
        is_char_boundary_iff_not_is_continuation_byte(prefix, i);
    }
}

/// Order preservation of the breadcrumb: when every ancestor's title
/// resolved, the collected titles stand in exactly the ancestors' order,
/// one per ancestor; when any failed to resolve, the title error comes back
/// instead, and nothing else ever does.
pub fn collect_titles(resolved: Vec<Option<String>>) -> (r: Result<Vec<String>, SectionError>)
    ensures
        r is Ok <==> (forall|i: int| 0 <= i < resolved@.len() ==> resolved@[i] is Some),
        r matches Ok(titles) ==> {
            &&& titles@.len() == resolved@.len()
            &&& forall|i: int| 0 <= i < resolved@.len() ==> titles@[i] == resolved@[i]->0
        },
        r matches Err(e) ==> e == SectionError::ParentTitleError,
{
    let mut titles: Vec<String> = Vec::new();
    let mut i: usize = 0;
    while i < resolved.len()
        invariant
            i <= resolved@.len(),
            titles@.len() == i,
            forall|j: int| 0 <= j < i ==> resolved@[j] is Some,
            forall|j: int| 0 <= j < i ==> titles@[j] == resolved@[j]->0,
        decreases resolved@.len() - i,
    {
        match resolved[i].as_ref() {
            Some(t) => titles.push(t.clone()),
            None => {
                return Err(SectionError::ParentTitleError);
            },
        }
        i += 1;
    }
    Ok(titles)
}

} // verus!
