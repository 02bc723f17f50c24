use crate::errors::LineError;
use vstd::prelude::*;
use vstd::string::StringSliceAdditionalSpecFns;

verus! {

/// True when `p` is the byte offset of a line start of `bytes`: offset 0, or
/// the offset immediately following a newline byte.
pub open spec fn is_line_start(bytes: Seq<u8>, p: int) -> bool {
    p == 0 || (0 < p <= bytes.len() && bytes[p - 1] == 10u8)
}

/// Number of entries of `starts` that are at most `o`.
pub open spec fn count_le(starts: Seq<usize>, o: usize) -> int
    decreases starts.len(),
{
    if starts.len() == 0 {
        0
    } else {
        count_le(starts.drop_last(), o) + if starts.last() <= o {
            1int
        } else {
            0int
        }
    }
}

/// One end of a byte range handed to [`LocationTranslator::resolve_range`],
/// mirroring the three bound forms of a range expression.
#[derive(Clone, Copy, Debug, PartialEq, Eq, Structural)]
pub enum OffsetBound {
    Included(usize),
    Excluded(usize),
    Unbounded,
}

/// Normalized inclusive start offset of a range.
pub open spec fn norm_start(b: OffsetBound) -> int {
    match b {
        OffsetBound::Included(s) => s as int,
        OffsetBound::Excluded(s) => s + 1,
        OffsetBound::Unbounded => 0,
    }
}

/// Normalized inclusive end offset of a range; subtraction saturates at 0.
pub open spec fn norm_end(b: OffsetBound, total: int) -> int {
    match b {
        OffsetBound::Included(e) => e as int,
        OffsetBound::Excluded(e) => if e == 0 {
            0
        } else {
            e - 1
        },
        OffsetBound::Unbounded => if total == 0 {
            0
        } else {
            total - 1
        },
    }
}

/// The literal start value a caller supplied, kept for diagnostics.
pub open spec fn literal_start(b: OffsetBound) -> int {
    match b {
        OffsetBound::Included(s) => s as int,
        OffsetBound::Excluded(s) => s as int,
        OffsetBound::Unbounded => 0,
    }
}

/// The literal end value a caller supplied, kept for diagnostics.
pub open spec fn literal_end(b: OffsetBound, total: int) -> int {
    match b {
        OffsetBound::Included(e) => e as int,
        OffsetBound::Excluded(e) => e as int,
        OffsetBound::Unbounded => if total == 0 {
            0
        } else {
            total - 1
        },
    }
}

/// The full outcome of a range resolution over a recorded line-start index
/// `starts` and a document of `total` bytes.
pub open spec fn spec_resolve_range(
    starts: Seq<usize>,
    total: int,
    start: OffsetBound,
    end: OffsetBound,
) -> Result<(usize, usize), LineError> {
    let ns = norm_start(start);
    let ne = norm_end(end, total);
    if ns > ne {
        Err(
            LineError::InvalidRange {
                start: literal_start(start) as usize,
                end: literal_end(end, total) as usize,
            },
        )
    } else if ns >= total {
        Err(LineError::OffsetOutOfBound(ns as usize))
    } else if ne >= total {
        Err(LineError::OffsetOutOfBound(ne as usize))
    } else {
        Ok(((count_le(starts, ns as usize)) as usize, (count_le(starts, ne as usize)) as usize))
    }
}

/// A read-only index over one document's line starts: byte offset 0 plus the
/// offset following every newline byte, in strictly increasing order.
pub struct LocationTranslator {
    positions: Vec<usize>,
    total_bytes: usize,
}

impl LocationTranslator {
    /// The recorded line-start offsets, in order of recording.
    pub closed spec fn starts(&self) -> Seq<usize> {
        self.positions@
    }

    /// The length in bytes of the document this index was built over.
    pub closed spec fn total(&self) -> int {
        self.total_bytes as int
    }

    /// Structural well-formedness: at least one entry, the first is 0, the
    /// entries are strictly increasing and within the document.
    pub open spec fn wf(&self) -> bool {
        &&& self.starts().len() > 0
        &&& self.starts()[0] == 0
        &&& forall|i: int, j: int|
            0 <= i < j < self.starts().len() ==> self.starts()[i] < self.starts()[j]
        &&& forall|i: int| 0 <= i < self.starts().len() ==> self.starts()[i] <= self.total()
    }

    /// The index describes `bytes`: it is exactly as long as `bytes`, and it
    /// records an offset if and only if that offset is a line start.
    pub open spec fn indexes(&self, bytes: Seq<u8>) -> bool {
        &&& self.total() == bytes.len()
        &&& forall|p: usize| self.starts().contains(p) <==> is_line_start(bytes, p as int)
    }

    /// Builds the index for `content` in one scan, recording offset 0 and the
    /// offset following every newline byte.
    pub fn new(content: &str) -> (r: Self)
        ensures
            r.wf(),
            r.indexes(content.spec_bytes()),
    {
        let bytes = content.as_bytes();
        let total_bytes = bytes.len();
        let mut positions: Vec<usize> = Vec::new();
        positions.push(0);
        proof {
            assert forall|p: usize| positions@.contains(p) implies is_line_start(
                bytes@.take(0),
                p as int,
            ) by {
                let w = choose|w: int| 0 <= w < positions@.len() && positions@[w] == p;
                assert(w == 0 && p == 0);
            }
            assert forall|p: usize| is_line_start(bytes@.take(0), p as int) implies positions@
                .contains(p) by {
                assert(p == 0);
                assert(positions@[0] == 0);
            }
        }
        let mut i: usize = 0;
        while i < total_bytes
            invariant
                total_bytes == bytes@.len(),
                i <= total_bytes,
                positions@.len() > 0,
                positions@[0] == 0,
                forall|a: int, b: int|
                    0 <= a < b < positions@.len() ==> positions@[a] < positions@[b],
                forall|a: int| 0 <= a < positions@.len() ==> positions@[a] <= i,
                forall|p: usize| positions@.contains(p) <==> is_line_start(bytes@.take(i as int), p as int),
            decreases total_bytes - i,
        {
            let ghost prev = positions@;
            let byte = *vstd::slice::slice_index_get(bytes, i);
            if byte == 10u8 {
                positions.push(i + 1);
            }
            proof {
                let pre = bytes@.take(i as int);
                let cur = bytes@.take(i + 1);
                assert(cur[i as int] == bytes@[i as int]);
                assert forall|p: usize| positions@.contains(p) implies is_line_start(
                    cur,
                    p as int,
                ) by {
                    let w = choose|w: int| 0 <= w < positions@.len() && positions@[w] == p;
                    if w < prev.len() {
                        assert(prev[w] == p);
                        assert(prev.contains(p));
                        assert(is_line_start(pre, p as int));
                        if p != 0 {
                            assert(pre[p - 1] == bytes@[p - 1]);
                            assert(cur[p - 1] == bytes@[p - 1]);
                        }
                    } else {
                        assert(byte == 10u8 && p == i + 1);
                        assert(cur[p - 1] == 10u8);
                    }
                }
                assert forall|p: usize| is_line_start(cur, p as int) implies positions@.contains(
                    p,
                ) by {
                    if p == 0 {
                        assert(positions@[0] == 0);
                    } else if p <= i {
                        assert(cur[p - 1] == bytes@[p - 1]);
                        assert(pre[p - 1] == bytes@[p - 1]);
                        assert(is_line_start(pre, p as int));
                        assert(prev.contains(p));
                        let w = choose|w: int| 0 <= w < prev.len() && prev[w] == p;
                        assert(positions@[w] == p);
                    } else {
                        assert(p == i + 1);
                        assert(cur[p - 1] == 10u8);
                        assert(byte == 10u8);
                        assert(positions@.last() == p);
                    }
                }
            }
            i += 1;
        }
        proof {
            assert(bytes@.take(total_bytes as int) =~= bytes@);
        }
        Self { positions, total_bytes }
    }

    /// Translates a byte offset inside the document into the 1-based number
    /// of the line containing it: the count of recorded line starts at or
    /// before the offset. Offsets at or past the end of the document are
    /// rejected.
    pub fn resolve_line(&self, byte_offset: usize) -> (r: Result<usize, LineError>)
        requires
            self.wf(),
        ensures
            byte_offset < self.total() ==> r == Ok::<usize, LineError>(
                count_le(self.starts(), byte_offset) as usize,
            ),
            byte_offset >= self.total() ==> r == Err::<usize, LineError>(
                LineError::OffsetOutOfBound(byte_offset),
            ),
    {
        if byte_offset >= self.total_bytes {
            return Err(LineError::OffsetOutOfBound(byte_offset));
        }
        let mut lo: usize = 0;
        let mut hi: usize = self.positions.len();
        while lo < hi
            invariant
                self.wf(),
                lo <= hi <= self.starts().len(),
                forall|a: int| 0 <= a < lo ==> self.starts()[a] <= byte_offset,
                forall|a: int| hi <= a < self.starts().len() ==> self.starts()[a] > byte_offset,
            decreases hi - lo,
        {
            let mid = lo + (hi - lo) / 2;
            if self.positions[mid] <= byte_offset {
                lo = mid + 1;
            } else {
                hi = mid;
            }
        }
        proof {
            lemma_count_le_partition(self.starts(), byte_offset, lo as int);
        }
        Ok(lo)
    }

    /// Resolves a range of byte offsets, given by one bound of each end, to
    /// the inclusive pair of 1-based line numbers of its endpoints. A range
    /// whose literal bounds are inverted is rejected with those literal
    /// bounds; an endpoint outside the document is rejected as
    /// [`LineError::OffsetOutOfBound`], the start checked first.
    pub fn resolve_range(&self, start: OffsetBound, end: OffsetBound) -> (r: Result<
        (usize, usize),
        LineError,
    >)
        requires
            self.wf(),
            start matches OffsetBound::Excluded(s) ==> s < usize::MAX,
        ensures
            r == spec_resolve_range(self.starts(), self.total(), start, end),
    {
        let norm_start: usize = match start {
            OffsetBound::Included(s) => s,
            OffsetBound::Excluded(s) => s + 1,
            OffsetBound::Unbounded => 0,
        };
        let norm_end: usize = match end {
            OffsetBound::Included(e) => e,
            OffsetBound::Excluded(e) => if e == 0 {
                0
            } else {
                e - 1
            },
            OffsetBound::Unbounded => if self.total_bytes == 0 {
                0
            } else {
                self.total_bytes - 1
            },
        };
        if norm_start > norm_end {
            let err_start: usize = match start {
                OffsetBound::Included(s) => s,
                OffsetBound::Excluded(s) => s,
                OffsetBound::Unbounded => 0,
            };
            let err_end: usize = match end {
                OffsetBound::Included(e) => e,
                OffsetBound::Excluded(e) => e,
                OffsetBound::Unbounded => if self.total_bytes == 0 {
                    0
                } else {
                    self.total_bytes - 1
                },
            };
            return Err(LineError::InvalidRange { start: err_start, end: err_end });
        }
        let line_start = match self.resolve_line(norm_start) {
            Ok(l) => l,
            Err(e) => {
                return Err(e);
            },
        };
        let line_end = match self.resolve_line(norm_end) {
            Ok(l) => l,
            Err(e) => {
                return Err(e);
            },
        };
        Ok((line_start, line_end))
    }
}

/// For a sequence split at `k` into a prefix of entries at most `o` and a
/// suffix of entries above `o`, the count of entries at most `o` is exactly
/// `k`.
proof fn lemma_count_le_partition(starts: Seq<usize>, o: usize, k: int)
    requires
        0 <= k <= starts.len(),
        forall|i: int| 0 <= i < k ==> starts[i] <= o,
        forall|i: int| k <= i < starts.len() ==> starts[i] > o,
    ensures
        count_le(starts, o) == k,
    decreases starts.len(),
{
    if starts.len() == 0 {
    } else {
        if k == starts.len() {
            lemma_count_le_partition(starts.drop_last(), o, k - 1);
        } else {
            lemma_count_le_partition(starts.drop_last(), o, k);
        }
    }
}

/// Equivalent bound forms resolve identically: an inclusive end `n` and an
/// exclusive end `n + 1` give the same result, whenever the range is not
/// rejected for inverted literal bounds.
pub proof fn lemma_resolve_range_bound_forms(
    starts: Seq<usize>,
    total: int,
    start: OffsetBound,
    n: usize,
)
    requires
        n < usize::MAX,
        norm_start(start) <= n,
    ensures
        spec_resolve_range(starts, total, start, OffsetBound::Included(n)) == spec_resolve_range(
            starts,
            total,
            start,
            OffsetBound::Excluded((n + 1) as usize),
        ),
{
}

} // verus!
