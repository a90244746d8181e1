//! Placement of a fixed count of equal-length vectors in one contiguous
//! extent.
use vstd::prelude::*;
use core::ops::Range;
use crate::sparse::LetoBackendError;

verus! {

/// Where each vector of a block lives within its contiguous storage.
///
/// Vector `index` occupies `[index * len, (index + 1) * len)`, so a
/// recurrence reads and writes the same elements it would with one
/// allocation per vector. What changes is placement: an Arnoldi basis becomes
/// one extent the prefetcher can walk, instead of `count` independently
/// placed ones whose addresses the allocator chose.
///
/// The stride between vectors is `len`, with no padding. Individual vectors
/// are therefore aligned only to the element type rather than to a
/// vector-unit boundary.
#[derive(Clone, Copy, Debug, PartialEq, Eq, Structural)]
pub struct VectorBlockLayout {
    len: usize,
    count: usize,
}

/// The element range vector `index` occupies in a block of `len`-element
/// vectors.
pub open spec fn vector_span(len: usize, index: usize) -> (int, int) {
    (index * len, index * len + len)
}

impl VectorBlockLayout {
    /// Elements per vector.
    pub closed spec fn spec_len(&self) -> usize {
        self.len
    }

    /// Vectors in the block.
    pub closed spec fn spec_count(&self) -> usize {
        self.count
    }

    /// The whole extent `count * len` fits in `usize`.
    #[verifier::type_invariant]
    pub(crate) closed spec fn extent_fits(self) -> bool {
        self.count * self.len <= usize::MAX
    }

    /// Lay out `count` vectors of `len` elements.
    ///
    /// Returns [`LetoBackendError::BlockExtentOverflow`] when the total
    /// extent `count * len` does not fit in `usize`.
    pub fn new(count: usize, len: usize) -> (layout: Result<Self, LetoBackendError>)
        ensures
            count * len > usize::MAX ==> layout == Err::<Self, LetoBackendError>(
                LetoBackendError::BlockExtentOverflow { count, len },
            ),
            count * len <= usize::MAX ==> (layout matches Ok(built) && built.spec_count() == count
                && built.spec_len() == len),
    {
        match count.checked_mul(len) {
            Some(_) => Ok(VectorBlockLayout { len, count }),
            None => Err(LetoBackendError::BlockExtentOverflow { count, len }),
        }
    }

    /// Elements per vector.
    pub fn len(&self) -> (len: usize)
        ensures
            len == self.spec_len(),
    {
        self.len
    }

    /// Vectors in the block.
    pub fn count(&self) -> (count: usize)
        ensures
            count == self.spec_count(),
    {
        self.count
    }

    /// Total element count, `count * len`.
    pub fn extent(&self) -> (extent: usize)
        ensures
            extent == self.spec_count() * self.spec_len(),
    {
        proof {
            use_type_invariant(self);
        }
        self.count * self.len
    }

    /// Element range backing vector `index`, or `None` past the block.
    ///
    /// A zero-length block admits no index at all: without the `count` test,
    /// every index there would produce the same empty range and an
    /// out-of-range borrow would silently succeed.
    pub fn span(&self, index: usize) -> (span: Option<Range<usize>>)
        ensures
            index >= self.spec_count() ==> span is None,
            index < self.spec_count() ==> (span matches Some(range) && (range.start as int, range.end as int)
                == vector_span(self.spec_len(), index)),
    {
        proof {
            use_type_invariant(self);
        }
        if index >= self.count {
            return None;
        }
        proof {
            lemma_span_fits(index as int, self.count as int, self.len as int);
        }
        let start = index * self.len;
        Some(start..start + self.len)
    }
}

proof fn lemma_span_fits(index: int, count: int, len: int)
    by (nonlinear_arith)
    requires
        0 <= index < count,
        0 <= len,
    ensures
        index * len + len <= count * len,
        0 <= index * len,
{
}

/// The spans of distinct vectors of a block do not overlap, and every span
/// lies within the block's extent.
pub proof fn lemma_spans_disjoint(layout: VectorBlockLayout, first: usize, second: usize)
    requires
        first < layout.spec_count(),
        second < layout.spec_count(),
        first != second,
    ensures
        vector_span(layout.spec_len(), first).1 <= vector_span(layout.spec_len(), second).0 || vector_span(
            layout.spec_len(),
            second,
        ).1 <= vector_span(layout.spec_len(), first).0,
        0 <= vector_span(layout.spec_len(), first).0 <= vector_span(layout.spec_len(), first).1
            <= layout.spec_count() * layout.spec_len(),
{
    lemma_span_fits(first as int, layout.spec_count() as int, layout.spec_len() as int);
    if first < second {
        lemma_ordered_spans(first as int, second as int, layout.spec_len() as int);
    } else {
        lemma_ordered_spans(second as int, first as int, layout.spec_len() as int);
    }
}

proof fn lemma_ordered_spans(first: int, second: int, len: int)
    by (nonlinear_arith)
    requires
        0 <= first < second,
        0 <= len,
    ensures
        first * len + len <= second * len,
{
}

} // verus!
