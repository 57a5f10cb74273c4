//! Address ranges `[base, base + size)` with overflow-checked queries.
use vstd::prelude::*;

verus! {

/// The byte range `[base, base + size)`.
#[derive(Clone, Copy, Debug, PartialEq, Eq, Structural)]
pub struct Span {
    pub base: usize,
    pub size: usize,
}

impl Span {
    /// One past the last address of the span.
    pub open spec fn end(self) -> int {
        self.base + self.size
    }

    /// The span does not run past the end of the address space.
    pub open spec fn wf(self) -> bool {
        self.end() <= usize::MAX
    }

    pub open spec fn spec_contains(self, addr: int) -> bool {
        self.base <= addr < self.end()
    }

    pub open spec fn spec_contains_span(self, other: Span) -> bool {
        self.base <= other.base && other.end() <= self.end()
    }

    /// The two spans share at least one byte.
    pub open spec fn spec_overlaps(self, other: Span) -> bool {
        &&& self.size > 0
        &&& other.size > 0
        &&& self.base < other.end()
        &&& other.base < self.end()
    }

    /// The span starting at `base` of `size` bytes, or `None` when it would
    /// run past the end of the address space.
    pub fn from_base_size(base: usize, size: usize) -> (r: Option<Span>)
        ensures
            r is Some <==> base + size <= usize::MAX,
            r matches Some(s) ==> s.base == base && s.size == size,
    {
        if size <= usize::MAX - base {
            Some(Span { base, size })
        } else {
            None
        }
    }

    pub fn end_addr(&self) -> (r: usize)
        requires
            self.wf(),
        ensures
            r == self.end(),
    {
        self.base + self.size
    }

    pub fn contains(&self, addr: usize) -> (r: bool)
        requires
            self.wf(),
        ensures
            r == self.spec_contains(addr as int),
    {
        self.base <= addr && addr < self.end_addr()
    }

    pub fn contains_span(&self, other: &Span) -> (r: bool)
        requires
            self.wf(),
            other.wf(),
        ensures
            r == self.spec_contains_span(*other),
    {
        self.base <= other.base && other.end_addr() <= self.end_addr()
    }

    pub fn overlaps(&self, other: &Span) -> (r: bool)
        requires
            self.wf(),
            other.wf(),
        ensures
            r == self.spec_overlaps(*other),
    {
        self.size > 0 && other.size > 0 && self.base < other.end_addr() && other.base
            < self.end_addr()
    }
}

/// Two spans overlap exactly when some address lies in both.
pub proof fn lemma_overlaps_iff_common_address(a: Span, b: Span)
    ensures
        a.spec_overlaps(b) <==> exists|addr: int| a.spec_contains(addr) && b.spec_contains(addr),
{
    if a.spec_overlaps(b) {
        let addr = if a.base < b.base {
            b.base as int
        } else {
            a.base as int
        };
        assert(a.spec_contains(addr) && b.spec_contains(addr));
    }
}

} // verus!
