//! A shadow record of the allocations that the arena has handed out and not
//! yet taken back, which refuses any that would break the allocator's
//! guarantees: non-null, aligned, inside the arena, disjoint from the others.
use crate::request::Request;
use crate::span::Span;
use vstd::prelude::*;

verus! {

/// Why an allocation was refused by the tracker.
#[derive(Clone, Copy, Debug, PartialEq, Eq, Structural)]
pub enum RecordError {
    /// The address is null.
    Null,
    /// The address is not a multiple of the request's alignment.
    Misaligned,
    /// The allocation does not lie entirely within the arena.
    OutsideArena,
    /// The allocation shares a byte with one that is still live.
    Overlap,
}

/// What recording the allocation of `req` at `addr` must give, for an arena
/// `arena` with the live allocations `live`.
pub open spec fn record_outcome(arena: Span, live: Seq<Span>, addr: usize, req: Request) -> Result<
    (),
    RecordError,
> {
    let s = Span { base: addr, size: req.size };
    if addr == 0 {
        Err(RecordError::Null)
    } else if addr % req.align != 0 {
        Err(RecordError::Misaligned)
    } else if !arena.spec_contains_span(s) {
        Err(RecordError::OutsideArena)
    } else if exists|i: int| 0 <= i < live.len() && live[i].spec_overlaps(s) {
        Err(RecordError::Overlap)
    } else {
        Ok(())
    }
}

/// Once a live allocation `live[i]` has been given back, any non-null,
/// aligned request that fits inside the bytes it occupied can be recorded.
pub proof fn lemma_freed_space_reusable(
    arena: Span,
    live: Seq<Span>,
    i: int,
    addr: usize,
    req: Request,
)
    requires
        0 <= i < live.len(),
        arena.spec_contains_span(live[i]),
        forall|a: int, b: int|
            0 <= a < live.len() && 0 <= b < live.len() && a != b ==> !(#[trigger] live[a]).spec_overlaps(
                #[trigger] live[b],
            ),
        req.align > 0,
        addr != 0,
        addr % req.align == 0,
        live[i].spec_contains_span(Span { base: addr, size: req.size }),
    ensures
        record_outcome(arena, live.remove(i), addr, req) is Ok,
{
    let s = Span { base: addr, size: req.size };
    let rest = live.remove(i);
    assert forall|k: int| 0 <= k < rest.len() implies !(#[trigger] rest[k]).spec_overlaps(s) by {
        let j = if k < i { k } else { k + 1 };
        assert(rest[k] == live[j]);
        assert(!live[j].spec_overlaps(live[i]));
    }
}

/// In a well-formed tracker every live allocation is non-null and lies
/// wholly inside the arena, and no two live allocations share a byte.
pub proof fn lemma_live_allocations_disjoint(t: &LiveAllocations, i: int, j: int)
    requires
        t.wf(),
        0 <= i < t.live_spans().len(),
        0 <= j < t.live_spans().len(),
        i != j,
    ensures
        t.live_spans()[i].base != 0,
        t.arena_span().spec_contains_span(t.live_spans()[i]),
        forall|addr: int|
            !(t.live_spans()[i].spec_contains(addr) && t.live_spans()[j].spec_contains(addr)),
{
    let a = t.live_spans()[i];
    let b = t.live_spans()[j];
    assert(!a.spec_overlaps(b));
    crate::span::lemma_overlaps_iff_common_address(a, b);
}

/// The allocations live in an arena.
pub struct LiveAllocations {
    arena: Span,
    live: Vec<Span>,
}

impl LiveAllocations {
    /// The arena that every allocation must lie in.
    pub closed spec fn arena_span(&self) -> Span {
        self.arena
    }

    /// The live allocations, oldest first.
    pub closed spec fn live_spans(&self) -> Seq<Span> {
        self.live@
    }

    /// Every live allocation is non-null and inside the arena, and no two
    /// of them share a byte.
    pub open spec fn wf(&self) -> bool {
        let live = self.live_spans();
        &&& self.arena_span().wf()
        &&& forall|i: int|
            0 <= i < live.len() ==> {
                &&& #[trigger] live[i].base != 0
                &&& self.arena_span().spec_contains_span(live[i])
            }
        &&& forall|i: int, j: int|
            0 <= i < live.len() && 0 <= j < live.len() && i != j ==> !(#[trigger] live[i]).spec_overlaps(
                #[trigger] live[j],
            )
    }

    /// A tracker for `arena` with nothing live.
    pub fn new(arena: Span) -> (r: LiveAllocations)
        requires
            arena.wf(),
        ensures
            r.wf(),
            r.arena_span() == arena,
            r.live_spans() == Seq::<Span>::empty(),
    {
        LiveAllocations { arena, live: Vec::new() }
    }

    /// The number of live allocations.
    pub fn live_count(&self) -> (r: usize)
        ensures
            r == self.live_spans().len(),
    {
        self.live.len()
    }

    /// Whether the allocation of `req` at `addr` is live.
    pub fn is_live(&self, addr: usize, req: Request) -> (r: bool)
        ensures
            r == self.live_spans().contains(Span { base: addr, size: req.size }),
    {
        self.position(Span { base: addr, size: req.size }).is_some()
    }

    fn position(&self, s: Span) -> (r: Option<usize>)
        ensures
            r matches Some(i) ==> i < self.live@.len() && self.live@[i as int] == s,
            r is None <==> !self.live@.contains(s),
    {
        let mut i: usize = 0;
        while i < self.live.len()
            invariant
                i <= self.live@.len(),
                forall|k: int| 0 <= k < i ==> self.live@[k] != s,
            decreases self.live@.len() - i,
        {
            if self.live[i] == s {
                return Some(i);
            }
            i = i + 1;
        }
        None
    }

    /// Records that the arena handed out `addr` for `req`. The allocation is
    /// refused, and the tracker left as it was, when the address is null,
    /// misaligned, not wholly inside the arena, or overlapping a live
    /// allocation, in that order of precedence.
    pub fn record(&mut self, addr: usize, req: Request) -> (r: Result<(), RecordError>)
        requires
            old(self).wf(),
            req.align > 0,
        ensures
            r == record_outcome(old(self).arena_span(), old(self).live_spans(), addr, req),
            final(self).wf(),
            final(self).arena_span() == old(self).arena_span(),
            r is Ok ==> final(self).live_spans() == old(self).live_spans().push(
                Span { base: addr, size: req.size },
            ),
            r is Err ==> final(self).live_spans() == old(self).live_spans(),
    {
        let s = Span { base: addr, size: req.size };
        if addr == 0 {
            return Err(RecordError::Null);
        }
        if addr % req.align != 0 {
            return Err(RecordError::Misaligned);
        }
        if s.size > usize::MAX - s.base || !self.arena.contains_span(&s) {
            return Err(RecordError::OutsideArena);
        }
        let mut i: usize = 0;
        while i < self.live.len()
            invariant
                s.wf(),
                s == (Span { base: addr, size: req.size }),
                addr != 0,
                addr % req.align == 0,
                self.arena.spec_contains_span(s),
                self.wf(),
                *self == *old(self),
                i <= self.live@.len(),
                forall|k: int| 0 <= k < i ==> !self.live@[k].spec_overlaps(s),
                forall|k: int| 0 <= k < self.live@.len() ==> (#[trigger] self.live@[k]).wf(),
            decreases self.live@.len() - i,
        {
            if self.live[i].overlaps(&s) {
                assert(old(self).live_spans()[i as int].spec_overlaps(s));
                return Err(RecordError::Overlap);
            }
            i = i + 1;
        }
        self.live.push(s);
        assert(self.live@.len() == old(self).live@.len() + 1);
        assert forall|a: int, b: int|
            0 <= a < self.live@.len() && 0 <= b < self.live@.len() && a != b implies !(
            #[trigger] self.live@[a]).spec_overlaps(#[trigger] self.live@[b]) by {
            if b == self.live@.len() - 1 {
                assert(!old(self).live@[a].spec_overlaps(s));
            } else if a == self.live@.len() - 1 {
                assert(!old(self).live@[b].spec_overlaps(s));
            } else {
                assert(old(self).live@[a] == self.live@[a]);
            }
        }
        Ok(())
    }

    /// Records that the allocation of `req` at `addr` was given back. Returns
    /// whether it was live; when it was not, the tracker is left as it was.
    pub fn release(&mut self, addr: usize, req: Request) -> (r: bool)
        requires
            old(self).wf(),
        ensures
            r == old(self).live_spans().contains(Span { base: addr, size: req.size }),
            final(self).wf(),
            final(self).arena_span() == old(self).arena_span(),
            r ==> exists|i: int|
                0 <= i < old(self).live_spans().len() && old(self).live_spans()[i] == (Span {
                    base: addr,
                    size: req.size,
                }) && final(self).live_spans() == old(self).live_spans().remove(i),
            !r ==> final(self).live_spans() == old(self).live_spans(),
    {
        let s = Span { base: addr, size: req.size };
        match self.position(s) {
            None => false,
            Some(i) => {
                let ghost before = self.live_spans();
                self.live.remove(i);
                assert(self.live@ == before.remove(i as int));
                assert forall|a: int| 0 <= a < self.live@.len() implies #[trigger] self.live@[a]
                    == before[if a < i { a } else { a + 1 }] by {}
                assert forall|a: int, b: int|
                    0 <= a < self.live@.len() && 0 <= b < self.live@.len() && a != b implies !(
                    #[trigger] self.live@[a]).spec_overlaps(#[trigger] self.live@[b]) by {
                    let a2 = if a < i { a } else { a + 1 };
                    let b2 = if b < i { b } else { b + 1 };
                    assert(self.live@[a] == before[a2]);
                    assert(self.live@[b] == before[b2]);
                    assert(!before[a2].spec_overlaps(before[b2]));
                }
                true
            },
        }
    }
}

} // verus!
