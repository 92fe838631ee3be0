//! The early boot RAM allocator: a bump allocator over one physical range
//! that never frees.

use vstd::prelude::*;

use crate::align::{align_up, align_up_fits, lemma_align_up, spec_align_up};
use crate::paging::PhysAddr;

verus! {

/// The lowest address the allocator hands out.
pub const MIN_ALLOC_ADDR: usize = 0x40;

/// A bump allocator over `[start, end)`; `current` is the next free address.
#[derive(Debug, Clone, Copy)]
pub struct SimpleAllocator {
    pub start: usize,
    pub end: usize,
    pub current: usize,
}

/// The first address at or above `current` aligned to `align`, and the end
/// of a block of `size` bytes there.
pub open spec fn placed(current: usize, size: usize, align: usize) -> (int, int) {
    let s = spec_align_up(current, align);
    (s, s + size)
}

/// A block of `size` bytes aligned to `align` can be placed at or after
/// `current` without overflow.
pub open spec fn alloc_fits(current: usize, size: usize, align: usize) -> bool {
    align > 0 && align_up_fits(current, align) && placed(current, size, align).1 <= usize::MAX
}

/// What an allocation does: the allocator after it, and the block's address,
/// or `None` (allocator unchanged) when the block would pass `end`.
pub open spec fn alloc_step(a: SimpleAllocator, size: usize, align: usize) -> (SimpleAllocator, Option<usize>) {
    let (s, e) = placed(a.current, size, align);
    if e > a.end {
        (a, None)
    } else {
        (SimpleAllocator { current: e as usize, ..a }, Some(s as usize))
    }
}

impl SimpleAllocator {
    /// An allocator over the empty range at 0.
    pub fn new() -> (r: SimpleAllocator)
        ensures
            r.start == 0 && r.end == 0 && r.current == 0,
    {
        SimpleAllocator { start: 0, end: 0, current: 0 }
    }

    /// Hands out `[start, end)`, starting no lower than `MIN_ALLOC_ADDR`.
    pub fn init(&mut self, start: usize, end: usize)
        ensures
            final(self).start == start,
            final(self).end == end,
            final(self).current == if start > MIN_ALLOC_ADDR { start } else { MIN_ALLOC_ADDR },
    {
        self.start = start;
        self.end = end;
        self.current = if start > MIN_ALLOC_ADDR { start } else { MIN_ALLOC_ADDR };
    }

    /// Takes the next block of `size` bytes aligned to `align`; `None` when
    /// it would pass the end of the range.
    pub fn allocate(&mut self, size: usize, align: usize) -> (r: Option<usize>)
        requires
            alloc_fits(old(self).current, size, align),
        ensures
            (*final(self), r) == alloc_step(*old(self), size, align),
    {
        let start = align_up(self.current, align);
        let end = start + size;
        if end > self.end {
            return None;
        }
        self.current = end;
        Some(start)
    }
}

/// Successive allocations never overlap: a block lies aligned at or above
/// the allocator's next free address, ends at the new next free address, and
/// stays within the range; the next block starts no lower.
pub proof fn lemma_alloc_disjoint(a: SimpleAllocator, size1: usize, align1: usize, size2: usize, align2: usize)
    requires
        alloc_fits(a.current, size1, align1),
        alloc_fits(alloc_step(a, size1, align1).0.current, size2, align2),
    ensures
        ({
            let (a1, r1) = alloc_step(a, size1, align1);
            let r2 = alloc_step(a1, size2, align2).1;
            &&& r1 matches Some(p1) ==> a.current <= p1 && (p1 as int) % (align1 as int) == 0 && p1 + size1 == a1.current <= a.end
            &&& r1 matches Some(p1) ==> (r2 matches Some(p2) ==> p1 + size1 <= p2)
        }),
{
    lemma_align_up(a.current, align1);
    let (a1, r1) = alloc_step(a, size1, align1);
    lemma_align_up(a1.current, align2);
    let (s1, e1) = placed(a.current, size1, align1);
    assert(0 <= s1 <= e1 <= usize::MAX);
    if e1 <= a.end {
        assert(r1 == Some(s1 as usize));
        assert(a1.current == e1);
    }
}

/// The boot RAM: the allocator that serves early page tables and per-CPU data.
pub struct Ram {
    pub allocator: SimpleAllocator,
}

impl Ram {
    /// The next free address.
    pub fn current(&self) -> (r: usize)
        ensures
            r == self.allocator.current,
    {
        self.allocator.current
    }

    /// Takes the next block of `size` bytes aligned to `align`.
    pub fn allocate(&mut self, size: usize, align: usize) -> (r: Option<usize>)
        requires
            alloc_fits(old(self).allocator.current, size, align),
        ensures
            (final(self).allocator, r) == alloc_step(old(self).allocator, size, align),
    {
        self.allocator.allocate(size, align)
    }

    /// Takes the next page-aligned page as a page-table frame.
    pub fn alloc_frame(&mut self, page_size: usize) -> (r: Option<PhysAddr>)
        requires
            alloc_fits(old(self).allocator.current, page_size, page_size),
        ensures
            final(self).allocator == alloc_step(old(self).allocator, page_size, page_size).0,
            r == (match alloc_step(old(self).allocator, page_size, page_size).1 {
                Some(p) => Some(PhysAddr(p)),
                None => None::<PhysAddr>,
            }),
    {
        match self.allocate(page_size, page_size) {
            Some(p) => Some(PhysAddr(p)),
            None => None,
        }
    }

    /// The RAM handed out so far: from the start of the range up to the next
    /// free address rounded up to a page.
    pub fn used_range(&self, page_size: usize) -> (r: core::ops::Range<usize>)
        requires
            page_size > 0,
            align_up_fits(self.allocator.current, page_size),
        ensures
            r.start == self.allocator.start,
            r.end == spec_align_up(self.allocator.current, page_size),
    {
        let start = self.allocator.start;
        let end = self.current();
        start..align_up(end, page_size)
    }
}

} // verus!
