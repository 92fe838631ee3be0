//! Memory-map planning from a device tree: RAM regions are recorded as they
//! are, reserved regions are widened to pages and overlapping or touching ones
//! are coalesced before they are recorded.

use vstd::prelude::*;

use crate::bounded::{
    descriptor_list_as_mut_slice, descriptor_list_as_slice, descriptor_list_clear, descriptor_list_new,
    descriptor_list_push, descriptors_128,
};
use crate::memory::{
    align_desc, all_fit, aligns_within, desc_end, desc_fits, sort_by_start, sorted_by_start,
    MemoryDescriptor, MemoryType,
};

verus! {

/// Most reserved regions that the device-tree map holds.
pub const RESERVED_CAPACITY: usize = 128;

/// `a` grown to also cover `b`, which starts inside or right after it.
pub open spec fn absorb(a: MemoryDescriptor, b: MemoryDescriptor) -> MemoryDescriptor {
    MemoryDescriptor {
        physical_start: a.physical_start,
        size_in_bytes: ((if desc_end(b) > desc_end(a) {
            desc_end(b)
        } else {
            desc_end(a)
        }) - a.physical_start) as usize,
        memory_type: a.memory_type,
    }
}

/// `s` with every descriptor that starts inside or right after the previous
/// (already grown) one absorbed into it.
pub open spec fn coalesce(s: Seq<MemoryDescriptor>) -> Seq<MemoryDescriptor>
    decreases s.len(),
{
    if s.len() <= 1 {
        s
    } else {
        let r = coalesce(s.drop_last());
        let x = s.last();
        if x.physical_start <= desc_end(r.last()) {
            r.drop_last().push(absorb(r.last(), x))
        } else {
            r.push(x)
        }
    }
}

/// Each descriptor of `s` ends strictly before the next one starts.
pub open spec fn separated(s: Seq<MemoryDescriptor>) -> bool {
    forall|i: int, j: int| 0 <= i < j < s.len() ==> desc_end(#[trigger] s[i]) < (#[trigger] s[j]).physical_start
}

/// Some descriptor of `s` holds the address `x`.
pub open spec fn covered(s: Seq<MemoryDescriptor>, x: int) -> bool {
    exists|i: int| 0 <= i < s.len() && (#[trigger] s[i]).physical_start <= x < desc_end(s[i])
}

proof fn lemma_covered_drop_last(s: Seq<MemoryDescriptor>, x: int)
    requires
        s.len() > 0,
    ensures
        covered(s, x) == (covered(s.drop_last(), x) || (s.last().physical_start <= x < desc_end(
            s.last(),
        ))),
{
    let p = s.drop_last();
    if covered(s, x) {
        let i = choose|i: int| 0 <= i < s.len() && (#[trigger] s[i]).physical_start <= x < desc_end(s[i]);
        if i < s.len() - 1 {
            assert(p[i] == s[i]);
        }
    }
    if covered(p, x) {
        let i = choose|i: int| 0 <= i < p.len() && (#[trigger] p[i]).physical_start <= x < desc_end(p[i]);
        assert(s[i] == p[i]);
    }
    if s.last().physical_start <= x < desc_end(s.last()) {
        assert(s[s.len() - 1] == s.last());
    }
}

/// Coalescing regions sorted by start leaves regions that are in order, fit
/// in the address space, are separated by gaps, and together hold exactly the
/// addresses that the given regions held.
pub proof fn lemma_coalesce(s: Seq<MemoryDescriptor>)
    requires
        sorted_by_start(s),
        all_fit(s),
    ensures
        separated(coalesce(s)),
        all_fit(coalesce(s)),
        coalesce(s).len() <= s.len(),
        s.len() > 0 ==> coalesce(s).len() > 0 && coalesce(s).last().physical_start
            <= s.last().physical_start && coalesce(s)[0].physical_start == s[0].physical_start,
        forall|x: int| covered(coalesce(s), x) == covered(s, x),
    decreases s.len(),
{
    if s.len() > 1 {
        let p = s.drop_last();
        assert(sorted_by_start(p));
        assert forall|k: int| 0 <= k < p.len() implies #[trigger] desc_fits(p[k]) by {
            assert(desc_fits(s[k]));
        }
        lemma_coalesce(p);
        let r = coalesce(p);
        let x = s.last();
        let l = r.last();
        assert(desc_fits(s[s.len() - 1]));
        assert(p.last() == s[s.len() - 2]);
        assert(s[s.len() - 2].physical_start <= s[s.len() - 1].physical_start);
        assert(desc_fits(r[r.len() - 1]));
        let m = coalesce(s);
        if x.physical_start <= desc_end(l) {
            let a = absorb(l, x);
            assert(m == r.drop_last().push(a));
            assert forall|i: int, j: int| 0 <= i < j < m.len() implies desc_end(#[trigger] m[i]) < (#[trigger] m[j]).physical_start by {
                assert(m[i] == r[i]);
                if j < m.len() - 1 {
                    assert(m[j] == r[j]);
                } else {
                    assert(desc_end(r[i]) < r[r.len() - 1].physical_start);
                }
            }
            assert forall|k: int| 0 <= k < m.len() implies #[trigger] desc_fits(m[k]) by {
                if k < m.len() - 1 {
                    assert(m[k] == r[k]);
                    assert(desc_fits(r[k]));
                }
            }
            assert forall|y: int| covered(m, y) == covered(s, y) by {
                lemma_covered_drop_last(s, y);
                lemma_covered_drop_last(r, y);
                lemma_covered_drop_last(m, y);
                assert(m.drop_last() =~= r.drop_last());
                assert(m.last() == a);
            }
        } else {
            assert(m == r.push(x));
            assert forall|i: int, j: int| 0 <= i < j < m.len() implies desc_end(#[trigger] m[i]) < (#[trigger] m[j]).physical_start by {
                assert(m[i] == r[i]);
                if j < m.len() - 1 {
                    assert(m[j] == r[j]);
                } else if i < r.len() - 1 {
                    assert(desc_end(r[i]) < r[r.len() - 1].physical_start);
                }
            }
            assert forall|k: int| 0 <= k < m.len() implies #[trigger] desc_fits(m[k]) by {
                if k < m.len() - 1 {
                    assert(m[k] == r[k]);
                    assert(desc_fits(r[k]));
                }
            }
            assert forall|y: int| covered(m, y) == covered(s, y) by {
                lemma_covered_drop_last(s, y);
                lemma_covered_drop_last(m, y);
                assert(m.drop_last() =~= r);
            }
        }
    }
}

proof fn lemma_covered_permutation(a: Seq<MemoryDescriptor>, b: Seq<MemoryDescriptor>, x: int)
    requires
        a.to_multiset() == b.to_multiset(),
    ensures
        covered(a, x) == covered(b, x),
{
    broadcast use vstd::seq_lib::to_multiset_contains;

    if covered(a, x) {
        let i = choose|i: int| 0 <= i < a.len() && (#[trigger] a[i]).physical_start <= x < desc_end(a[i]);
        assert(a.contains(a[i]));
        assert(a.to_multiset().count(a[i]) > 0);
        assert(b.contains(a[i]));
        let j = choose|j: int| 0 <= j < b.len() && b[j] == a[i];
        assert(b[j].physical_start <= x < desc_end(b[j]));
    }
    if covered(b, x) {
        let i = choose|i: int| 0 <= i < b.len() && (#[trigger] b[i]).physical_start <= x < desc_end(b[i]);
        assert(b.contains(b[i]));
        assert(b.to_multiset().count(b[i]) > 0);
        assert(a.contains(b[i]));
        let j = choose|j: int| 0 <= j < a.len() && a[j] == b[i];
        assert(a[j].physical_start <= x < desc_end(a[j]));
    }
}

/// Sorts the reserved regions by start and coalesces every region that starts
/// inside or right after the previous one into it. The regions left are in
/// order, separated by gaps, and hold exactly the addresses held before.
pub fn merge_reserved_descriptors(descs: &mut heapless::Vec<MemoryDescriptor, 128>)
    requires
        all_fit(descriptors_128(*old(descs))),
    ensures
        exists|p: Seq<MemoryDescriptor>|
            p.to_multiset() == descriptors_128(*old(descs)).to_multiset() && sorted_by_start(p)
                && descriptors_128(*final(descs)) == coalesce(p),
        separated(descriptors_128(*final(descs))),
        descriptors_128(*final(descs)).len() <= descriptors_128(*old(descs)).len(),
        forall|x: int| covered(descriptors_128(*final(descs)), x) == covered(descriptors_128(*old(descs)), x),
{
    broadcast use vstd::seq_lib::to_multiset_contains;

    let ghost orig = descriptors_128(*descs);
    sort_by_start(descriptor_list_as_mut_slice(descs));
    let sorted = descriptor_list_as_slice(descs);
    let ghost p = sorted@;
    assert forall|k: int| 0 <= k < p.len() implies #[trigger] desc_fits(p[k]) by {
        assert(p.contains(p[k]));
        assert(p.to_multiset().count(p[k]) > 0);
        assert(orig.contains(p[k]));
        let w = choose|w: int| 0 <= w < orig.len() && orig[w] == p[k];
        assert(desc_fits(orig[w]));
    }
    let mut merged = descriptor_list_new();
    let n = sorted.len();
    for k in 0..n
        invariant
            n == sorted@.len(),
            n <= RESERVED_CAPACITY,
            p == sorted@,
            all_fit(p),
            sorted_by_start(p),
            descriptors_128(merged) == coalesce(p.take(k as int)),
            descriptors_128(merged).len() <= k,
            all_fit(descriptors_128(merged)),
    {
        let desc = sorted[k];
        assert(desc_fits(p[k as int]));
        let ghost t = p.take(k as int + 1);
        assert(t.drop_last() =~= p.take(k as int));
        assert(t.last() == desc);
        proof {
            assert(sorted_by_start(p.take(k as int + 1)));
            assert(all_fit(p.take(k as int + 1))) by {
                assert forall|m: int| 0 <= m < k + 1 implies #[trigger] desc_fits(p.take(k as int + 1)[m]) by {
                    assert(desc_fits(p[m]));
                }
            }
            lemma_coalesce(p.take(k as int + 1));
        }
        let mut absorbed = false;
        let current = descriptor_list_as_slice(&merged);
        let count = current.len();
        if count > 0 {
            let last = current[count - 1];
            assert(desc_fits(descriptors_128(merged)[count - 1]));
            let last_end = last.physical_start + last.size_in_bytes;
            let desc_end = desc.physical_start + desc.size_in_bytes;
            if desc.physical_start <= last_end {
                proof {
                    assert(sorted_by_start(p.take(k as int)));
                    assert(all_fit(p.take(k as int))) by {
                        assert forall|m: int| 0 <= m < k implies #[trigger] desc_fits(p.take(k as int)[m]) by {
                            assert(desc_fits(p[m]));
                        }
                    }
                    lemma_coalesce(p.take(k as int));
                    assert(p.take(k as int).last() == p[k - 1]);
                    assert(p[k - 1].physical_start <= desc.physical_start);
                }
                let end = if desc_end > last_end {
                    desc_end
                } else {
                    last_end
                };
                let grown = MemoryDescriptor {
                    physical_start: last.physical_start,
                    size_in_bytes: end - last.physical_start,
                    memory_type: last.memory_type,
                };
                let ghost before = descriptors_128(merged);
                let slots = descriptor_list_as_mut_slice(&mut merged);
                slots[count - 1] = grown;
                assert(descriptors_128(merged) =~= before.drop_last().push(grown));
                absorbed = true;
            }
        }
        if !absorbed {
            let _ = descriptor_list_push(&mut merged, desc);
        }
        assert(descriptors_128(merged) == coalesce(t));
    }
    assert(p.take(n as int) =~= p);
    let ghost result = descriptors_128(merged);
    proof {
        lemma_coalesce(p);
        assert forall|x: int| covered(result, x) == covered(orig, x) by {
            lemma_covered_permutation(p, orig, x);
        }
    }
    descriptor_list_clear(descs);
    let items = descriptor_list_as_slice(&merged);
    for k in 0..items.len()
        invariant
            items@ == result,
            result.len() <= RESERVED_CAPACITY,
            descriptors_128(*descs) == result.take(k as int),
    {
        assert(result.take(k as int + 1) =~= result.take(k as int).push(result[k as int]));
        let _ = descriptor_list_push(descs, items[k]);
    }
    assert(result.take(result.len() as int) =~= result);
}

} // verus!

verus! {

impl MemoryDescriptor {
    /// The region `[physical_start, physical_start + size_in_bytes)` widened
    /// outwards to multiples of `align`.
    pub fn new_aligned(physical_start: usize, size_in_bytes: usize, memory_type: MemoryType, align: usize) -> (d: MemoryDescriptor)
        requires
            align > 0,
            aligns_within(MemoryDescriptor { physical_start, size_in_bytes, memory_type }, align),
        ensures
            d == align_desc(MemoryDescriptor { physical_start, size_in_bytes, memory_type }, align),
    {
        let ghost raw = MemoryDescriptor { physical_start, size_in_bytes, memory_type };
        proof {
            crate::memory::lemma_rounding_pub(physical_start as int, align as int);
            crate::memory::lemma_rounding_pub(desc_end(raw), align as int);
        }
        let start = (physical_start / align) * align;
        let end = physical_start + size_in_bytes;
        let aligned_end = (end / align + if end % align != 0 { 1 } else { 0 }) * align;
        MemoryDescriptor { physical_start: start, size_in_bytes: aligned_end - start, memory_type }
    }
}

/// A `(address, size)` range as a device tree lists it.
#[derive(Debug, Clone, Copy)]
pub struct FdtRange {
    pub address: u64,
    pub size: u64,
}

/// A `reg` entry of a `/reserved-memory` child; the size may be missing.
#[derive(Debug, Clone, Copy)]
pub struct FdtReg {
    pub address: u64,
    pub size: Option<u64>,
}

/// What a device tree contributes to the memory map: the non-empty RAM
/// regions, and the coalesced reserved regions, or `None` when there are more
/// reserved regions than the map can hold.
pub struct FdtMemoryPlan {
    pub ram: Vec<MemoryDescriptor>,
    pub reserved: Option<heapless::Vec<MemoryDescriptor, 128>>,
}

/// The descriptor recorded for a RAM range.
pub open spec fn ram_desc(r: FdtRange) -> MemoryDescriptor {
    MemoryDescriptor {
        physical_start: r.address as usize,
        size_in_bytes: r.size as usize,
        memory_type: MemoryType::Usable,
    }
}

/// The descriptor, before widening, recorded for a reserved range.
pub open spec fn reserved_desc(address: u64, size: u64) -> MemoryDescriptor {
    MemoryDescriptor {
        physical_start: address as usize,
        size_in_bytes: size as usize,
        memory_type: MemoryType::Reserved,
    }
}

/// The RAM descriptors of the non-empty ranges of `ram`, in order.
pub open spec fn ram_descs(ram: Seq<FdtRange>) -> Seq<MemoryDescriptor>
    decreases ram.len(),
{
    if ram.len() == 0 {
        Seq::empty()
    } else {
        let prev = ram_descs(ram.drop_last());
        if ram.last().size == 0 {
            prev
        } else {
            prev.push(ram_desc(ram.last()))
        }
    }
}

/// The reserved `reg` entries that have a non-zero size, as ranges.
pub open spec fn sized_regs(regs: Seq<FdtReg>) -> Seq<FdtRange>
    decreases regs.len(),
{
    if regs.len() == 0 {
        Seq::empty()
    } else {
        let prev = sized_regs(regs.drop_last());
        match regs.last().size {
            Some(size) if size > 0 => prev.push(FdtRange { address: regs.last().address, size }),
            _ => prev,
        }
    }
}

/// Every reserved range, memory reservations first, then sized `reg` entries.
pub open spec fn reserved_ranges(reservations: Seq<FdtRange>, regs: Seq<FdtReg>) -> Seq<FdtRange> {
    reservations + sized_regs(regs)
}

/// The reserved range `r`, widened to pages.
pub open spec fn widened(r: FdtRange, page: usize) -> MemoryDescriptor {
    align_desc(reserved_desc(r.address, r.size), page)
}

/// Each reserved range of `rs` can be widened to pages without overflow.
pub open spec fn ranges_align_within(rs: Seq<FdtRange>, page: usize) -> bool {
    forall|k: int| 0 <= k < rs.len() ==> aligns_within(reserved_desc((#[trigger] rs[k]).address, rs[k].size), page)
}

proof fn lemma_sized_regs_len(regs: Seq<FdtReg>)
    ensures
        sized_regs(regs).len() <= regs.len(),
    decreases regs.len(),
{
    if regs.len() > 0 {
        lemma_sized_regs_len(regs.drop_last());
    }
}

/// Works out what a device tree contributes to the memory map: the non-empty
/// RAM ranges as usable regions, and all reserved ranges (the memory
/// reservation block, then every sized `reg` of `/reserved-memory`) widened to
/// pages, sorted and coalesced; the reserved part is `None` when there are more
/// than `RESERVED_CAPACITY` of them.
pub fn memory_map_from_fdt(
    ram: &[FdtRange],
    reservations: &[FdtRange],
    regs: &[FdtReg],
    page_size: usize,
) -> (plan: FdtMemoryPlan)
    requires
        page_size > 0,
        ranges_align_within(reserved_ranges(reservations@, regs@), page_size),
    ensures
        plan.ram@ == ram_descs(ram@),
        plan.reserved is None <==> reserved_ranges(reservations@, regs@).len() > RESERVED_CAPACITY,
        plan.reserved matches Some(v) ==> exists|p: Seq<MemoryDescriptor>|
            p.to_multiset() == reserved_ranges(reservations@, regs@).map_values(
                |r: FdtRange| widened(r, page_size),
            ).to_multiset() && sorted_by_start(p) && descriptors_128(v) == coalesce(p),
{
    let mut ram_out: Vec<MemoryDescriptor> = Vec::new();
    for i in 0..ram.len()
        invariant
            ram_out@ == ram_descs(ram@.take(i as int)),
    {
        let region = ram[i];
        assert(ram@.take(i as int + 1).drop_last() =~= ram@.take(i as int));
        assert(ram@.take(i as int + 1).last() == region);
        if region.size != 0 {
            ram_out.push(
                MemoryDescriptor {
                    physical_start: region.address as usize,
                    size_in_bytes: region.size as usize,
                    memory_type: MemoryType::Usable,
                },
            );
        }
    }
    assert(ram@.take(ram@.len() as int) =~= ram@);
    let ghost all = reserved_ranges(reservations@, regs@);
    let ghost wide = all.map_values(|r: FdtRange| widened(r, page_size));
    let mut reserved_descs = descriptor_list_new();
    let mut overflow = false;
    for i in 0..reservations.len()
        invariant
            all == reserved_ranges(reservations@, regs@),
            wide == all.map_values(|r: FdtRange| widened(r, page_size)),
            page_size > 0,
            ranges_align_within(all, page_size),
            !overflow ==> descriptors_128(reserved_descs) == wide.take(i as int) && i <= RESERVED_CAPACITY,
            overflow ==> all.len() > RESERVED_CAPACITY,
    {
        if !overflow {
            let reserved = reservations[i];
            assert(all[i as int] == reserved);
            assert(aligns_within(reserved_desc(all[i as int].address, all[i as int].size), page_size));
            let d = MemoryDescriptor::new_aligned(
                reserved.address as usize,
                reserved.size as usize,
                MemoryType::Reserved,
                page_size,
            );
            if descriptor_list_push(&mut reserved_descs, d) {
                assert(wide.take(i as int + 1) =~= wide.take(i as int).push(d));
            } else {
                overflow = true;
            }
        }
    }
    let nres = reservations.len();
    let ghost sized = sized_regs(regs@);
    assert(sized_regs(regs@.take(0)) =~= Seq::<FdtRange>::empty());
    for k in 0..regs.len()
        invariant
            nres == reservations@.len(),
            sized == sized_regs(regs@),
            all == reservations@ + sized,
            wide == all.map_values(|r: FdtRange| widened(r, page_size)),
            page_size > 0,
            ranges_align_within(all, page_size),
            !overflow ==> descriptors_128(reserved_descs) == wide.take(nres + sized_regs(regs@.take(k as int)).len())
                && nres + sized_regs(regs@.take(k as int)).len() <= RESERVED_CAPACITY,
            overflow ==> all.len() > RESERVED_CAPACITY,
            sized_regs(regs@.take(k as int)).is_prefix_of(sized),
    {
        let reg = regs[k];
        let ghost before = sized_regs(regs@.take(k as int));
        assert(regs@.take(k as int + 1).drop_last() =~= regs@.take(k as int));
        assert(regs@.take(k as int + 1).last() == reg);
        proof {
            lemma_sized_prefix(regs@, k as int + 1);
        }
        if let Some(size) = reg.size {
            if size > 0 {
                if !overflow {
                    let ghost j = nres + before.len();
                    assert(sized_regs(regs@.take(k as int + 1)) == before.push(FdtRange { address: reg.address, size }));
                    let ghost q = sized_regs(regs@.take(k as int + 1));
                    assert(q == sized.subrange(0, q.len() as int));
                    assert(q[before.len() as int] == sized[before.len() as int]);
                    assert(sized[before.len() as int] == FdtRange { address: reg.address, size });
                    assert(all[j] == FdtRange { address: reg.address, size });
                    assert(aligns_within(reserved_desc(all[j].address, all[j].size), page_size));
                    let d = MemoryDescriptor::new_aligned(
                        reg.address as usize,
                        size as usize,
                        MemoryType::Reserved,
                        page_size,
                    );
                    if descriptor_list_push(&mut reserved_descs, d) {
                        assert(wide.take(j + 1) =~= wide.take(j).push(d));
                    } else {
                        overflow = true;
                    }
                }
            }
        }
    }
    assert(regs@.take(regs@.len() as int) =~= regs@);
    if overflow {
        return FdtMemoryPlan { ram: ram_out, reserved: None };
    }
    assert(wide.take(wide.len() as int) =~= wide);
    assert(all_fit(descriptors_128(reserved_descs))) by {
        assert forall|m: int| 0 <= m < descriptors_128(reserved_descs).len() implies #[trigger] desc_fits(descriptors_128(reserved_descs)[m]) by {
            assert(aligns_within(reserved_desc(all[m].address, all[m].size), page_size));
            crate::memory::lemma_align_desc_fits(reserved_desc(all[m].address, all[m].size), page_size);
        }
    }
    merge_reserved_descriptors(&mut reserved_descs);
    FdtMemoryPlan { ram: ram_out, reserved: Some(reserved_descs) }
}

proof fn lemma_sized_prefix(regs: Seq<FdtReg>, k: int)
    requires
        0 <= k <= regs.len(),
    ensures
        sized_regs(regs.take(k)).is_prefix_of(sized_regs(regs)),
    decreases regs.len(),
{
    if k == regs.len() {
        assert(regs.take(k) =~= regs);
    } else {
        assert(regs.drop_last().take(k) =~= regs.take(k));
        lemma_sized_prefix(regs.drop_last(), k);
    }
}

} // verus!

verus! {

/// The regions that the hardware abstraction layer records from a device
/// tree: every RAM range as usable memory, then every memory reservation
/// widened to pages as reserved memory.
pub fn setup_memory_map(ram: &[FdtRange], reservations: &[FdtRange], page_size: usize) -> (r: Vec<MemoryDescriptor>)
    requires
        page_size > 0,
        ranges_align_within(reservations@, page_size),
    ensures
        r@ == ram@.map_values(|x: FdtRange| ram_desc(x)) + reservations@.map_values(
            |x: FdtRange| widened(x, page_size),
        ),
{
    let mut out: Vec<MemoryDescriptor> = Vec::new();
    for i in 0..ram.len()
        invariant
            out@ == ram@.take(i as int).map_values(|x: FdtRange| ram_desc(x)),
    {
        let region = ram[i];
        out.push(
            MemoryDescriptor {
                physical_start: region.address as usize,
                size_in_bytes: region.size as usize,
                memory_type: MemoryType::Usable,
            },
        );
        assert(ram@.take(i as int + 1).map_values(|x: FdtRange| ram_desc(x)) =~= ram@.take(
            i as int,
        ).map_values(|x: FdtRange| ram_desc(x)).push(ram_desc(region)));
    }
    assert(ram@.take(ram@.len() as int) =~= ram@);
    let ghost head = ram@.map_values(|x: FdtRange| ram_desc(x));
    for k in 0..reservations.len()
        invariant
            page_size > 0,
            ranges_align_within(reservations@, page_size),
            head == ram@.map_values(|x: FdtRange| ram_desc(x)),
            out@ == head + reservations@.take(k as int).map_values(|x: FdtRange| widened(x, page_size)),
    {
        let reserved = reservations[k];
        assert(aligns_within(reserved_desc(reservations@[k as int].address, reservations@[k as int].size), page_size));
        let d = MemoryDescriptor::new_aligned(
            reserved.address as usize,
            reserved.size as usize,
            MemoryType::Reserved,
            page_size,
        );
        out.push(d);
        assert(head + reservations@.take(k as int + 1).map_values(|x: FdtRange| widened(x, page_size))
            =~= (head + reservations@.take(k as int).map_values(|x: FdtRange| widened(x, page_size))).push(d));
    }
    assert(reservations@.take(reservations@.len() as int) =~= reservations@);
    out
}

} // verus!

verus! {

/// Most RAM ranges that `memories` reports.
pub const MEMORY_RANGE_CAPACITY: usize = 128;

/// The RAM ranges that the device tree lists, in order, as address ranges;
/// at most 128 of them, the rest are dropped.
pub fn memories(regions: &[FdtRange]) -> (r: Vec<core::ops::Range<usize>>)
    requires
        forall|k: int| 0 <= k < regions@.len() ==> (#[trigger] regions@[k]).address + regions@[k].size <= u64::MAX,
    ensures
        r@.len() == if regions@.len() <= MEMORY_RANGE_CAPACITY {
            regions@.len()
        } else {
            MEMORY_RANGE_CAPACITY as nat
        },
        forall|k: int|
            0 <= k < r@.len() ==> (#[trigger] r@[k]).start == regions@[k].address as usize && r@[k].end == (
            regions@[k].address + regions@[k].size) as usize,
{
    let mut res: Vec<core::ops::Range<usize>> = Vec::new();
    let mut i: usize = 0;
    while i < regions.len() && res.len() < MEMORY_RANGE_CAPACITY
        invariant
            i <= regions@.len(),
            res@.len() == i,
            i <= MEMORY_RANGE_CAPACITY,
            forall|k: int| 0 <= k < regions@.len() ==> (#[trigger] regions@[k]).address + regions@[k].size <= u64::MAX,
            forall|k: int|
                0 <= k < res@.len() ==> (#[trigger] res@[k]).start == regions@[k].address as usize && res@[k].end == (
                regions@[k].address + regions@[k].size) as usize,
        decreases regions@.len() - i,
    {
        let region = regions[i];
        res.push((region.address as usize)..((region.address + region.size) as usize));
        i = i + 1;
    }
    res
}

} // verus!
