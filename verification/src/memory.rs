//! Physical memory map construction: RAM regions are split at the page-aligned
//! bounds of reserved regions, every piece is classified, and neighbouring
//! pieces of the same kind are joined again.

use vstd::prelude::*;

use crate::bounded::{
    capped, descriptor_vec_as_mut_slice, descriptor_vec_as_slice, descriptor_vec_new, descriptor_vec_push,
    descriptors, lemma_capped_push, pieces, pieces_as_slice, pieces_new, pieces_push, points, points_as_mut_slice,
    points_as_slice, points_new, points_push,
};

verus! {

/// The kind of a physical memory region.
#[derive(Debug, Clone, Copy, PartialEq, Eq, Structural)]
pub enum MemoryType {
    Usable,
    Reserved,
}

/// A physical memory region `[physical_start, physical_start + size_in_bytes)`.
#[derive(Debug, Clone, Copy)]
pub struct MemoryDescriptor {
    pub physical_start: usize,
    pub size_in_bytes: usize,
    pub memory_type: MemoryType,
}

/// Most reserved regions, boundaries and result entries that the map holds.
pub const MAP_CAPACITY: usize = 64;

/// Most elementary segments that the map is cut into.
pub const SEGMENT_CAPACITY: usize = 128;

/// One past the last byte of `d`.
pub open spec fn desc_end(d: MemoryDescriptor) -> int {
    d.physical_start + d.size_in_bytes
}

/// `d` ends inside the address space.
pub open spec fn desc_fits(d: MemoryDescriptor) -> bool {
    desc_end(d) <= usize::MAX
}

/// Every descriptor of `s` ends inside the address space.
pub open spec fn all_fit(s: Seq<MemoryDescriptor>) -> bool {
    forall|k: int| 0 <= k < s.len() ==> #[trigger] desc_fits(s[k])
}

/// `x` rounded down to a multiple of `page`.
pub open spec fn round_down(x: int, page: int) -> int {
    (x / page) * page
}

/// `x` rounded up to a multiple of `page` (`x.div_ceil(page) * page`).
pub open spec fn round_up(x: int, page: int) -> int {
    (x / page + if x % page != 0 { 1int } else { 0int }) * page
}

/// `d` widened outwards to page boundaries.
pub open spec fn align_desc(d: MemoryDescriptor, page: usize) -> MemoryDescriptor {
    MemoryDescriptor {
        physical_start: round_down(d.physical_start as int, page as int) as usize,
        size_in_bytes: (round_up(desc_end(d), page as int) - round_down(
            d.physical_start as int,
            page as int,
        )) as usize,
        memory_type: d.memory_type,
    }
}

/// `d` and its page-aligned widening both end inside the address space.
pub open spec fn aligns_within(d: MemoryDescriptor, page: usize) -> bool {
    desc_fits(d) && round_up(desc_end(d), page as int) <= usize::MAX
}

/// Every region of `s` can be widened to page boundaries without overflow.
pub open spec fn all_align_within(s: Seq<MemoryDescriptor>, page: usize) -> bool {
    forall|k: int| 0 <= k < s.len() ==> #[trigger] aligns_within(s[k], page)
}

/// The page-aligned widenings of `s`, in order, leaving out empty ones.
pub open spec fn aligned_all(s: Seq<MemoryDescriptor>, page: usize) -> Seq<MemoryDescriptor>
    decreases s.len(),
{
    if s.len() == 0 {
        Seq::empty()
    } else {
        let prev = aligned_all(s.drop_last(), page);
        let a = align_desc(s.last(), page);
        if a.size_in_bytes > 0 {
            prev.push(a)
        } else {
            prev
        }
    }
}

/// Every reserved region that is widened before the widened regions fill
/// the map can be widened without overflow: those that come after the first
/// region that finds the map full are never widened.
pub open spec fn widenings_fit(s: Seq<MemoryDescriptor>, page: usize) -> bool {
    forall|i: int|
        0 <= i < s.len() && aligned_all(#[trigger] s.take(i), page).len() <= MAP_CAPACITY ==> aligns_within(
            s[i],
            page,
        )
}

/// The reserved regions as the map uses them: widened to pages, empty ones
/// left out, at most `MAP_CAPACITY` of them.
pub open spec fn aligned_reserved(rsv: Seq<MemoryDescriptor>, page: usize) -> Seq<MemoryDescriptor> {
    capped(aligned_all(rsv, page), MAP_CAPACITY as nat)
}

proof fn lemma_rounding(x: int, page: int)
    requires
        x >= 0,
        page > 0,
    ensures
        0 <= round_down(x, page) <= x,
        x <= round_up(x, page),
        round_down(x, page) % page == 0,
        round_up(x, page) % page == 0,
        x - round_down(x, page) < page,
        round_up(x, page) - x < page,
{
    assert(0 <= round_down(x, page) <= x && x - round_down(x, page) < page) by (nonlinear_arith)
        requires
            x >= 0,
            page > 0,
    {
        vstd::arithmetic::div_mod::lemma_fundamental_div_mod(x, page);
    }
    assert(x <= round_up(x, page) && round_up(x, page) - x < page) by (nonlinear_arith)
        requires
            x >= 0,
            page > 0,
    {
        vstd::arithmetic::div_mod::lemma_fundamental_div_mod(x, page);
    }
    vstd::arithmetic::div_mod::lemma_mod_multiples_basic(x / page, page);
    vstd::arithmetic::div_mod::lemma_mod_multiples_basic(
        x / page + if x % page != 0 { 1int } else { 0int },
        page,
    );
}

/// Rounding `x` down or up to a multiple of `page` moves it by less than a
/// page, and the results are multiples of `page`.
pub proof fn lemma_rounding_pub(x: int, page: int)
    requires
        x >= 0,
        page > 0,
    ensures
        0 <= round_down(x, page) <= x,
        x <= round_up(x, page),
        round_down(x, page) % page == 0,
        round_up(x, page) % page == 0,
{
    lemma_rounding(x, page);
}

/// The widening of a region that aligns within the address space fits in it.
pub proof fn lemma_align_desc_fits(d: MemoryDescriptor, page: usize)
    requires
        page > 0,
        aligns_within(d, page),
    ensures
        desc_fits(align_desc(d, page)),
{
    lemma_rounding(d.physical_start as int, page as int);
    lemma_rounding(desc_end(d), page as int);
}

proof fn lemma_aligned_all_prefix(s: Seq<MemoryDescriptor>, i: int, page: usize)
    requires
        0 <= i <= s.len(),
    ensures
        aligned_all(s.take(i), page).is_prefix_of(aligned_all(s, page)),
    decreases s.len(),
{
    if i == s.len() {
        assert(s.take(i) =~= s);
    } else {
        assert(s.drop_last().take(i) =~= s.take(i));
        lemma_aligned_all_prefix(s.drop_last(), i, page);
    }
}

proof fn lemma_capped_prefix<A>(a: Seq<A>, b: Seq<A>, n: nat)
    requires
        a.is_prefix_of(b),
        a.len() >= n,
    ensures
        capped(a, n) == capped(b, n),
{
    assert(capped(a, n) =~= capped(b, n));
}

/// Widens every reserved region to page boundaries, leaving out empty ones,
/// and keeps at most `MAP_CAPACITY` of them.
fn align_reserved_regions(rsv: &[MemoryDescriptor], page_size: usize) -> (res: heapless::Vec<MemoryDescriptor, 64>)
    requires
        page_size > 0,
        widenings_fit(rsv@, page_size),
    ensures
        descriptors(res) == aligned_reserved(rsv@, page_size),
{
    let mut aligned_rsv = descriptor_vec_new();
    let mut i: usize = 0;
    assert(rsv@.take(rsv@.len() as int) =~= rsv@);
    while i < rsv.len()
        invariant_except_break
            descriptors(aligned_rsv) == capped(aligned_all(rsv@.take(i as int), page_size), MAP_CAPACITY as nat),
            aligned_all(rsv@.take(i as int), page_size).len() <= MAP_CAPACITY,
        invariant
            i <= rsv.len(),
            rsv@.take(rsv@.len() as int) == rsv@,
            page_size > 0,
            widenings_fit(rsv@, page_size),
        ensures
            descriptors(aligned_rsv) == aligned_reserved(rsv@, page_size),
        decreases rsv.len() - i,
    {
        let reserved = rsv[i];
        proof {
            assert(aligns_within(rsv@[i as int], page_size)) by {
                assert(aligned_all(rsv@.take(i as int), page_size).len() <= MAP_CAPACITY);
            }
            lemma_rounding(reserved.physical_start as int, page_size as int);
            lemma_rounding(desc_end(reserved), page_size as int);
            assert(rsv@.take(i as int + 1).drop_last() =~= rsv@.take(i as int));
            assert(rsv@.take(i as int + 1).last() == reserved);
        }
        let aligned_start = (reserved.physical_start / page_size) * page_size;
        let end = reserved.physical_start + reserved.size_in_bytes;
        let aligned_end = (end / page_size + if end % page_size != 0 { 1 } else { 0 }) * page_size;
        let aligned_size = aligned_end - aligned_start;
        let d = MemoryDescriptor {
            physical_start: aligned_start,
            size_in_bytes: aligned_size,
            memory_type: reserved.memory_type,
        };
        assert(d == align_desc(reserved, page_size));
        if aligned_size > 0 {
            proof {
                lemma_capped_push(aligned_all(rsv@.take(i as int), page_size), d, MAP_CAPACITY as nat);
            }
            if !descriptor_vec_push(&mut aligned_rsv, d) {
                proof {
                    lemma_aligned_all_prefix(rsv@, i as int, page_size);
                    lemma_capped_prefix(
                        aligned_all(rsv@.take(i as int), page_size),
                        aligned_all(rsv@, page_size),
                        MAP_CAPACITY as nat,
                    );
                }
                break;
            }
        }
        i = i + 1;
    }
    aligned_rsv
}

} // verus!

verus! {

/// The start and end of every region of `ds`, in order.
pub open spec fn endpoints(ds: Seq<MemoryDescriptor>) -> Seq<usize>
    decreases ds.len(),
{
    if ds.len() == 0 {
        Seq::empty()
    } else {
        let d = ds.last();
        endpoints(ds.drop_last()).push(d.physical_start).push(desc_end(d) as usize)
    }
}

/// The boundary points that the map records: the ends of the RAM regions,
/// then those of the reserved regions, at most `MAP_CAPACITY` of them.
pub open spec fn raw_boundaries(ram: Seq<MemoryDescriptor>, rsv: Seq<MemoryDescriptor>) -> Seq<usize> {
    capped(endpoints(ram) + endpoints(rsv), MAP_CAPACITY as nat)
}

/// Each item of `s` is smaller than every later one.
pub open spec fn strictly_increasing(s: Seq<usize>) -> bool {
    forall|i: int, j: int| 0 <= i < j < s.len() ==> s[i] < s[j]
}

/// Each item of `s` is at most every later one.
pub open spec fn nondecreasing(s: Seq<usize>) -> bool {
    forall|i: int, j: int| 0 <= i < j < s.len() ==> s[i] <= s[j]
}

pub proof fn lemma_swap_multiset<A>(s: Seq<A>, i: int, j: int)
    requires
        0 <= i < s.len(),
        0 <= j < s.len(),
    ensures
        s.update(i, s[j]).update(j, s[i]).to_multiset() == s.to_multiset(),
        s.update(i, s[j]).update(j, s[i]).len() == s.len(),
{
    broadcast use vstd::seq_lib::to_multiset_update;
    broadcast use vstd::multiset::group_multiset_axioms;

    if i == j {
        assert(s.update(i, s[j]).update(j, s[i]) =~= s);
    } else {
        broadcast use vstd::seq_lib::to_multiset_contains;

        let s1 = s.update(i, s[j]);
        let m = s.to_multiset();
        assert(s1[j] == s[j]);
        assert(s.contains(s[i]));
        assert(s1.contains(s1[j]));
        assert(m.count(s[i]) > 0);
        assert(s1.to_multiset() == m.insert(s[j]).remove(s[i]));
        assert(s1.to_multiset().count(s[j]) > 0);
        assert(s1.update(j, s[i]).to_multiset() == s1.to_multiset().insert(s[i]).remove(s[j]));
        assert forall|x: A| s1.update(j, s[i]).to_multiset().count(x) == m.count(x) by {}
        assert(s1.update(j, s[i]).to_multiset() =~= s.to_multiset());
    }
}

proof fn lemma_multiset_same_set(a: Seq<usize>, b: Seq<usize>)
    requires
        a.to_multiset() == b.to_multiset(),
    ensures
        a.to_set() == b.to_set(),
{
    broadcast use vstd::seq_lib::to_multiset_contains;

    assert forall|x: usize| a.to_set().contains(x) <==> b.to_set().contains(x) by {
        assert(a.contains(x) <==> a.to_multiset().count(x) > 0);
        assert(b.contains(x) <==> b.to_multiset().count(x) > 0);
    }
    assert(a.to_set() =~= b.to_set());
}

/// Sorts `v` in place, smallest first, by exchanging out-of-order pairs.
fn sort_boundaries(v: &mut [usize])
    ensures
        final(v)@.to_multiset() == old(v)@.to_multiset(),
        final(v)@.len() == old(v)@.len(),
        nondecreasing(final(v)@),
{
    let n = v.len();
    let ghost orig = v@;
    for i in 0..n
        invariant
            n == v.len(),
            v@.to_multiset() == orig.to_multiset(),
            forall|a: int, b: int| 0 <= a < b < i ==> v@[a] <= v@[b],
            forall|a: int, b: int| 0 <= a < i <= b < n ==> v@[a] <= v@[b],
    {
        for j in i + 1..n
            invariant
                n == v.len(),
                i < n,
                v@.to_multiset() == orig.to_multiset(),
                forall|a: int, b: int| 0 <= a < b < i ==> v@[a] <= v@[b],
                forall|a: int, b: int| 0 <= a < i <= b < n ==> v@[a] <= v@[b],
                forall|k: int| i < k < j ==> v@[i as int] <= v@[k],
        {
            if v[i] > v[j] {
                let a = v[i];
                let b = v[j];
                proof {
                    lemma_swap_multiset(v@, i as int, j as int);
                }
                v[i] = b;
                v[j] = a;
            }
        }
    }
}

/// Gathers the start and end of every region, sorts them and drops repeats.
fn collect_boundaries(ram: &[MemoryDescriptor], rsv: &[MemoryDescriptor]) -> (res: heapless::Vec<usize, 64>)
    requires
        all_fit(ram@),
        all_fit(rsv@),
    ensures
        strictly_increasing(points(res)),
        points(res).to_set() == raw_boundaries(ram@, rsv@).to_set(),
        points(res).len() <= MAP_CAPACITY,
{
    let mut boundaries = points_new();
    let ghost cap = MAP_CAPACITY as nat;
    for i in 0..ram.len()
        invariant
            all_fit(ram@),
            cap == MAP_CAPACITY as nat,
            points(boundaries) == capped(endpoints(ram@.take(i as int)), cap),
    {
        let region = ram[i];
        proof {
            assert(desc_fits(ram@[i as int]));
            assert(ram@.take(i as int + 1).drop_last() =~= ram@.take(i as int));
            assert(ram@.take(i as int + 1).last() == region);
            let e0 = endpoints(ram@.take(i as int));
            lemma_capped_push(e0, region.physical_start, cap);
            lemma_capped_push(e0.push(region.physical_start), desc_end(region) as usize, cap);
            assert(endpoints(ram@.take(i as int + 1)) == e0.push(region.physical_start).push(
                desc_end(region) as usize,
            ));
        }
        let _ = points_push(&mut boundaries, region.physical_start);
        let _ = points_push(&mut boundaries, region.physical_start + region.size_in_bytes);
    }
    assert(ram@.take(ram@.len() as int) =~= ram@);
    let ghost er = endpoints(ram@);
    assert(er + endpoints(rsv@.take(0)) =~= er);
    for k in 0..rsv.len()
        invariant
            all_fit(rsv@),
            cap == MAP_CAPACITY as nat,
            er == endpoints(ram@),
            points(boundaries) == capped(er + endpoints(rsv@.take(k as int)), cap),
    {
        let region = rsv[k];
        proof {
            assert(desc_fits(rsv@[k as int]));
            assert(rsv@.take(k as int + 1).drop_last() =~= rsv@.take(k as int));
            assert(rsv@.take(k as int + 1).last() == region);
            let e0 = er + endpoints(rsv@.take(k as int));
            assert(er + endpoints(rsv@.take(k as int + 1)) =~= e0.push(region.physical_start).push(
                desc_end(region) as usize,
            ));
            lemma_capped_push(e0, region.physical_start, cap);
            lemma_capped_push(e0.push(region.physical_start), desc_end(region) as usize, cap);
        }
        let _ = points_push(&mut boundaries, region.physical_start);
        let _ = points_push(&mut boundaries, region.physical_start + region.size_in_bytes);
    }
    assert(rsv@.take(rsv@.len() as int) =~= rsv@);
    let ghost raw = points(boundaries);
    assert(raw == raw_boundaries(ram@, rsv@));
    sort_boundaries(points_as_mut_slice(&mut boundaries));
    let sorted = points_as_slice(&boundaries);
    proof {
        lemma_multiset_same_set(sorted@, raw);
    }
    let mut unique = points_new();
    for k in 0..sorted.len()
        invariant
            sorted@.len() <= MAP_CAPACITY,
            nondecreasing(sorted@),
            strictly_increasing(points(unique)),
            points(unique).len() <= k,
            points(unique).to_set() == sorted@.take(k as int).to_set(),
            k > 0 ==> points(unique).len() > 0 && points(unique).last() == sorted@[k - 1],
    {
        let b = sorted[k];
        assert(sorted@.take(k as int + 1) =~= sorted@.take(k as int).push(b));
        let ghost before = points(unique);
        proof {
            sorted@.take(k as int).lemma_push_to_set_commute(b);
        }
        let u = points_as_slice(&unique);
        if u.len() == 0 || u[u.len() - 1] != b {
            let _ = points_push(&mut unique, b);
            proof {
                before.lemma_push_to_set_commute(b);
            }
        } else {
            assert(before.contains(b)) by {
                assert(before[before.len() - 1] == b);
            }
            assert(before.to_set().insert(b) =~= before.to_set());
        }
    }
    assert(sorted@.take(sorted@.len() as int) =~= sorted@);
    unique
}

} // verus!

verus! {

/// The increasing run of points that make up `s`.
pub open spec fn sorted_points(s: Set<usize>) -> Seq<usize> {
    choose|b: Seq<usize>| strictly_increasing(b) && b.to_set() == s
}

proof fn lemma_strict_drop_first_set(a: Seq<usize>)
    requires
        strictly_increasing(a),
        a.len() > 0,
    ensures
        a.drop_first().to_set() == a.to_set().remove(a[0]),
        forall|x: usize| a.to_set().contains(x) ==> a[0] <= x,
{
    assert forall|x: usize| a.drop_first().to_set().contains(x) <==> a.to_set().remove(a[0]).contains(x) by {
        if a.drop_first().to_set().contains(x) {
            let w = choose|w: int| 0 <= w < a.drop_first().len() && a.drop_first()[w] == x;
            assert(a[w + 1] == x);
            assert(a.contains(x));
        }
        if a.to_set().remove(a[0]).contains(x) {
            let w = choose|w: int| 0 <= w < a.len() && a[w] == x;
            assert(w != 0);
            assert(a.drop_first()[w - 1] == x);
            assert(a.drop_first().contains(x));
        }
    }
    assert(a.drop_first().to_set() =~= a.to_set().remove(a[0]));
    assert forall|x: usize| a.to_set().contains(x) implies a[0] <= x by {
        let w = choose|w: int| 0 <= w < a.len() && a[w] == x;
        if w > 0 {
            assert(a[0] < a[w]);
        }
    }
}

/// Two increasing runs of the same points are the same run.
pub proof fn lemma_sorted_points_unique(a: Seq<usize>, b: Seq<usize>)
    requires
        strictly_increasing(a),
        strictly_increasing(b),
        a.to_set() == b.to_set(),
    ensures
        a == b,
    decreases a.len(),
{
    if a.len() == 0 {
        if b.len() > 0 {
            assert(b.to_set().contains(b[0]));
        }
        assert(a =~= b);
    } else {
        if b.len() == 0 {
            assert(a.to_set().contains(a[0]));
            assert(false);
        }
        lemma_strict_drop_first_set(a);
        lemma_strict_drop_first_set(b);
        assert(a.to_set().contains(a[0]));
        assert(b.to_set().contains(b[0]));
        assert(a[0] == b[0]);
        lemma_sorted_points_unique(a.drop_first(), b.drop_first());
        assert(a =~= b) by {
            assert forall|i: int| 0 <= i < a.len() implies a[i] == b[i] by {
                if i > 0 {
                    assert(a[i] == a.drop_first()[i - 1]);
                    assert(b[i] == b.drop_first()[i - 1]);
                }
            }
        }
    }
}

/// A run that makes up `s` is the run `sorted_points(s)`.
pub proof fn lemma_sorted_points(b: Seq<usize>, s: Set<usize>)
    requires
        strictly_increasing(b),
        b.to_set() == s,
    ensures
        sorted_points(s) == b,
{
    let c = sorted_points(s);
    assert(strictly_increasing(c) && c.to_set() == s);
    lemma_sorted_points_unique(b, c);
}

/// The boundary points of the map, in increasing order, each once.
pub open spec fn boundary_points(ram: Seq<MemoryDescriptor>, rsv: Seq<MemoryDescriptor>) -> Seq<usize> {
    sorted_points(raw_boundaries(ram, rsv).to_set())
}

/// Each pair of neighbouring points of `b` whose first is below the second.
pub open spec fn strict_pairs(b: Seq<usize>) -> Seq<(usize, usize)>
    decreases b.len(),
{
    if b.len() < 2 {
        Seq::empty()
    } else {
        let prev = strict_pairs(b.drop_last());
        let s = b[b.len() - 2];
        let e = b[b.len() - 1];
        if s < e {
            prev.push((s, e))
        } else {
            prev
        }
    }
}

/// For an increasing run, the pairs are exactly its neighbouring points.
pub proof fn lemma_strict_pairs_increasing(b: Seq<usize>)
    requires
        strictly_increasing(b),
    ensures
        b.len() >= 1 ==> strict_pairs(b).len() == b.len() - 1,
        b.len() == 0 ==> strict_pairs(b).len() == 0,
        forall|k: int|
            0 <= k < strict_pairs(b).len() ==> #[trigger] strict_pairs(b)[k] == (b[k], b[k + 1]),
    decreases b.len(),
{
    if b.len() >= 2 {
        lemma_strict_pairs_increasing(b.drop_last());
        assert(b[b.len() - 2] < b[b.len() - 1]);
    }
}

/// Cuts the span between successive boundary points into segments, keeping
/// at most `SEGMENT_CAPACITY` of them.
fn generate_segments(boundaries: &[usize]) -> (res: heapless::Vec<(usize, usize), 128>)
    ensures
        pieces(res) == capped(strict_pairs(boundaries@), SEGMENT_CAPACITY as nat),
{
    let mut segments = pieces_new();
    if boundaries.len() < 2 {
        return segments;
    }
    let ghost b = boundaries@;
    let ghost cap = SEGMENT_CAPACITY as nat;
    assert(b.take(1).len() == 1);
    for i in 0..boundaries.len() - 1
        invariant
            b == boundaries@,
            b.len() >= 2,
            cap == SEGMENT_CAPACITY as nat,
            pieces(segments) == capped(strict_pairs(b.take(i as int + 1)), cap),
    {
        let start = boundaries[i];
        let end = boundaries[i + 1];
        proof {
            let t = b.take(i as int + 2);
            assert(t.drop_last() =~= b.take(i as int + 1));
            assert(t[t.len() - 2] == start);
            assert(t[t.len() - 1] == end);
            lemma_capped_push(strict_pairs(b.take(i as int + 1)), (start, end), cap);
        }
        if start < end {
            let _ = pieces_push(&mut segments, (start, end));
        }
    }
    assert(b.take(b.len() as int) =~= b);
    segments
}

/// Some reserved region of `rsv` meets `[start, end)`.
pub open spec fn meets_reserved(start: int, end: int, rsv: Seq<MemoryDescriptor>) -> bool {
    exists|k: int|
        0 <= k < rsv.len() && start < desc_end(#[trigger] rsv[k]) && end > rsv[k].physical_start
}

/// The kind of the segment `[start, end)`: reserved when it meets a reserved region.
pub open spec fn segment_type(start: int, end: int, rsv: Seq<MemoryDescriptor>) -> MemoryType {
    if meets_reserved(start, end, rsv) {
        MemoryType::Reserved
    } else {
        MemoryType::Usable
    }
}

/// Classifies the segment `[segment_start, segment_end)`: reserved exactly
/// when it meets one of the reserved regions.
pub fn determine_segment_type(segment_start: usize, segment_end: usize, rsv: &[MemoryDescriptor]) -> (res: MemoryType)
    requires
        all_fit(rsv@),
    ensures
        res == segment_type(segment_start as int, segment_end as int, rsv@),
{
    for k in 0..rsv.len()
        invariant
            all_fit(rsv@),
            forall|m: int|
                0 <= m < k ==> !(segment_start < desc_end(#[trigger] rsv@[m]) && segment_end
                    > rsv@[m].physical_start),
    {
        let reserved = rsv[k];
        assert(desc_fits(rsv@[k as int]));
        let rsv_start = reserved.physical_start;
        let rsv_end = reserved.physical_start + reserved.size_in_bytes;
        if segment_start < rsv_end && segment_end > rsv_start {
            return MemoryType::Reserved;
        }
    }
    MemoryType::Usable
}


/// Whether some RAM region meets the segment `[segment_start, segment_end)`.
fn segment_meets_ram(segment_start: usize, segment_end: usize, ram: &[MemoryDescriptor]) -> (res: bool)
    requires
        all_fit(ram@),
    ensures
        res == meets_ram(segment_start as int, segment_end as int, ram@),
{
    for k in 0..ram.len()
        invariant
            all_fit(ram@),
            forall|m: int|
                0 <= m < k ==> !(segment_start < desc_end(#[trigger] ram@[m]) && segment_end
                    > ram@[m].physical_start),
    {
        let region = ram[k];
        assert(desc_fits(ram@[k as int]));
        if segment_start < region.physical_start + region.size_in_bytes && segment_end > region.physical_start {
            return true;
        }
    }
    false
}

} // verus!

verus! {

/// Each descriptor of `s` starts no later than every later one.
pub open spec fn sorted_by_start(s: Seq<MemoryDescriptor>) -> bool {
    forall|i: int, j: int| 0 <= i < j < s.len() ==> s[i].physical_start <= s[j].physical_start
}

/// `b` starts where `a` ends and has the same kind.
pub open spec fn joinable(a: MemoryDescriptor, b: MemoryDescriptor) -> bool {
    desc_end(a) == b.physical_start && a.memory_type == b.memory_type
}

/// `a` grown to also cover `b`.
pub open spec fn join(a: MemoryDescriptor, b: MemoryDescriptor) -> MemoryDescriptor {
    MemoryDescriptor {
        physical_start: a.physical_start,
        size_in_bytes: (a.size_in_bytes + b.size_in_bytes) as usize,
        memory_type: a.memory_type,
    }
}

/// `s` with every run of abutting descriptors of one kind joined into one.
pub open spec fn merge_runs(s: Seq<MemoryDescriptor>) -> Seq<MemoryDescriptor>
    decreases s.len(),
{
    if s.len() <= 1 {
        s
    } else {
        let r = merge_runs(s.drop_last());
        let x = s.last();
        if joinable(r.last(), x) {
            r.drop_last().push(join(r.last(), x))
        } else {
            r.push(x)
        }
    }
}

pub proof fn lemma_merge_runs_len(s: Seq<MemoryDescriptor>)
    ensures
        merge_runs(s).len() <= s.len(),
        s.len() > 0 ==> merge_runs(s).len() > 0,
    decreases s.len(),
{
    if s.len() > 1 {
        lemma_merge_runs_len(s.drop_last());
    }
}

/// Sorts `v` in place by start address by exchanging out-of-order pairs; a
/// vector that is already in order is left as it is.
pub fn sort_by_start(v: &mut [MemoryDescriptor])
    ensures
        final(v)@.to_multiset() == old(v)@.to_multiset(),
        final(v)@.len() == old(v)@.len(),
        sorted_by_start(final(v)@),
        sorted_by_start(old(v)@) ==> final(v)@ == old(v)@,
{
    let n = v.len();
    let ghost orig = v@;
    for i in 0..n
        invariant
            n == v.len(),
            v@.to_multiset() == orig.to_multiset(),
            sorted_by_start(orig) ==> v@ == orig,
            forall|a: int, b: int| 0 <= a < b < i ==> v@[a].physical_start <= v@[b].physical_start,
            forall|a: int, b: int|
                0 <= a < i <= b < n ==> v@[a].physical_start <= v@[b].physical_start,
    {
        for j in i + 1..n
            invariant
                n == v.len(),
                i < n,
                v@.to_multiset() == orig.to_multiset(),
                sorted_by_start(orig) ==> v@ == orig,
                forall|a: int, b: int| 0 <= a < b < i ==> v@[a].physical_start <= v@[b].physical_start,
                forall|a: int, b: int|
                    0 <= a < i <= b < n ==> v@[a].physical_start <= v@[b].physical_start,
                forall|k: int| i < k < j ==> v@[i as int].physical_start <= v@[k].physical_start,
        {
            if v[i].physical_start > v[j].physical_start {
                let a = v[i];
                let b = v[j];
                proof {
                    lemma_swap_multiset(v@, i as int, j as int);
                }
                v[i] = b;
                v[j] = a;
            }
        }
    }
}

/// Sorts the descriptors by start address and joins every run of abutting
/// descriptors of one kind into one.
fn merge_consecutive_segments(segments: heapless::Vec<MemoryDescriptor, 64>) -> (res: heapless::Vec<MemoryDescriptor, 64>)
    requires
        all_fit(descriptors(segments)),
    ensures
        exists|p: Seq<MemoryDescriptor>|
            p.to_multiset() == descriptors(segments).to_multiset() && sorted_by_start(p) && descriptors(res)
                == merge_runs(p),
        sorted_by_start(descriptors(segments)) ==> descriptors(res) == merge_runs(descriptors(segments)),
        descriptors(res).len() <= descriptors(segments).len(),
{
    broadcast use vstd::seq_lib::to_multiset_contains;

    let ghost orig = descriptors(segments);
    if descriptor_vec_as_slice(&segments).len() == 0 {
        assert(sorted_by_start(orig) && merge_runs(orig) == orig);
        return segments;
    }
    let mut sorted_segments = segments;
    sort_by_start(descriptor_vec_as_mut_slice(&mut sorted_segments));
    let sorted = descriptor_vec_as_slice(&sorted_segments);
    let ghost p = sorted@;
    assert forall|k: int| 0 <= k < p.len() implies #[trigger] desc_fits(p[k]) by {
        assert(p.contains(p[k]));
        assert(p.to_multiset().count(p[k]) > 0);
        assert(orig.contains(p[k]));
        let w = choose|w: int| 0 <= w < orig.len() && orig[w] == p[k];
        assert(desc_fits(orig[w]));
    }
    let mut merged = descriptor_vec_new();
    let mut current = sorted[0];
    assert(p.take(1) =~= seq![current]);
    let n = sorted.len();
    for k in 1..n
        invariant
            n == sorted@.len(),
            n <= MAP_CAPACITY,
            p == sorted@,
            all_fit(p),
            desc_fits(current),
            descriptors(merged).push(current) == merge_runs(p.take(k as int)),
    {
        let segment = sorted[k];
        assert(desc_fits(p[k as int]));
        let ghost t = p.take(k as int + 1);
        assert(t.drop_last() =~= p.take(k as int));
        assert(t.last() == segment);
        let ghost r = merge_runs(p.take(k as int));
        assert(r.last() == current);
        assert(r.drop_last() =~= descriptors(merged));
        proof {
            lemma_merge_runs_len(p.take(k as int));
        }
        let current_end = current.physical_start + current.size_in_bytes;
        if current_end == segment.physical_start && current.memory_type == segment.memory_type {
            current.size_in_bytes = current.size_in_bytes + segment.size_in_bytes;
        } else {
            let _ = descriptor_vec_push(&mut merged, current);
            current = segment;
        }
    }
    assert(p.take(n as int) =~= p);
    proof {
        lemma_merge_runs_len(p);
    }
    let _ = descriptor_vec_push(&mut merged, current);
    merged
}

/// The elementary segment `p`, classified against `rsv`.
pub open spec fn typed_segment(p: (usize, usize), rsv: Seq<MemoryDescriptor>) -> MemoryDescriptor {
    MemoryDescriptor {
        physical_start: p.0,
        size_in_bytes: (p.1 - p.0) as usize,
        memory_type: segment_type(p.0 as int, p.1 as int, rsv),
    }
}

/// Some region of `ram` meets `[start, end)`.
pub open spec fn meets_ram(start: int, end: int, ram: Seq<MemoryDescriptor>) -> bool {
    exists|k: int|
        0 <= k < ram.len() && start < desc_end(#[trigger] ram[k]) && end > ram[k].physical_start
}

/// The segment `p` belongs in the map: it meets a reserved region or RAM.
pub open spec fn segment_kept(p: (usize, usize), ram: Seq<MemoryDescriptor>, rsv: Seq<MemoryDescriptor>) -> bool {
    meets_reserved(p.0 as int, p.1 as int, rsv) || meets_ram(p.0 as int, p.1 as int, ram)
}

/// The segments of `segs` that meet RAM or a reserved region, classified, in
/// order; the others lie outside all memory and are left out.
pub open spec fn kept_segments(
    segs: Seq<(usize, usize)>,
    ram: Seq<MemoryDescriptor>,
    rsv: Seq<MemoryDescriptor>,
) -> Seq<MemoryDescriptor>
    decreases segs.len(),
{
    if segs.len() == 0 {
        Seq::empty()
    } else {
        let prev = kept_segments(segs.drop_last(), ram, rsv);
        if segment_kept(segs.last(), ram, rsv) {
            prev.push(typed_segment(segs.last(), rsv))
        } else {
            prev
        }
    }
}

/// The elementary segments of the map that lie in RAM or in a reserved
/// region, classified, at most `MAP_CAPACITY` of them.
pub open spec fn classified_segments(ram: Seq<MemoryDescriptor>, rsv: Seq<MemoryDescriptor>, page: usize) -> Seq<MemoryDescriptor> {
    let arsv = aligned_reserved(rsv, page);
    let segs = capped(strict_pairs(boundary_points(ram, arsv)), SEGMENT_CAPACITY as nat);
    capped(kept_segments(segs, ram, arsv), MAP_CAPACITY as nat)
}

/// The memory map that `merge_memories` builds.
pub open spec fn memory_map(ram: Seq<MemoryDescriptor>, rsv: Seq<MemoryDescriptor>, page: usize) -> Seq<MemoryDescriptor> {
    merge_runs(classified_segments(ram, rsv, page))
}

/// Builds the physical memory map: every reserved region is widened to page
/// boundaries, the address range is cut at the bounds of all regions, each
/// piece that meets a reserved region is marked reserved, each other piece
/// that meets RAM is marked usable, pieces in neither (the gaps between RAM
/// regions) are left out, and abutting pieces of one kind are joined. At
/// most 64 boundary points, 64 reserved regions and 64 pieces are kept; the
/// rest are dropped.
pub fn merge_memories(ram: &[MemoryDescriptor], rsv: &[MemoryDescriptor], page_size: usize) -> (res: heapless::Vec<MemoryDescriptor, 64>)
    requires
        page_size > 0,
        all_fit(ram@),
        widenings_fit(rsv@, page_size),
    ensures
        descriptors(res) == memory_map(ram@, rsv@, page_size),
{
    let aligned_rsv = align_reserved_regions(rsv, page_size);
    let arsv_slice = descriptor_vec_as_slice(&aligned_rsv);
    let ghost arsv = arsv_slice@;
    assert(all_fit(arsv)) by {
        assert forall|k: int| 0 <= k < arsv.len() implies #[trigger] desc_fits(arsv[k]) by {
            lemma_aligned_fit(rsv@, page_size, k);
        }
    }
    let boundaries_vec = collect_boundaries(ram, arsv_slice);
    let boundaries = points_as_slice(&boundaries_vec);
    proof {
        lemma_sorted_points(boundaries@, raw_boundaries(ram@, arsv).to_set());
        lemma_strict_pairs_increasing(boundaries@);
    }
    let segments_vec = generate_segments(boundaries);
    let segments = pieces_as_slice(&segments_vec);
    let ghost segs = segments@;
    assert(segs == strict_pairs(boundaries@));
    let mut result = descriptor_vec_new();
    let mut i: usize = 0;
    assert(segs.take(segs.len() as int) =~= segs);
    assert(segs.take(0) =~= Seq::<(usize, usize)>::empty());
    while i < segments.len()
        invariant_except_break
            descriptors(result) == capped(kept_segments(segs.take(i as int), ram@, arsv), MAP_CAPACITY as nat),
        invariant
            i <= segments@.len(),
            segs == segments@,
            segs == strict_pairs(boundaries@),
            strictly_increasing(boundaries@),
            forall|k: int| 0 <= k < segs.len() ==> #[trigger] segs[k] == (boundaries@[k], boundaries@[k + 1]),
            boundaries@.len() >= 1 ==> segs.len() == boundaries@.len() - 1,
            boundaries@.len() == 0 ==> segs.len() == 0,
            all_fit(arsv),
            all_fit(ram@),
            arsv == arsv_slice@,
            segs.take(segs.len() as int) == segs,
            forall|k: int| 0 <= k < descriptors(result).len() ==> #[trigger] desc_fits(descriptors(result)[k]),
        ensures
            descriptors(result) == capped(kept_segments(segs, ram@, arsv), MAP_CAPACITY as nat),
            forall|k: int| 0 <= k < descriptors(result).len() ==> #[trigger] desc_fits(descriptors(result)[k]),
        decreases segments@.len() - i,
    {
        let (segment_start, segment_end) = segments[i];
        assert(segs[i as int] == (boundaries@[i as int], boundaries@[i as int + 1]));
        assert(boundaries@[i as int] < boundaries@[i as int + 1]);
        let memory_type = determine_segment_type(segment_start, segment_end, arsv_slice);
        let ghost before = kept_segments(segs.take(i as int), ram@, arsv);
        assert(segs.take(i as int + 1).drop_last() =~= segs.take(i as int));
        assert(segs.take(i as int + 1).last() == segs[i as int]);
        let keep = match memory_type {
            MemoryType::Reserved => true,
            MemoryType::Usable => segment_meets_ram(segment_start, segment_end, ram),
        };
        assert(keep == segment_kept(segs[i as int], ram@, arsv));
        if keep {
            let descriptor = MemoryDescriptor {
                physical_start: segment_start,
                size_in_bytes: segment_end - segment_start,
                memory_type,
            };
            assert(descriptor == typed_segment(segs[i as int], arsv));
            assert(kept_segments(segs.take(i as int + 1), ram@, arsv) == before.push(descriptor));
            proof {
                lemma_capped_push(before, descriptor, MAP_CAPACITY as nat);
            }
            if !descriptor_vec_push(&mut result, descriptor) {
                proof {
                    lemma_kept_prefix(segs, ram@, arsv, i as int);
                    lemma_capped_prefix(before, kept_segments(segs, ram@, arsv), MAP_CAPACITY as nat);
                }
                break;
            }
        } else {
            assert(kept_segments(segs.take(i as int + 1), ram@, arsv) == before);
        }
        i = i + 1;
    }
    proof {
        lemma_strict_pairs_increasing(boundaries@);
        assert(segs.len() <= SEGMENT_CAPACITY);
        assert(capped(segs, SEGMENT_CAPACITY as nat) == segs);
        assert(descriptors(result) == classified_segments(ram@, rsv@, page_size));
        lemma_kept_shape(segs, ram@, arsv);
        lemma_chain_capped(kept_segments(segs, ram@, arsv), MAP_CAPACITY as nat);
        lemma_chain_sorted(descriptors(result));
    }
    merge_consecutive_segments(result)
}

proof fn lemma_aligned_all_fit(s: Seq<MemoryDescriptor>, page: usize)
    requires
        page > 0,
        all_align_within(s, page),
    ensures
        all_fit(aligned_all(s, page)),
    decreases s.len(),
{
    if s.len() > 0 {
        assert(all_align_within(s.drop_last(), page)) by {
            assert forall|k: int| 0 <= k < s.drop_last().len() implies #[trigger] aligns_within(s.drop_last()[k], page) by {
                assert(aligns_within(s[k], page));
            }
        }
        lemma_aligned_all_fit(s.drop_last(), page);
        let d = s.last();
        assert(aligns_within(s[s.len() - 1], page));
        lemma_rounding(d.physical_start as int, page as int);
        lemma_rounding(desc_end(d), page as int);
    }
}

proof fn lemma_aligned_fit(s: Seq<MemoryDescriptor>, page: usize, k: int)
    requires
        page > 0,
        widenings_fit(s, page),
        0 <= k < aligned_reserved(s, page).len(),
    ensures
        desc_fits(aligned_reserved(s, page)[k]),
{
    lemma_aligned_reserved_fit(s, page);
}

/// Regions that can all be widened can be widened before the map fills.
pub proof fn lemma_widenings_fit(s: Seq<MemoryDescriptor>, page: usize)
    requires
        all_align_within(s, page),
    ensures
        widenings_fit(s, page),
{
}

/// The widened regions that the map keeps end inside the address space.
proof fn lemma_aligned_reserved_fit(s: Seq<MemoryDescriptor>, page: usize)
    requires
        page > 0,
        widenings_fit(s, page),
    ensures
        all_fit(aligned_reserved(s, page)),
    decreases s.len(),
{
    if s.len() > 0 {
        let n = s.len() - 1;
        let t = s.drop_last();
        assert forall|i: int| 0 <= i < t.len() && aligned_all(#[trigger] t.take(i), page).len() <= MAP_CAPACITY implies aligns_within(t[i], page) by {
            assert(t.take(i) =~= s.take(i));
            assert(aligned_all(s.take(i), page).len() <= MAP_CAPACITY);
        }
        lemma_aligned_reserved_fit(t, page);
        let prev = aligned_all(t, page);
        let a = align_desc(s.last(), page);
        if a.size_in_bytes > 0 {
            if prev.len() >= MAP_CAPACITY {
                assert(capped(prev.push(a), MAP_CAPACITY as nat) =~= capped(prev, MAP_CAPACITY as nat));
            } else {
                assert(s.take(n) =~= t);
                assert(aligned_all(s.take(n), page).len() <= MAP_CAPACITY);
                assert(aligns_within(s[n], page));
                lemma_rounding(s.last().physical_start as int, page as int);
                lemma_rounding(desc_end(s.last()), page as int);
                assert(capped(prev, MAP_CAPACITY as nat) == prev);
                assert(capped(prev.push(a), MAP_CAPACITY as nat) == prev.push(a));
                assert forall|k: int| 0 <= k < prev.push(a).len() implies #[trigger] desc_fits(prev.push(a)[k]) by {
                    if k < prev.len() {
                        assert(prev.push(a)[k] == capped(prev, MAP_CAPACITY as nat)[k]);
                    }
                }
            }
        }
    }
}

} // verus!

verus! {

/// Every descriptor of `s` is non-empty and starts no earlier than the one
/// before it ends.
pub open spec fn chain(s: Seq<MemoryDescriptor>) -> bool {
    &&& forall|i: int| 0 <= i < s.len() ==> #[trigger] s[i].size_in_bytes > 0
    &&& forall|i: int| 0 <= i < s.len() - 1 ==> #[trigger] desc_end(s[i]) <= s[i + 1].physical_start
}

/// No two neighbouring descriptors of `s` could be joined: each pair is
/// separated by a gap or differs in kind.
pub open spec fn unjoinable(s: Seq<MemoryDescriptor>) -> bool {
    forall|i: int, j: int|
        #![trigger s[i], s[j]]
        0 <= i && j == i + 1 && j < s.len() ==> !joinable(s[i], s[j])
}

/// Some descriptor of `s` of kind `t` holds the address `x`.
pub open spec fn covers(s: Seq<MemoryDescriptor>, x: int, t: MemoryType) -> bool {
    exists|i: int|
        0 <= i < s.len() && (#[trigger] s[i]).physical_start <= x < desc_end(s[i])
            && s[i].memory_type == t
}

proof fn lemma_drop_last_chain(s: Seq<MemoryDescriptor>)
    requires
        chain(s),
        all_fit(s),
        s.len() > 0,
    ensures
        chain(s.drop_last()),
        all_fit(s.drop_last()),
{
    let p = s.drop_last();
    assert forall|i: int| 0 <= i < p.len() - 1 implies #[trigger] desc_end(p[i]) <= p[i + 1].physical_start by {
        assert(desc_end(s[i]) <= s[i + 1].physical_start);
    }
    assert forall|i: int| 0 <= i < p.len() implies #[trigger] p[i].size_in_bytes > 0 by {
        assert(s[i].size_in_bytes > 0);
    }
    assert forall|k: int| 0 <= k < p.len() implies #[trigger] desc_fits(p[k]) by {
        assert(desc_fits(s[k]));
    }
}

/// The facts about a merged prefix `r` that the next step relies on.
pub open spec fn merged_shape(r: Seq<MemoryDescriptor>) -> bool {
    chain(r) && unjoinable(r) && all_fit(r)
}

proof fn lemma_merge_step_shape(r: Seq<MemoryDescriptor>, x: MemoryDescriptor)
    requires
        merged_shape(r),
        r.len() > 0,
        desc_end(r.last()) <= x.physical_start,
        desc_fits(x),
        x.size_in_bytes > 0,
    ensures
        ({
            let m = if joinable(r.last(), x) {
                r.drop_last().push(join(r.last(), x))
            } else {
                r.push(x)
            };
            &&& merged_shape(m)
            &&& m.len() > 0
            &&& m[0].physical_start == r[0].physical_start
            &&& desc_end(m.last()) == desc_end(x)
        }),
{
    assert(r[r.len() - 1].size_in_bytes > 0);
    if joinable(r.last(), x) {
        let j = join(r.last(), x);
        let m = r.drop_last().push(j);
        assert(desc_end(j) == desc_end(x));
        assert forall|i: int| 0 <= i < m.len() - 1 implies #[trigger] desc_end(m[i]) <= m[i + 1].physical_start by {
            assert(m[i] == r[i]);
            assert(desc_end(r[i]) <= r[i + 1].physical_start);
        }
        assert forall|i: int| 0 <= i < m.len() implies #[trigger] m[i].size_in_bytes > 0 by {
            if i < m.len() - 1 {
                assert(m[i] == r[i]);
            }
        }
        assert forall|i: int, k: int| 0 <= i && k == i + 1 && k < m.len() implies !joinable(#[trigger] m[i], #[trigger] m[k]) by {
            assert(m[i] == r[i]);
            assert(!joinable(r[i], r[k]));
            if k < m.len() - 1 {
                assert(m[k] == r[k]);
            }
        }
        assert forall|k: int| 0 <= k < m.len() implies #[trigger] desc_fits(m[k]) by {
            if k < m.len() - 1 {
                assert(m[k] == r[k]);
                assert(desc_fits(r[k]));
            }
        }
    } else {
        let m = r.push(x);
        assert forall|i: int| 0 <= i < m.len() - 1 implies #[trigger] desc_end(m[i]) <= m[i + 1].physical_start by {
            assert(m[i] == r[i]);
            if i < m.len() - 2 {
                assert(desc_end(r[i]) <= r[i + 1].physical_start);
            }
        }
        assert forall|i: int| 0 <= i < m.len() implies #[trigger] m[i].size_in_bytes > 0 by {
            if i < m.len() - 1 {
                assert(m[i] == r[i]);
            }
        }
        assert forall|i: int, k: int| 0 <= i && k == i + 1 && k < m.len() implies !joinable(#[trigger] m[i], #[trigger] m[k]) by {
            assert(m[i] == r[i]);
            if k < m.len() - 1 {
                assert(m[k] == r[k]);
                assert(!joinable(r[i], r[k]));
            }
        }
        assert forall|k: int| 0 <= k < m.len() implies #[trigger] desc_fits(m[k]) by {
            if k < m.len() - 1 {
                assert(m[k] == r[k]);
                assert(desc_fits(r[k]));
            }
        }
    }
}

proof fn lemma_merge_runs_chain(s: Seq<MemoryDescriptor>)
    requires
        chain(s),
        all_fit(s),
    ensures
        merged_shape(merge_runs(s)),
        s.len() > 0 ==> merge_runs(s).len() > 0 && merge_runs(s)[0].physical_start
            == s[0].physical_start && desc_end(merge_runs(s).last()) == desc_end(s.last()),
    decreases s.len(),
{
    if s.len() == 1 {
        assert(s[0].size_in_bytes > 0);
        assert(desc_fits(s[0]));
    }
    if s.len() > 1 {
        let p = s.drop_last();
        lemma_drop_last_chain(s);
        lemma_merge_runs_chain(p);
        let x = s.last();
        assert(desc_end(s[s.len() - 2]) <= s[s.len() - 1].physical_start);
        assert(desc_fits(s[s.len() - 1]));
        assert(s[s.len() - 1].size_in_bytes > 0);
        assert(p.last() == s[s.len() - 2]);
        lemma_merge_step_shape(merge_runs(p), x);
    }
}

proof fn lemma_covers_drop_last(s: Seq<MemoryDescriptor>, y: int, t: MemoryType)
    requires
        s.len() > 0,
    ensures
        covers(s, y, t) == (covers(s.drop_last(), y, t) || holds(s.last(), y, t)),
{
    let p = s.drop_last();
    if covers(s, y, t) {
        let i = choose|i: int|
            0 <= i < s.len() && (#[trigger] s[i]).physical_start <= y < desc_end(s[i])
                && s[i].memory_type == t;
        if i < s.len() - 1 {
            assert(p[i] == s[i]);
        }
    }
    if covers(p, y, t) {
        let i = choose|i: int|
            0 <= i < p.len() && (#[trigger] p[i]).physical_start <= y < desc_end(p[i])
                && p[i].memory_type == t;
        assert(s[i] == p[i]);
    }
    if holds(s.last(), y, t) {
        assert(s[s.len() - 1] == s.last());
    }
}

/// `d` is of kind `t` and holds the address `y`.
pub open spec fn holds(d: MemoryDescriptor, y: int, t: MemoryType) -> bool {
    d.physical_start <= y < desc_end(d) && d.memory_type == t
}

#[verifier::spinoff_prover]
#[verifier::rlimit(40)]
proof fn lemma_merge_runs_covers(s: Seq<MemoryDescriptor>, y: int, t: MemoryType)
    requires
        chain(s),
        all_fit(s),
    ensures
        covers(merge_runs(s), y, t) == covers(s, y, t),
    decreases s.len(),
{
    if s.len() > 1 {
        let p = s.drop_last();
        lemma_drop_last_chain(s);
        lemma_merge_runs_chain(p);
        lemma_merge_runs_covers(p, y, t);
        let r = merge_runs(p);
        let x = s.last();
        assert(desc_end(s[s.len() - 2]) <= s[s.len() - 1].physical_start);
        assert(p.last() == s[s.len() - 2]);
        assert(desc_end(r.last()) <= x.physical_start);
        assert(desc_fits(s[s.len() - 1]));
        lemma_covers_drop_last(s, y, t);
        lemma_covers_drop_last(r, y, t);
        let m = merge_runs(s);
        if joinable(r.last(), x) {
            let j = join(r.last(), x);
            assert(m == r.drop_last().push(j));
            assert(m.drop_last() =~= r.drop_last());
            assert(m.last() == j);
            assert(holds(j, y, t) == (holds(r.last(), y, t) || holds(x, y, t)));
            lemma_covers_drop_last(m, y, t);
        } else {
            assert(m == r.push(x));
            assert(m.drop_last() =~= r);
            assert(m.last() == x);
            lemma_covers_drop_last(m, y, t);
        }
    }
}

proof fn lemma_chain_ordered(s: Seq<MemoryDescriptor>, i: int, j: int)
    requires
        chain(s),
        0 <= i < j < s.len(),
    ensures
        desc_end(s[i]) <= s[j].physical_start,
    decreases j - i,
{
    assert(desc_end(s[j - 1]) <= s[j].physical_start);
    if i < j - 1 {
        lemma_chain_ordered(s, i, j - 1);
        assert(s[j - 1].size_in_bytes > 0);
    }
}

proof fn lemma_chain_sorted(s: Seq<MemoryDescriptor>)
    requires
        chain(s),
    ensures
        sorted_by_start(s),
{
    assert forall|i: int, j: int| 0 <= i < j < s.len() implies s[i].physical_start <= s[j].physical_start by {
        lemma_chain_ordered(s, i, j);
    }
}

proof fn lemma_chain_capped(s: Seq<MemoryDescriptor>, n: nat)
    requires
        chain(s),
        all_fit(s),
    ensures
        chain(capped(s, n)),
        all_fit(capped(s, n)),
{
    let c = capped(s, n);
    assert forall|i: int| 0 <= i < c.len() implies #[trigger] c[i].size_in_bytes > 0 && desc_fits(c[i]) by {
        assert(c[i] == s[i]);
    }
    assert forall|i: int| 0 <= i < c.len() - 1 implies #[trigger] desc_end(c[i]) <= c[i + 1].physical_start by {
        assert(c[i] == s[i]);
        assert(c[i + 1] == s[i + 1]);
    }
}

proof fn lemma_kept_prefix(segs: Seq<(usize, usize)>, ram: Seq<MemoryDescriptor>, rsv: Seq<MemoryDescriptor>, i: int)
    requires
        0 <= i <= segs.len(),
    ensures
        kept_segments(segs.take(i), ram, rsv).is_prefix_of(kept_segments(segs, ram, rsv)),
    decreases segs.len(),
{
    if i == segs.len() {
        assert(segs.take(i) =~= segs);
    } else {
        assert(segs.drop_last().take(i) =~= segs.take(i));
        lemma_kept_prefix(segs.drop_last(), ram, rsv, i);
    }
}

/// The pairs of `segs` are non-empty and in increasing order, apart.
pub open spec fn ordered_pairs(segs: Seq<(usize, usize)>) -> bool {
    &&& forall|k: int| 0 <= k < segs.len() ==> (#[trigger] segs[k]).0 < segs[k].1
    &&& forall|i: int, j: int| #![trigger segs[i], segs[j]] 0 <= i < j < segs.len() ==> segs[i].1 <= segs[j].0
}

proof fn lemma_kept_shape(segs: Seq<(usize, usize)>, ram: Seq<MemoryDescriptor>, rsv: Seq<MemoryDescriptor>)
    requires
        ordered_pairs(segs),
    ensures
        chain(kept_segments(segs, ram, rsv)),
        all_fit(kept_segments(segs, ram, rsv)),
        kept_segments(segs, ram, rsv).len() <= segs.len(),
        kept_segments(segs, ram, rsv).len() > 0 ==> exists|k: int|
            0 <= k < segs.len() && kept_segments(segs, ram, rsv).last() == typed_segment(#[trigger] segs[k], rsv),
    decreases segs.len(),
{
    if segs.len() > 0 {
        let p = segs.drop_last();
        assert(ordered_pairs(p)) by {
            assert forall|k: int| 0 <= k < p.len() implies (#[trigger] p[k]).0 < p[k].1 by {
                assert(p[k] == segs[k]);
            }
            assert forall|i: int, j: int| #![trigger p[i], p[j]] 0 <= i < j < p.len() implies p[i].1 <= p[j].0 by {
                assert(p[i] == segs[i]);
                assert(p[j] == segs[j]);
            }
        }
        lemma_kept_shape(p, ram, rsv);
        let r = kept_segments(p, ram, rsv);
        let n = segs.len() - 1;
        let x = segs[n];
        assert(x.0 < x.1);
        if segment_kept(segs.last(), ram, rsv) {
            let d = typed_segment(x, rsv);
            let m = r.push(d);
            assert(kept_segments(segs, ram, rsv) == m);
            assert(desc_end(d) == x.1);
            if r.len() > 0 {
                let k = choose|k: int| 0 <= k < p.len() && r.last() == typed_segment(#[trigger] p[k], rsv);
                assert(p[k] == segs[k]);
                assert(segs[k].1 <= segs[n].0);
            }
            assert forall|i: int| 0 <= i < m.len() implies #[trigger] m[i].size_in_bytes > 0 && desc_fits(m[i]) by {
                if i < m.len() - 1 {
                    assert(m[i] == r[i]);
                }
            }
            assert forall|i: int| 0 <= i < m.len() - 1 implies #[trigger] desc_end(m[i]) <= m[i + 1].physical_start by {
                assert(m[i] == r[i]);
                if i < m.len() - 2 {
                    assert(m[i + 1] == r[i + 1]);
                }
            }
            assert(m.last() == typed_segment(segs[n], rsv));
        } else {
            if r.len() > 0 {
                let k = choose|k: int| 0 <= k < p.len() && r.last() == typed_segment(#[trigger] p[k], rsv);
                assert(p[k] == segs[k]);
            }
        }
    }
}

proof fn lemma_kept_covers(
    segs: Seq<(usize, usize)>,
    ram: Seq<MemoryDescriptor>,
    rsv: Seq<MemoryDescriptor>,
    x: int,
    t: MemoryType,
)
    ensures
        covers(kept_segments(segs, ram, rsv), x, t) <==> exists|k: int|
            0 <= k < segs.len() && segment_kept(segs[k], ram, rsv) && holds(typed_segment(#[trigger] segs[k], rsv), x, t),
    decreases segs.len(),
{
    if segs.len() == 0 {
        if covers(kept_segments(segs, ram, rsv), x, t) {
            assert(false);
        }
    } else {
        let p = segs.drop_last();
        lemma_kept_covers(p, ram, rsv, x, t);
        let r = kept_segments(p, ram, rsv);
        let n = segs.len() - 1;
        if segment_kept(segs.last(), ram, rsv) {
            let m = r.push(typed_segment(segs[n], rsv));
            assert(m.drop_last() =~= r);
            lemma_covers_drop_last(m, x, t);
        }
        if exists|k: int|
            0 <= k < segs.len() && segment_kept(segs[k], ram, rsv) && holds(typed_segment(#[trigger] segs[k], rsv), x, t) {
            let k = choose|k: int|
                0 <= k < segs.len() && segment_kept(segs[k], ram, rsv) && holds(typed_segment(#[trigger] segs[k], rsv), x, t);
            if k < n {
                assert(p[k] == segs[k]);
            }
        }
        if exists|k: int|
            0 <= k < p.len() && segment_kept(p[k], ram, rsv) && holds(typed_segment(#[trigger] p[k], rsv), x, t) {
            let k = choose|k: int|
                0 <= k < p.len() && segment_kept(p[k], ram, rsv) && holds(typed_segment(#[trigger] p[k], rsv), x, t);
            assert(p[k] == segs[k]);
        }
    }
}

/// The boundary points of the map built from `ram` and `rsv`.
pub open spec fn map_points(ram: Seq<MemoryDescriptor>, rsv: Seq<MemoryDescriptor>, page: usize) -> Seq<usize> {
    boundary_points(ram, aligned_reserved(rsv, page))
}

proof fn lemma_pairs_ordered(b: Seq<usize>)
    requires
        strictly_increasing(b),
    ensures
        ordered_pairs(strict_pairs(b)),
{
    lemma_strict_pairs_increasing(b);
    let s = strict_pairs(b);
    assert forall|k: int| 0 <= k < s.len() implies (#[trigger] s[k]).0 < s[k].1 by {
        assert(s[k] == (b[k], b[k + 1]));
    }
    assert forall|i: int, j: int| #![trigger s[i], s[j]] 0 <= i < j < s.len() implies s[i].1 <= s[j].0 by {
        assert(s[i] == (b[i], b[i + 1]));
        assert(s[j] == (b[j], b[j + 1]));
        if i + 1 < j {
            assert(b[i + 1] < b[j]);
        }
    }
}

proof fn lemma_classified_shape(ram: Seq<MemoryDescriptor>, rsv: Seq<MemoryDescriptor>, page: usize)
    ensures
        chain(classified_segments(ram, rsv, page)),
        all_fit(classified_segments(ram, rsv, page)),
{
    let arsv = aligned_reserved(rsv, page);
    let b = boundary_points(ram, arsv);
    lemma_boundary_points_exist(ram, arsv);
    lemma_pairs_ordered(b);
    let pairs = strict_pairs(b);
    let segs = capped(pairs, SEGMENT_CAPACITY as nat);
    assert(ordered_pairs(segs)) by {
        assert forall|k: int| 0 <= k < segs.len() implies (#[trigger] segs[k]).0 < segs[k].1 by {
            assert(segs[k] == pairs[k]);
        }
        assert forall|i: int, j: int| #![trigger segs[i], segs[j]] 0 <= i < j < segs.len() implies segs[i].1 <= segs[j].0 by {
            assert(segs[i] == pairs[i]);
            assert(segs[j] == pairs[j]);
        }
    }
    lemma_kept_shape(segs, ram, arsv);
    lemma_chain_capped(kept_segments(segs, ram, arsv), MAP_CAPACITY as nat);
}

proof fn lemma_boundary_points_exist(ram: Seq<MemoryDescriptor>, rsv: Seq<MemoryDescriptor>)
    ensures
        strictly_increasing(boundary_points(ram, rsv)),
        boundary_points(ram, rsv).to_set() == raw_boundaries(ram, rsv).to_set(),
{
    let raw = raw_boundaries(ram, rsv);
    let w = sorted_by_value(raw);
    assert(strictly_increasing(w) && w.to_set() == raw.to_set());
}

/// The points of `s` in increasing order, each once.
proof fn sorted_by_value(s: Seq<usize>) -> (w: Seq<usize>)
    ensures
        strictly_increasing(w),
        w.to_set() == s.to_set(),
    decreases s.len(),
{
    if s.len() == 0 {
        assert(s.to_set() =~= Seq::<usize>::empty().to_set());
        Seq::empty()
    } else {
        let prev = sorted_by_value(s.drop_last());
        let x = s.last();
        assert(s =~= s.drop_last().push(x));
        s.drop_last().lemma_push_to_set_commute(x);
        if prev.contains(x) {
            assert(prev.to_set().insert(x) =~= prev.to_set());
            prev
        } else {
            insert_sorted(prev, x)
        }
    }
}

/// `x` put into its place in the increasing run `s`.
proof fn insert_sorted(s: Seq<usize>, x: usize) -> (w: Seq<usize>)
    requires
        strictly_increasing(s),
        !s.contains(x),
    ensures
        strictly_increasing(w),
        w.to_set() == s.to_set().insert(x),
        w.len() > 0,
        w[0] == x || (s.len() > 0 && w[0] == s[0]),
    decreases s.len(),
{
    if s.len() == 0 {
        assert(seq![x].to_set() =~= s.to_set().insert(x)) by {
            assert(seq![x][0] == x);
        }
        seq![x]
    } else if x < s[0] {
        let w = seq![x] + s;
        assert forall|y: usize| w.contains(y) <==> s.to_set().insert(x).contains(y) by {
            if w.contains(y) {
                let i = choose|i: int| 0 <= i < w.len() && w[i] == y;
                if i > 0 {
                    assert(s[i - 1] == y);
                }
            }
            if s.contains(y) {
                let i = choose|i: int| 0 <= i < s.len() && s[i] == y;
                assert(w[i + 1] == y);
            }
            if y == x {
                assert(w[0] == x);
            }
        }
        assert(w.to_set() =~= s.to_set().insert(x));
        w
    } else {
        let rest = s.drop_first();
        assert(!rest.contains(x)) by {
            if rest.contains(x) {
                let i = choose|i: int| 0 <= i < rest.len() && rest[i] == x;
                assert(s[i + 1] == x);
            }
        }
        let t = insert_sorted(rest, x);
        let w = seq![s[0]] + t;
        assert(x != s[0]) by {
            assert(s[0] == s[0]);
        }
        assert forall|i: int, j: int| 0 <= i < j < w.len() implies w[i] < w[j] by {
            if i == 0 {
                assert(w[j] == t[j - 1]);
                assert(t.to_set().contains(t[j - 1]));
                if t[j - 1] != x {
                    assert(rest.to_set().contains(t[j - 1]));
                    let k = choose|k: int| 0 <= k < rest.len() && rest[k] == t[j - 1];
                    assert(s[k + 1] == t[j - 1]);
                }
            }
        }
        assert forall|y: usize| w.contains(y) <==> s.to_set().insert(x).contains(y) by {
            if w.contains(y) {
                let i = choose|i: int| 0 <= i < w.len() && w[i] == y;
                if i > 0 {
                    assert(t[i - 1] == y);
                    assert(t.to_set().contains(y));
                    if y != x {
                        assert(rest.to_set().contains(y));
                        let k = choose|k: int| 0 <= k < rest.len() && rest[k] == y;
                        assert(s[k + 1] == y);
                    }
                } else {
                    assert(s[0] == y);
                }
            }
            if s.to_set().insert(x).contains(y) {
                if y == s[0] {
                    assert(w[0] == y);
                } else if y == x {
                    assert(t.to_set().contains(x));
                    let k = choose|k: int| 0 <= k < t.len() && t[k] == x;
                    assert(w[k + 1] == x);
                } else {
                    let i = choose|i: int| 0 <= i < s.len() && s[i] == y;
                    assert(rest[i - 1] == y);
                    assert(rest.to_set().contains(y));
                    assert(t.to_set().contains(y));
                    let k = choose|k: int| 0 <= k < t.len() && t[k] == y;
                    assert(w[k + 1] == y);
                }
            }
        }
        assert(w.to_set() =~= s.to_set().insert(x));
        w
    }
}

} // verus!

verus! {

/// The ends of the RAM regions and of the page-aligned reserved regions.
pub open spec fn all_endpoints(ram: Seq<MemoryDescriptor>, rsv: Seq<MemoryDescriptor>, page: usize) -> Seq<usize> {
    endpoints(ram) + endpoints(aligned_reserved(rsv, page))
}

/// Some point of `pts` is at most `x` and another lies above it.
pub open spec fn between_points(x: int, pts: Seq<usize>) -> bool {
    exists|i: int, j: int|
        #![trigger pts[i], pts[j]]
        0 <= i < pts.len() && 0 <= j < pts.len() && pts[i] <= x < pts[j]
}

/// Some region of `rsv` holds the address `x`.
pub open spec fn in_reserved(x: int, rsv: Seq<MemoryDescriptor>) -> bool {
    exists|k: int| 0 <= k < rsv.len() && (#[trigger] rsv[k]).physical_start <= x < desc_end(rsv[k])
}

/// The memory map is in address order: its regions are non-empty, each one
/// ends no later than the next one starts, and no two neighbouring regions
/// could be joined (they are apart, or differ in kind).
pub proof fn lemma_memory_map_ordered(ram: Seq<MemoryDescriptor>, rsv: Seq<MemoryDescriptor>, page: usize)
    ensures
        forall|i: int|
            0 <= i < memory_map(ram, rsv, page).len() ==> #[trigger] memory_map(
                ram,
                rsv,
                page,
            )[i].size_in_bytes > 0,
        forall|i: int, j: int|
            0 <= i < j < memory_map(ram, rsv, page).len() ==> desc_end(
                #[trigger] memory_map(ram, rsv, page)[i],
            ) <= (#[trigger] memory_map(ram, rsv, page)[j]).physical_start,
        unjoinable(memory_map(ram, rsv, page)),
{
    lemma_classified_shape(ram, rsv, page);
    lemma_merge_runs_chain(classified_segments(ram, rsv, page));
    let m = memory_map(ram, rsv, page);
    assert forall|i: int, j: int| 0 <= i < j < m.len() implies desc_end(#[trigger] m[i]) <= (#[trigger] m[j]).physical_start by {
        lemma_chain_ordered(m, i, j);
    }
}

/// `x` lies between the `k`-th point of `b` and the next one.
pub open spec fn in_gap(b: Seq<usize>, k: int, x: int) -> bool {
    0 <= k < b.len() - 1 && b[k] <= x < b[k + 1]
}

proof fn lemma_locate(b: Seq<usize>, x: int)
    requires
        strictly_increasing(b),
        b.len() >= 2,
        b[0] <= x < b[b.len() - 1],
    ensures
        exists|k: int| #[trigger] in_gap(b, k, x),
    decreases b.len(),
{
    if x >= b[b.len() - 2] {
        let k = b.len() - 2;
        assert(in_gap(b, k, x));
    } else {
        let p = b.drop_last();
        lemma_locate(p, x);
        let k = choose|k: int| #[trigger] in_gap(p, k, x);
        assert(in_gap(b, k, x));
    }
}

proof fn lemma_between_iff(b: Seq<usize>, pts: Seq<usize>, x: int)
    requires
        strictly_increasing(b),
        b.to_set() == pts.to_set(),
    ensures
        between_points(x, pts) <==> (exists|k: int| #[trigger] in_gap(b, k, x)),
{
    if between_points(x, pts) {
        let (i, j) = choose|i: int, j: int|
            #![trigger pts[i], pts[j]]
            0 <= i < pts.len() && 0 <= j < pts.len() && pts[i] <= x < pts[j];
        assert(pts.to_set().contains(pts[i]));
        assert(pts.to_set().contains(pts[j]));
        let bi = choose|bi: int| 0 <= bi < b.len() && b[bi] == pts[i];
        let bj = choose|bj: int| 0 <= bj < b.len() && b[bj] == pts[j];
        assert(b[0] <= b[bi]) by {
            if bi > 0 {
                assert(b[0] < b[bi]);
            }
        }
        assert(b[bj] <= b[b.len() - 1]) by {
            if bj < b.len() - 1 {
                assert(b[bj] < b[b.len() - 1]);
            }
        }
        assert(bi != bj);
        lemma_locate(b, x);
    }
    if exists|k: int| #[trigger] in_gap(b, k, x) {
        let k = choose|k: int| #[trigger] in_gap(b, k, x);
        assert(b.to_set().contains(b[k]));
        assert(b.to_set().contains(b[k + 1]));
        let i = choose|i: int| 0 <= i < pts.len() && pts[i] == b[k];
        let j = choose|j: int| 0 <= j < pts.len() && pts[j] == b[k + 1];
        assert(pts[i] <= x < pts[j]);
    }
}

proof fn lemma_gap_free(b: Seq<usize>, k: int, p: usize)
    requires
        strictly_increasing(b),
        0 <= k < b.len() - 1,
        b.to_set().contains(p),
    ensures
        p <= b[k] || p >= b[k + 1],
{
    let w = choose|w: int| 0 <= w < b.len() && b[w] == p;
    if w <= k {
        if w < k {
            assert(b[w] < b[k]);
        }
    } else {
        if w > k + 1 {
            assert(b[k + 1] < b[w]);
        }
    }
}

proof fn lemma_endpoints_contains(s: Seq<MemoryDescriptor>, k: int)
    requires
        0 <= k < s.len(),
    ensures
        endpoints(s).contains(s[k].physical_start),
        endpoints(s).contains(desc_end(s[k]) as usize),
        endpoints(s).len() == 2 * s.len(),
    decreases s.len(),
{
    let e = endpoints(s);
    let d = s.last();
    lemma_endpoints_len(s.drop_last());
    if k == s.len() - 1 {
        assert(e[e.len() - 2] == d.physical_start);
        assert(e[e.len() - 1] == desc_end(d) as usize);
    } else {
        lemma_endpoints_contains(s.drop_last(), k);
        let p = endpoints(s.drop_last());
        assert(s.drop_last()[k] == s[k]);
        let i = choose|i: int| 0 <= i < p.len() && p[i] == s[k].physical_start;
        let j = choose|j: int| 0 <= j < p.len() && p[j] == desc_end(s[k]) as usize;
        assert(e[i] == p[i]);
        assert(e[j] == p[j]);
    }
}

proof fn lemma_endpoints_len(s: Seq<MemoryDescriptor>)
    ensures
        endpoints(s).len() == 2 * s.len(),
    decreases s.len(),
{
    if s.len() > 0 {
        lemma_endpoints_len(s.drop_last());
    }
}

proof fn lemma_aligned_all_len(s: Seq<MemoryDescriptor>, page: usize)
    ensures
        aligned_all(s, page).len() <= s.len(),
    decreases s.len(),
{
    if s.len() > 0 {
        lemma_aligned_all_len(s.drop_last(), page);
    }
}

proof fn lemma_segment_type_is_containment(
    b: Seq<usize>,
    k: int,
    x: int,
    rsv: Seq<MemoryDescriptor>,
)
    requires
        strictly_increasing(b),
        0 <= k < b.len() - 1,
        b[k] <= x < b[k + 1],
        all_fit(rsv),
        forall|m: int|
            0 <= m < rsv.len() ==> b.to_set().contains((#[trigger] rsv[m]).physical_start)
                && b.to_set().contains(desc_end(rsv[m]) as usize),
    ensures
        meets_reserved(b[k] as int, b[k + 1] as int, rsv) == in_reserved(x, rsv),
{
    if meets_reserved(b[k] as int, b[k + 1] as int, rsv) {
        let m = choose|m: int|
            0 <= m < rsv.len() && b[k] < desc_end(#[trigger] rsv[m]) && b[k + 1] > rsv[m].physical_start;
        assert(desc_fits(rsv[m]));
        lemma_gap_free(b, k, rsv[m].physical_start);
        lemma_gap_free(b, k, desc_end(rsv[m]) as usize);
        assert(rsv[m].physical_start <= x < desc_end(rsv[m]));
    }
    if in_reserved(x, rsv) {
        let m = choose|m: int| 0 <= m < rsv.len() && (#[trigger] rsv[m]).physical_start <= x < desc_end(rsv[m]);
        assert(b[k] < desc_end(rsv[m]) && b[k + 1] > rsv[m].physical_start);
    }
}

/// Without truncation the segments run between all neighbouring boundary
/// points, there are fewer of them than the map holds, and the ends of every
/// RAM region and every reserved region are boundary points.
proof fn lemma_untruncated_points(ram: Seq<MemoryDescriptor>, rsv: Seq<MemoryDescriptor>, page: usize)
    requires
        page > 0,
        all_fit(ram),
        all_align_within(rsv, page),
        2 * (ram.len() + rsv.len()) <= MAP_CAPACITY,
    ensures
        strictly_increasing(map_points(ram, rsv, page)),
        map_points(ram, rsv, page).to_set() == all_endpoints(ram, rsv, page).to_set(),
        capped(strict_pairs(map_points(ram, rsv, page)), SEGMENT_CAPACITY as nat) == strict_pairs(
            map_points(ram, rsv, page),
        ),
        strict_pairs(map_points(ram, rsv, page)).len() < MAP_CAPACITY,
        all_fit(aligned_reserved(rsv, page)),
        forall|m: int|
            0 <= m < aligned_reserved(rsv, page).len() ==> map_points(ram, rsv, page).to_set().contains(
                (#[trigger] aligned_reserved(rsv, page)[m]).physical_start,
            ) && map_points(ram, rsv, page).to_set().contains(
                desc_end(aligned_reserved(rsv, page)[m]) as usize,
            ),
        forall|m: int|
            0 <= m < ram.len() ==> map_points(ram, rsv, page).to_set().contains((#[trigger] ram[m]).physical_start)
                && map_points(ram, rsv, page).to_set().contains(desc_end(ram[m]) as usize),
{
    let arsv = aligned_reserved(rsv, page);
    lemma_aligned_all_len(rsv, page);
    assert(arsv == aligned_all(rsv, page));
    lemma_endpoints_len(ram);
    lemma_endpoints_len(arsv);
    let pts = all_endpoints(ram, rsv, page);
    assert(raw_boundaries(ram, arsv) == pts);
    let b = map_points(ram, rsv, page);
    lemma_boundary_points_exist(ram, arsv);
    assert(b.no_duplicates());
    b.unique_seq_to_set();
    pts.lemma_cardinality_of_set();
    lemma_strict_pairs_increasing(b);
    let segs = capped(strict_pairs(b), SEGMENT_CAPACITY as nat);
    assert(segs == strict_pairs(b));
    lemma_aligned_all_fit(rsv, page);
    assert forall|m: int| 0 <= m < arsv.len() implies b.to_set().contains((#[trigger] arsv[m]).physical_start)
        && b.to_set().contains(desc_end(arsv[m]) as usize) by {
        lemma_endpoints_contains(arsv, m);
        let e = endpoints(arsv);
        let i = choose|i: int| 0 <= i < e.len() && e[i] == arsv[m].physical_start;
        let j = choose|j: int| 0 <= j < e.len() && e[j] == desc_end(arsv[m]) as usize;
        assert(pts[endpoints(ram).len() + i] == e[i]);
        assert(pts[endpoints(ram).len() + j] == e[j]);
        assert(pts.to_set().contains(e[i]));
        assert(pts.to_set().contains(e[j]));
    }
    assert forall|m: int| 0 <= m < ram.len() implies b.to_set().contains((#[trigger] ram[m]).physical_start)
        && b.to_set().contains(desc_end(ram[m]) as usize) by {
        lemma_endpoints_contains(ram, m);
        let e = endpoints(ram);
        let i = choose|i: int| 0 <= i < e.len() && e[i] == ram[m].physical_start;
        let j = choose|j: int| 0 <= j < e.len() && e[j] == desc_end(ram[m]) as usize;
        assert(pts[i] == e[i]);
        assert(pts[j] == e[j]);
        assert(pts.to_set().contains(e[i]));
        assert(pts.to_set().contains(e[j]));
    }
}

/// Some RAM region of `ram` holds the address `x`.
pub open spec fn in_ram(x: int, ram: Seq<MemoryDescriptor>) -> bool {
    exists|k: int| 0 <= k < ram.len() && (#[trigger] ram[k]).physical_start <= x < desc_end(ram[k])
}

/// An address is held by a kept segment of kind `t`.
pub open spec fn kept_holds(segs: Seq<(usize, usize)>, ram: Seq<MemoryDescriptor>, rsv: Seq<MemoryDescriptor>, x: int, t: MemoryType) -> bool {
    exists|k: int|
        0 <= k < segs.len() && segment_kept(segs[k], ram, rsv) && holds(typed_segment(#[trigger] segs[k], rsv), x, t)
}

/// The segments run between neighbouring points of `b`, and the ends of the
/// regions of `s` are among those points.
pub open spec fn bounded_by(b: Seq<usize>, s: Seq<MemoryDescriptor>) -> bool {
    forall|m: int|
        0 <= m < s.len() ==> b.to_set().contains((#[trigger] s[m]).physical_start) && b.to_set().contains(
            desc_end(s[m]) as usize,
        )
}

#[verifier::spinoff_prover]
proof fn lemma_classify_in_gap(
    segs: Seq<(usize, usize)>,
    b: Seq<usize>,
    ram: Seq<MemoryDescriptor>,
    rsv: Seq<MemoryDescriptor>,
    k0: int,
    x: int,
)
    requires
        strictly_increasing(b),
        b.len() >= 1 ==> segs.len() == b.len() - 1,
        forall|k: int| 0 <= k < segs.len() ==> #[trigger] segs[k] == (b[k], b[k + 1]),
        in_gap(b, k0, x),
        all_fit(ram),
        all_fit(rsv),
        bounded_by(b, ram),
        bounded_by(b, rsv),
    ensures
        kept_holds(segs, ram, rsv, x, MemoryType::Reserved) == in_reserved(x, rsv),
        kept_holds(segs, ram, rsv, x, MemoryType::Usable) == (in_ram(x, ram) && !in_reserved(x, rsv)),
{
    lemma_segment_type_is_containment(b, k0, x, rsv);
    lemma_segment_type_is_containment(b, k0, x, ram);
    assert(meets_ram(b[k0] as int, b[k0 + 1] as int, ram) == meets_reserved(b[k0] as int, b[k0 + 1] as int, ram));
    assert(in_ram(x, ram) == in_reserved(x, ram));
    assert(segs[k0] == (b[k0], b[k0 + 1]));
    let d = typed_segment(segs[k0], rsv);
    assert(holds(d, x, d.memory_type));
    assert forall|k: int, t: MemoryType|
        0 <= k < segs.len() && #[trigger] holds(typed_segment(segs[k], rsv), x, t) implies k == k0 by {
        assert(segs[k] == (b[k], b[k + 1]));
        if k < k0 {
            assert(b[k + 1] <= b[k0]) by {
                if k + 1 < k0 {
                    assert(b[k + 1] < b[k0]);
                }
            }
        } else if k > k0 {
            assert(b[k0 + 1] <= b[k]) by {
                if k0 + 1 < k {
                    assert(b[k0 + 1] < b[k]);
                }
            }
        }
    }
}

#[verifier::spinoff_prover]
proof fn lemma_classify_outside(
    segs: Seq<(usize, usize)>,
    b: Seq<usize>,
    pts: Seq<usize>,
    ram: Seq<MemoryDescriptor>,
    rsv: Seq<MemoryDescriptor>,
    x: int,
)
    requires
        strictly_increasing(b),
        b.to_set() == pts.to_set(),
        b.len() >= 1 ==> segs.len() == b.len() - 1,
        b.len() == 0 ==> segs.len() == 0,
        forall|k: int| 0 <= k < segs.len() ==> #[trigger] segs[k] == (b[k], b[k + 1]),
        !between_points(x, pts),
        !(exists|k: int| #[trigger] in_gap(b, k, x)),
        all_fit(ram),
        all_fit(rsv),
        bounded_by(b, ram),
        bounded_by(b, rsv),
    ensures
        !kept_holds(segs, ram, rsv, x, MemoryType::Reserved),
        !kept_holds(segs, ram, rsv, x, MemoryType::Usable),
        !in_reserved(x, rsv),
        !in_ram(x, ram),
{
    assert forall|k: int, t: MemoryType| 0 <= k < segs.len() implies !#[trigger] holds(typed_segment(segs[k], rsv), x, t) by {
        assert(segs[k] == (b[k], b[k + 1]));
        if holds(typed_segment(segs[k], rsv), x, t) {
            assert(in_gap(b, k, x));
        }
    }
    if in_reserved(x, rsv) {
        let m = choose|m: int| 0 <= m < rsv.len() && (#[trigger] rsv[m]).physical_start <= x < desc_end(rsv[m]);
        assert(desc_fits(rsv[m]));
        lemma_point_pair_between(b, pts, rsv[m].physical_start, desc_end(rsv[m]) as usize, x);
    }
    if in_ram(x, ram) {
        let m = choose|m: int| 0 <= m < ram.len() && (#[trigger] ram[m]).physical_start <= x < desc_end(ram[m]);
        assert(desc_fits(ram[m]));
        lemma_point_pair_between(b, pts, ram[m].physical_start, desc_end(ram[m]) as usize, x);
    }
}

/// When nothing is dropped for want of room (at most 32 regions in all), an
/// address is marked reserved in the memory map exactly when a page-aligned
/// reserved region holds it, and usable exactly when a RAM region holds it
/// and no page-aligned reserved region does; an address in neither is not in
/// the map.
#[verifier::spinoff_prover]
pub proof fn lemma_memory_map_classifies(ram: Seq<MemoryDescriptor>, rsv: Seq<MemoryDescriptor>, page: usize, x: int)
    requires
        page > 0,
        all_fit(ram),
        all_align_within(rsv, page),
        2 * (ram.len() + rsv.len()) <= MAP_CAPACITY,
    ensures
        covers(memory_map(ram, rsv, page), x, MemoryType::Reserved) == in_reserved(x, aligned_reserved(rsv, page)),
        covers(memory_map(ram, rsv, page), x, MemoryType::Usable) == (in_ram(x, ram) && !in_reserved(
            x,
            aligned_reserved(rsv, page),
        )),
{
    let arsv = aligned_reserved(rsv, page);
    let pts = all_endpoints(ram, rsv, page);
    let b = map_points(ram, rsv, page);
    let segs = strict_pairs(b);
    let c = classified_segments(ram, rsv, page);
    lemma_untruncated_points(ram, rsv, page);
    lemma_strict_pairs_increasing(b);
    lemma_pairs_ordered(b);
    lemma_kept_shape(segs, ram, arsv);
    assert(c == kept_segments(segs, ram, arsv));
    lemma_classified_shape(ram, rsv, page);
    lemma_merge_runs_covers(c, x, MemoryType::Reserved);
    lemma_merge_runs_covers(c, x, MemoryType::Usable);
    lemma_kept_covers(segs, ram, arsv, x, MemoryType::Reserved);
    lemma_kept_covers(segs, ram, arsv, x, MemoryType::Usable);
    assert(bounded_by(b, ram));
    assert(bounded_by(b, arsv));
    lemma_between_iff(b, pts, x);
    if exists|k: int| #[trigger] in_gap(b, k, x) {
        let k0 = choose|k: int| #[trigger] in_gap(b, k, x);
        lemma_classify_in_gap(segs, b, ram, arsv, k0, x);
    } else {
        lemma_classify_outside(segs, b, pts, ram, arsv, x);
    }
}

proof fn lemma_point_pair_between(b: Seq<usize>, pts: Seq<usize>, lo: usize, hi: usize, x: int)
    requires
        b.to_set() == pts.to_set(),
        b.to_set().contains(lo),
        b.to_set().contains(hi),
        lo <= x < hi,
    ensures
        between_points(x, pts),
{
    assert(pts.to_set().contains(lo));
    assert(pts.to_set().contains(hi));
    let i = choose|i: int| 0 <= i < pts.len() && pts[i] == lo;
    let j = choose|j: int| 0 <= j < pts.len() && pts[j] == hi;
    assert(pts[i] <= x < pts[j]);
}

} // verus!

