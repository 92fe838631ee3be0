//! The fixed-capacity vectors of the `heapless` and `arrayvec` crates that the
//! memory-map and CPU enumeration code fill.

use vstd::prelude::*;

use crate::acpi::cpu::CpuInfo;
use crate::memory::MemoryDescriptor;

verus! {

/// `heapless::Vec<T, N>`: a vector that lives inline and holds at most `N` items.
#[verifier::external_type_specification]
#[verifier::external_body]
#[verifier::reject_recursive_types(T)]
pub struct ExHeaplessVec<T, const N: usize>(heapless::Vec<T, N>);

/// The boundary points held, in order, by a `heapless::Vec` of capacity 64.
pub uninterp spec fn points(v: heapless::Vec<usize, 64>) -> Seq<usize>;

/// The address pairs held, in order, by a `heapless::Vec` of capacity 128.
pub uninterp spec fn pieces(v: heapless::Vec<(usize, usize), 128>) -> Seq<(usize, usize)>;

/// The descriptors held, in order, by a `heapless::Vec` of capacity 64.
pub uninterp spec fn descriptors(v: heapless::Vec<MemoryDescriptor, 64>) -> Seq<MemoryDescriptor>;

/// The descriptors held, in order, by a `heapless::Vec` of capacity 128.
pub uninterp spec fn descriptors_128(v: heapless::Vec<MemoryDescriptor, 128>) -> Seq<MemoryDescriptor>;

/// `s` cut down to its first `n` items.
pub open spec fn capped<A>(s: Seq<A>, n: nat) -> Seq<A> {
    if s.len() <= n {
        s
    } else {
        s.take(n as int)
    }
}

/// Appending to a sequence and then capping keeps the capped prefix, and adds
/// the item exactly when there was still room.
pub proof fn lemma_capped_push<A>(s: Seq<A>, x: A, n: nat)
    ensures
        capped(s, n).len() < n ==> capped(s.push(x), n) == capped(s, n).push(x),
        capped(s, n).len() >= n ==> capped(s.push(x), n) == capped(s, n),
        capped(s, n).len() <= n,
{
    if s.len() < n {
        assert(capped(s.push(x), n) =~= capped(s, n).push(x));
    } else {
        assert(capped(s.push(x), n) =~= capped(s, n));
    }
}

/// `heapless::Vec::new` for points: an empty vector.
#[verifier::external_body]
pub(crate) fn points_new() -> (v: heapless::Vec<usize, 64>)
    ensures
        points(v) == Seq::<usize>::empty(),
{
    heapless::Vec::new()
}

/// `heapless::Vec::push` for points: appends `x` when fewer than 64 items
/// are held; otherwise the vector is left as it was (the crate hands `x` back
/// in an `Err`). Reports whether `x` was appended.
#[verifier::external_body]
pub(crate) fn points_push(v: &mut heapless::Vec<usize, 64>, x: usize) -> (ok: bool)
    ensures
        ok == (points(*old(v)).len() < 64),
        ok ==> points(*final(v)) == points(*old(v)).push(x),
        !ok ==> points(*final(v)) == points(*old(v)),
{
    v.push(x).is_ok()
}

/// `heapless::Vec::as_slice` for points: the items held, in order; never
/// more than the capacity.
#[verifier::external_body]
pub(crate) fn points_as_slice(v: &heapless::Vec<usize, 64>) -> (r: &[usize])
    ensures
        r@ == points(*v),
        r@.len() <= 64,
{
    v.as_slice()
}

/// `heapless::Vec::as_mut_slice` for points: the items held, in order, to be
/// changed in place; the vector then holds what the slice holds.
#[verifier::external_body]
pub(crate) fn points_as_mut_slice(v: &mut heapless::Vec<usize, 64>) -> (r: &mut [usize])
    ensures
        r@ == points(*old(v)),
        points(*final(v)) == final(r)@,
{
    v.as_mut_slice()
}

/// `heapless::Vec::new` for address pairs: an empty vector.
#[verifier::external_body]
pub(crate) fn pieces_new() -> (v: heapless::Vec<(usize, usize), 128>)
    ensures
        pieces(v) == Seq::<(usize, usize)>::empty(),
{
    heapless::Vec::new()
}

/// `heapless::Vec::push` for address pairs: appends `x` when fewer than 128
/// items are held; otherwise the vector is left as it was (the crate hands
/// `x` back in an `Err`). Reports whether `x` was appended.
#[verifier::external_body]
pub(crate) fn pieces_push(v: &mut heapless::Vec<(usize, usize), 128>, x: (usize, usize)) -> (ok: bool)
    ensures
        ok == (pieces(*old(v)).len() < 128),
        ok ==> pieces(*final(v)) == pieces(*old(v)).push(x),
        !ok ==> pieces(*final(v)) == pieces(*old(v)),
{
    v.push(x).is_ok()
}

/// `heapless::Vec::as_slice` for address pairs: the items held, in order;
/// never more than the capacity.
#[verifier::external_body]
pub(crate) fn pieces_as_slice(v: &heapless::Vec<(usize, usize), 128>) -> (r: &[(usize, usize)])
    ensures
        r@ == pieces(*v),
        r@.len() <= 128,
{
    v.as_slice()
}

/// `heapless::Vec::new` for descriptors: an empty vector.
#[verifier::external_body]
pub(crate) fn descriptor_vec_new() -> (v: heapless::Vec<MemoryDescriptor, 64>)
    ensures
        descriptors(v) == Seq::<MemoryDescriptor>::empty(),
{
    heapless::Vec::new()
}

/// `heapless::Vec::push` for descriptors: appends `d` when fewer than 64
/// items are held; otherwise the vector is left as it was (the crate hands
/// `d` back in an `Err`). Reports whether `d` was appended.
#[verifier::external_body]
pub(crate) fn descriptor_vec_push(v: &mut heapless::Vec<MemoryDescriptor, 64>, d: MemoryDescriptor) -> (ok: bool)
    ensures
        ok == (descriptors(*old(v)).len() < 64),
        ok ==> descriptors(*final(v)) == descriptors(*old(v)).push(d),
        !ok ==> descriptors(*final(v)) == descriptors(*old(v)),
{
    v.push(d).is_ok()
}

/// `heapless::Vec::as_slice` for descriptors: the items held, in order;
/// never more than the capacity.
#[verifier::external_body]
pub(crate) fn descriptor_vec_as_slice(v: &heapless::Vec<MemoryDescriptor, 64>) -> (r: &[MemoryDescriptor])
    ensures
        r@ == descriptors(*v),
        r@.len() <= 64,
{
    v.as_slice()
}

/// `heapless::Vec::as_mut_slice` for descriptors: the items held, in order,
/// to be changed in place; the vector then holds what the slice holds.
#[verifier::external_body]
pub(crate) fn descriptor_vec_as_mut_slice(v: &mut heapless::Vec<MemoryDescriptor, 64>) -> (r: &mut [MemoryDescriptor])
    ensures
        r@ == descriptors(*old(v)),
        descriptors(*final(v)) == final(r)@,
{
    v.as_mut_slice()
}

/// `heapless::Vec::new` for up to 128 descriptors: an empty vector.
#[verifier::external_body]
pub(crate) fn descriptor_list_new() -> (v: heapless::Vec<MemoryDescriptor, 128>)
    ensures
        descriptors_128(v) == Seq::<MemoryDescriptor>::empty(),
{
    heapless::Vec::new()
}

/// `heapless::Vec::push` for up to 128 descriptors: appends `d` when fewer
/// than 128 items are held; otherwise the vector is left as it was (the crate
/// hands `d` back in an `Err`). Reports whether `d` was appended.
#[verifier::external_body]
pub(crate) fn descriptor_list_push(v: &mut heapless::Vec<MemoryDescriptor, 128>, d: MemoryDescriptor) -> (ok: bool)
    ensures
        ok == (descriptors_128(*old(v)).len() < 128),
        ok ==> descriptors_128(*final(v)) == descriptors_128(*old(v)).push(d),
        !ok ==> descriptors_128(*final(v)) == descriptors_128(*old(v)),
{
    v.push(d).is_ok()
}

/// `heapless::Vec::as_slice` for up to 128 descriptors: the items held, in
/// order; never more than the capacity.
#[verifier::external_body]
pub(crate) fn descriptor_list_as_slice(v: &heapless::Vec<MemoryDescriptor, 128>) -> (r: &[MemoryDescriptor])
    ensures
        r@ == descriptors_128(*v),
        r@.len() <= 128,
{
    v.as_slice()
}

/// `heapless::Vec::as_mut_slice` for up to 128 descriptors: the items held,
/// in order, to be changed in place; the vector then holds what the slice
/// holds.
#[verifier::external_body]
pub(crate) fn descriptor_list_as_mut_slice(v: &mut heapless::Vec<MemoryDescriptor, 128>) -> (r: &mut [MemoryDescriptor])
    ensures
        r@ == descriptors_128(*old(v)),
        descriptors_128(*final(v)) == final(r)@,
{
    v.as_mut_slice()
}

/// `heapless::Vec::clear` for up to 128 descriptors: the vector is empty
/// afterwards.
#[verifier::external_body]
pub(crate) fn descriptor_list_clear(v: &mut heapless::Vec<MemoryDescriptor, 128>)
    ensures
        descriptors_128(*final(v)) == Seq::<MemoryDescriptor>::empty(),
{
    v.clear()
}

} // verus!

verus! {

/// `arrayvec::ArrayVec<T, CAP>`: a vector that lives inline and holds at
/// most `CAP` items.
#[verifier::external_type_specification]
#[verifier::external_body]
#[verifier::reject_recursive_types(T)]
pub struct ExArrayVec<T, const CAP: usize>(arrayvec::ArrayVec<T, CAP>);

/// The CPU descriptions held, in order, by an `ArrayVec` of capacity 256.
pub uninterp spec fn cpu_infos(v: arrayvec::ArrayVec<CpuInfo, 256>) -> Seq<CpuInfo>;

/// The CPU identifiers held, in order, by an `ArrayVec` of capacity 256.
pub uninterp spec fn cpu_ids(v: arrayvec::ArrayVec<usize, 256>) -> Seq<usize>;

/// `ArrayVec::new` for CPU descriptions: an empty vector.
#[verifier::external_body]
pub(crate) fn info_array_new() -> (v: arrayvec::ArrayVec<CpuInfo, 256>)
    ensures
        cpu_infos(v) == Seq::<CpuInfo>::empty(),
{
    arrayvec::ArrayVec::new()
}

/// `ArrayVec::try_push` for CPU descriptions: appends `x` when fewer than 256
/// items are held; otherwise the vector is left as it was (the crate hands
/// `x` back in a `CapacityError`). Reports whether `x` was appended.
#[verifier::external_body]
pub(crate) fn info_array_push(v: &mut arrayvec::ArrayVec<CpuInfo, 256>, x: CpuInfo) -> (ok: bool)
    ensures
        ok == (cpu_infos(*old(v)).len() < 256),
        ok ==> cpu_infos(*final(v)) == cpu_infos(*old(v)).push(x),
        !ok ==> cpu_infos(*final(v)) == cpu_infos(*old(v)),
{
    v.try_push(x).is_ok()
}

/// `ArrayVec::as_slice` for CPU descriptions: the items held, in order;
/// never more than the capacity.
#[verifier::external_body]
pub(crate) fn info_array_as_slice(v: &arrayvec::ArrayVec<CpuInfo, 256>) -> (r: &[CpuInfo])
    ensures
        r@ == cpu_infos(*v),
        r@.len() <= 256,
{
    v.as_slice()
}

/// `ArrayVec::new` for CPU identifiers: an empty vector.
#[verifier::external_body]
pub(crate) fn id_array_new() -> (v: arrayvec::ArrayVec<usize, 256>)
    ensures
        cpu_ids(v) == Seq::<usize>::empty(),
{
    arrayvec::ArrayVec::new()
}

/// `ArrayVec::try_push` for CPU identifiers: appends `x` when fewer than 256
/// items are held; otherwise the vector is left as it was (the crate hands
/// `x` back in a `CapacityError`). Reports whether `x` was appended.
#[verifier::external_body]
pub(crate) fn id_array_push(v: &mut arrayvec::ArrayVec<usize, 256>, x: usize) -> (ok: bool)
    ensures
        ok == (cpu_ids(*old(v)).len() < 256),
        ok ==> cpu_ids(*final(v)) == cpu_ids(*old(v)).push(x),
        !ok ==> cpu_ids(*final(v)) == cpu_ids(*old(v)),
{
    v.try_push(x).is_ok()
}

/// `ArrayVec::as_slice` for CPU identifiers: the items held, in order; never
/// more than the capacity.
#[verifier::external_body]
pub(crate) fn id_array_as_slice(v: &arrayvec::ArrayVec<usize, 256>) -> (r: &[usize])
    ensures
        r@ == cpu_ids(*v),
        r@.len() <= 256,
{
    v.as_slice()
}

/// `ArrayVec::clear` for CPU identifiers: the vector is empty afterwards.
#[verifier::external_body]
pub(crate) fn id_array_clear(v: &mut arrayvec::ArrayVec<usize, 256>)
    ensures
        cpu_ids(*final(v)) == Seq::<usize>::empty(),
{
    v.clear()
}

} // verus!
