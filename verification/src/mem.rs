//! Kernel memory services of the hardware abstraction layer: the recorded
//! memory map, I/O remapping ranges and write-once cells.

use vstd::prelude::*;

use crate::align::{align_down, align_up, align_up_fits, lemma_align_down, lemma_align_up, spec_align_down, spec_align_up};
use crate::bounded::{capped, descriptor_vec_as_slice, descriptor_vec_new, descriptor_vec_push, descriptors};
use crate::memory::MemoryDescriptor;

verus! {

/// The page-aligned range that covers `[paddr, paddr + size)`: its start
/// rounded down and its end rounded up to pages. Returns the start and size
/// handed to the architecture's remapping.
pub fn ioremap(paddr: usize, size: usize, page_size: usize) -> (r: (usize, usize))
    requires
        page_size > 0,
        paddr + size <= usize::MAX,
        align_up_fits((paddr + size) as usize, page_size),
    ensures
        r.0 == spec_align_down(paddr, page_size),
        r.0 + r.1 == spec_align_up((paddr + size) as usize, page_size),
        r.0 <= paddr,
        paddr + size <= r.0 + r.1,
        (r.0 as int) % (page_size as int) == 0,
        (r.0 + r.1) % (page_size as int) == 0,
{
    let end = paddr + size;
    proof {
        lemma_align_down(paddr, page_size);
        lemma_align_up(end, page_size);
    }
    let start = align_down(paddr, page_size);
    let size = align_up(end, page_size) - start;
    (start, size)
}

/// Regions a memory map holds at most.
pub const MEMORY_MAP_CAPACITY: usize = 64;

/// The recorded regions `m` after recording `d`: appended while there is
/// room, else unchanged.
pub open spec fn recorded(m: Seq<MemoryDescriptor>, d: MemoryDescriptor) -> Seq<MemoryDescriptor> {
    if m.len() < MEMORY_MAP_CAPACITY {
        m.push(d)
    } else {
        m
    }
}

/// The regions recorded by an empty map after recording `ds` in order.
pub open spec fn recorded_all(ds: Seq<MemoryDescriptor>) -> Seq<MemoryDescriptor>
    decreases ds.len(),
{
    if ds.len() == 0 {
        Seq::empty()
    } else {
        recorded(recorded_all(ds.drop_last()), ds.last())
    }
}

/// A map that records regions in order from empty holds the first 64 of
/// them, in the order they were recorded; the later ones are dropped.
pub proof fn lemma_records_in_order(ds: Seq<MemoryDescriptor>)
    ensures
        recorded_all(ds) == capped(ds, MEMORY_MAP_CAPACITY as nat),
    decreases ds.len(),
{
    if ds.len() > 0 {
        let t = ds.drop_last();
        lemma_records_in_order(t);
        if t.len() < MEMORY_MAP_CAPACITY {
            assert(ds =~= t.push(ds.last()));
        } else {
            assert(capped(ds, MEMORY_MAP_CAPACITY as nat) =~= capped(t, MEMORY_MAP_CAPACITY as nat));
        }
    }
}

/// The memory map that the boot code records: at most 64 regions, further
/// ones are dropped.
pub struct MemoryMap {
    map: heapless::Vec<MemoryDescriptor, 64>,
}

impl View for MemoryMap {
    type V = Seq<MemoryDescriptor>;

    closed spec fn view(&self) -> Seq<MemoryDescriptor> {
        descriptors(self.map)
    }
}

impl MemoryMap {
    /// An empty map.
    pub fn new() -> (r: MemoryMap)
        ensures
            r@ == Seq::<MemoryDescriptor>::empty(),
    {
        MemoryMap { map: descriptor_vec_new() }
    }

    /// Records `desc`, unless the map is full.
    pub fn add_memory_descriptor(&mut self, desc: MemoryDescriptor)
        ensures
            final(self)@ == recorded(old(self)@, desc),
    {
        let _ = descriptor_vec_push(&mut self.map, desc);
    }

    /// The regions recorded, in the order they were added.
    pub fn get_memory_map(&self) -> (r: &[MemoryDescriptor])
        ensures
            r@ == self@,
    {
        descriptor_vec_as_slice(&self.map)
    }
}

/// A cell that is set once during boot and read afterwards.
pub struct StaticCell<T> {
    value: Option<T>,
}

impl<T> StaticCell<T> {
    /// A cell holding `v`.
    pub fn new(v: Option<T>) -> (r: StaticCell<T>)
        ensures
            r.get_spec() == v,
    {
        StaticCell { value: v }
    }

    /// What the cell holds.
    pub closed spec fn get_spec(&self) -> Option<T> {
        self.value
    }

    /// Puts `v` into the cell.
    pub fn set(&mut self, v: T)
        ensures
            final(self).get_spec() == Some(v),
    {
        self.value = Some(v);
    }

    /// The value of the cell, which must have been set.
    pub fn get(&self) -> (r: &T)
        requires
            self.get_spec() is Some,
        ensures
            Some(*r) == self.get_spec(),
    {
        self.value.as_ref().unwrap()
    }

    /// The value of the cell, if it has been set.
    pub fn try_get(&self) -> (r: Option<&T>)
        ensures
            r matches Some(x) ==> self.get_spec() == Some(*x),
            r is None <==> self.get_spec() is None,
    {
        self.value.as_ref()
    }
}

} // verus!
