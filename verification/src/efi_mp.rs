//! Processor enumeration through the UEFI MP services protocol: which of the
//! processors that the firmware reports are kept as CPU ids.

use vstd::prelude::*;

use crate::bounded::{capped, cpu_ids, id_array_as_slice, id_array_clear, id_array_new, id_array_push, lemma_capped_push};

verus! {

/// Where a processor sits: package, core and thread.
#[derive(Debug, Clone, Copy, Default)]
pub struct EfiCpuPhysicalLocation {
    pub package: u32,
    pub core: u32,
    pub thread: u32,
}

/// What the firmware reports of one processor.
#[derive(Debug, Clone, Copy, Default)]
pub struct EfiProcessorInformation {
    pub processor_id: u64,
    pub status_flag: u32,
    pub location: EfiCpuPhysicalLocation,
}

/// The status bit of a processor that can be started.
pub const PROCESSOR_ENABLED: u32 = 1;

/// Most CPU ids kept.
pub const CPU_ID_CAPACITY: usize = 256;

/// The processor takes part: its enabled bit is set.
pub open spec fn processor_enabled(info: EfiProcessorInformation) -> bool {
    (info.status_flag & PROCESSOR_ENABLED) != 0
}

/// The ids of the enabled processors among the answers of the firmware, in
/// order; an answer that failed (`None`) is skipped.
pub open spec fn enabled_ids(s: Seq<Option<EfiProcessorInformation>>) -> Seq<usize>
    decreases s.len(),
{
    if s.len() == 0 {
        Seq::empty()
    } else {
        let rest = enabled_ids(s.drop_last());
        match s.last() {
            Some(info) => if processor_enabled(info) {
                rest.push(info.processor_id as usize)
            } else {
                rest
            },
            None => rest,
        }
    }
}

/// The CPU ids kept from the firmware's answers for each processor number:
/// those of enabled processors, in order, at most 256 of them.
pub fn enabled_processor_ids(infos: &[Option<EfiProcessorInformation>]) -> (ids: arrayvec::ArrayVec<usize, 256>)
    ensures
        cpu_ids(ids) == capped(enabled_ids(infos@), CPU_ID_CAPACITY as nat),
{
    let mut ids = id_array_new();
    let mut i: usize = 0;
    while i < infos.len()
        invariant
            i <= infos.len(),
            cpu_ids(ids) == capped(enabled_ids(infos@.take(i as int)), CPU_ID_CAPACITY as nat),
        decreases infos.len() - i,
    {
        let ghost before = infos@.take(i as int);
        assert(infos@.take(i + 1).drop_last() =~= before);
        match infos[i] {
            Some(info) => {
                if (info.status_flag & PROCESSOR_ENABLED) != 0 {
                    proof {
                        lemma_capped_push(enabled_ids(before), info.processor_id as usize, CPU_ID_CAPACITY as nat);
                    }
                    let _ = id_array_push(&mut ids, info.processor_id as usize);
                }
            },
            None => {},
        }
        i = i + 1;
    }
    assert(infos@.take(infos@.len() as int) =~= infos@);
    ids
}

/// The CPU ids recorded at boot.
pub struct CpuIdTable {
    ids: arrayvec::ArrayVec<usize, 256>,
}

impl View for CpuIdTable {
    type V = Seq<usize>;

    closed spec fn view(&self) -> Seq<usize> {
        cpu_ids(self.ids)
    }
}

impl CpuIdTable {
    /// An empty table.
    pub fn new() -> (t: CpuIdTable)
        ensures
            t@ == Seq::<usize>::empty(),
    {
        CpuIdTable { ids: id_array_new() }
    }

    /// Replaces the recorded ids by `new_ids`, keeping at most 256.
    pub fn store(&mut self, new_ids: &[usize])
        ensures
            final(self)@ == capped(new_ids@, CPU_ID_CAPACITY as nat),
    {
        id_array_clear(&mut self.ids);
        let mut i: usize = 0;
        while i < new_ids.len()
            invariant
                i <= new_ids.len(),
                cpu_ids(self.ids) == capped(new_ids@.take(i as int), CPU_ID_CAPACITY as nat),
            decreases new_ids.len() - i,
        {
            proof {
                assert(new_ids@.take(i + 1) =~= new_ids@.take(i as int).push(new_ids@[i as int]));
                lemma_capped_push(new_ids@.take(i as int), new_ids@[i as int], CPU_ID_CAPACITY as nat);
            }
            let _ = id_array_push(&mut self.ids, new_ids[i]);
            i = i + 1;
        }
        assert(new_ids@.take(new_ids@.len() as int) =~= new_ids@);
    }

    /// The recorded ids, or `None` when none was recorded.
    pub fn cpu_id_list(&self) -> (r: Option<&[usize]>)
        ensures
            self@.len() == 0 ==> r is None,
            self@.len() > 0 ==> (r matches Some(v) && v@ == self@),
    {
        let ids = id_array_as_slice(&self.ids);
        if ids.len() == 0 {
            None
        } else {
            Some(ids)
        }
    }
}

} // verus!
