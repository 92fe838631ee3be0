//! ACPI table decoding: the CPU entries of the MADT.

use vstd::prelude::*;

use crate::bounded::{capped, cpu_ids, id_array_as_slice, id_array_new, id_array_push, lemma_capped_push};

pub mod cpu;

verus! {

/// Most CPU identifiers kept from one table.
pub const MAX_CPUS: usize = 256;

/// A MADT entry as the ACPI table parser hands it out, reduced to the fields
/// that CPU enumeration reads.
#[derive(Debug, Clone, Copy)]
pub enum MadtEntry {
    /// x86 local APIC.
    LocalApic { processor_id: u8, apic_id: u8, flags: u32 },
    /// x86 local x2APIC.
    LocalX2Apic { processor_id: u32, x2apic_id: u32, flags: u32 },
    /// Arm GIC CPU interface.
    Gicc { cpu_interface_number: u32, mpidr: u64, flags: u32 },
    /// Any other entry.
    Other,
}

/// Bit 0 of a MADT entry's flags: the CPU is enabled.
pub open spec fn flag_enabled(flags: u32) -> bool {
    flags & 1 != 0
}

/// The hardware CPU identifier that an enabled CPU entry names.
pub open spec fn entry_cpu_id(e: MadtEntry) -> Option<usize> {
    match e {
        MadtEntry::LocalApic { apic_id, flags, .. } => if flag_enabled(flags) {
            Some(apic_id as usize)
        } else {
            None
        },
        MadtEntry::LocalX2Apic { x2apic_id, flags, .. } => if flag_enabled(flags) {
            Some(x2apic_id as usize)
        } else {
            None
        },
        MadtEntry::Gicc { mpidr, flags, .. } => if flag_enabled(flags) {
            Some(mpidr as usize)
        } else {
            None
        },
        MadtEntry::Other => None,
    }
}

/// The identifiers of the enabled CPUs that `es` names, in order.
pub open spec fn entry_cpu_ids(es: Seq<MadtEntry>) -> Seq<usize>
    decreases es.len(),
{
    if es.len() == 0 {
        Seq::empty()
    } else {
        let prev = entry_cpu_ids(es.drop_last());
        match entry_cpu_id(es.last()) {
            Some(id) => prev.push(id),
            None => prev,
        }
    }
}

/// `Some(s)`, or `None` when `s` is empty.
pub open spec fn non_empty<A>(s: Seq<A>) -> Option<Seq<A>> {
    if s.len() == 0 {
        None
    } else {
        Some(s)
    }
}

/// The identifiers of the enabled CPUs among the local APIC, local x2APIC and
/// GIC CPU interface entries, at most `MAX_CPUS` of them; `None` when there is
/// none.
pub fn cpu_id_list(entries: &[MadtEntry]) -> (res: Option<arrayvec::ArrayVec<usize, 256>>)
    ensures
        res matches Some(v) ==> non_empty(capped(entry_cpu_ids(entries@), MAX_CPUS as nat)) == Some(cpu_ids(v)),
        res is None <==> non_empty(capped(entry_cpu_ids(entries@), MAX_CPUS as nat)) is None,
{
    let mut ids = id_array_new();
    for i in 0..entries.len()
        invariant
            cpu_ids(ids) == capped(entry_cpu_ids(entries@.take(i as int)), MAX_CPUS as nat),
    {
        let e = entries[i];
        let ghost prev = entry_cpu_ids(entries@.take(i as int));
        assert(entries@.take(i as int + 1).drop_last() =~= entries@.take(i as int));
        assert(entries@.take(i as int + 1).last() == e);
        let id: Option<usize> = match e {
            MadtEntry::LocalApic { apic_id, flags, .. } => if flags & 1 != 0 {
                Some(apic_id as usize)
            } else {
                None
            },
            MadtEntry::LocalX2Apic { x2apic_id, flags, .. } => if flags & 1 != 0 {
                Some(x2apic_id as usize)
            } else {
                None
            },
            MadtEntry::Gicc { mpidr, flags, .. } => if flags & 1 != 0 {
                Some(mpidr as usize)
            } else {
                None
            },
            MadtEntry::Other => None,
        };
        assert(id == entry_cpu_id(e));
        if let Some(id) = id {
            proof {
                lemma_capped_push(prev, id, MAX_CPUS as nat);
            }
            let _ = id_array_push(&mut ids, id);
        }
    }
    assert(entries@.take(entries@.len() as int) =~= entries@);
    if id_array_as_slice(&ids).len() == 0 {
        None
    } else {
        Some(ids)
    }
}

/// The hardware identifier that an entry names for CPU start-up: the APIC
/// ID of a local APIC entry, the x2APIC ID of a local x2APIC entry, the
/// MPIDR of a GIC CPU interface entry, each only when bit 0 of its flags is
/// set; other entries name none.
pub proof fn lemma_entry_cpu_id(e: MadtEntry)
    ensures
        entry_cpu_id(e) == (match e {
            MadtEntry::LocalApic { apic_id, flags, .. } => if flags & 1u32 == 1u32 {
                Some(apic_id as usize)
            } else {
                None
            },
            MadtEntry::LocalX2Apic { x2apic_id, flags, .. } => if flags & 1u32 == 1u32 {
                Some(x2apic_id as usize)
            } else {
                None
            },
            MadtEntry::Gicc { mpidr, flags, .. } => if flags & 1u32 == 1u32 {
                Some(mpidr as usize)
            } else {
                None
            },
            MadtEntry::Other => None::<usize>,
        }),
{
    match e {
        MadtEntry::LocalApic { flags, .. } => {
            assert((flags & 1u32 != 0) == (flags & 1u32 == 1u32)) by (bit_vector);
        },
        MadtEntry::LocalX2Apic { flags, .. } => {
            assert((flags & 1u32 != 0) == (flags & 1u32 == 1u32)) by (bit_vector);
        },
        MadtEntry::Gicc { flags, .. } => {
            assert((flags & 1u32 != 0) == (flags & 1u32 == 1u32)) by (bit_vector);
        },
        MadtEntry::Other => {},
    }
}

} // verus!
