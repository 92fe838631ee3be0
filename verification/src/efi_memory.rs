//! The memory map from the UEFI memory map: usable and reserved regions are
//! told apart by their UEFI memory type and handed to the memory-map merge.

use vstd::prelude::*;

use crate::bounded::{
    capped, descriptor_list_as_slice, descriptor_list_new, descriptor_list_push, descriptors, descriptors_128,
    lemma_capped_push,
};
use crate::memory::{all_fit, memory_map, merge_memories, widenings_fit, MemoryDescriptor, MemoryType};

verus! {

/// UEFI memory type: reserved.
pub const EFI_RESERVED: u32 = 0;
/// UEFI memory type: loader code.
pub const EFI_LOADER_CODE: u32 = 1;
/// UEFI memory type: loader data.
pub const EFI_LOADER_DATA: u32 = 2;
/// UEFI memory type: boot services code.
pub const EFI_BOOT_SERVICES_CODE: u32 = 3;
/// UEFI memory type: boot services data.
pub const EFI_BOOT_SERVICES_DATA: u32 = 4;
/// UEFI memory type: runtime services code.
pub const EFI_RUNTIME_SERVICES_CODE: u32 = 5;
/// UEFI memory type: runtime services data.
pub const EFI_RUNTIME_SERVICES_DATA: u32 = 6;
/// UEFI memory type: conventional (free) memory.
pub const EFI_CONVENTIONAL: u32 = 7;
/// UEFI memory type: unusable memory.
pub const EFI_UNUSABLE: u32 = 8;
/// UEFI memory type: ACPI reclaimable memory.
pub const EFI_ACPI_RECLAIM: u32 = 9;
/// UEFI memory type: ACPI non-volatile memory.
pub const EFI_ACPI_NON_VOLATILE: u32 = 10;
/// UEFI memory type: memory-mapped I/O.
pub const EFI_MMIO: u32 = 11;
/// UEFI memory type: memory-mapped I/O port space.
pub const EFI_MMIO_PORT_SPACE: u32 = 12;
/// UEFI memory type: processor code.
pub const EFI_PAL_CODE: u32 = 13;
/// UEFI memory type: memory not yet accepted.
pub const EFI_UNACCEPTED: u32 = 15;

/// Most usable or reserved UEFI regions that are kept.
pub const EFI_REGION_CAPACITY: usize = 128;

/// A UEFI memory descriptor, reduced to what the memory map reads.
#[derive(Debug, Clone, Copy)]
pub struct EfiMemoryDescriptor {
    /// UEFI memory type.
    pub ty: u32,
    /// Physical start address.
    pub phys_start: u64,
    /// Number of pages.
    pub page_count: u64,
}

/// The name of UEFI memory type `t`.
pub open spec fn memty_name(t: u32) -> Seq<char> {
    if t == EFI_RESERVED {
        "RESERVED"@
    } else if t == EFI_LOADER_CODE {
        "LOADER_CODE"@
    } else if t == EFI_LOADER_DATA {
        "LOADER_DATA"@
    } else if t == EFI_BOOT_SERVICES_CODE {
        "BOOT_SERVICES_CODE"@
    } else if t == EFI_BOOT_SERVICES_DATA {
        "BOOT_SERVICES_DATA"@
    } else if t == EFI_RUNTIME_SERVICES_CODE {
        "RUNTIME_SERVICES_CODE"@
    } else if t == EFI_RUNTIME_SERVICES_DATA {
        "RUNTIME_SERVICES_DATA"@
    } else if t == EFI_CONVENTIONAL {
        "CONVENTIONAL"@
    } else if t == EFI_UNUSABLE {
        "UNUSABLE"@
    } else if t == EFI_PAL_CODE {
        "PAL_CODE"@
    } else if t == EFI_MMIO {
        "MMIO"@
    } else if t == EFI_MMIO_PORT_SPACE {
        "MMIO_PORT_SPACE"@
    } else if t == EFI_ACPI_NON_VOLATILE {
        "ACPI_NON_VOLATILE"@
    } else if t == EFI_ACPI_RECLAIM {
        "ACPI_RECLAIM"@
    } else if t == EFI_UNACCEPTED {
        "UNACCEPTED"@
    } else {
        "UNKNOWN"@
    }
}

/// The name of a UEFI memory type, `UNKNOWN` for a type without one.
pub fn memty_str(t: u32) -> (r: &'static str)
    ensures
        r@ == memty_name(t),
{
    match t {
        EFI_RESERVED => "RESERVED",
        EFI_LOADER_CODE => "LOADER_CODE",
        EFI_LOADER_DATA => "LOADER_DATA",
        EFI_BOOT_SERVICES_CODE => "BOOT_SERVICES_CODE",
        EFI_BOOT_SERVICES_DATA => "BOOT_SERVICES_DATA",
        EFI_RUNTIME_SERVICES_CODE => "RUNTIME_SERVICES_CODE",
        EFI_RUNTIME_SERVICES_DATA => "RUNTIME_SERVICES_DATA",
        EFI_CONVENTIONAL => "CONVENTIONAL",
        EFI_UNUSABLE => "UNUSABLE",
        EFI_PAL_CODE => "PAL_CODE",
        EFI_MMIO => "MMIO",
        EFI_MMIO_PORT_SPACE => "MMIO_PORT_SPACE",
        EFI_ACPI_NON_VOLATILE => "ACPI_NON_VOLATILE",
        EFI_ACPI_RECLAIM => "ACPI_RECLAIM",
        EFI_UNACCEPTED => "UNACCEPTED",
        _ => "UNKNOWN",
    }
}

/// Memory of this UEFI type is free for the kernel once boot services end.
pub open spec fn efi_usable(ty: u32) -> bool {
    ty == EFI_CONVENTIONAL || ty == EFI_BOOT_SERVICES_CODE || ty == EFI_BOOT_SERVICES_DATA
}

/// The region that a UEFI descriptor covers, as usable or reserved memory.
pub open spec fn efi_region(d: EfiMemoryDescriptor, page: usize) -> MemoryDescriptor {
    MemoryDescriptor {
        physical_start: d.phys_start as usize,
        size_in_bytes: ((d.page_count as usize) * page) as usize,
        memory_type: if efi_usable(d.ty) {
            MemoryType::Usable
        } else {
            MemoryType::Reserved
        },
    }
}

/// The regions of the descriptors of `ds` whose usability is `usable`.
pub open spec fn efi_regions(ds: Seq<EfiMemoryDescriptor>, page: usize, usable: bool) -> Seq<MemoryDescriptor>
    decreases ds.len(),
{
    if ds.len() == 0 {
        Seq::empty()
    } else {
        let prev = efi_regions(ds.drop_last(), page, usable);
        if efi_usable(ds.last().ty) == usable {
            prev.push(efi_region(ds.last(), page))
        } else {
            prev
        }
    }
}

/// The RAM regions handed to the merge: usable descriptors, at most 128.
pub open spec fn efi_ram(ds: Seq<EfiMemoryDescriptor>, page: usize) -> Seq<MemoryDescriptor> {
    capped(efi_regions(ds, page, true), EFI_REGION_CAPACITY as nat)
}

/// The reserved regions handed to the merge: the other descriptors, at most
/// 128, then the kernel's own region if there is room.
pub open spec fn efi_reserved(ds: Seq<EfiMemoryDescriptor>, page: usize, kernel: MemoryDescriptor) -> Seq<MemoryDescriptor> {
    capped(capped(efi_regions(ds, page, false), EFI_REGION_CAPACITY as nat).push(kernel), EFI_REGION_CAPACITY as nat)
}

/// Every descriptor's page count times the page size fits in a `usize`.
pub open spec fn sizes_fit(ds: Seq<EfiMemoryDescriptor>, page: usize) -> bool {
    forall|k: int| 0 <= k < ds.len() ==> (#[trigger] ds[k]).page_count as usize * page <= usize::MAX
}

/// Builds the memory map from the UEFI memory map: conventional and boot
/// services memory is usable, everything else and the kernel's own region
/// `kernel` is reserved; at most 128 regions of each kind are kept.
pub fn efi_memory_map(descs: &[EfiMemoryDescriptor], page_size: usize, kernel: MemoryDescriptor) -> (r: heapless::Vec<MemoryDescriptor, 64>)
    requires
        page_size > 0,
        sizes_fit(descs@, page_size),
        all_fit(efi_ram(descs@, page_size)),
        widenings_fit(efi_reserved(descs@, page_size, kernel), page_size),
    ensures
        descriptors(r) == memory_map(efi_ram(descs@, page_size), efi_reserved(descs@, page_size, kernel), page_size),
{
    let mut ram = descriptor_list_new();
    let mut rsv = descriptor_list_new();
    let ghost cap = EFI_REGION_CAPACITY as nat;
    for i in 0..descs.len()
        invariant
            page_size > 0,
            cap == EFI_REGION_CAPACITY as nat,
            sizes_fit(descs@, page_size),
            descriptors_128(ram) == capped(efi_regions(descs@.take(i as int), page_size, true), cap),
            descriptors_128(rsv) == capped(efi_regions(descs@.take(i as int), page_size, false), cap),
    {
        let memory = descs[i];
        let ghost t = descs@.take(i as int + 1);
        assert(t.drop_last() =~= descs@.take(i as int));
        assert(t.last() == memory);
        assert(memory.page_count as usize * page_size <= usize::MAX);
        let usable = memory.ty == EFI_CONVENTIONAL || memory.ty == EFI_BOOT_SERVICES_CODE
            || memory.ty == EFI_BOOT_SERVICES_DATA;
        let d = MemoryDescriptor {
            physical_start: memory.phys_start as usize,
            size_in_bytes: memory.page_count as usize * page_size,
            memory_type: if usable {
                MemoryType::Usable
            } else {
                MemoryType::Reserved
            },
        };
        assert(d == efi_region(memory, page_size));
        if usable {
            proof {
                lemma_capped_push(efi_regions(descs@.take(i as int), page_size, true), d, cap);
            }
            let _ = descriptor_list_push(&mut ram, d);
        } else {
            proof {
                lemma_capped_push(efi_regions(descs@.take(i as int), page_size, false), d, cap);
            }
            let _ = descriptor_list_push(&mut rsv, d);
        }
    }
    assert(descs@.take(descs@.len() as int) =~= descs@);
    proof {
        lemma_capped_push(descriptors_128(rsv), kernel, cap);
        assert(capped(descriptors_128(rsv), cap) == descriptors_128(rsv));
    }
    let _ = descriptor_list_push(&mut rsv, kernel);
    merge_memories(descriptor_list_as_slice(&ram), descriptor_list_as_slice(&rsv), page_size)
}

/// When nothing is dropped for want of room (at most 128 usable descriptors
/// and fewer than 128 others), the memory map built from the UEFI memory map
/// is the merge of the usable descriptors' regions with the other
/// descriptors' regions followed by the kernel's region, in input order.
pub proof fn lemma_efi_map_is_merge(ds: Seq<EfiMemoryDescriptor>, page: usize, kernel: MemoryDescriptor)
    requires
        efi_regions(ds, page, true).len() <= EFI_REGION_CAPACITY,
        efi_regions(ds, page, false).len() < EFI_REGION_CAPACITY,
    ensures
        efi_ram(ds, page) == efi_regions(ds, page, true),
        efi_reserved(ds, page, kernel) == efi_regions(ds, page, false).push(kernel),
        memory_map(efi_ram(ds, page), efi_reserved(ds, page, kernel), page) == memory_map(
            efi_regions(ds, page, true),
            efi_regions(ds, page, false).push(kernel),
            page,
        ),
{
}

/// The UEFI memory types that are usable RAM once boot services end:
/// boot services code (3), boot services data (4) and conventional memory
/// (7); a descriptor of such a type is handed to the merge as usable RAM,
/// any other as reserved.
pub proof fn lemma_efi_usable_types(d: EfiMemoryDescriptor, page: usize)
    ensures
        efi_usable(d.ty) <==> (d.ty == 3u32 || d.ty == 4u32 || d.ty == 7u32),
        efi_region(d, page).memory_type == (if d.ty == 3u32 || d.ty == 4u32 || d.ty == 7u32 {
            MemoryType::Usable
        } else {
            MemoryType::Reserved
        }),
        d.phys_start <= usize::MAX ==> efi_region(d, page).physical_start == d.phys_start,
        d.page_count * page <= usize::MAX ==> efi_region(d, page).size_in_bytes == d.page_count * page,
{
    if d.page_count * page <= usize::MAX && page > 0 {
        assert(d.page_count <= d.page_count * page) by (nonlinear_arith)
            requires
                page > 0,
        ;
        assert(d.page_count as usize == d.page_count);
        let pc = d.page_count as usize;
        assert(pc * page == d.page_count * page);
    } else if page == 0 {
        let pc = d.page_count as usize;
        assert(pc * page == 0 && d.page_count * page == 0) by (nonlinear_arith)
            requires
                page == 0,
        ;
    }
}

/// Each descriptor goes to exactly one of the two lists handed to the merge:
/// appending a descriptor of a usable type (3, 4 or 7) adds its region to
/// the RAM list and leaves the reserved list, and appending any other adds
/// its region to the reserved list and leaves the RAM list.
pub proof fn lemma_efi_regions_step(ds: Seq<EfiMemoryDescriptor>, d: EfiMemoryDescriptor, page: usize)
    ensures
        (d.ty == 3u32 || d.ty == 4u32 || d.ty == 7u32) ==> efi_regions(ds.push(d), page, true) == efi_regions(
            ds,
            page,
            true,
        ).push(efi_region(d, page)) && efi_regions(ds.push(d), page, false) == efi_regions(ds, page, false),
        !(d.ty == 3u32 || d.ty == 4u32 || d.ty == 7u32) ==> efi_regions(ds.push(d), page, false)
            == efi_regions(ds, page, false).push(efi_region(d, page)) && efi_regions(ds.push(d), page, true)
            == efi_regions(ds, page, true),
{
    assert(ds.push(d).drop_last() =~= ds);
}

} // verus!
