use sparreal::memory::{merge_memories, determine_segment_type, sort_by_start, MemoryDescriptor, MemoryType};
use sparreal::fdt_memory::{merge_reserved_descriptors, memory_map_from_fdt, setup_memory_map, FdtRange, FdtReg, RESERVED_CAPACITY};
use sparreal::efi_memory::{efi_memory_map, memty_str, EfiMemoryDescriptor, EFI_CONVENTIONAL, EFI_MMIO, EFI_BOOT_SERVICES_DATA, EFI_ACPI_RECLAIM};
use sparreal::mem::{MemoryMap, ioremap};

fn usable(start: usize, size: usize) -> MemoryDescriptor {
    MemoryDescriptor { physical_start: start, size_in_bytes: size, memory_type: MemoryType::Usable }
}

fn reserved(start: usize, size: usize) -> MemoryDescriptor {
    MemoryDescriptor { physical_start: start, size_in_bytes: size, memory_type: MemoryType::Reserved }
}

#[test]
fn test_merge_memories() {
    const PAGE_SIZE: usize = 4096;

    // RAM split by a reserved region
    {
        let ram = vec![usable(0x1000, 0x4000)];
        let rsv = vec![reserved(0x2000, 0x1000)];
        let result = merge_memories(&ram, &rsv, PAGE_SIZE);
        assert_eq!(result.len(), 3);
        assert_eq!(result[0].physical_start, 0x1000);
        assert_eq!(result[0].size_in_bytes, 0x1000);
        assert_eq!(result[0].memory_type, MemoryType::Usable);
        assert_eq!(result[1].physical_start, 0x2000);
        assert_eq!(result[1].size_in_bytes, 0x1000);
        assert_eq!(result[1].memory_type, MemoryType::Reserved);
        assert_eq!(result[2].physical_start, 0x3000);
        assert_eq!(result[2].size_in_bytes, 0x2000);
        assert_eq!(result[2].memory_type, MemoryType::Usable);
    }

    // no intersection
    {
        let ram = vec![usable(0x1000, 0x1000), usable(0x5000, 0x1000)];
        let rsv = vec![reserved(0x3000, 0x1000)];
        let result = merge_memories(&ram, &rsv, PAGE_SIZE);
        assert_eq!(result.len(), 3);
        assert_eq!(result[0].memory_type, MemoryType::Usable);
        assert_eq!(result[1].memory_type, MemoryType::Reserved);
        assert_eq!(result[2].memory_type, MemoryType::Usable);
    }

    // fully contained
    {
        let ram = vec![usable(0x2000, 0x4000)];
        let rsv = vec![reserved(0x3000, 0x1000)];
        let result = merge_memories(&ram, &rsv, PAGE_SIZE);
        assert!(result.len() >= 1);
    }

    // empty input
    {
        let ram: Vec<MemoryDescriptor> = vec![];
        let rsv: Vec<MemoryDescriptor> = vec![];
        let result = merge_memories(&ram, &rsv, PAGE_SIZE);
        assert_eq!(result.len(), 0);
    }

    // RAM only
    {
        let ram = vec![usable(0x1000, 0x2000)];
        let rsv: Vec<MemoryDescriptor> = vec![];
        let result = merge_memories(&ram, &rsv, PAGE_SIZE);
        assert_eq!(result.len(), 1);
        assert_eq!(result[0].memory_type, MemoryType::Usable);
        assert_eq!(result[0].physical_start, 0x1000);
        assert_eq!(result[0].size_in_bytes, 0x2000);
    }

    // reserved only
    {
        let ram: Vec<MemoryDescriptor> = vec![];
        let rsv = vec![reserved(0x2000, 0x1000)];
        let result = merge_memories(&ram, &rsv, PAGE_SIZE);
        assert_eq!(result.len(), 1);
        assert_eq!(result[0].memory_type, MemoryType::Reserved);
    }

    // abutting regions of one kind are joined
    {
        let ram = vec![usable(0x1000, 0x1000), usable(0x2000, 0x1000)];
        let rsv: Vec<MemoryDescriptor> = vec![];
        let result = merge_memories(&ram, &rsv, PAGE_SIZE);
        assert_eq!(result.len(), 1);
        assert_eq!(result[0].physical_start, 0x1000);
        assert_eq!(result[0].size_in_bytes, 0x2000);
        assert_eq!(result[0].memory_type, MemoryType::Usable);
    }

    // page alignment at a boundary
    {
        let ram = vec![usable(0x1000, 0x2000)];
        let rsv = vec![reserved(0x2000, 0x100)];
        let result = merge_memories(&ram, &rsv, PAGE_SIZE);
        assert!(result.len() >= 2);
        let has_reserved = result.iter().any(|desc| desc.memory_type == MemoryType::Reserved);
        assert!(has_reserved);
    }
}

#[test]
fn merge_memories_widens_unaligned_reservation_to_pages() {
    let ram = vec![usable(0x0, 0x10000)];
    let rsv = vec![reserved(0x2100, 0x1000)];
    let result = merge_memories(&ram, &rsv, 0x1000);
    assert_eq!(result.len(), 3);
    assert_eq!((result[0].physical_start, result[0].size_in_bytes), (0x0, 0x2000));
    assert_eq!((result[1].physical_start, result[1].size_in_bytes), (0x2000, 0x2000));
    assert_eq!(result[1].memory_type, MemoryType::Reserved);
    assert_eq!((result[2].physical_start, result[2].size_in_bytes), (0x4000, 0xc000));
}

#[test]
fn merge_memories_entries_are_ordered_and_unjoinable() {
    let ram = vec![usable(0x10000, 0x100000), usable(0x400000, 0x10000)];
    let rsv = vec![reserved(0x20000, 0x1000), reserved(0x21000, 0x1000), reserved(0x80000, 0x500)];
    let result = merge_memories(&ram, &rsv, 0x1000);
    assert!(result.len() > 0);
    for w in result.windows(2) {
        let end = w[0].physical_start + w[0].size_in_bytes;
        assert!(end <= w[1].physical_start);
        assert!(end != w[1].physical_start || w[0].memory_type != w[1].memory_type);
    }
    // the two abutting reservations are one entry
    assert!(result.iter().any(|d| d.physical_start == 0x20000 && d.size_in_bytes == 0x2000 && d.memory_type == MemoryType::Reserved));
    // the gap between the two RAM regions is in no entry
    assert!(!result.iter().any(|d| d.physical_start <= 0x200000 && 0x200000 < d.physical_start + d.size_in_bytes));
    let last = result[result.len() - 1];
    assert_eq!((last.physical_start, last.size_in_bytes, last.memory_type), (0x400000, 0x10000, MemoryType::Usable));
}

#[test]
fn merge_memories_keeps_ram_regions_apart() {
    let ram = vec![usable(0x1000, 0x1000), usable(0x5000, 0x1000)];
    let rsv = vec![reserved(0x3000, 0x1000)];
    let result = merge_memories(&ram, &rsv, 0x1000);
    let got: Vec<(usize, usize, MemoryType)> = result.iter().map(|d| (d.physical_start, d.size_in_bytes, d.memory_type)).collect();
    assert_eq!(got, vec![(0x1000, 0x1000, MemoryType::Usable), (0x3000, 0x1000, MemoryType::Reserved), (0x5000, 0x1000, MemoryType::Usable)]);
    let no_rsv: Vec<MemoryDescriptor> = vec![];
    let plain = merge_memories(&ram, &no_rsv, 0x1000);
    assert_eq!(plain.len(), 2);
    assert_eq!((plain[0].physical_start, plain[0].size_in_bytes), (0x1000, 0x1000));
    assert_eq!((plain[1].physical_start, plain[1].size_in_bytes), (0x5000, 0x1000));
}

#[test]
fn determine_segment_type_detects_overlap() {
    let rsv = vec![reserved(0x2000, 0x1000)];
    assert_eq!(determine_segment_type(0x1000, 0x2000, &rsv), MemoryType::Usable);
    assert_eq!(determine_segment_type(0x1800, 0x2800, &rsv), MemoryType::Reserved);
    assert_eq!(determine_segment_type(0x3000, 0x4000, &rsv), MemoryType::Usable);
}

#[test]
fn sort_by_start_orders_descriptors() {
    let mut v = vec![usable(0x5000, 1), reserved(0x1000, 2), usable(0x3000, 3)];
    sort_by_start(&mut v);
    let starts: Vec<usize> = v.iter().map(|d| d.physical_start).collect();
    assert_eq!(starts, vec![0x1000, 0x3000, 0x5000]);
    assert_eq!(v[0].size_in_bytes, 2);
}

#[test]
fn merge_reserved_descriptors_coalesces_overlaps() {
    let mut v: heapless::Vec<MemoryDescriptor, 128> = heapless::Vec::new();
    for d in [reserved(0x5000, 0x1000), reserved(0x1000, 0x2000), reserved(0x2000, 0x2000), reserved(0x9000, 0x1000)] {
        v.push(d).unwrap();
    }
    merge_reserved_descriptors(&mut v);
    assert_eq!(v.len(), 3);
    assert_eq!((v[0].physical_start, v[0].size_in_bytes), (0x1000, 0x3000));
    assert_eq!((v[1].physical_start, v[1].size_in_bytes), (0x5000, 0x1000));
    assert_eq!((v[2].physical_start, v[2].size_in_bytes), (0x9000, 0x1000));
}

#[test]
fn new_aligned_widens_to_alignment() {
    let d = MemoryDescriptor::new_aligned(0x1234, 0x100, MemoryType::Reserved, 0x1000);
    assert_eq!(d.physical_start, 0x1000);
    assert_eq!(d.size_in_bytes, 0x1000);
    assert_eq!(d.memory_type, MemoryType::Reserved);
}

#[test]
fn memory_map_from_fdt_collects_ram_and_reservations() {
    let ram = vec![FdtRange { address: 0x4000_0000, size: 0x1000_0000 }, FdtRange { address: 0x9000_0000, size: 0 }];
    let reservations = vec![FdtRange { address: 0x4800_0000, size: 0x800 }];
    let regs = vec![
        FdtReg { address: 0x4000_0000, size: Some(0x2000) },
        FdtReg { address: 0x4000_1000, size: Some(0x2000) },
        FdtReg { address: 0x5000_0000, size: None },
    ];
    let plan = memory_map_from_fdt(&ram, &reservations, &regs, 0x1000);
    assert_eq!(plan.ram.len(), 1);
    assert_eq!(plan.ram[0].physical_start, 0x4000_0000);
    assert_eq!(plan.ram[0].size_in_bytes, 0x1000_0000);
    assert_eq!(plan.ram[0].memory_type, MemoryType::Usable);
    let rsv = plan.reserved.expect("reserved regions fit");
    assert_eq!(rsv.len(), 2);
    assert_eq!((rsv[0].physical_start, rsv[0].size_in_bytes), (0x4000_0000, 0x3000));
    assert_eq!((rsv[1].physical_start, rsv[1].size_in_bytes), (0x4800_0000, 0x1000));
    assert!(rsv.iter().all(|d| d.memory_type == MemoryType::Reserved));
}

#[test]
fn memory_map_from_fdt_too_many_reservations() {
    let reservations: Vec<FdtRange> = (0..(RESERVED_CAPACITY as u64 + 1)).map(|i| FdtRange { address: i * 0x1000, size: 0x1000 }).collect();
    let plan = memory_map_from_fdt(&[], &reservations, &[], 0x1000);
    assert!(plan.reserved.is_none());
    assert!(plan.ram.is_empty());
}

#[test]
fn setup_memory_map_lists_ram_then_reservations() {
    let ram = vec![FdtRange { address: 0x8000_0000, size: 0x100_0000 }];
    let reservations = vec![FdtRange { address: 0x8010_0010, size: 0x10 }];
    let r = setup_memory_map(&ram, &reservations, 0x1000);
    assert_eq!(r.len(), 2);
    assert_eq!((r[0].physical_start, r[0].size_in_bytes, r[0].memory_type), (0x8000_0000, 0x100_0000, MemoryType::Usable));
    assert_eq!((r[1].physical_start, r[1].size_in_bytes, r[1].memory_type), (0x8010_0000, 0x1000, MemoryType::Reserved));
}

#[test]
fn memty_str_names_types() {
    assert_eq!(memty_str(EFI_CONVENTIONAL), "CONVENTIONAL");
    assert_eq!(memty_str(EFI_MMIO), "MMIO");
    assert_eq!(memty_str(0), "RESERVED");
    assert_eq!(memty_str(14), "UNKNOWN");
    assert_eq!(memty_str(0x7000_0000), "UNKNOWN");
}

#[test]
fn efi_memory_map_classifies_firmware_regions() {
    let descs = vec![
        EfiMemoryDescriptor { ty: EFI_CONVENTIONAL, phys_start: 0x10_0000, page_count: 0x100 },
        EfiMemoryDescriptor { ty: EFI_BOOT_SERVICES_DATA, phys_start: 0x20_0000, page_count: 0x10 },
        EfiMemoryDescriptor { ty: EFI_ACPI_RECLAIM, phys_start: 0x30_0000, page_count: 0x1 },
    ];
    let kernel = reserved(0x10_0000, 0x2_0000);
    let r = efi_memory_map(&descs, 0x1000, kernel);
    // the gap between the boot services data and the ACPI table is in no entry
    assert_eq!(r.len(), 3);
    assert_eq!((r[0].physical_start, r[0].size_in_bytes, r[0].memory_type), (0x10_0000, 0x2_0000, MemoryType::Reserved));
    assert_eq!((r[1].physical_start, r[1].size_in_bytes, r[1].memory_type), (0x12_0000, 0xf_0000, MemoryType::Usable));
    assert_eq!((r[2].physical_start, r[2].size_in_bytes, r[2].memory_type), (0x30_0000, 0x1000, MemoryType::Reserved));
}

#[test]
fn efi_memory_map_is_merge_of_usable_and_other_descriptors() {
    let descs = vec![
        EfiMemoryDescriptor { ty: EFI_MMIO, phys_start: 0x800_0000, page_count: 0x2 },
        EfiMemoryDescriptor { ty: EFI_CONVENTIONAL, phys_start: 0x10_0000, page_count: 0x100 },
        EfiMemoryDescriptor { ty: EFI_BOOT_SERVICES_DATA, phys_start: 0x20_0000, page_count: 0x10 },
    ];
    let kernel = reserved(0x18_0000, 0x1_0000);
    let r = efi_memory_map(&descs, 0x1000, kernel);
    let ram = vec![usable(0x10_0000, 0x10_0000), usable(0x20_0000, 0x1_0000)];
    let rsv = vec![reserved(0x800_0000, 0x2000), kernel];
    let merged = merge_memories(&ram, &rsv, 0x1000);
    let fields = |d: &MemoryDescriptor| (d.physical_start, d.size_in_bytes, d.memory_type);
    let got: Vec<_> = r.iter().map(fields).collect();
    let want: Vec<_> = merged.iter().map(fields).collect();
    assert_eq!(got, want);
    assert_eq!(got.len(), 4);
}

#[test]
fn memory_map_records_descriptors_in_order() {
    let mut m = MemoryMap::new();
    m.add_memory_descriptor(usable(0x1000, 0x1000));
    m.add_memory_descriptor(reserved(0x2000, 0x1000));
    let all = m.get_memory_map();
    assert_eq!(all.len(), 2);
    assert_eq!(all[0].physical_start, 0x1000);
    assert_eq!(all[1].memory_type, MemoryType::Reserved);
}

#[test]
fn memory_map_drops_descriptors_past_capacity() {
    let mut m = MemoryMap::new();
    for i in 0..70usize {
        m.add_memory_descriptor(usable(i * 0x1000, 0x1000));
    }
    let all = m.get_memory_map();
    assert_eq!(all.len(), 64);
    assert_eq!(all[63].physical_start, 63 * 0x1000);
    for (k, d) in all.iter().enumerate() {
        assert_eq!(d.physical_start, k * 0x1000);
    }
    let again = m.get_memory_map();
    assert_eq!(again.len(), all.len());
}

#[test]
fn ioremap_widens_to_pages() {
    assert_eq!(ioremap(0x1234, 0x10, 0x1000), (0x1000, 0x1000));
    assert_eq!(ioremap(0x1ff0, 0x20, 0x1000), (0x1000, 0x2000));
}
