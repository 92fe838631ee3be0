use sparreal::acpi::cpu::{
    aarch64_cpu_id_list, aarch64_cpu_info, cpu_id_list as arch_cpu_id_list, cpu_info, enabled_cpu_ids,
    loongarch64_cpu_id_list, loongarch64_cpu_info, read_u32_le, read_u64_le, riscv64_cpu_id_list, riscv64_cpu_info,
    x86_64_cpu_id_list, x86_64_cpu_info, CorePicEntry, CpuArch, CpuInfo, RintcEntry, MADT_HEADER_SIZE,
    MADT_TYPE_CORE_PIC, MADT_TYPE_RINTC,
};
use sparreal::acpi::{cpu_id_list, MadtEntry};
use sparreal::efi_mp::{enabled_processor_ids, CpuIdTable, EfiCpuPhysicalLocation, EfiProcessorInformation};

fn rintc(flags: u32, hart_id: u64, uid: u32) -> Vec<u8> {
    let mut v = vec![MADT_TYPE_RINTC, 36, 1, 0];
    v.extend_from_slice(&flags.to_le_bytes());
    v.extend_from_slice(&hart_id.to_le_bytes());
    v.extend_from_slice(&uid.to_le_bytes());
    v.extend_from_slice(&0u32.to_le_bytes());
    v.extend_from_slice(&0u64.to_le_bytes());
    v.extend_from_slice(&0u32.to_le_bytes());
    assert_eq!(v.len(), 36);
    v
}

fn core_pic(processor_id: u32, core_id: u32, flags: u32) -> Vec<u8> {
    let mut v = vec![MADT_TYPE_CORE_PIC, 15, 1];
    v.extend_from_slice(&processor_id.to_le_bytes());
    v.extend_from_slice(&core_id.to_le_bytes());
    v.extend_from_slice(&flags.to_le_bytes());
    v
}

fn madt(entries: &[Vec<u8>]) -> Vec<u8> {
    let mut v = vec![0u8; MADT_HEADER_SIZE];
    for e in entries {
        v.extend_from_slice(e);
    }
    v
}

#[test]
fn little_endian_reads() {
    let b = [0x78u8, 0x56, 0x34, 0x12, 0xf0, 0xde, 0xbc, 0x9a];
    assert_eq!(read_u32_le(&b, 0), 0x1234_5678);
    assert_eq!(read_u64_le(&b, 0), 0x9abc_def0_1234_5678);
}

#[test]
fn rintc_entry_decodes_fields() {
    let t = madt(&[rintc(1, 7, 3)]);
    let e = RintcEntry::read(&t, MADT_HEADER_SIZE);
    assert_eq!(e.entry_type, MADT_TYPE_RINTC);
    assert_eq!(e.length, 36);
    assert_eq!(e.hart_id, 7);
    assert_eq!(e.uid, 3);
    assert!(e.is_enabled());
}

#[test]
fn core_pic_entry_decodes_fields() {
    let t = madt(&[core_pic(2, 9, 0)]);
    let e = CorePicEntry::read(&t, MADT_HEADER_SIZE);
    assert_eq!(e.processor_id, 2);
    assert_eq!(e.core_id, 9);
    assert!(!e.is_enabled());
}

#[test]
fn riscv64_walks_rintc_entries() {
    let other = vec![0x01u8, 4, 0, 0];
    let t = madt(&[rintc(1, 0, 10), other, rintc(0, 1, 11), rintc(1, 2, 12)]);
    let infos = riscv64_cpu_info(&t).expect("three harts");
    assert_eq!(infos.len(), 3);
    assert_eq!((infos[0].physical_id, infos[0].processor_id, infos[0].enabled), (0, 10, true));
    assert_eq!((infos[1].physical_id, infos[1].processor_id, infos[1].enabled), (1, 11, false));
    assert_eq!((infos[2].physical_id, infos[2].processor_id, infos[2].enabled), (2, 12, true));
    assert_eq!(riscv64_cpu_id_list(&t).map(|v| v.to_vec()), Some(vec![0, 2]));
}

#[test]
fn riscv64_walk_stops_at_bad_length() {
    let broken = vec![MADT_TYPE_RINTC, 1, 0, 0];
    let t = madt(&[rintc(1, 5, 1), broken, rintc(1, 6, 2)]);
    let infos = riscv64_cpu_info(&t).expect("one hart before the broken entry");
    assert_eq!(infos.len(), 1);
    assert_eq!(infos[0].physical_id, 5);
}

#[test]
fn riscv64_without_harts_is_none() {
    let t = madt(&[vec![0x01u8, 8, 0, 0, 0, 0, 0, 0]]);
    assert!(riscv64_cpu_info(&t).is_none());
    assert!(riscv64_cpu_id_list(&t).is_none());
    assert!(riscv64_cpu_info(&[0u8; 10]).is_none());
}

#[test]
fn riscv64_all_disabled_gives_no_ids() {
    let t = madt(&[rintc(0, 3, 0)]);
    assert!(riscv64_cpu_info(&t).is_some());
    assert!(riscv64_cpu_id_list(&t).is_none());
}

#[test]
fn loongarch64_walks_core_pic_entries() {
    let t = madt(&[core_pic(0, 0, 1), core_pic(1, 4, 1), core_pic(2, 8, 0)]);
    let infos = loongarch64_cpu_info(&t).expect("three cores");
    assert_eq!(infos.len(), 3);
    assert_eq!((infos[1].physical_id, infos[1].processor_id, infos[1].enabled), (4, 1, true));
    assert_eq!(loongarch64_cpu_id_list(&t).map(|v| v.to_vec()), Some(vec![0, 4]));
}

#[test]
fn x86_64_lists_apic_entries() {
    let entries = vec![
        MadtEntry::LocalApic { processor_id: 0, apic_id: 0, flags: 1 },
        MadtEntry::Other,
        MadtEntry::LocalApic { processor_id: 1, apic_id: 2, flags: 0 },
        MadtEntry::LocalX2Apic { processor_id: 2, x2apic_id: 300, flags: 1 },
        MadtEntry::Gicc { cpu_interface_number: 5, mpidr: 0x100, flags: 1 },
    ];
    let infos = x86_64_cpu_info(&entries).expect("apic entries");
    assert_eq!(infos.len(), 3);
    assert_eq!((infos[2].physical_id, infos[2].processor_id, infos[2].enabled), (300, 2, true));
    assert_eq!(x86_64_cpu_id_list(&entries).map(|v| v.to_vec()), Some(vec![0, 300]));
    assert_eq!(cpu_id_list(&entries).map(|v| v.to_vec()), Some(vec![0, 300, 0x100]));
}

#[test]
fn aarch64_lists_gicc_entries() {
    let entries = vec![
        MadtEntry::Gicc { cpu_interface_number: 0, mpidr: 0x0, flags: 1 },
        MadtEntry::Gicc { cpu_interface_number: 1, mpidr: 0x1, flags: 1 },
        MadtEntry::LocalApic { processor_id: 0, apic_id: 7, flags: 1 },
    ];
    let infos = aarch64_cpu_info(&entries).expect("gicc entries");
    assert_eq!(infos.len(), 2);
    assert_eq!(aarch64_cpu_id_list(&entries).map(|v| v.to_vec()), Some(vec![0, 1]));
    assert!(aarch64_cpu_info(&[MadtEntry::Other]).is_none());
}

#[test]
fn arch_dispatch() {
    let entries = vec![MadtEntry::Gicc { cpu_interface_number: 0, mpidr: 0x3, flags: 1 }];
    let t = madt(&[rintc(1, 9, 0)]);
    assert_eq!(arch_cpu_id_list(CpuArch::Aarch64, &entries, &t).map(|v| v.to_vec()), Some(vec![3]));
    assert_eq!(arch_cpu_id_list(CpuArch::Riscv64, &entries, &t).map(|v| v.to_vec()), Some(vec![9]));
    assert!(arch_cpu_id_list(CpuArch::X86_64, &entries, &t).is_none());
    assert!(cpu_info(CpuArch::Loongarch64, &entries, &t).is_none());
}

#[test]
fn enabled_ids_are_capped() {
    let infos: Vec<CpuInfo> = (0..300u32).map(|i| CpuInfo { physical_id: i, processor_id: i, enabled: true }).collect();
    let ids = enabled_cpu_ids(&infos).expect("enabled cpus");
    assert_eq!(ids.len(), 256);
    assert_eq!(ids[255], 255);
    let none: Vec<CpuInfo> = vec![CpuInfo { physical_id: 1, processor_id: 1, enabled: false }];
    assert!(enabled_cpu_ids(&none).is_none());
}

fn proc_info(id: u64, flag: u32) -> Option<EfiProcessorInformation> {
    Some(EfiProcessorInformation { processor_id: id, status_flag: flag, location: EfiCpuPhysicalLocation::default() })
}

#[test]
fn efi_enabled_processors() {
    let infos = vec![proc_info(0, 0x7), None, proc_info(1, 0x6), proc_info(0x101, 0x1)];
    assert_eq!(enabled_processor_ids(&infos).to_vec(), vec![0, 0x101]);
    let many: Vec<Option<EfiProcessorInformation>> = (0..300u64).map(|i| proc_info(i, 1)).collect();
    assert_eq!(enabled_processor_ids(&many).len(), 256);
}

#[test]
fn cpu_id_table_store_and_list() {
    let mut t = CpuIdTable::new();
    assert!(t.cpu_id_list().is_none());
    t.store(&[3, 1, 2]);
    assert_eq!(t.cpu_id_list(), Some(&[3usize, 1, 2][..]));
    t.store(&[]);
    assert!(t.cpu_id_list().is_none());
}
