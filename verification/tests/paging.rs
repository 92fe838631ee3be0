use sparreal::paging::{AccessFlags, MemAttributes, MemConfig, PhysAddr};
use sparreal::pte_aarch64::{self, Generic, PteFlags, PTE_AF, PTE_NON_BLOCK, PTE_UXN, PTE_VALID, PTE_PXN, PTE_AP_RO, PTE_AP_EL0};
use sparreal::pte_loongarch64;
use sparreal::bits::{get_field, set_field};

fn config(write: bool, execute: bool, lower: bool, attrs: MemAttributes) -> MemConfig {
    MemConfig { access: AccessFlags { read: true, write, execute, lower }, attrs }
}

#[test]
fn aarch64_new_valid_bits() {
    let e = pte_aarch64::Entry::new_valid();
    assert_eq!(e.0, PTE_AF | PTE_VALID | PTE_NON_BLOCK | PTE_UXN);
    assert!(e.valid());
    assert!(!e.is_huge());
    assert_eq!(e.as_flags().bits(), e.0);
}

#[test]
fn aarch64_paddr_round_trip() {
    let mut e = pte_aarch64::Entry::new_valid();
    e.set_paddr(PhysAddr(0x8_1234_5000));
    assert_eq!(e.paddr(), PhysAddr(0x8_1234_5000));
    // the flags are kept
    assert!(e.valid());
    // the page offset is dropped
    e.set_paddr(PhysAddr(0x4000_0fff));
    assert_eq!(e.paddr().raw(), 0x4000_0000);
}

#[test]
fn aarch64_valid_and_huge_toggles() {
    let mut e = pte_aarch64::Entry::empty();
    assert!(!e.valid());
    e.set_valid(true);
    assert!(e.valid());
    e.set_is_huge(true);
    assert!(e.is_huge());
    e.set_is_huge(false);
    assert!(!e.is_huge());
    e.set_valid(false);
    assert!(!e.valid());
    assert_eq!(e.0, PTE_NON_BLOCK);
}

#[test]
fn aarch64_mem_config_round_trip() {
    let cases = [
        config(true, true, false, MemAttributes::Normal),
        config(false, false, false, MemAttributes::Device),
        config(true, false, true, MemAttributes::Uncached),
        config(false, true, true, MemAttributes::Normal),
    ];
    for c in cases {
        let mut e = pte_aarch64::Entry::new_valid();
        e.set_paddr(PhysAddr(0x1234_5000));
        e.set_mem_config(c);
        assert_eq!(e.mem_config(), c);
        assert_eq!(e.paddr().raw(), 0x1234_5000);
    }
}

#[test]
fn aarch64_mem_config_bits() {
    let mut e = pte_aarch64::Entry::empty();
    e.set_mem_config(config(false, false, false, MemAttributes::Device));
    assert_eq!(e.0, PTE_AP_RO | PTE_UXN | PTE_PXN | (1 << 2));
    e.set_mem_config(config(true, true, true, MemAttributes::Normal));
    assert_eq!(e.0, PTE_AP_EL0);
}

#[test]
fn aarch64_per_cpu_reads_back_as_normal() {
    let mut e = pte_aarch64::Entry::empty();
    e.set_mem_config(config(true, false, false, MemAttributes::PerCpu));
    assert_eq!(e.mem_config().attrs, MemAttributes::Normal);
}

#[test]
fn aarch64_update_flags_keeps_address() {
    let mut e = pte_aarch64::Entry::new_valid();
    e.set_paddr(PhysAddr(0x5000));
    e.set_mair_idx(2);
    e.update_flags(|f: PteFlags| f.union(PteFlags::from_bits_truncate(PTE_PXN)));
    assert_eq!(e.paddr().raw(), 0x5000);
    assert!(e.as_flags().contains(PteFlags::from_bits_truncate(PTE_PXN)));
    assert_eq!(e.mem_config().attrs, MemAttributes::Uncached);
    e.update_flags(|_f: PteFlags| PteFlags::empty());
    assert!(!e.valid());
    assert_eq!(e.paddr().raw(), 0x5000);
}

#[test]
fn aarch64_geometry() {
    assert_eq!(Generic::PAGE_SIZE, 0x1000);
    assert_eq!(Generic::MAX_BLOCK_LEVEL, 3);
    assert_eq!(Generic::level_bits(), [9, 9, 9, 9]);
}

#[test]
fn loongarch_new_valid_sets_valid_and_present() {
    let e = pte_loongarch64::Entry::new_valid();
    assert_eq!(e.0, 0x81);
    assert!(e.valid());
}

#[test]
fn loongarch_paddr_round_trip() {
    let mut e = pte_loongarch64::Entry::new_valid();
    e.set_paddr(PhysAddr(0x1_2345_6000));
    assert_eq!(e.paddr().raw(), 0x1_2345_6000);
    assert!(e.valid());
}

#[test]
fn loongarch_flag_round_trips() {
    let mut e = pte_loongarch64::Entry::empty();
    e.set_writable(true);
    assert!(e.is_writable());
    e.set_executable(false);
    assert!(!e.is_executable());
    e.set_executable(true);
    assert!(e.is_executable());
    e.set_global(true);
    assert!(e.is_global());
    e.set_dirty(true);
    assert!(e.is_dirty());
    e.set_is_huge(true);
    assert!(e.is_huge());
    e.set_lower_access(true);
    assert!(e.is_lower_access());
    e.set_lower_access(false);
    assert!(!e.is_lower_access());
    e.set_writable(false);
    assert!(!e.is_writable());
    assert!(e.is_global());
}

#[test]
fn loongarch_mem_attr_round_trip() {
    let mut e = pte_loongarch64::Entry::new_valid();
    e.set_mem_attr(MemAttributes::Device);
    assert_eq!(e.mem_attr(), MemAttributes::Device);
    e.set_mem_attr(MemAttributes::Uncached);
    assert_eq!(e.mem_attr(), MemAttributes::Uncached);
    e.set_mem_attr(MemAttributes::Normal);
    assert_eq!(e.mem_attr(), MemAttributes::Normal);
    e.set_mem_attr(MemAttributes::PerCpu);
    assert_eq!(e.mem_attr(), MemAttributes::Normal);
    assert!(e.valid());
}

#[test]
fn bit_fields_round_trip() {
    let x = set_field(0xffff_0000_0000_ffff, 8, 0xff, 0xab);
    assert_eq!(get_field(x, 8, 0xff), 0xab);
    assert_eq!(x, 0xffff_0000_0000_abff);
    assert_eq!(get_field(x, 0, 0xff), 0xff);
}
