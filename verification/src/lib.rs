//! Verified core logic of the Sparreal kernel and its hardware abstraction
//! layer: memory-map construction, firmware table decoding, page-table entry
//! encoding, boot-time bookkeeping and driver-facing helpers.

pub mod bounded;
pub mod memory;
pub mod fdt_memory;
pub mod acpi;
pub mod bits;
pub mod paging;
pub mod pte_aarch64;
pub mod pte_loongarch64;
pub mod dma;
pub mod net;
pub mod align;
pub mod ram;
pub mod mem;
pub mod efi_memory;
pub mod efi_mp;
pub mod region;
pub mod boot;
pub mod elf;
pub mod trap;
pub mod smp;
pub mod compat;
pub mod kernel_table;
pub mod hal;
pub mod nvme;
pub mod power;
pub mod ranges;
pub mod sbi;
