//! CPU enumeration from the MADT for each supported architecture: x86_64 and
//! AArch64 read the entries that the table parser hands out, RISC-V 64 and
//! LoongArch64 walk the raw entry stream for RINTC and Core PIC entries.

use vstd::prelude::*;

use super::{entry_cpu_ids, flag_enabled, non_empty, MadtEntry, MAX_CPUS};
use crate::bounded::{
    capped, cpu_ids, cpu_infos, id_array_as_slice, id_array_new, id_array_push, info_array_as_slice, info_array_new,
    info_array_push, lemma_capped_push,
};

verus! {

/// MADT header size: the SDT header (36) and the local APIC address and flags (4 + 4).
pub const MADT_HEADER_SIZE: usize = 44;

/// MADT flag: the CPU is enabled.
pub const ACPI_MADT_ENABLED: u32 = 1;

/// MADT entry type of a RISC-V RINTC entry.
pub const MADT_TYPE_RINTC: u8 = 0x18;

/// MADT entry type of a LoongArch64 Core PIC entry.
pub const MADT_TYPE_CORE_PIC: u8 = 0x11;

/// Bytes of a RINTC entry.
pub const RINTC_ENTRY_SIZE: usize = 36;

/// Bytes of a Core PIC entry.
pub const CORE_PIC_ENTRY_SIZE: usize = 15;

/// What the MADT says of one CPU.
#[derive(Debug, Clone, Copy)]
pub struct CpuInfo {
    /// Architecture CPU identifier: APIC/x2APIC ID, MPIDR, hart ID or core ID.
    pub physical_id: u32,
    /// ACPI processor identifier.
    pub processor_id: u32,
    /// The CPU may be started.
    pub enabled: bool,
}

/// RISC-V MADT RINTC entry.
#[derive(Debug, Clone, Copy)]
pub struct RintcEntry {
    pub entry_type: u8,
    pub length: u8,
    pub version: u8,
    pub reserved: u8,
    pub flags: u32,
    pub hart_id: u64,
    pub uid: u32,
    pub ext_intc_id: u32,
    pub imsic_addr: u64,
    pub imsic_size: u32,
}

/// LoongArch64 MADT Core PIC entry.
#[derive(Debug, Clone, Copy)]
pub struct CorePicEntry {
    pub entry_type: u8,
    pub length: u8,
    pub version: u8,
    pub processor_id: u32,
    pub core_id: u32,
    pub flags: u32,
}

impl RintcEntry {
    /// The CPU is enabled (flag bit 0).
    pub fn is_enabled(&self) -> (r: bool)
        ensures
            r == flag_enabled(self.flags),
    {
        (self.flags & ACPI_MADT_ENABLED) != 0
    }
}

impl CorePicEntry {
    /// The CPU is enabled (flag bit 0).
    pub fn is_enabled(&self) -> (r: bool)
        ensures
            r == flag_enabled(self.flags),
    {
        (self.flags & ACPI_MADT_ENABLED) != 0
    }
}

/// The little-endian value of the 4 bytes at `o`.
pub open spec fn le_u32(b: Seq<u8>, o: int) -> u32 {
    (b[o] + b[o + 1] * 0x100 + b[o + 2] * 0x1_0000 + b[o + 3] * 0x100_0000) as u32
}

/// The little-endian value of the 8 bytes at `o`.
pub open spec fn le_u64(b: Seq<u8>, o: int) -> u64 {
    (le_u32(b, o) + le_u32(b, o + 4) * 0x1_0000_0000) as u64
}

/// Reads the little-endian `u32` at `o`.
pub fn read_u32_le(b: &[u8], o: usize) -> (r: u32)
    requires
        o + 4 <= b@.len(),
    ensures
        r == le_u32(b@, o as int),
{
    b[o] as u32 + b[o + 1] as u32 * 0x100 + b[o + 2] as u32 * 0x1_0000 + b[o + 3] as u32 * 0x100_0000
}

/// Reads the little-endian `u64` at `o`.
pub fn read_u64_le(b: &[u8], o: usize) -> (r: u64)
    requires
        o + 8 <= b@.len(),
    ensures
        r == le_u64(b@, o as int),
{
    let n = b.len();
    assert(n == b@.len());
    let lo = read_u32_le(b, o);
    let hi = read_u32_le(b, o + 4);
    lo as u64 + hi as u64 * 0x1_0000_0000
}

/// The RINTC entry at `o`.
pub open spec fn rintc_at(b: Seq<u8>, o: int) -> RintcEntry {
    RintcEntry {
        entry_type: b[o],
        length: b[o + 1],
        version: b[o + 2],
        reserved: b[o + 3],
        flags: le_u32(b, o + 4),
        hart_id: le_u64(b, o + 8),
        uid: le_u32(b, o + 16),
        ext_intc_id: le_u32(b, o + 20),
        imsic_addr: le_u64(b, o + 24),
        imsic_size: le_u32(b, o + 32),
    }
}

/// The Core PIC entry at `o`.
pub open spec fn core_pic_at(b: Seq<u8>, o: int) -> CorePicEntry {
    CorePicEntry {
        entry_type: b[o],
        length: b[o + 1],
        version: b[o + 2],
        processor_id: le_u32(b, o + 3),
        core_id: le_u32(b, o + 7),
        flags: le_u32(b, o + 11),
    }
}

impl RintcEntry {
    /// Decodes the RINTC entry at `offset` of a MADT.
    pub fn read(madt: &[u8], offset: usize) -> (e: RintcEntry)
        requires
            offset + RINTC_ENTRY_SIZE <= madt@.len(),
        ensures
            e == rintc_at(madt@, offset as int),
    {
        RintcEntry {
            entry_type: madt[offset],
            length: madt[offset + 1],
            version: madt[offset + 2],
            reserved: madt[offset + 3],
            flags: read_u32_le(madt, offset + 4),
            hart_id: read_u64_le(madt, offset + 8),
            uid: read_u32_le(madt, offset + 16),
            ext_intc_id: read_u32_le(madt, offset + 20),
            imsic_addr: read_u64_le(madt, offset + 24),
            imsic_size: read_u32_le(madt, offset + 32),
        }
    }
}

impl CorePicEntry {
    /// Decodes the Core PIC entry at `offset` of a MADT.
    pub fn read(madt: &[u8], offset: usize) -> (e: CorePicEntry)
        requires
            offset + CORE_PIC_ENTRY_SIZE <= madt@.len(),
        ensures
            e == core_pic_at(madt@, offset as int),
    {
        CorePicEntry {
            entry_type: madt[offset],
            length: madt[offset + 1],
            version: madt[offset + 2],
            processor_id: read_u32_le(madt, offset + 3),
            core_id: read_u32_le(madt, offset + 7),
            flags: read_u32_le(madt, offset + 11),
        }
    }
}

/// The offsets, from `offset` on, of the entries of the MADT entry stream `b`
/// that have type `ty` and at least `min_len` bytes. The walk stops at an
/// entry shorter than 2 bytes or running past the end of the table.
pub open spec fn matching_entries(b: Seq<u8>, offset: int, ty: u8, min_len: int) -> Seq<int>
    decreases b.len() - offset,
{
    if offset < 0 || offset + 2 > b.len() {
        Seq::empty()
    } else {
        let len = b[offset + 1] as int;
        if len < 2 || offset + len > b.len() {
            Seq::empty()
        } else {
            let rest = matching_entries(b, offset + len, ty, min_len);
            if b[offset] == ty && len >= min_len {
                seq![offset] + rest
            } else {
                rest
            }
        }
    }
}

proof fn lemma_matching_entries_in_bounds(b: Seq<u8>, offset: int, ty: u8, min_len: int)
    requires
        min_len >= 2,
    ensures
        forall|k: int|
            0 <= k < matching_entries(b, offset, ty, min_len).len() ==> offset <= #[trigger] matching_entries(
                b,
                offset,
                ty,
                min_len,
            )[k] && matching_entries(b, offset, ty, min_len)[k] + min_len <= b.len(),
    decreases b.len() - offset,
{
    if !(offset < 0 || offset + 2 > b.len()) {
        let len = b[offset + 1] as int;
        if !(len < 2 || offset + len > b.len()) {
            lemma_matching_entries_in_bounds(b, offset + len, ty, min_len);
            let rest = matching_entries(b, offset + len, ty, min_len);
            let all = matching_entries(b, offset, ty, min_len);
            if b[offset] == ty && len >= min_len {
                assert(all == seq![offset] + rest);
                assert forall|k: int| 0 <= k < all.len() implies offset <= #[trigger] all[k] && all[k] + min_len <= b.len() by {
                    if k > 0 {
                        assert(all[k] == rest[k - 1]);
                    }
                }
            }
        }
    }
}

/// Walks the MADT entries after the header and lists the offsets of those of
/// type `ty` with at least `min_len` bytes, at most `MAX_CPUS` of them.
fn scan_entries(madt: &[u8], ty: u8, min_len: usize) -> (res: Vec<usize>)
    requires
        min_len >= 2,
    ensures
        res@.map_values(|o: usize| o as int) == capped(
            matching_entries(madt@, MADT_HEADER_SIZE as int, ty, min_len as int),
            MAX_CPUS as nat,
        ),
{
    let ghost full = matching_entries(madt@, MADT_HEADER_SIZE as int, ty, min_len as int);
    let mut found: Vec<usize> = Vec::new();
    let mut offset = MADT_HEADER_SIZE;
    let madt_len = madt.len();
    while madt_len >= 2 && offset <= madt_len - 2
        invariant
            madt_len == madt@.len(),
            min_len >= 2,
            found@.len() <= MAX_CPUS,
            capped(found@.map_values(|o: usize| o as int) + matching_entries(madt@, offset as int, ty, min_len as int), MAX_CPUS as nat)
                == capped(full, MAX_CPUS as nat),
            full == matching_entries(madt@, MADT_HEADER_SIZE as int, ty, min_len as int),
        ensures
            found@.len() <= MAX_CPUS,
            capped(found@.map_values(|o: usize| o as int) + matching_entries(madt@, offset as int, ty, min_len as int), MAX_CPUS as nat)
                == capped(full, MAX_CPUS as nat),
            matching_entries(madt@, offset as int, ty, min_len as int).len() == 0,
        decreases madt_len - offset,
    {
        let entry_type = madt[offset];
        let entry_len = madt[offset + 1] as usize;
        if entry_len < 2 || entry_len > madt_len - offset {
            break;
        }
        let ghost rest = matching_entries(madt@, offset as int + entry_len as int, ty, min_len as int);
        let ghost before = found@.map_values(|o: usize| o as int);
        if entry_type == ty && entry_len >= min_len {
            assert(matching_entries(madt@, offset as int, ty, min_len as int) == seq![offset as int] + rest);
            if found.len() < MAX_CPUS {
                found.push(offset);
                assert(found@.map_values(|o: usize| o as int) =~= before.push(offset as int));
                assert(before.push(offset as int) + rest =~= before + (seq![offset as int] + rest));
            } else {
                assert(capped(before + rest, MAX_CPUS as nat) =~= capped(before + (seq![offset as int] + rest), MAX_CPUS as nat));
            }
        }
        offset = offset + entry_len;
    }
    proof {
        let m = found@.map_values(|o: usize| o as int);
        assert(m + matching_entries(madt@, offset as int, ty, min_len as int) =~= m);
    }
    found
}

/// The CPU description of a RINTC entry.
pub open spec fn rintc_info(e: RintcEntry) -> CpuInfo {
    CpuInfo { physical_id: e.hart_id as u32, processor_id: e.uid, enabled: flag_enabled(e.flags) }
}

/// The CPU description of a Core PIC entry.
pub open spec fn core_pic_info(e: CorePicEntry) -> CpuInfo {
    CpuInfo { physical_id: e.core_id, processor_id: e.processor_id, enabled: flag_enabled(e.flags) }
}

/// The CPUs of the RINTC entries of the MADT `b`, at most `MAX_CPUS`.
pub open spec fn riscv64_cpus(b: Seq<u8>) -> Seq<CpuInfo> {
    capped(matching_entries(b, MADT_HEADER_SIZE as int, MADT_TYPE_RINTC, RINTC_ENTRY_SIZE as int), MAX_CPUS as nat)
        .map_values(|o: int| rintc_info(rintc_at(b, o)))
}

/// The CPUs of the Core PIC entries of the MADT `b`, at most `MAX_CPUS`.
pub open spec fn loongarch64_cpus(b: Seq<u8>) -> Seq<CpuInfo> {
    capped(matching_entries(b, MADT_HEADER_SIZE as int, MADT_TYPE_CORE_PIC, CORE_PIC_ENTRY_SIZE as int), MAX_CPUS as nat)
        .map_values(|o: int| core_pic_info(core_pic_at(b, o)))
}

/// Lists the CPUs of the RINTC entries of a RISC-V MADT (the whole table,
/// header included); `None` when there is none.
pub fn riscv64_cpu_info(madt: &[u8]) -> (res: Option<arrayvec::ArrayVec<CpuInfo, 256>>)
    ensures
        opt_infos(res) == non_empty(riscv64_cpus(madt@)),
{
    let offsets = scan_entries(madt, MADT_TYPE_RINTC, RINTC_ENTRY_SIZE);
    let ghost full = matching_entries(madt@, MADT_HEADER_SIZE as int, MADT_TYPE_RINTC, RINTC_ENTRY_SIZE as int);
    proof {
        lemma_matching_entries_in_bounds(madt@, MADT_HEADER_SIZE as int, MADT_TYPE_RINTC, RINTC_ENTRY_SIZE as int);
    }
    let mut cpu_list = info_array_new();
    for k in 0..offsets.len()
        invariant
            offsets@.map_values(|o: usize| o as int) == capped(full, MAX_CPUS as nat),
            full == matching_entries(madt@, MADT_HEADER_SIZE as int, MADT_TYPE_RINTC, RINTC_ENTRY_SIZE as int),
            forall|m: int| 0 <= m < full.len() ==> #[trigger] full[m] + RINTC_ENTRY_SIZE <= madt@.len(),
            offsets@.len() <= MAX_CPUS,
            cpu_infos(cpu_list) == riscv64_cpus(madt@).take(k as int),
    {
        let offset = offsets[k];
        assert(offsets@.map_values(|o: usize| o as int)[k as int] == offset as int);
        assert(full[k as int] == offset as int);
        let rintc = RintcEntry::read(madt, offset);
        let info = CpuInfo {
            physical_id: rintc.hart_id as u32,
            processor_id: rintc.uid,
            enabled: rintc.is_enabled(),
        };
        let _ = info_array_push(&mut cpu_list, info);
        assert(cpu_infos(cpu_list) =~= riscv64_cpus(madt@).take(k as int + 1));
    }
    assert(riscv64_cpus(madt@).take(offsets@.len() as int) =~= riscv64_cpus(madt@));
    if info_array_as_slice(&cpu_list).len() == 0 {
        None
    } else {
        Some(cpu_list)
    }
}

/// Lists the CPUs of the Core PIC entries of a LoongArch64 MADT (the whole
/// table, header included); `None` when there is none.
pub fn loongarch64_cpu_info(madt: &[u8]) -> (res: Option<arrayvec::ArrayVec<CpuInfo, 256>>)
    ensures
        opt_infos(res) == non_empty(loongarch64_cpus(madt@)),
{
    let offsets = scan_entries(madt, MADT_TYPE_CORE_PIC, CORE_PIC_ENTRY_SIZE);
    let ghost full = matching_entries(madt@, MADT_HEADER_SIZE as int, MADT_TYPE_CORE_PIC, CORE_PIC_ENTRY_SIZE as int);
    proof {
        lemma_matching_entries_in_bounds(madt@, MADT_HEADER_SIZE as int, MADT_TYPE_CORE_PIC, CORE_PIC_ENTRY_SIZE as int);
    }
    let mut cpu_list = info_array_new();
    for k in 0..offsets.len()
        invariant
            offsets@.map_values(|o: usize| o as int) == capped(full, MAX_CPUS as nat),
            full == matching_entries(madt@, MADT_HEADER_SIZE as int, MADT_TYPE_CORE_PIC, CORE_PIC_ENTRY_SIZE as int),
            forall|m: int| 0 <= m < full.len() ==> #[trigger] full[m] + CORE_PIC_ENTRY_SIZE <= madt@.len(),
            offsets@.len() <= MAX_CPUS,
            cpu_infos(cpu_list) == loongarch64_cpus(madt@).take(k as int),
    {
        let offset = offsets[k];
        assert(offsets@.map_values(|o: usize| o as int)[k as int] == offset as int);
        assert(full[k as int] == offset as int);
        let core_pic = CorePicEntry::read(madt, offset);
        let info = CpuInfo {
            physical_id: core_pic.core_id,
            processor_id: core_pic.processor_id,
            enabled: core_pic.is_enabled(),
        };
        let _ = info_array_push(&mut cpu_list, info);
        assert(cpu_infos(cpu_list) =~= loongarch64_cpus(madt@).take(k as int + 1));
    }
    assert(loongarch64_cpus(madt@).take(offsets@.len() as int) =~= loongarch64_cpus(madt@));
    if info_array_as_slice(&cpu_list).len() == 0 {
        None
    } else {
        Some(cpu_list)
    }
}

} // verus!

verus! {

/// The CPU that an x86 local APIC or local x2APIC entry describes.
pub open spec fn x86_64_entry_info(e: MadtEntry) -> Option<CpuInfo> {
    match e {
        MadtEntry::LocalApic { processor_id, apic_id, flags } => Some(
            CpuInfo {
                physical_id: apic_id as u32,
                processor_id: processor_id as u32,
                enabled: flag_enabled(flags),
            },
        ),
        MadtEntry::LocalX2Apic { processor_id, x2apic_id, flags } => Some(
            CpuInfo { physical_id: x2apic_id, processor_id, enabled: flag_enabled(flags) },
        ),
        _ => None,
    }
}

/// The CPU that an Arm GIC CPU interface entry describes.
pub open spec fn aarch64_entry_info(e: MadtEntry) -> Option<CpuInfo> {
    match e {
        MadtEntry::Gicc { cpu_interface_number, mpidr, flags } => Some(
            CpuInfo {
                physical_id: mpidr as u32,
                processor_id: cpu_interface_number,
                enabled: flag_enabled(flags),
            },
        ),
        _ => None,
    }
}

/// The x86 CPUs that `es` describes, in order.
pub open spec fn x86_64_cpus(es: Seq<MadtEntry>) -> Seq<CpuInfo>
    decreases es.len(),
{
    if es.len() == 0 {
        Seq::empty()
    } else {
        match x86_64_entry_info(es.last()) {
            Some(i) => x86_64_cpus(es.drop_last()).push(i),
            None => x86_64_cpus(es.drop_last()),
        }
    }
}

/// The Arm CPUs that `es` describes, in order.
pub open spec fn aarch64_cpus(es: Seq<MadtEntry>) -> Seq<CpuInfo>
    decreases es.len(),
{
    if es.len() == 0 {
        Seq::empty()
    } else {
        match aarch64_entry_info(es.last()) {
            Some(i) => aarch64_cpus(es.drop_last()).push(i),
            None => aarch64_cpus(es.drop_last()),
        }
    }
}

/// Lists the CPUs of the local APIC and local x2APIC entries, at most
/// `MAX_CPUS`; `None` when there is none.
pub fn x86_64_cpu_info(entries: &[MadtEntry]) -> (res: Option<arrayvec::ArrayVec<CpuInfo, 256>>)
    ensures
        opt_infos(res) == non_empty(capped(x86_64_cpus(entries@), MAX_CPUS as nat)),
{
    let mut cpu_list = info_array_new();
    for i in 0..entries.len()
        invariant
            cpu_infos(cpu_list) == capped(x86_64_cpus(entries@.take(i as int)), MAX_CPUS as nat),
    {
        let e = entries[i];
        assert(entries@.take(i as int + 1).drop_last() =~= entries@.take(i as int));
        assert(entries@.take(i as int + 1).last() == e);
        let info: Option<CpuInfo> = match e {
            MadtEntry::LocalApic { processor_id, apic_id, flags } => Some(
                CpuInfo {
                    physical_id: apic_id as u32,
                    processor_id: processor_id as u32,
                    enabled: (flags & ACPI_MADT_ENABLED) != 0,
                },
            ),
            MadtEntry::LocalX2Apic { processor_id, x2apic_id, flags } => Some(
                CpuInfo {
                    physical_id: x2apic_id,
                    processor_id,
                    enabled: (flags & ACPI_MADT_ENABLED) != 0,
                },
            ),
            _ => None,
        };
        assert(info == x86_64_entry_info(e));
        if let Some(info) = info {
            proof {
                lemma_capped_push(x86_64_cpus(entries@.take(i as int)), info, MAX_CPUS as nat);
            }
            let _ = info_array_push(&mut cpu_list, info);
        }
    }
    assert(entries@.take(entries@.len() as int) =~= entries@);
    if info_array_as_slice(&cpu_list).len() == 0 {
        None
    } else {
        Some(cpu_list)
    }
}

/// Lists the CPUs of the GIC CPU interface entries, at most `MAX_CPUS`;
/// `None` when there is none.
pub fn aarch64_cpu_info(entries: &[MadtEntry]) -> (res: Option<arrayvec::ArrayVec<CpuInfo, 256>>)
    ensures
        opt_infos(res) == non_empty(capped(aarch64_cpus(entries@), MAX_CPUS as nat)),
{
    let mut cpu_list = info_array_new();
    for i in 0..entries.len()
        invariant
            cpu_infos(cpu_list) == capped(aarch64_cpus(entries@.take(i as int)), MAX_CPUS as nat),
    {
        let e = entries[i];
        assert(entries@.take(i as int + 1).drop_last() =~= entries@.take(i as int));
        assert(entries@.take(i as int + 1).last() == e);
        let info: Option<CpuInfo> = match e {
            MadtEntry::Gicc { cpu_interface_number, mpidr, flags } => Some(
                CpuInfo {
                    physical_id: mpidr as u32,
                    processor_id: cpu_interface_number,
                    enabled: (flags & ACPI_MADT_ENABLED) != 0,
                },
            ),
            _ => None,
        };
        assert(info == aarch64_entry_info(e));
        if let Some(info) = info {
            proof {
                lemma_capped_push(aarch64_cpus(entries@.take(i as int)), info, MAX_CPUS as nat);
            }
            let _ = info_array_push(&mut cpu_list, info);
        }
    }
    assert(entries@.take(entries@.len() as int) =~= entries@);
    if info_array_as_slice(&cpu_list).len() == 0 {
        None
    } else {
        Some(cpu_list)
    }
}

/// The identifiers of the enabled CPUs of `s`, in order.
pub open spec fn enabled_ids(s: Seq<CpuInfo>) -> Seq<usize>
    decreases s.len(),
{
    if s.len() == 0 {
        Seq::empty()
    } else if s.last().enabled {
        enabled_ids(s.drop_last()).push(s.last().physical_id as usize)
    } else {
        enabled_ids(s.drop_last())
    }
}

/// The identifiers of the enabled CPUs of an optional CPU list, at most
/// `MAX_CPUS`; `None` when the list is missing or no CPU is enabled.
pub open spec fn id_list_of(infos: Option<Seq<CpuInfo>>) -> Option<Seq<usize>> {
    match infos {
        Some(s) => non_empty(capped(enabled_ids(s), MAX_CPUS as nat)),
        None => None,
    }
}

/// The identifiers of the enabled CPUs of `infos`, at most `MAX_CPUS`; `None`
/// when no CPU is enabled.
pub fn enabled_cpu_ids(infos: &[CpuInfo]) -> (res: Option<arrayvec::ArrayVec<usize, 256>>)
    ensures
        opt_ids(res) == id_list_of(Some(infos@)),
{
    let mut ids = id_array_new();
    for i in 0..infos.len()
        invariant
            cpu_ids(ids) == capped(enabled_ids(infos@.take(i as int)), MAX_CPUS as nat),
    {
        let info = infos[i];
        assert(infos@.take(i as int + 1).drop_last() =~= infos@.take(i as int));
        assert(infos@.take(i as int + 1).last() == info);
        if info.enabled {
            proof {
                lemma_capped_push(enabled_ids(infos@.take(i as int)), info.physical_id as usize, MAX_CPUS as nat);
            }
            let _ = id_array_push(&mut ids, info.physical_id as usize);
        }
    }
    assert(infos@.take(infos@.len() as int) =~= infos@);
    if id_array_as_slice(&ids).len() == 0 {
        None
    } else {
        Some(ids)
    }
}

/// The CPU descriptions of an optional list, or `None`.
pub open spec fn opt_infos(o: Option<arrayvec::ArrayVec<CpuInfo, 256>>) -> Option<Seq<CpuInfo>> {
    match o {
        Some(v) => Some(cpu_infos(v)),
        None => None,
    }
}

/// The identifiers of an optional list, or `None`.
pub open spec fn opt_ids(o: Option<arrayvec::ArrayVec<usize, 256>>) -> Option<Seq<usize>> {
    match o {
        Some(v) => Some(cpu_ids(v)),
        None => None,
    }
}

/// The enabled CPU identifiers that the x86 entries name, at most `MAX_CPUS`.
pub fn x86_64_cpu_id_list(entries: &[MadtEntry]) -> (res: Option<arrayvec::ArrayVec<usize, 256>>)
    ensures
        opt_ids(res) == id_list_of(non_empty(capped(x86_64_cpus(entries@), MAX_CPUS as nat))),
{
    match x86_64_cpu_info(entries) {
        Some(infos) => enabled_cpu_ids(info_array_as_slice(&infos)),
        None => None,
    }
}

/// The enabled CPU identifiers that the Arm entries name, at most `MAX_CPUS`.
pub fn aarch64_cpu_id_list(entries: &[MadtEntry]) -> (res: Option<arrayvec::ArrayVec<usize, 256>>)
    ensures
        opt_ids(res) == id_list_of(non_empty(capped(aarch64_cpus(entries@), MAX_CPUS as nat))),
{
    match aarch64_cpu_info(entries) {
        Some(infos) => enabled_cpu_ids(info_array_as_slice(&infos)),
        None => None,
    }
}

/// The enabled CPU identifiers of a RISC-V MADT, at most `MAX_CPUS`.
pub fn riscv64_cpu_id_list(madt: &[u8]) -> (res: Option<arrayvec::ArrayVec<usize, 256>>)
    ensures
        opt_ids(res) == id_list_of(non_empty(riscv64_cpus(madt@))),
{
    match riscv64_cpu_info(madt) {
        Some(infos) => enabled_cpu_ids(info_array_as_slice(&infos)),
        None => None,
    }
}

/// The enabled CPU identifiers of a LoongArch64 MADT, at most `MAX_CPUS`.
pub fn loongarch64_cpu_id_list(madt: &[u8]) -> (res: Option<arrayvec::ArrayVec<usize, 256>>)
    ensures
        opt_ids(res) == id_list_of(non_empty(loongarch64_cpus(madt@))),
{
    match loongarch64_cpu_info(madt) {
        Some(infos) => enabled_cpu_ids(info_array_as_slice(&infos)),
        None => None,
    }
}

/// The architecture whose MADT entries describe the CPUs.
#[derive(Debug, Clone, Copy, PartialEq, Eq, Structural)]
pub enum CpuArch {
    X86_64,
    Aarch64,
    Riscv64,
    Loongarch64,
}

/// The CPUs that the MADT lists for `arch`: from the parsed entries on x86_64
/// and AArch64, from the raw table on RISC-V 64 and LoongArch64.
pub open spec fn arch_cpus(arch: CpuArch, entries: Seq<MadtEntry>, madt: Seq<u8>) -> Option<Seq<CpuInfo>> {
    match arch {
        CpuArch::X86_64 => non_empty(capped(x86_64_cpus(entries), MAX_CPUS as nat)),
        CpuArch::Aarch64 => non_empty(capped(aarch64_cpus(entries), MAX_CPUS as nat)),
        CpuArch::Riscv64 => non_empty(riscv64_cpus(madt)),
        CpuArch::Loongarch64 => non_empty(loongarch64_cpus(madt)),
    }
}

/// The CPUs of the current architecture's MADT; `None` when there is none.
pub fn cpu_info(arch: CpuArch, entries: &[MadtEntry], madt: &[u8]) -> (res: Option<arrayvec::ArrayVec<CpuInfo, 256>>)
    ensures
        opt_infos(res) == arch_cpus(arch, entries@, madt@),
{
    match arch {
        CpuArch::X86_64 => x86_64_cpu_info(entries),
        CpuArch::Aarch64 => aarch64_cpu_info(entries),
        CpuArch::Riscv64 => riscv64_cpu_info(madt),
        CpuArch::Loongarch64 => loongarch64_cpu_info(madt),
    }
}

/// The enabled CPU identifiers of the current architecture's MADT; `None`
/// when no CPU is listed or none is enabled.
pub fn cpu_id_list(arch: CpuArch, entries: &[MadtEntry], madt: &[u8]) -> (res: Option<arrayvec::ArrayVec<usize, 256>>)
    ensures
        opt_ids(res) == id_list_of(arch_cpus(arch, entries@, madt@)),
{
    match arch {
        CpuArch::X86_64 => x86_64_cpu_id_list(entries),
        CpuArch::Aarch64 => aarch64_cpu_id_list(entries),
        CpuArch::Riscv64 => riscv64_cpu_id_list(madt),
        CpuArch::Loongarch64 => loongarch64_cpu_id_list(madt),
    }
}

/// The CPU that an x86 entry describes: a local APIC entry gives its APIC
/// ID as the physical identifier and its processor ID as the ACPI processor
/// identifier, a local x2APIC entry its x2APIC ID and processor ID; either
/// is enabled exactly when bit 0 of its flags is set. Other entries describe
/// no x86 CPU.
pub proof fn lemma_x86_64_entry_info(e: MadtEntry)
    ensures
        match e {
            MadtEntry::LocalApic { processor_id, apic_id, flags } => x86_64_entry_info(e) == Some(
                CpuInfo { physical_id: apic_id as u32, processor_id: processor_id as u32, enabled: flags & 1u32 != 0 },
            ),
            MadtEntry::LocalX2Apic { processor_id, x2apic_id, flags } => x86_64_entry_info(e) == Some(
                CpuInfo { physical_id: x2apic_id, processor_id, enabled: flags & 1u32 != 0 },
            ),
            _ => x86_64_entry_info(e) is None,
        },
{
}

/// The CPU that an Arm GIC CPU interface entry describes: its MPIDR (low 32
/// bits) as the physical identifier, its CPU interface number as the ACPI
/// processor identifier, enabled exactly when bit 0 of its flags is set.
/// Other entries describe no Arm CPU.
pub proof fn lemma_aarch64_entry_info(e: MadtEntry)
    ensures
        match e {
            MadtEntry::Gicc { cpu_interface_number, mpidr, flags } => aarch64_entry_info(e) == Some(
                CpuInfo { physical_id: mpidr as u32, processor_id: cpu_interface_number, enabled: flags & 1u32 != 0 },
            ),
            _ => aarch64_entry_info(e) is None,
        },
{
}

/// A list of x86 entries describes one CPU per entry, in order.
pub proof fn lemma_x86_64_cpus_per_entry(es: Seq<MadtEntry>)
    requires
        forall|k: int| 0 <= k < es.len() ==> (#[trigger] es[k] is LocalApic || es[k] is LocalX2Apic),
    ensures
        x86_64_cpus(es).len() == es.len(),
        forall|k: int| 0 <= k < es.len() ==> Some(#[trigger] x86_64_cpus(es)[k]) == x86_64_entry_info(es[k]),
    decreases es.len(),
{
    if es.len() > 0 {
        let t = es.drop_last();
        assert forall|k: int| 0 <= k < t.len() implies (#[trigger] t[k] is LocalApic || t[k] is LocalX2Apic) by {
            assert(t[k] == es[k]);
        }
        lemma_x86_64_cpus_per_entry(t);
        assert(es.last() == es[es.len() - 1]);
    }
}

/// A list of Arm GIC CPU interface entries describes one CPU per entry, in
/// order.
pub proof fn lemma_aarch64_cpus_per_entry(es: Seq<MadtEntry>)
    requires
        forall|k: int| 0 <= k < es.len() ==> #[trigger] es[k] is Gicc,
    ensures
        aarch64_cpus(es).len() == es.len(),
        forall|k: int| 0 <= k < es.len() ==> Some(#[trigger] aarch64_cpus(es)[k]) == aarch64_entry_info(es[k]),
    decreases es.len(),
{
    if es.len() > 0 {
        let t = es.drop_last();
        assert forall|k: int| 0 <= k < t.len() implies #[trigger] t[k] is Gicc by {
            assert(t[k] == es[k]);
        }
        lemma_aarch64_cpus_per_entry(t);
        assert(es.last() == es[es.len() - 1]);
    }
}

/// On x86 entries, the identifiers of the enabled CPUs are the hardware CPU
/// identifiers that the enabled entries name: the APIC or x2APIC IDs of the
/// entries whose flags have bit 0 set, in order.
pub proof fn lemma_x86_64_ids_are_entry_ids(es: Seq<MadtEntry>)
    requires
        forall|k: int| 0 <= k < es.len() ==> (#[trigger] es[k] is LocalApic || es[k] is LocalX2Apic),
    ensures
        enabled_ids(x86_64_cpus(es)) == entry_cpu_ids(es),
    decreases es.len(),
{
    if es.len() > 0 {
        let t = es.drop_last();
        assert forall|k: int| 0 <= k < t.len() implies (#[trigger] t[k] is LocalApic || t[k] is LocalX2Apic) by {
            assert(t[k] == es[k]);
        }
        lemma_x86_64_ids_are_entry_ids(t);
        assert(es.last() == es[es.len() - 1]);
        let cpus = x86_64_cpus(es);
        match es.last() {
            MadtEntry::LocalApic { .. } => {
                assert(cpus.drop_last() == x86_64_cpus(t));
            },
            MadtEntry::LocalX2Apic { .. } => {
                assert(cpus.drop_last() == x86_64_cpus(t));
            },
            _ => {},
        }
    }
}

/// On Arm GIC CPU interface entries whose MPIDR fits in 32 bits, the
/// identifiers of the enabled CPUs are the MPIDRs of the entries whose flags
/// have bit 0 set, in order.
pub proof fn lemma_aarch64_ids_are_entry_ids(es: Seq<MadtEntry>)
    requires
        forall|k: int| 0 <= k < es.len() ==> #[trigger] es[k] is Gicc,
        forall|k: int| 0 <= k < es.len() ==> (#[trigger] es[k])->mpidr <= u32::MAX,
    ensures
        enabled_ids(aarch64_cpus(es)) == entry_cpu_ids(es),
    decreases es.len(),
{
    if es.len() > 0 {
        let t = es.drop_last();
        assert forall|k: int| 0 <= k < t.len() implies #[trigger] t[k] is Gicc && t[k]->mpidr <= u32::MAX by {
            assert(t[k] == es[k]);
        }
        lemma_aarch64_ids_are_entry_ids(t);
        assert(es.last() == es[es.len() - 1]);
        let cpus = aarch64_cpus(es);
        assert(cpus.drop_last() == aarch64_cpus(t));
    }
}

proof fn lemma_matching_entries_typed(b: Seq<u8>, offset: int, ty: u8, min_len: int)
    requires
        min_len >= 2,
    ensures
        forall|k: int|
            0 <= k < matching_entries(b, offset, ty, min_len).len() ==> b[#[trigger] matching_entries(
                b,
                offset,
                ty,
                min_len,
            )[k]] == ty,
    decreases b.len() - offset,
{
    if !(offset < 0 || offset + 2 > b.len()) {
        let len = b[offset + 1] as int;
        if !(len < 2 || offset + len > b.len()) {
            lemma_matching_entries_typed(b, offset + len, ty, min_len);
            let rest = matching_entries(b, offset + len, ty, min_len);
            let all = matching_entries(b, offset, ty, min_len);
            if b[offset] == ty && len >= min_len {
                assert forall|k: int| 0 <= k < all.len() implies b[#[trigger] all[k]] == ty by {
                    if k > 0 {
                        assert(all[k] == rest[k - 1]);
                    }
                }
            }
        }
    }
}

/// Each RISC-V CPU comes from a RINTC entry (type 0x18, at least 36 bytes)
/// after the 44-byte MADT header: its physical identifier is the low 32 bits
/// of the hart ID (bytes 8 to 15), its ACPI processor identifier the UID
/// (bytes 16 to 19), and it is enabled exactly when bit 0 of the flags
/// (bytes 4 to 7) is set.
pub proof fn lemma_riscv64_cpu_fields(b: Seq<u8>, k: int)
    requires
        0 <= k < riscv64_cpus(b).len(),
    ensures
        exists|o: int|
            44 <= o && o + 36 <= b.len() && b[o] == 0x18u8 && #[trigger] riscv64_cpus(b)[k] == (CpuInfo {
                physical_id: le_u64(b, o + 8) as u32,
                processor_id: le_u32(b, o + 16),
                enabled: le_u32(b, o + 4) & 1u32 != 0,
            }),
{
    let all = matching_entries(b, MADT_HEADER_SIZE as int, MADT_TYPE_RINTC, RINTC_ENTRY_SIZE as int);
    lemma_matching_entries_in_bounds(b, MADT_HEADER_SIZE as int, MADT_TYPE_RINTC, RINTC_ENTRY_SIZE as int);
    lemma_matching_entries_typed(b, MADT_HEADER_SIZE as int, MADT_TYPE_RINTC, RINTC_ENTRY_SIZE as int);
    let c = capped(all, MAX_CPUS as nat);
    assert(c[k] == all[k]);
    let o = c[k];
    assert(riscv64_cpus(b)[k] == rintc_info(rintc_at(b, o)));
}

/// Each LoongArch CPU comes from a Core PIC entry (type 0x11, at least 15
/// bytes) after the 44-byte MADT header: its physical identifier is the
/// core ID (bytes 7 to 10), its ACPI processor identifier the processor ID
/// (bytes 3 to 6), and it is enabled exactly when bit 0 of the flags
/// (bytes 11 to 14) is set.
pub proof fn lemma_loongarch64_cpu_fields(b: Seq<u8>, k: int)
    requires
        0 <= k < loongarch64_cpus(b).len(),
    ensures
        exists|o: int|
            44 <= o && o + 15 <= b.len() && b[o] == 0x11u8 && #[trigger] loongarch64_cpus(b)[k] == (CpuInfo {
                physical_id: le_u32(b, o + 7),
                processor_id: le_u32(b, o + 3),
                enabled: le_u32(b, o + 11) & 1u32 != 0,
            }),
{
    let all = matching_entries(b, MADT_HEADER_SIZE as int, MADT_TYPE_CORE_PIC, CORE_PIC_ENTRY_SIZE as int);
    lemma_matching_entries_in_bounds(b, MADT_HEADER_SIZE as int, MADT_TYPE_CORE_PIC, CORE_PIC_ENTRY_SIZE as int);
    lemma_matching_entries_typed(b, MADT_HEADER_SIZE as int, MADT_TYPE_CORE_PIC, CORE_PIC_ENTRY_SIZE as int);
    let c = capped(all, MAX_CPUS as nat);
    assert(c[k] == all[k]);
    let o = c[k];
    assert(loongarch64_cpus(b)[k] == core_pic_info(core_pic_at(b, o)));
}

} // verus!
