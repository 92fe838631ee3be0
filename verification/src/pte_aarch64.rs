//! AArch64 VMSAv8-64 stage-1 translation table entries (4 KiB granule).

use vstd::prelude::*;

use crate::paging::{AccessFlags, MemAttributes, MemConfig, PhysAddr};

verus! {

/// The descriptor is valid.
pub const PTE_VALID: u64 = 0x1;
/// The descriptor points to a table or a 4 KiB page (not a block).
pub const PTE_NON_BLOCK: u64 = 0x2;
/// Non-secure output address.
pub const PTE_NS: u64 = 0x20;
/// Access permission: accessible at EL0.
pub const PTE_AP_EL0: u64 = 0x40;
/// Access permission: read-only.
pub const PTE_AP_RO: u64 = 0x80;
/// Inner shareable.
pub const PTE_INNER: u64 = 0x100;
/// Shareable.
pub const PTE_SHAREABLE: u64 = 0x200;
/// Access flag.
pub const PTE_AF: u64 = 0x400;
/// Not global.
pub const PTE_NG: u64 = 0x800;
/// Part of a run of 16 contiguous entries.
pub const PTE_CONTIGUOUS: u64 = 0x0010_0000_0000_0000;
/// Privileged execute-never.
pub const PTE_PXN: u64 = 0x0020_0000_0000_0000;
/// Unprivileged execute-never.
pub const PTE_UXN: u64 = 0x0040_0000_0000_0000;
/// Table: privileged execute-never for the levels below.
pub const PTE_PXN_TABLE: u64 = 0x0800_0000_0000_0000;
/// Table: execute-never for the levels below.
pub const PTE_XN_TABLE: u64 = 0x1000_0000_0000_0000;
/// Table: no EL0 access for the levels below.
pub const PTE_AP_NO_EL0_TABLE: u64 = 0x2000_0000_0000_0000;
/// Table: no write access for the levels below.
pub const PTE_AP_NO_WRITE_TABLE: u64 = 0x4000_0000_0000_0000;
/// Table: non-secure for the levels below.
pub const PTE_NS_TABLE: u64 = 0x8000_0000_0000_0000;
/// Every attribute bit above.
pub const PTE_ALL_FLAGS: u64 = 0xf870_0000_0000_0fe3;
/// Both execute-never bits.
pub const PTE_XN: u64 = 0x0060_0000_0000_0000;
/// Both access-permission bits.
pub const PTE_AP: u64 = 0xc0;

/// Output address bits 12..48.
pub const PHYS_ADDR_MASK: u64 = 0x0000_ffff_ffff_f000;
/// Memory attribute index bits 2..5.
pub const MAIR_MASK: u64 = 0x1c;

/// The attribute bits of a descriptor.
#[derive(Debug, Clone, Copy)]
pub struct PteFlags(u64);

impl PteFlags {
    #[verifier::type_invariant]
    spec fn known_bits(self) -> bool {
        self.0 & !PTE_ALL_FLAGS == 0
    }

    /// The raw bits.
    pub closed spec fn spec_bits(self) -> u64 {
        self.0
    }

    /// The raw bits.
    pub fn bits(&self) -> (r: u64)
        ensures
            r == self.spec_bits(),
            r & !PTE_ALL_FLAGS == 0,
    {
        proof {
            use_type_invariant(self);
        }
        self.0
    }

    /// No flag set.
    pub fn empty() -> (r: PteFlags)
        ensures
            r.spec_bits() == 0,
    {
        assert(0u64 & !PTE_ALL_FLAGS == 0) by (bit_vector);
        PteFlags(0)
    }

    /// The known flags among `bits`; the others are dropped.
    pub fn from_bits_truncate(bits: u64) -> (r: PteFlags)
        ensures
            r.spec_bits() == bits & PTE_ALL_FLAGS,
    {
        assert((bits & PTE_ALL_FLAGS) & !PTE_ALL_FLAGS == 0) by (bit_vector);
        PteFlags(bits & PTE_ALL_FLAGS)
    }

    /// Every flag of `other` is set here.
    pub fn contains(&self, other: PteFlags) -> (r: bool)
        ensures
            r == (self.spec_bits() & other.spec_bits() == other.spec_bits()),
    {
        self.0 & other.0 == other.0
    }

    /// The flags of both.
    pub fn union(self, other: PteFlags) -> (r: PteFlags)
        ensures
            r.spec_bits() == self.spec_bits() | other.spec_bits(),
    {
        proof {
            use_type_invariant(&self);
            use_type_invariant(&other);
        }
        let a = self.0;
        let b = other.0;
        assert((a | b) & !PTE_ALL_FLAGS == 0) by (bit_vector)
            requires
                a & !PTE_ALL_FLAGS == 0,
                b & !PTE_ALL_FLAGS == 0,
        ;
        PteFlags(a | b)
    }
}

/// An AArch64 translation table descriptor.
#[derive(Debug, Clone, Copy)]
pub struct Entry(pub u64);

/// The access-permission bits that encode `write` and `lower`.
pub open spec fn ap_bits(write: bool, lower: bool) -> u64 {
    if write {
        if lower {
            PTE_AP_EL0
        } else {
            0
        }
    } else if lower {
        PTE_AP_EL0 | PTE_AP_RO
    } else {
        PTE_AP_RO
    }
}

/// The memory attribute index that encodes a memory type.
pub open spec fn attr_index(a: MemAttributes) -> u64 {
    match a {
        MemAttributes::Normal => 0,
        MemAttributes::Device => 1,
        MemAttributes::Uncached => 2,
        MemAttributes::PerCpu => 0,
    }
}

/// `x` with its access rights, execute-never bits and attribute index set
/// from `c`; every other bit kept.
pub open spec fn encode_mem_config(x: u64, c: MemConfig) -> u64 {
    let y0 = (x & !(PTE_AP_EL0 | PTE_AP_RO)) | ap_bits(c.access.write, c.access.lower);
    let y1 = if !c.access.execute {
        y0 | (PTE_UXN | PTE_PXN)
    } else {
        y0 & !(PTE_UXN | PTE_PXN)
    };
    (y1 & !MAIR_MASK) | (attr_index(c.attrs) << 2)
}

/// The access rights and memory type that the descriptor bits `x` encode.
pub open spec fn decode_mem_config(x: u64) -> MemConfig {
    let ap = (x >> 6) & 3;
    let idx = (x >> 2) & 7;
    MemConfig {
        access: AccessFlags {
            read: true,
            write: ap == 0 || ap == 1,
            execute: x & (PTE_UXN | PTE_PXN) == 0,
            lower: ap & 1 != 0,
        },
        attrs: if idx == 1 {
            MemAttributes::Device
        } else if idx == 2 {
            MemAttributes::Uncached
        } else {
            MemAttributes::Normal
        },
    }
}

impl Entry {
    /// The attribute bits of the descriptor.
    pub fn as_flags(&self) -> (r: PteFlags)
        ensures
            r.spec_bits() == self.0 & PTE_ALL_FLAGS,
    {
        PteFlags::from_bits_truncate(self.0)
    }

    /// Sets the memory attribute index field to `idx`.
    pub fn set_mair_idx(&mut self, idx: usize)
        ensures
            final(self).0 == (old(self).0 & !MAIR_MASK) | ((idx as u64) << 2),
    {
        self.0 = self.0 & !MAIR_MASK;
        self.0 = self.0 | ((idx as u64) << 2);
    }

    /// A valid page descriptor with the access flag set, executable nowhere
    /// at EL0.
    pub fn new_valid() -> (e: Entry)
        ensures
            e.0 == PTE_AF | PTE_VALID | PTE_NON_BLOCK | PTE_UXN,
    {
        let flags = PteFlags::empty().union(PteFlags::from_bits_truncate(PTE_AF)).union(
            PteFlags::from_bits_truncate(PTE_VALID),
        ).union(PteFlags::from_bits_truncate(PTE_NON_BLOCK)).union(
            PteFlags::from_bits_truncate(PTE_UXN),
        );
        assert(0u64 | (PTE_AF & PTE_ALL_FLAGS) | (PTE_VALID & PTE_ALL_FLAGS) | (PTE_NON_BLOCK
            & PTE_ALL_FLAGS) | (PTE_UXN & PTE_ALL_FLAGS) == PTE_AF | PTE_VALID | PTE_NON_BLOCK
            | PTE_UXN) by (bit_vector);
        Entry(flags.bits())
    }

    /// The empty descriptor.
    pub fn empty() -> (e: Entry)
        ensures
            e.0 == 0,
    {
        Entry(0)
    }

    /// Replaces the attribute bits by what `f` makes of them, keeping the
    /// output address and the memory attribute index.
    pub fn update_flags<F: FnOnce(PteFlags) -> PteFlags>(&mut self, f: F)
        requires
            forall|p: PteFlags| p.spec_bits() == old(self).0 & PTE_ALL_FLAGS ==> call_requires(f, (p,)),
        ensures
            exists|p: PteFlags, q: PteFlags|
                p.spec_bits() == old(self).0 & PTE_ALL_FLAGS && call_ensures(f, (p,), q)
                    && final(self).0 == (old(self).0 & (PHYS_ADDR_MASK | MAIR_MASK)) | q.spec_bits()
                    && final(self).0 & PTE_ALL_FLAGS == q.spec_bits(),
            final(self).0 & (PHYS_ADDR_MASK | MAIR_MASK) == old(self).0 & (PHYS_ADDR_MASK | MAIR_MASK),
    {
        let flags = self.as_flags();
        let new_flags = f(flags);
        let cur = self.0;
        let preserved = cur & (PHYS_ADDR_MASK | MAIR_MASK);
        let nb = new_flags.bits();
        assert(preserved & !(PHYS_ADDR_MASK | MAIR_MASK) == 0) by (bit_vector)
            requires
                preserved == cur & (PHYS_ADDR_MASK | MAIR_MASK),
        ;
        assert(((preserved | nb) & (PHYS_ADDR_MASK | MAIR_MASK)) == preserved) by (bit_vector)
            requires
                nb & !PTE_ALL_FLAGS == 0,
                preserved & !(PHYS_ADDR_MASK | MAIR_MASK) == 0,
        ;
        assert(((preserved | nb) & PTE_ALL_FLAGS) == nb) by (bit_vector)
            requires
                nb & !PTE_ALL_FLAGS == 0,
                preserved & !(PHYS_ADDR_MASK | MAIR_MASK) == 0,
        ;
        self.0 = preserved | nb;
    }

    /// The descriptor is valid.
    pub fn valid(&self) -> (r: bool)
        ensures
            r == (self.0 & PTE_VALID != 0),
    {
        self.0 & PTE_VALID != 0
    }

    /// The output address.
    pub fn paddr(&self) -> (r: PhysAddr)
        ensures
            r.0 == (self.0 & PHYS_ADDR_MASK) as usize,
    {
        PhysAddr((self.0 & PHYS_ADDR_MASK) as usize)
    }

    /// Sets the output address to the address bits of `paddr`.
    pub fn set_paddr(&mut self, paddr: PhysAddr)
        ensures
            final(self).0 == (old(self).0 & !PHYS_ADDR_MASK) | (paddr.0 as u64 & PHYS_ADDR_MASK),
    {
        self.0 = self.0 & !PHYS_ADDR_MASK;
        self.0 = self.0 | (paddr.raw() as u64 & PHYS_ADDR_MASK);
    }

    /// Sets or clears the valid bit.
    pub fn set_valid(&mut self, valid: bool)
        ensures
            final(self).0 == if valid {
                old(self).0 | PTE_VALID
            } else {
                old(self).0 & !PTE_VALID
            },
    {
        if valid {
            self.0 = self.0 | PTE_VALID;
        } else {
            self.0 = self.0 & !PTE_VALID;
        }
    }

    /// The descriptor maps a block (the table/page bit is clear).
    pub fn is_huge(&self) -> (r: bool)
        ensures
            r == (self.0 & PTE_NON_BLOCK == 0),
    {
        self.0 & PTE_NON_BLOCK == 0
    }

    /// Marks the descriptor as a block (`true`) or a table/page (`false`).
    pub fn set_is_huge(&mut self, b: bool)
        ensures
            final(self).0 == if b {
                old(self).0 & !PTE_NON_BLOCK
            } else {
                old(self).0 | PTE_NON_BLOCK
            },
    {
        if b {
            self.0 = self.0 & !PTE_NON_BLOCK;
        } else {
            self.0 = self.0 | PTE_NON_BLOCK;
        }
    }

    /// Encodes the access rights and memory type of `config`: the
    /// access-permission bits from write and lower access, both execute-never
    /// bits unless executable, and attribute index 0 (normal), 1 (device) or
    /// 2 (uncached).
    pub fn set_mem_config(&mut self, config: MemConfig)
        ensures
            final(self).0 == encode_mem_config(old(self).0, config),
    {
        let writable = config.access.write;
        let executable = config.access.execute;
        let user = config.access.lower;
        let ap_bits = if writable {
            if user {
                PTE_AP_EL0
            } else {
                0
            }
        } else if user {
            PTE_AP_EL0 | PTE_AP_RO
        } else {
            PTE_AP_RO
        };
        self.0 = self.0 & !(PTE_AP_EL0 | PTE_AP_RO);
        self.0 = self.0 | ap_bits;
        if !executable {
            self.0 = self.0 | (PTE_UXN | PTE_PXN);
        } else {
            self.0 = self.0 & !(PTE_UXN | PTE_PXN);
        }
        let attr_index: usize = match config.attrs {
            MemAttributes::Normal => 0,
            MemAttributes::Device => 1,
            MemAttributes::Uncached => 2,
            MemAttributes::PerCpu => 0,
        };
        self.set_mair_idx(attr_index);
    }

    /// Decodes the access rights and memory type: always readable; writable
    /// when the access permission is read-write; executable when neither
    /// execute-never bit is set; lower access when EL0 may access; device for
    /// attribute index 1, uncached for 2, normal otherwise.
    pub fn mem_config(&self) -> (r: MemConfig)
        ensures
            r == decode_mem_config(self.0),
    {
        let mut access = AccessFlags { read: true, write: false, execute: false, lower: false };
        let ap = (self.0 >> 6) & 0x3;
        if ap == 0 || ap == 1 {
            access.write = true;
        }
        let no_exec = (self.0 & (PTE_UXN | PTE_PXN)) != 0;
        if !no_exec {
            access.execute = true;
        }
        if (ap & 0x1) != 0 {
            access.lower = true;
        }
        let attr_index = (self.0 >> 2) & 0x7;
        let attrs = if attr_index == 0 {
            MemAttributes::Normal
        } else if attr_index == 1 {
            MemAttributes::Device
        } else if attr_index == 2 {
            MemAttributes::Uncached
        } else {
            MemAttributes::Normal
        };
        MemConfig { access, attrs }
    }
}

/// The page-table geometry of AArch64 with a 4 KiB granule.
#[derive(Clone, Copy)]
pub struct Generic;

impl Generic {
    /// Bytes of a page.
    pub const PAGE_SIZE: u64 = 0x1000;

    /// The deepest level at which a block may be mapped.
    pub const MAX_BLOCK_LEVEL: usize = 3;

    /// Index bits of each translation level, root first.
    pub fn level_bits() -> (r: [usize; 4])
        ensures
            r@ == seq![9usize, 9, 9, 9],
    {
        let r = [9, 9, 9, 9];
        assert(r@ =~= seq![9usize, 9, 9, 9]);
        r
    }
}

} // verus!

verus! {

/// Setting the output address and reading it back gives the address bits
/// written; the other bits of the descriptor are kept.
pub proof fn lemma_paddr_roundtrip(x: u64, a: u64)
    ensures
        ((x & !PHYS_ADDR_MASK) | (a & PHYS_ADDR_MASK)) & PHYS_ADDR_MASK == a & PHYS_ADDR_MASK,
        ((x & !PHYS_ADDR_MASK) | (a & PHYS_ADDR_MASK)) & !PHYS_ADDR_MASK == x & !PHYS_ADDR_MASK,
{
    assert(((x & !PHYS_ADDR_MASK) | (a & PHYS_ADDR_MASK)) & PHYS_ADDR_MASK == a & PHYS_ADDR_MASK
        && ((x & !PHYS_ADDR_MASK) | (a & PHYS_ADDR_MASK)) & !PHYS_ADDR_MASK == x & !PHYS_ADDR_MASK)
        by (bit_vector);
}

/// Setting or clearing the valid bit, or the table/page bit, is what the
/// matching query then reports; no other bit changes.
pub proof fn lemma_flag_roundtrip(x: u64)
    ensures
        (x | PTE_VALID) & PTE_VALID != 0,
        (x & !PTE_VALID) & PTE_VALID == 0,
        (x | PTE_VALID) & !PTE_VALID == x & !PTE_VALID,
        (x & !PTE_VALID) & !PTE_VALID == x & !PTE_VALID,
        (x & !PTE_NON_BLOCK) & PTE_NON_BLOCK == 0,
        (x | PTE_NON_BLOCK) & PTE_NON_BLOCK != 0,
        (x | PTE_NON_BLOCK) & !PTE_NON_BLOCK == x & !PTE_NON_BLOCK,
        (x & !PTE_NON_BLOCK) & !PTE_NON_BLOCK == x & !PTE_NON_BLOCK,
{
    assert((x | PTE_VALID) & PTE_VALID != 0 && (x & !PTE_VALID) & PTE_VALID == 0 && (x | PTE_VALID)
        & !PTE_VALID == x & !PTE_VALID && (x & !PTE_VALID) & !PTE_VALID == x & !PTE_VALID && (x
        & !PTE_NON_BLOCK) & PTE_NON_BLOCK == 0 && (x | PTE_NON_BLOCK) & PTE_NON_BLOCK != 0 && (x
        | PTE_NON_BLOCK) & !PTE_NON_BLOCK == x & !PTE_NON_BLOCK && (x & !PTE_NON_BLOCK)
        & !PTE_NON_BLOCK == x & !PTE_NON_BLOCK) by (bit_vector);
}

proof fn lemma_encode_fields(x: u64, ap: u64, ex: bool, idx: u64)
    requires
        ap == 0 || ap == 0x40 || ap == 0xc0 || ap == 0x80,
        idx < 8,
    ensures
        ({
            let y0 = (x & !(PTE_AP_EL0 | PTE_AP_RO)) | ap;
            let y1 = if !ex {
                y0 | (PTE_UXN | PTE_PXN)
            } else {
                y0 & !(PTE_UXN | PTE_PXN)
            };
            let y = (y1 & !MAIR_MASK) | (idx << 2);
            &&& (y >> 6) & 3 == ap >> 6
            &&& (y & (PTE_UXN | PTE_PXN) == 0) == ex
            &&& (y >> 2) & 7 == idx
        }),
        ap >> 6 == (if ap == 0 {
            0u64
        } else if ap == 0x40 {
            1u64
        } else if ap == 0xc0 {
            3u64
        } else {
            2u64
        }),
        (3u64 & 1 != 0) && (1u64 & 1 != 0) && (2u64 & 1 == 0) && (0u64 & 1 == 0),
{
    assert({
        let y0 = (x & !(PTE_AP_EL0 | PTE_AP_RO)) | ap;
        let y1 = if !ex {
            y0 | (PTE_UXN | PTE_PXN)
        } else {
            y0 & !(PTE_UXN | PTE_PXN)
        };
        let y = (y1 & !MAIR_MASK) | (idx << 2);
        &&& (y >> 6) & 3 == ap >> 6
        &&& (y & (PTE_UXN | PTE_PXN) == 0) == ex
        &&& (y >> 2) & 7 == idx
        &&& ap >> 6 == (if ap == 0 {
            0u64
        } else if ap == 0x40 {
            1u64
        } else if ap == 0xc0 {
            3u64
        } else {
            2u64
        })
        &&& (3u64 & 1 != 0) && (1u64 & 1 != 0) && (2u64 & 1 == 0) && (0u64 & 1 == 0)
    }) by (bit_vector)
        requires
            ap == 0 || ap == 0x40 || ap == 0xc0 || ap == 0x80,
            idx < 8,
    ;
}

/// The memory type that `mem_config` reports for one that `set_mem_config`
/// wrote: per-CPU memory is encoded as normal memory.
pub open spec fn stored_attrs(a: MemAttributes) -> MemAttributes {
    match a {
        MemAttributes::PerCpu => MemAttributes::Normal,
        _ => a,
    }
}

/// Reading the configuration back after `set_mem_config` gives the write,
/// execute and lower-access rights written, readable access, and the memory
/// type written (per-CPU reads back as normal).
pub proof fn lemma_mem_config_roundtrip(x: u64, c: MemConfig)
    ensures
        decode_mem_config(encode_mem_config(x, c)) == (MemConfig {
            access: AccessFlags {
                read: true,
                write: c.access.write,
                execute: c.access.execute,
                lower: c.access.lower,
            },
            attrs: stored_attrs(c.attrs),
        }),
{
    let ap = ap_bits(c.access.write, c.access.lower);
    assert(PTE_AP_EL0 | PTE_AP_RO == 0xc0) by (bit_vector);
    lemma_encode_fields(x, ap, c.access.execute, attr_index(c.attrs));
}

/// The descriptor bits that `set_mem_config` writes: attribute index
/// (bits 2 to 4) 0 for normal and per-CPU memory, 1 for device memory, 2 for
/// uncached memory; access permission (bits 6 and 7) 0 for kernel read-write,
/// 1 for read-write with lower access, 2 for kernel read-only, 3 for
/// read-only with lower access; both execute-never bits (53 and 54) set
/// exactly when not executable; every other bit kept.
pub proof fn lemma_mem_config_fields(x: u64, c: MemConfig)
    ensures
        (encode_mem_config(x, c) >> 2u64) & 7u64 == (match c.attrs {
            MemAttributes::Normal => 0u64,
            MemAttributes::Device => 1u64,
            MemAttributes::Uncached => 2u64,
            MemAttributes::PerCpu => 0u64,
        }),
        (encode_mem_config(x, c) >> 6u64) & 3u64 == (if c.access.write {
            if c.access.lower {
                1u64
            } else {
                0u64
            }
        } else if c.access.lower {
            3u64
        } else {
            2u64
        }),
        encode_mem_config(x, c) & 0x0060_0000_0000_0000u64 == (if c.access.execute {
            0u64
        } else {
            0x0060_0000_0000_0000u64
        }),
        encode_mem_config(x, c) & !0x0060_0000_0000_00dcu64 == x & !0x0060_0000_0000_00dcu64,
{
    let ap = ap_bits(c.access.write, c.access.lower);
    let idx = attr_index(c.attrs);
    let ex = c.access.execute;
    assert(PTE_AP_EL0 | PTE_AP_RO == 0xc0) by (bit_vector);
    assert(ap == 0 || ap == 0x40 || ap == 0xc0 || ap == 0x80);
    lemma_encode_fields(x, ap, ex, idx);
    lemma_encode_frame(x, ap, ex, idx);
}

proof fn lemma_encode_frame(x: u64, ap: u64, ex: bool, idx: u64)
    requires
        ap == 0 || ap == 0x40 || ap == 0xc0 || ap == 0x80,
        idx < 8,
    ensures
        ({
            let y0 = (x & !(PTE_AP_EL0 | PTE_AP_RO)) | ap;
            let y1 = if !ex {
                y0 | (PTE_UXN | PTE_PXN)
            } else {
                y0 & !(PTE_UXN | PTE_PXN)
            };
            let y = (y1 & !MAIR_MASK) | (idx << 2);
            &&& y & 0x0060_0000_0000_0000u64 == (if ex {
                0u64
            } else {
                0x0060_0000_0000_0000u64
            })
            &&& y & !0x0060_0000_0000_00dcu64 == x & !0x0060_0000_0000_00dcu64
        }),
{
    assert({
        let y0 = (x & !(PTE_AP_EL0 | PTE_AP_RO)) | ap;
        let y1 = if !ex {
            y0 | (PTE_UXN | PTE_PXN)
        } else {
            y0 & !(PTE_UXN | PTE_PXN)
        };
        let y = (y1 & !MAIR_MASK) | (idx << 2);
        &&& y & 0x0060_0000_0000_0000u64 == (if ex {
            0u64
        } else {
            0x0060_0000_0000_0000u64
        })
        &&& y & !0x0060_0000_0000_00dcu64 == x & !0x0060_0000_0000_00dcu64
    }) by (bit_vector)
        requires
            ap == 0 || ap == 0x40 || ap == 0xc0 || ap == 0x80,
            idx < 8,
    ;
}

/// The memory type that `mem_config` reports for the attribute index
/// (bits 2 to 4) of a descriptor: 1 is device memory, 2 uncached memory,
/// any other index normal memory.
pub proof fn lemma_mem_config_attrs(x: u64)
    ensures
        decode_mem_config(x).attrs == (if (x >> 2u64) & 7u64 == 1 {
            MemAttributes::Device
        } else if (x >> 2u64) & 7u64 == 2 {
            MemAttributes::Uncached
        } else {
            MemAttributes::Normal
        }),
{
}

/// Where the fields of a descriptor lie: valid is bit 0, table/page bit 1,
/// attribute index bits 2 to 4, EL0 access bit 6, read-only bit 7, access
/// flag bit 10, output address bits 12 to 47, privileged execute-never bit
/// 53 and unprivileged execute-never bit 54.
pub proof fn lemma_descriptor_layout()
    ensures
        PTE_VALID == 1u64 << 0u64,
        PTE_NON_BLOCK == 1u64 << 1u64,
        MAIR_MASK == 7u64 << 2u64,
        PTE_AP_EL0 == 1u64 << 6u64,
        PTE_AP_RO == 1u64 << 7u64,
        PTE_AF == 1u64 << 10u64,
        PHYS_ADDR_MASK == ((1u64 << 48u64) - 1) as u64 & !(((1u64 << 12u64) - 1) as u64),
        PTE_PXN == 1u64 << 53u64,
        PTE_UXN == 1u64 << 54u64,
{
    assert(1u64 == 1u64 << 0u64 && 2u64 == 1u64 << 1u64 && 0x1cu64 == 7u64 << 2u64 && 0x40u64 == 1u64 << 6u64
        && 0x80u64 == 1u64 << 7u64 && 0x400u64 == 1u64 << 10u64 && 0x0000_ffff_ffff_f000u64 == ((1u64 << 48u64)
        - 1) as u64 & !(((1u64 << 12u64) - 1) as u64) && 0x0020_0000_0000_0000u64 == 1u64 << 53u64
        && 0x0040_0000_0000_0000u64 == 1u64 << 54u64) by (bit_vector);
}

} // verus!
