//! LoongArch64 page table entries.

use vstd::prelude::*;

use crate::bits::{field_get, field_set, get_field, is_field, lemma_field_frame, lemma_field_roundtrip, set_field};
use crate::paging::{MemAttributes, PhysAddr};

verus! {

/// V: valid (bit 0).
pub const VALID_SHIFT: u64 = 0;
/// D: dirty (bit 1).
pub const DIRTY_SHIFT: u64 = 1;
/// PLV: privilege level (bits 2..4).
pub const PLV_SHIFT: u64 = 2;
/// MAT: cache attribute (bits 4..6).
pub const CACHE_SHIFT: u64 = 4;
/// GH: huge page in a directory entry, or global (bit 6).
pub const GH_SHIFT: u64 = 6;
/// P: present (bit 7).
pub const PRESENT_SHIFT: u64 = 7;
/// W: writable (bit 8).
pub const WRITE_SHIFT: u64 = 8;
/// Physical frame number (bits 12..52).
pub const PHYS_ADDR_SHIFT: u64 = 12;
/// NX: not executable (bit 62).
pub const NO_EXEC_SHIFT: u64 = 62;

/// Width mask of a one-bit field.
pub const BIT: u64 = 1;
/// Width mask of a two-bit field.
pub const TWO_BITS: u64 = 3;
/// Width mask of the 40-bit frame number.
pub const PHYS_ADDR_BITS: u64 = 0xff_ffff_ffff;

/// PLV value of the kernel.
pub const PLV0: u64 = 0;
/// PLV value of user mode.
pub const PLV3: u64 = 3;
/// Cache attribute: strongly-ordered uncached.
pub const CACHE_SUC: u64 = 0;
/// Cache attribute: coherent cached.
pub const CACHE_CC: u64 = 1;
/// Cache attribute: weakly-ordered uncached.
pub const CACHE_WUC: u64 = 2;

/// A LoongArch64 page table entry.
#[derive(Debug, Clone, Copy)]
pub struct Entry(pub u64);

/// The one-bit field at `shift` of `x` is set.
pub open spec fn bit_set(x: u64, shift: u64) -> bool {
    field_get(x, shift, BIT) != 0
}

/// `x` with the one-bit field at `shift` set to `b`.
pub open spec fn with_bit(x: u64, shift: u64, b: bool) -> u64 {
    field_set(x, shift, BIT, if b { 1 } else { 0 })
}

/// The memory type that a cache attribute encodes.
pub open spec fn cache_attr(v: u64) -> MemAttributes {
    if v == CACHE_SUC {
        MemAttributes::Device
    } else if v == CACHE_CC {
        MemAttributes::Normal
    } else if v == CACHE_WUC {
        MemAttributes::Uncached
    } else {
        MemAttributes::Normal
    }
}

/// The cache attribute that encodes a memory type.
pub open spec fn cache_code(a: MemAttributes) -> u64 {
    match a {
        MemAttributes::Device => CACHE_SUC,
        MemAttributes::Normal => CACHE_CC,
        MemAttributes::PerCpu => CACHE_CC,
        MemAttributes::Uncached => CACHE_WUC,
    }
}

impl Entry {
    /// The empty entry.
    pub fn empty() -> (e: Entry)
        ensures
            e.0 == 0,
    {
        Entry(0)
    }

    /// An entry with the valid and present bits set.
    pub fn new_valid() -> (e: Entry)
        ensures
            e.0 == with_bit(with_bit(0, VALID_SHIFT, true), PRESENT_SHIFT, true),
    {
        let mut entry = Self::empty();
        entry.set_valid(true);
        entry
    }

    /// The valid bit is set.
    pub fn valid(&self) -> (r: bool)
        ensures
            r == bit_set(self.0, VALID_SHIFT),
    {
        get_field(self.0, VALID_SHIFT, BIT) != 0
    }

    /// The physical address of the frame.
    pub fn paddr(&self) -> (r: PhysAddr)
        ensures
            r.0 == (field_get(self.0, PHYS_ADDR_SHIFT, PHYS_ADDR_BITS) << 12) as usize,
    {
        PhysAddr((get_field(self.0, PHYS_ADDR_SHIFT, PHYS_ADDR_BITS) << 12) as usize)
    }

    /// Sets the frame number to that of `paddr`.
    pub fn set_paddr(&mut self, paddr: PhysAddr)
        ensures
            final(self).0 == field_set(old(self).0, PHYS_ADDR_SHIFT, PHYS_ADDR_BITS, paddr.0 as u64 >> 12),
    {
        self.0 = set_field(self.0, PHYS_ADDR_SHIFT, PHYS_ADDR_BITS, paddr.raw() as u64 >> 12);
    }

    /// Sets or clears both the valid and the present bit.
    pub fn set_valid(&mut self, valid: bool)
        ensures
            final(self).0 == with_bit(with_bit(old(self).0, VALID_SHIFT, valid), PRESENT_SHIFT, valid),
    {
        let v: u64 = if valid { 1 } else { 0 };
        self.0 = set_field(set_field(self.0, VALID_SHIFT, BIT, v), PRESENT_SHIFT, BIT, v);
    }

    /// The entry maps a huge page (GH bit).
    pub fn is_huge(&self) -> (r: bool)
        ensures
            r == bit_set(self.0, GH_SHIFT),
    {
        get_field(self.0, GH_SHIFT, BIT) != 0
    }

    /// Sets or clears the GH bit.
    pub fn set_is_huge(&mut self, b: bool)
        ensures
            final(self).0 == with_bit(old(self).0, GH_SHIFT, b),
    {
        self.0 = set_field(self.0, GH_SHIFT, BIT, if b { 1 } else { 0 });
    }

    /// The write bit is set.
    pub fn is_writable(&self) -> (r: bool)
        ensures
            r == bit_set(self.0, WRITE_SHIFT),
    {
        get_field(self.0, WRITE_SHIFT, BIT) != 0
    }

    /// Sets or clears the write bit.
    pub fn set_writable(&mut self, b: bool)
        ensures
            final(self).0 == with_bit(old(self).0, WRITE_SHIFT, b),
    {
        self.0 = set_field(self.0, WRITE_SHIFT, BIT, if b { 1 } else { 0 });
    }

    /// The not-executable bit is clear.
    pub fn is_executable(&self) -> (r: bool)
        ensures
            r == !bit_set(self.0, NO_EXEC_SHIFT),
    {
        get_field(self.0, NO_EXEC_SHIFT, BIT) == 0
    }

    /// Clears (`true`) or sets (`false`) the not-executable bit.
    pub fn set_executable(&mut self, b: bool)
        ensures
            final(self).0 == with_bit(old(self).0, NO_EXEC_SHIFT, !b),
    {
        self.0 = set_field(self.0, NO_EXEC_SHIFT, BIT, if b { 0 } else { 1 });
    }

    /// The privilege level is user mode (PLV3).
    pub fn is_lower_access(&self) -> (r: bool)
        ensures
            r == (field_get(self.0, PLV_SHIFT, TWO_BITS) == PLV3),
    {
        get_field(self.0, PLV_SHIFT, TWO_BITS) == PLV3
    }

    /// Sets the privilege level to user mode (PLV3) or kernel (PLV0).
    pub fn set_lower_access(&mut self, b: bool)
        ensures
            final(self).0 == field_set(old(self).0, PLV_SHIFT, TWO_BITS, if b { PLV3 } else { PLV0 }),
    {
        self.0 = set_field(self.0, PLV_SHIFT, TWO_BITS, if b { PLV3 } else { PLV0 });
    }

    /// The GH bit is set.
    pub fn is_global(&self) -> (r: bool)
        ensures
            r == bit_set(self.0, GH_SHIFT),
    {
        get_field(self.0, GH_SHIFT, BIT) != 0
    }

    /// Sets or clears the GH bit.
    pub fn set_global(&mut self, b: bool)
        ensures
            final(self).0 == with_bit(old(self).0, GH_SHIFT, b),
    {
        self.0 = set_field(self.0, GH_SHIFT, BIT, if b { 1 } else { 0 });
    }

    /// LoongArch64 has no accessed bit: always `false`.
    pub fn is_accessed(&self) -> (r: bool)
        ensures
            !r,
    {
        false
    }

    /// LoongArch64 has no accessed bit: the entry is left as it is.
    pub fn set_accessed(&mut self, _b: bool)
        ensures
            final(self).0 == old(self).0,
    {
    }

    /// The dirty bit is set.
    pub fn is_dirty(&self) -> (r: bool)
        ensures
            r == bit_set(self.0, DIRTY_SHIFT),
    {
        get_field(self.0, DIRTY_SHIFT, BIT) != 0
    }

    /// Sets or clears the dirty bit.
    pub fn set_dirty(&mut self, b: bool)
        ensures
            final(self).0 == with_bit(old(self).0, DIRTY_SHIFT, b),
    {
        self.0 = set_field(self.0, DIRTY_SHIFT, BIT, if b { 1 } else { 0 });
    }

    /// The memory type: device for strongly-ordered uncached, normal for
    /// coherent cached, uncached for weakly-ordered uncached, normal otherwise.
    pub fn mem_attr(&self) -> (r: MemAttributes)
        ensures
            r == cache_attr(field_get(self.0, CACHE_SHIFT, TWO_BITS)),
    {
        let v = get_field(self.0, CACHE_SHIFT, TWO_BITS);
        if v == CACHE_SUC {
            MemAttributes::Device
        } else if v == CACHE_CC {
            MemAttributes::Normal
        } else if v == CACHE_WUC {
            MemAttributes::Uncached
        } else {
            MemAttributes::Normal
        }
    }

    /// Sets the cache attribute that encodes `attr`.
    pub fn set_mem_attr(&mut self, attr: MemAttributes)
        ensures
            final(self).0 == field_set(old(self).0, CACHE_SHIFT, TWO_BITS, cache_code(attr)),
    {
        let cache: u64 = match attr {
            MemAttributes::Device => CACHE_SUC,
            MemAttributes::Normal | MemAttributes::PerCpu => CACHE_CC,
            MemAttributes::Uncached => CACHE_WUC,
        };
        self.0 = set_field(self.0, CACHE_SHIFT, TWO_BITS, cache);
    }
}

/// A field of the entry: its bit position, width mask and width.
pub open spec fn entry_field(shift: u64, mask: u64, width: u64) -> bool {
    ||| (shift == VALID_SHIFT || shift == DIRTY_SHIFT || shift == GH_SHIFT || shift == PRESENT_SHIFT
        || shift == WRITE_SHIFT || shift == NO_EXEC_SHIFT) && mask == BIT && width == 1
    ||| (shift == PLV_SHIFT || shift == CACHE_SHIFT) && mask == TWO_BITS && width == 2
    ||| shift == PHYS_ADDR_SHIFT && mask == PHYS_ADDR_BITS && width == 40
}

/// Writing a field of the entry and reading it back gives the low bits
/// written; every other field of the entry keeps its value.
pub proof fn lemma_entry_fields(x: u64, shift: u64, mask: u64, width: u64, v: u64, shift2: u64, mask2: u64, width2: u64)
    requires
        entry_field(shift, mask, width),
        entry_field(shift2, mask2, width2),
        shift != shift2,
    ensures
        field_get(field_set(x, shift, mask, v), shift, mask) == v & mask,
        field_get(field_set(x, shift, mask, v), shift2, mask2) == field_get(x, shift2, mask2),
{
    lemma_field_bits_consts();
    lemma_field_roundtrip(x, shift, mask, width, v);
    lemma_field_frame(x, shift, mask, width, v, shift2, mask2, width2);
}

/// Setting or clearing a one-bit flag is what its query then reports.
pub proof fn lemma_flag_roundtrip(x: u64, shift: u64, b: bool)
    requires
        entry_field(shift, BIT, 1),
    ensures
        bit_set(with_bit(x, shift, b), shift) == b,
{
    lemma_field_bits_consts();
    lemma_field_roundtrip(x, shift, BIT, 1, if b { 1 } else { 0 });
    assert((1u64 & 1) == 1 && (0u64 & 1) == 0) by (bit_vector);
}

/// The memory type that `mem_attr` reports for one that `set_mem_attr`
/// wrote: per-CPU memory is encoded as coherent cached, which reads back as
/// normal.
pub proof fn lemma_mem_attr_roundtrip(x: u64, a: MemAttributes)
    ensures
        cache_attr(field_get(field_set(x, CACHE_SHIFT, TWO_BITS, cache_code(a)), CACHE_SHIFT, TWO_BITS))
            == (match a {
            MemAttributes::PerCpu => MemAttributes::Normal,
            _ => a,
        }),
{
    lemma_field_bits_consts();
    lemma_field_roundtrip(x, CACHE_SHIFT, TWO_BITS, 2, cache_code(a));
    assert((0u64 & 3) == 0 && (1u64 & 3) == 1 && (2u64 & 3) == 2) by (bit_vector);
}

/// Granting or withdrawing user access is what `is_lower_access` then reports.
pub proof fn lemma_lower_access_roundtrip(x: u64, b: bool)
    ensures
        (field_get(field_set(x, PLV_SHIFT, TWO_BITS, if b { PLV3 } else { PLV0 }), PLV_SHIFT, TWO_BITS) == PLV3) == b,
{
    lemma_field_bits_consts();
    lemma_field_roundtrip(x, PLV_SHIFT, TWO_BITS, 2, if b { PLV3 } else { PLV0 });
    assert((3u64 & 3) == 3 && (0u64 & 3) == 0) by (bit_vector);
}

proof fn lemma_field_bits_consts()
    ensures
        BIT == ((1u64 << 1u64) - 1) as u64,
        TWO_BITS == ((1u64 << 2u64) - 1) as u64,
        PHYS_ADDR_BITS == ((1u64 << 40u64) - 1) as u64,
{
    assert(1u64 == ((1u64 << 1u64) - 1) as u64 && 3u64 == ((1u64 << 2u64) - 1) as u64
        && 0xff_ffff_ffffu64 == ((1u64 << 40u64) - 1) as u64) by (bit_vector);
}

/// The memory-access type field (bits 4 and 5) that `set_mem_attr` writes:
/// strongly-ordered uncached (0) for device memory, coherent cached (1) for
/// normal and per-CPU memory, weakly-ordered uncached (2) for uncached
/// memory; every other bit of the entry is kept.
pub proof fn lemma_mem_attr_field(x: u64, a: MemAttributes)
    ensures
        (field_set(x, CACHE_SHIFT, TWO_BITS, cache_code(a)) >> 4u64) & 3u64 == (match a {
            MemAttributes::Device => 0u64,
            MemAttributes::Normal => 1u64,
            MemAttributes::PerCpu => 1u64,
            MemAttributes::Uncached => 2u64,
        }),
        field_set(x, CACHE_SHIFT, TWO_BITS, cache_code(a)) & !0x30u64 == x & !0x30u64,
{
    let c = cache_code(a);
    assert(c < 4);
    assert(((((x & !(3u64 << 4u64)) | ((c & 3u64) << 4u64)) >> 4u64) & 3u64) == c && (((x & !(3u64
        << 4u64)) | ((c & 3u64) << 4u64)) & !0x30u64) == x & !0x30u64) by (bit_vector)
        requires
            c < 4,
    ;
}

/// The memory type that `mem_attr` reports for the memory-access type field
/// (bits 4 and 5) of an entry: 0 is device memory, 1 normal memory, 2
/// uncached memory, 3 normal memory.
pub proof fn lemma_mem_attr_of_field(x: u64)
    ensures
        cache_attr(field_get(x, CACHE_SHIFT, TWO_BITS)) == (if (x >> 4u64) & 3u64 == 0 {
            MemAttributes::Device
        } else if (x >> 4u64) & 3u64 == 2 {
            MemAttributes::Uncached
        } else {
            MemAttributes::Normal
        }),
{
}

/// Where the fields of an entry lie: valid is bit 0, dirty bit 1, privilege
/// level bits 2 and 3, memory-access type bits 4 and 5, global bit 6,
/// present bit 7, writable bit 8, physical address bits 12 to 51 and
/// no-execute bit 62; the privilege levels are kernel (0) and user (3); the
/// memory-access types are strongly-ordered uncached
/// (0), coherent cached (1) and weakly-ordered uncached (2).
pub proof fn lemma_entry_layout()
    ensures
        VALID_SHIFT == 0,
        DIRTY_SHIFT == 1,
        PLV_SHIFT == 2,
        CACHE_SHIFT == 4,
        GH_SHIFT == 6,
        PRESENT_SHIFT == 7,
        WRITE_SHIFT == 8,
        PHYS_ADDR_SHIFT == 12,
        PHYS_ADDR_BITS == ((1u64 << 40u64) - 1) as u64,
        NO_EXEC_SHIFT == 62,
        PLV0 == 0,
        PLV3 == 3,
        CACHE_SUC == 0,
        CACHE_CC == 1,
        CACHE_WUC == 2,
{
    lemma_field_bits_consts();
}

} // verus!
