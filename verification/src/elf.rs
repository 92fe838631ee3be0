//! ELF `.rela.dyn` relocation: which words a relocation pass writes, and
//! with what.

use vstd::prelude::*;

verus! {

/// An ELF RELA relocation entry.
#[derive(Debug, Clone, Copy)]
pub struct Rela {
    /// Where the relocation applies.
    pub r_offset: u64,
    /// Relocation type (low 32 bits) and symbol index.
    pub r_info: u64,
    /// The constant addend.
    pub r_addend: i64,
}

/// The relocation type of `r`.
pub open spec fn rela_type(r: Rela) -> u32 {
    (r.r_info & 0xFFFF_FFFF) as u32
}

impl Rela {
    /// The relocation type: the low 32 bits of `r_info`.
    pub fn r_type_raw(&self) -> (r: u32)
        ensures
            r == rela_type(*self),
    {
        (self.r_info & 0xFFFF_FFFF) as u32
    }
}

/// The words that relocating `relas` by `load_offset` writes, in order: for
/// each entry of type `r_type`, its offset plus the load offset receives its
/// addend plus the load offset.
pub open spec fn reloc_writes(relas: Seq<Rela>, load_offset: i128, r_type: u32) -> Seq<(usize, usize)>
    decreases relas.len(),
{
    if relas.len() == 0 {
        Seq::empty()
    } else {
        let prev = reloc_writes(relas.drop_last(), load_offset, r_type);
        let r = relas.last();
        if rela_type(r) == r_type {
            prev.push(
                ((r.r_offset as i128 + load_offset) as usize, (r.r_addend as i128 + load_offset) as usize),
            )
        } else {
            prev
        }
    }
}

/// The words that resetting the relocations of type `r_type` writes: each
/// entry's offset receives its addend.
pub open spec fn reset_writes(relas: Seq<Rela>, r_type: u32) -> Seq<(usize, usize)>
    decreases relas.len(),
{
    if relas.len() == 0 {
        Seq::empty()
    } else {
        let prev = reset_writes(relas.drop_last(), r_type);
        let r = relas.last();
        if rela_type(r) == r_type {
            prev.push((r.r_offset as usize, r.r_addend as u64 as usize))
        } else {
            prev
        }
    }
}

/// The load offset moves no address out of range of `i128`.
pub open spec fn offset_in_range(relas: Seq<Rela>, load_offset: i128) -> bool {
    forall|k: int|
        0 <= k < relas.len() ==> i128::MIN <= (#[trigger] relas[k]).r_offset + load_offset <= i128::MAX
            && i128::MIN <= relas[k].r_addend + load_offset <= i128::MAX
}

/// The `(address, value)` writes that applying the relocations of type
/// `r_type` with `load_offset` makes, in table order.
pub fn apply_reloc(load_offset: i128, relas: &[Rela], r_type: u32) -> (r: Vec<(usize, usize)>)
    requires
        offset_in_range(relas@, load_offset),
    ensures
        r@ == reloc_writes(relas@, load_offset, r_type),
{
    let mut writes: Vec<(usize, usize)> = Vec::new();
    for i in 0..relas.len()
        invariant
            offset_in_range(relas@, load_offset),
            writes@ == reloc_writes(relas@.take(i as int), load_offset, r_type),
    {
        let current = relas[i];
        assert(relas@.take(i as int + 1).drop_last() =~= relas@.take(i as int));
        assert(relas@.take(i as int + 1).last() == current);
        assert(i128::MIN <= relas@[i as int].r_offset + load_offset <= i128::MAX);
        if current.r_type_raw() == r_type {
            let addr = (current.r_offset as i128 + load_offset) as usize;
            let val = (current.r_addend as i128 + load_offset) as usize;
            writes.push((addr, val));
        }
    }
    assert(relas@.take(relas@.len() as int) =~= relas@);
    writes
}

/// The `(address, value)` writes that resetting the relocations of type
/// `r_type` to their link-time values makes, in table order.
pub fn reset(relas: &[Rela], r_type: u32) -> (r: Vec<(usize, usize)>)
    ensures
        r@ == reset_writes(relas@, r_type),
{
    let mut writes: Vec<(usize, usize)> = Vec::new();
    for i in 0..relas.len()
        invariant
            writes@ == reset_writes(relas@.take(i as int), r_type),
    {
        let current = relas[i];
        assert(relas@.take(i as int + 1).drop_last() =~= relas@.take(i as int));
        assert(relas@.take(i as int + 1).last() == current);
        if current.r_type_raw() == r_type {
            writes.push((current.r_offset as usize, current.r_addend as u64 as usize));
        }
    }
    assert(relas@.take(relas@.len() as int) =~= relas@);
    writes
}

} // verus!
