//! Bit fields of 64-bit words: reading and replacing a field, and the laws
//! that relate the two.

use vstd::prelude::*;

verus! {

/// The field of `x` that is `mask` wide (a run of low ones) at bit `shift`.
pub open spec fn field_get(x: u64, shift: u64, mask: u64) -> u64 {
    (x >> shift) & mask
}

/// `x` with the field that is `mask` wide at bit `shift` replaced by the low
/// bits of `v`, all other bits kept.
pub open spec fn field_set(x: u64, shift: u64, mask: u64, v: u64) -> u64 {
    (x & !(mask << shift)) | ((v & mask) << shift)
}

/// `mask` is a run of `width` low ones that fits at bit `shift`.
pub open spec fn is_field(shift: u64, mask: u64, width: u64) -> bool {
    0 < width <= 64 && shift + width <= 64 && mask == (if width == 64 {
        0xffff_ffff_ffff_ffffu64
    } else {
        ((1u64 << width) - 1) as u64
    })
}

/// Reading back a field after replacing it gives the low bits written.
pub proof fn lemma_field_roundtrip(x: u64, shift: u64, mask: u64, width: u64, v: u64)
    requires
        is_field(shift, mask, width),
    ensures
        field_get(field_set(x, shift, mask, v), shift, mask) == v & mask,
{
    assert(((((x & !(mask << shift)) | ((v & mask) << shift)) >> shift) & mask) == v & mask) by (bit_vector)
        requires
            0 < width <= 64,
            shift + width <= 64,
            mask == (if width == 64 {
                0xffff_ffff_ffff_ffffu64
            } else {
                ((1u64 << width) - 1) as u64
            }),
    ;
}

/// Replacing a field leaves every field that does not overlap it as it was.
pub proof fn lemma_field_frame(
    x: u64,
    shift: u64,
    mask: u64,
    width: u64,
    v: u64,
    shift2: u64,
    mask2: u64,
    width2: u64,
)
    requires
        is_field(shift, mask, width),
        is_field(shift2, mask2, width2),
        shift + width <= shift2 || shift2 + width2 <= shift,
    ensures
        field_get(field_set(x, shift, mask, v), shift2, mask2) == field_get(x, shift2, mask2),
{
    assert(((((x & !(mask << shift)) | ((v & mask) << shift)) >> shift2) & mask2) == ((x >> shift2)
        & mask2)) by (bit_vector)
        requires
            0 < width <= 64,
            shift + width <= 64,
            mask == (if width == 64 {
                0xffff_ffff_ffff_ffffu64
            } else {
                ((1u64 << width) - 1) as u64
            }),
            0 < width2 <= 64,
            shift2 + width2 <= 64,
            mask2 == (if width2 == 64 {
                0xffff_ffff_ffff_ffffu64
            } else {
                ((1u64 << width2) - 1) as u64
            }),
            shift + width <= shift2 || shift2 + width2 <= shift,
    ;
}

} // verus!

verus! {

/// Reads the field that is `mask` wide at bit `shift`.
pub fn get_field(x: u64, shift: u64, mask: u64) -> (r: u64)
    requires
        shift < 64,
    ensures
        r == field_get(x, shift, mask),
{
    (x >> shift) & mask
}

/// Replaces the field that is `mask` wide at bit `shift` by the low bits of `v`.
pub fn set_field(x: u64, shift: u64, mask: u64, v: u64) -> (r: u64)
    requires
        shift < 64,
    ensures
        r == field_set(x, shift, mask, v),
{
    (x & !(mask << shift)) | ((v & mask) << shift)
}

} // verus!
