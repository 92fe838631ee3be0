//! Rounding addresses to multiples of an alignment, with the `num_align` crate.

use vstd::prelude::*;

use num_align::NumAlign;

verus! {

/// `value` rounded up to a multiple of `align`, as `NumAlign::align_up`
/// computes it: unchanged when already a multiple, else raised by
/// `align - value % align`.
pub open spec fn spec_align_up(value: usize, align: usize) -> int {
    if value % align == 0 {
        value as int
    } else {
        value + align - value % align
    }
}

/// `value` rounded down to a multiple of `align`, as `NumAlign::align_down`
/// computes it.
pub open spec fn spec_align_down(value: usize, align: usize) -> int {
    value - value % align
}

/// Rounding `value` up to `align` as `NumAlign::align_up` computes it stays in
/// range: `value` is already a multiple, or `value + align` does not overflow
/// (the crate adds `align` before it subtracts the remainder).
pub open spec fn align_up_fits(value: usize, align: usize) -> bool {
    value % align == 0 || value + align <= usize::MAX
}

/// `<usize as NumAlign>::align_up`: `value` itself when `value % align == 0`,
/// else `value + align - value % align`. `align` must not be 0, and when
/// `value` is not a multiple of it, `value + align` must fit in a `usize`, or
/// the call panics.
#[verifier::external_body]
pub(crate) fn align_up(value: usize, align: usize) -> (r: usize)
    requires
        align > 0,
        align_up_fits(value, align),
    ensures
        r == spec_align_up(value, align),
{
    value.align_up(align)
}

/// `<usize as NumAlign>::align_down`: `value` itself when `value % align == 0`,
/// else `value - value % align`. `align` must not be 0.
#[verifier::external_body]
pub(crate) fn align_down(value: usize, align: usize) -> (r: usize)
    requires
        align > 0,
    ensures
        r == spec_align_down(value, align),
{
    value.align_down(align)
}

/// Rounding up gives the smallest multiple of `align` at or above `value`.
pub proof fn lemma_align_up(value: usize, align: usize)
    requires
        align > 0,
    ensures
        value <= spec_align_up(value, align) < value + align,
        spec_align_up(value, align) % (align as int) == 0,
{
    assert(value <= spec_align_up(value, align) < value + align && spec_align_up(value, align) % (align as int) == 0) by (nonlinear_arith)
        requires
            align > 0,
    {
        vstd::arithmetic::div_mod::lemma_fundamental_div_mod(value as int, align as int);
        if value % align != 0 {
            vstd::arithmetic::div_mod::lemma_mod_multiples_basic(value as int / align as int + 1, align as int);
            assert(value + align - value % align == (value as int / align as int + 1) * align);
        }
    }
}

/// Rounding down gives the largest multiple of `align` at or below `value`.
pub proof fn lemma_align_down(value: usize, align: usize)
    requires
        align > 0,
    ensures
        value - align < spec_align_down(value, align) <= value,
        spec_align_down(value, align) % (align as int) == 0,
{
    assert(value - align < spec_align_down(value, align) <= value && spec_align_down(value, align) % (align as int) == 0) by (nonlinear_arith)
        requires
            align > 0,
    {
        vstd::arithmetic::div_mod::lemma_fundamental_div_mod(value as int, align as int);
        vstd::arithmetic::div_mod::lemma_mod_multiples_basic(value as int / align as int, align as int);
    }
}

} // verus!
