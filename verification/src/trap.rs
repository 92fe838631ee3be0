//! LoongArch64 exception vectors and interrupt dispatch.

use vstd::prelude::*;

use vstd::arithmetic::power2::{lemma_pow2_unfold, pow2};

use crate::mem::StaticCell;

verus! {

/// Bytes of one exception vector.
pub const VECSIZE: usize = 0x200;
/// Vectors in the exception table.
pub const VECTOR_COUNT: usize = 128;
/// Vector index of the TLB refill handler.
pub const TLB_REFILL_VECTOR: usize = 80;
/// First vector index of the interrupt handlers.
pub const FIRST_INTERRUPT_VECTOR: usize = 64;
/// Last vector index of the interrupt handlers.
pub const LAST_INTERRUPT_VECTOR: usize = 64 + 14;
/// Bytes of the exception table flushed from the instruction cache after setup.
pub const VECTOR_FLUSH_BYTES: usize = 0x400;
/// Interrupt number of the timer (ESTAT.IS bit 11).
pub const TI: u32 = 11;

/// Entry address of TLB refill exceptions, for an exception table at `eentry`.
pub fn tlbrentry_addr(eentry: usize) -> (r: usize)
    requires
        eentry + TLB_REFILL_VECTOR * VECSIZE <= usize::MAX,
    ensures
        r == eentry + TLB_REFILL_VECTOR * VECSIZE,
{
    eentry + TLB_REFILL_VECTOR * VECSIZE
}

/// `floor(log2(x))`.
pub fn ilog2(x: usize) -> (r: u32)
    requires
        x > 0,
    ensures
        pow2(r as nat) <= x < pow2(r as nat + 1),
{
    let mut p: usize = 1;
    let mut n: u32 = 0;
    proof {
        vstd::arithmetic::power2::lemma2_to64();
    }
    while p <= x / 2
        invariant
            x > 0,
            p == pow2(n as nat),
            1 <= p <= x,
            n < 64,
        decreases x - p,
    {
        proof {
            lemma_pow2_unfold(n as nat + 1);
            if n >= 63 {
                vstd::arithmetic::power2::lemma_pow2_strictly_increases(n as nat, 64);
                assert(pow2(64) == 0x1_0000_0000_0000_0000) by {
                    vstd::arithmetic::power2::lemma2_to64_rest();
                }
            }
        }
        p = p * 2;
        n = n + 1;
    }
    proof {
        lemma_pow2_unfold(n as nat + 1);
    }
    n
}

/// The vector size code written to ECFG.VS: `log2(VECSIZE / 4)`.
pub fn vint_size() -> (r: u32)
    ensures
        pow2(r as nat) <= VECSIZE / 4 < pow2(r as nat + 1),
{
    ilog2(VECSIZE / 4)
}

/// What an exception vector is set up to run.
#[derive(Debug, Clone, Copy, PartialEq, Eq, Structural)]
pub enum HandlerKind {
    /// Reserved exceptions: return at once.
    Reserved,
    /// Vectored interrupts: dispatch the pending interrupts.
    Interrupt,
}

/// The handler that the primary CPU installs at vector `idx`: the first 64
/// are reserved, the next 15 dispatch interrupts, the rest are left alone.
pub fn handler_for(idx: usize) -> (r: Option<HandlerKind>)
    ensures
        r == (if idx < FIRST_INTERRUPT_VECTOR {
            Some(HandlerKind::Reserved)
        } else if idx <= LAST_INTERRUPT_VECTOR {
            Some(HandlerKind::Interrupt)
        } else {
            None::<HandlerKind>
        }),
{
    if idx < FIRST_INTERRUPT_VECTOR {
        Some(HandlerKind::Reserved)
    } else if idx <= LAST_INTERRUPT_VECTOR {
        Some(HandlerKind::Interrupt)
    } else {
        None
    }
}

/// Bit `i` of `x` is set.
pub open spec fn bit32(x: u32, i: u32) -> bool {
    (x >> i) & 1 == 1
}

/// The interrupt numbers pending in the ESTAT interrupt-status bits `estat`,
/// lowest first: the order in which they are dispatched.
pub fn pending_irqs(estat: u32) -> (r: Vec<u32>)
    ensures
        forall|a: int, b: int| 0 <= a < b < r@.len() ==> r@[a] < r@[b],
        forall|i: u32| r@.contains(i) <==> (i < 32 && bit32(estat, i)),
{
    let mut out: Vec<u32> = Vec::new();
    for i in 0..32u32
        invariant
            forall|a: int, b: int| 0 <= a < b < out@.len() ==> out@[a] < out@[b],
            forall|a: int| 0 <= a < out@.len() ==> out@[a] < i,
            forall|x: u32| out@.contains(x) <==> (x < i && bit32(estat, x)),
    {
        let ghost before = out@;
        if (estat >> i) & 1 == 1 {
            out.push(i);
            assert forall|x: u32| out@.contains(x) <==> (x < i + 1 && bit32(estat, x)) by {
                if out@.contains(x) && x != i {
                    let k = choose|k: int| 0 <= k < out@.len() && out@[k] == x;
                    assert(before[k] == x);
                }
                if x < i && bit32(estat, x) {
                    assert(before.contains(x));
                    let k = choose|k: int| 0 <= k < before.len() && before[k] == x;
                    assert(out@[k] == x);
                }
                if x == i {
                    assert(out@[out@.len() - 1] == i);
                }
            }
        }
    }
    out
}

/// What dispatching an interrupt does.
#[derive(Debug, Clone, Copy, PartialEq, Eq, Structural)]
pub enum IrqAction {
    /// Run the registered timer handler.
    Timer,
    /// Nothing.
    Ignore,
}

/// Dispatches interrupt `hwirq`: the timer interrupt runs the timer handler,
/// others are ignored.
pub fn handle_irq(hwirq: u32) -> (r: IrqAction)
    ensures
        r == (if hwirq == TI {
            IrqAction::Timer
        } else {
            IrqAction::Ignore
        }),
{
    if hwirq == TI {
        IrqAction::Timer
    } else {
        IrqAction::Ignore
    }
}

/// Registers `handler` as the timer interrupt's handler in `cell`; a later
/// registration replaces an earlier one.
pub fn register_timer_handler<H>(cell: &mut StaticCell<H>, handler: H)
    ensures
        final(cell).get_spec() == Some(handler),
{
    cell.set(handler);
}

/// The handler that a timer interrupt runs: the one registered last. A timer
/// interrupt before any registration is a fault, so one must be registered.
pub fn timer_handler<H>(cell: &StaticCell<H>) -> (r: &H)
    requires
        cell.get_spec() is Some,
    ensures
        Some(*r) == cell.get_spec(),
{
    cell.get()
}

} // verus!
