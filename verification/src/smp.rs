//! Per-CPU data areas of secondary CPUs: their size, where each CPU's
//! metadata and stack lie, and the addresses the metadata walk reads.

use vstd::prelude::*;

use crate::align::{align_up, align_up_fits, lemma_align_up, spec_align_up};

verus! {

/// Bytes of the per-CPU metadata block.
pub const PER_CPU_META_SIZE: usize = 16;

/// The metadata at the start of each CPU's stack area.
#[derive(Debug, Clone, Copy, PartialEq, Eq, Structural)]
pub struct PerCpuMeta {
    /// Initial stack pointer of the CPU.
    pub stack_top: usize,
    /// Hardware identifier of the CPU.
    pub cpu_id: usize,
}

/// Bytes of one CPU's area: its metadata, its stack and its copy of the
/// per-CPU link section, rounded up to a page.
pub open spec fn spec_percpu_data_size(stack_size: usize, link_len: usize, page_size: usize) -> int {
    spec_align_up((PER_CPU_META_SIZE + stack_size + link_len) as usize, page_size)
}

/// Bytes of one CPU's area: metadata, stack and per-CPU link section, rounded
/// up to a page.
pub fn percpu_data_size(stack_size: usize, link_len: usize, page_size: usize) -> (r: usize)
    requires
        page_size > 0,
        PER_CPU_META_SIZE + stack_size + link_len <= usize::MAX,
        align_up_fits((PER_CPU_META_SIZE + stack_size + link_len) as usize, page_size),
    ensures
        r == spec_percpu_data_size(stack_size, link_len, page_size),
        r >= PER_CPU_META_SIZE + stack_size + link_len,
        (r as int) % (page_size as int) == 0,
{
    proof {
        lemma_align_up((PER_CPU_META_SIZE + stack_size + link_len) as usize, page_size);
    }
    align_up(PER_CPU_META_SIZE + stack_size + link_len, page_size)
}

/// Where CPU `idx`'s metadata lies: after the per-CPU link section of its area.
pub open spec fn meta_addr(data_start: usize, idx: int, percpu_size: usize, link_len: usize) -> int {
    data_start + idx * percpu_size + link_len
}

/// The metadata of CPU `idx` with hardware identifier `cpu_id`: its stack
/// starts right after the metadata block.
pub open spec fn meta_of(data_start: usize, idx: int, cpu_id: usize, percpu_size: usize, link_len: usize) -> PerCpuMeta {
    PerCpuMeta {
        stack_top: (meta_addr(data_start, idx, percpu_size, link_len) + PER_CPU_META_SIZE) as usize,
        cpu_id,
    }
}

/// The areas of all CPUs fit below the top of the address space.
pub open spec fn areas_fit(data_start: usize, cpus: nat, percpu_size: usize, link_len: usize) -> bool {
    data_start + cpus * percpu_size + link_len + PER_CPU_META_SIZE <= usize::MAX
}

/// Lays out the per-CPU areas from `data_start`, one of `percpu_size` bytes
/// per CPU in list order: returns where each CPU's metadata goes and what it
/// holds.
pub fn init_percpu(data_start: usize, cpu_ids: &[usize], percpu_size: usize, link_len: usize) -> (r: Vec<(usize, PerCpuMeta)>)
    requires
        areas_fit(data_start, cpu_ids@.len(), percpu_size, link_len),
    ensures
        r@.len() == cpu_ids@.len(),
        forall|k: int|
            0 <= k < r@.len() ==> (#[trigger] r@[k]).0 == meta_addr(data_start, k, percpu_size, link_len)
                && r@[k].1 == meta_of(data_start, k, cpu_ids@[k], percpu_size, link_len),
{
    let mut out: Vec<(usize, PerCpuMeta)> = Vec::new();
    let n = cpu_ids.len();
    for idx in 0..n
        invariant
            n == cpu_ids@.len(),
            areas_fit(data_start, n as nat, percpu_size, link_len),
            out@.len() == idx,
            forall|k: int|
                0 <= k < out@.len() ==> (#[trigger] out@[k]).0 == meta_addr(data_start, k, percpu_size, link_len)
                    && out@[k].1 == meta_of(data_start, k, cpu_ids@[k], percpu_size, link_len),
    {
        assert(idx * percpu_size <= n * percpu_size) by (nonlinear_arith)
            requires
                idx < n,
        ;
        let cpu_percpu_start = data_start + idx * percpu_size;
        let meta_start = cpu_percpu_start + link_len;
        let meta = PerCpuMeta { cpu_id: cpu_ids[idx], stack_top: meta_start + PER_CPU_META_SIZE };
        out.push((meta_start, meta));
    }
    out
}

/// The number of whole per-CPU areas in `[data_start, data_end)`.
pub open spec fn area_count(data_start: usize, data_end: usize, percpu_size: usize) -> int {
    (data_end - data_start) / (percpu_size as int)
}

/// Where each CPU's metadata lies, CPU by CPU, for per-CPU data laid out
/// from `data_start` to `data_end` in areas of `percpu_size` bytes whose
/// per-CPU link section is `link_len` bytes long.
pub open spec fn meta_addrs(data_start: usize, data_end: usize, percpu_size: usize, link_len: usize) -> Seq<usize> {
    Seq::new(
        area_count(data_start, data_end, percpu_size) as nat,
        |k: int| meta_addr(data_start, k, percpu_size, link_len) as usize,
    )
}

/// The addresses of the metadata of every CPU whose area lies in
/// `[data_start, data_end)`: one per area, after its per-CPU link section,
/// which are the addresses `init_percpu` writes each CPU's metadata to.
pub fn cpu_meta_list(data_start: usize, data_end: usize, percpu_size: usize, link_len: usize) -> (r: Vec<usize>)
    requires
        percpu_size > 0,
        data_start <= data_end,
        data_end + link_len <= usize::MAX,
    ensures
        r@ == meta_addrs(data_start, data_end, percpu_size, link_len),
{
    let count = (data_end - data_start) / percpu_size;
    let mut out: Vec<usize> = Vec::new();
    for k in 0..count
        invariant
            count == area_count(data_start, data_end, percpu_size),
            percpu_size > 0,
            data_start <= data_end,
            data_end + link_len <= usize::MAX,
            out@ == meta_addrs(data_start, data_end, percpu_size, link_len).take(k as int),
    {
        assert(k * percpu_size + percpu_size <= data_end - data_start) by (nonlinear_arith)
            requires
                k < count,
                count == (data_end - data_start) / (percpu_size as int),
                percpu_size > 0,
                data_start <= data_end,
        {
            vstd::arithmetic::div_mod::lemma_fundamental_div_mod((data_end - data_start) as int, percpu_size as int);
        }
        let addr = data_start + k * percpu_size + link_len;
        out.push(addr);
        assert(out@ =~= meta_addrs(data_start, data_end, percpu_size, link_len).take(k as int + 1));
    }
    assert(meta_addrs(data_start, data_end, percpu_size, link_len).take(count as int) =~= meta_addrs(
        data_start,
        data_end,
        percpu_size,
        link_len,
    ));
    out
}

/// The metadata walk finds what the layout wrote: for areas laid out for `n`
/// CPUs, it lists `n` addresses, the `k`-th being where CPU `k`'s metadata
/// was placed.
pub proof fn lemma_meta_walk_matches_layout(data_start: usize, n: nat, percpu_size: usize, link_len: usize)
    requires
        percpu_size > 0,
        data_start + n * percpu_size + link_len <= usize::MAX,
    ensures
        ({
            let data_end = (data_start + n * percpu_size) as usize;
            &&& meta_addrs(data_start, data_end, percpu_size, link_len).len() == n
            &&& forall|k: int|
                0 <= k < n ==> #[trigger] meta_addrs(data_start, data_end, percpu_size, link_len)[k]
                    == meta_addr(data_start, k, percpu_size, link_len)
        }),
{
    let data_end = (data_start + n * percpu_size) as usize;
    assert((n * percpu_size) / (percpu_size as int) == n) by (nonlinear_arith)
        requires
            percpu_size > 0,
    {
        vstd::arithmetic::div_mod::lemma_div_multiples_vanish(n as int, percpu_size as int);
    }
    assert forall|k: int| 0 <= k < n implies meta_addr(data_start, k, percpu_size, link_len) <= usize::MAX by {
        assert(k * percpu_size <= n * percpu_size) by (nonlinear_arith)
            requires
                0 <= k < n,
        ;
    }
}

} // verus!
