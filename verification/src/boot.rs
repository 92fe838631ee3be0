//! Cold boot of secondary RISC-V harts: the table that the primary hart fills
//! with each hart's per-CPU area and the release flags that let a waiting
//! hart go.

use vstd::prelude::*;

verus! {

/// Harts that can be started from a cold boot.
pub const MAX_COLD_BOOT_HARTS: usize = 64;
/// Boot state: no hart has claimed primary yet.
pub const BOOT_STATE_UNCLAIMED: usize = usize::MAX;
/// Boot state: the primary hart is initialising.
pub const BOOT_STATE_PRIMARY_INIT: usize = usize::MAX - 1;
/// Boot state: secondary harts may wait for their release.
pub const BOOT_STATE_SECONDARY_READY: usize = usize::MAX - 2;

/// Why a secondary hart cannot be released.
#[derive(Debug, Clone, Copy, PartialEq, Eq, Structural)]
pub enum ColdBootReleaseError {
    /// The hart identifier is beyond the cold boot table.
    InvalidHartId,
    /// No per-CPU area was recorded for the hart.
    NotPrepared,
    /// The hart was released before.
    AlreadyReleased,
}

/// For each hart: the physical address of its per-CPU area (0: none), and
/// whether it has been released (non-zero).
pub struct ColdBootTable {
    meta: Vec<usize>,
    release: Vec<usize>,
}

/// The state of the table: per-CPU area addresses and release flags.
pub struct BootTableView {
    pub meta: Seq<usize>,
    pub release: Seq<usize>,
}

/// What releasing hart `hart` does to the table, and what it returns.
pub open spec fn release_step(t: BootTableView, hart: usize) -> (BootTableView, Result<(), ColdBootReleaseError>) {
    if hart >= MAX_COLD_BOOT_HARTS {
        (t, Err(ColdBootReleaseError::InvalidHartId))
    } else if t.meta[hart as int] == 0 {
        (t, Err(ColdBootReleaseError::NotPrepared))
    } else if t.release[hart as int] == 0 {
        (BootTableView { meta: t.meta, release: t.release.update(hart as int, 1) }, Ok(()))
    } else {
        (t, Err(ColdBootReleaseError::AlreadyReleased))
    }
}

/// `meta` with the address of each listed hart recorded, in list order.
pub open spec fn prepared_meta(meta: Seq<usize>, hart_ids: Seq<usize>, addrs: Seq<usize>) -> Seq<usize>
    decreases hart_ids.len(),
{
    if hart_ids.len() == 0 || addrs.len() == 0 {
        meta
    } else {
        prepared_meta(meta, hart_ids.drop_last(), addrs.drop_last()).update(
            hart_ids.last() as int,
            addrs.last(),
        )
    }
}

impl ColdBootTable {
    /// The table's state.
    pub closed spec fn view(&self) -> BootTableView {
        BootTableView { meta: self.meta@, release: self.release@ }
    }

    /// The table has one entry per hart.
    pub open spec fn wf(&self) -> bool {
        self.view().meta.len() == MAX_COLD_BOOT_HARTS && self.view().release.len() == MAX_COLD_BOOT_HARTS
    }

    /// A table with no per-CPU area recorded and no hart released.
    pub fn new() -> (r: ColdBootTable)
        ensures
            r.wf(),
            r.view().meta == Seq::new(MAX_COLD_BOOT_HARTS as nat, |i: int| 0usize),
            r.view().release == Seq::new(MAX_COLD_BOOT_HARTS as nat, |i: int| 0usize),
    {
        let mut meta: Vec<usize> = Vec::new();
        let mut release: Vec<usize> = Vec::new();
        for i in 0..MAX_COLD_BOOT_HARTS
            invariant
                meta@ == Seq::new(i as nat, |k: int| 0usize),
                release@ == Seq::new(i as nat, |k: int| 0usize),
        {
            meta.push(0);
            release.push(0);
            assert(meta@ =~= Seq::new(i as nat + 1, |k: int| 0usize));
            assert(release@ =~= Seq::new(i as nat + 1, |k: int| 0usize));
        }
        ColdBootTable { meta, release }
    }

    /// Records, for each CPU index, the per-CPU area address of its hart;
    /// for a hart listed twice the later address stands.
    pub fn prepare_secondary_boot(&mut self, hart_ids: &[usize], meta_paddrs: &[usize])
        requires
            old(self).wf(),
            hart_ids.len() == meta_paddrs.len(),
            forall|k: int| 0 <= k < hart_ids.len() ==> #[trigger] hart_ids[k] < MAX_COLD_BOOT_HARTS,
        ensures
            final(self).wf(),
            final(self).view().release == old(self).view().release,
            final(self).view().meta == prepared_meta(old(self).view().meta, hart_ids@, meta_paddrs@),
    {
        let n = hart_ids.len();
        for cpu_idx in 0..n
            invariant
                n == hart_ids.len(),
                n == meta_paddrs.len(),
                self.wf(),
                self.view().release == old(self).view().release,
                forall|k: int| 0 <= k < hart_ids.len() ==> #[trigger] hart_ids[k] < MAX_COLD_BOOT_HARTS,
                self.view().meta == prepared_meta(
                    old(self).view().meta,
                    hart_ids@.take(cpu_idx as int),
                    meta_paddrs@.take(cpu_idx as int),
                ),
        {
            let hart_id = hart_ids[cpu_idx];
            let meta_paddr = meta_paddrs[cpu_idx];
            assert(hart_ids@.take(cpu_idx as int + 1).drop_last() =~= hart_ids@.take(cpu_idx as int));
            assert(meta_paddrs@.take(cpu_idx as int + 1).drop_last() =~= meta_paddrs@.take(cpu_idx as int));
            assert(hart_ids@.take(cpu_idx as int + 1).last() == hart_id);
            assert(meta_paddrs@.take(cpu_idx as int + 1).last() == meta_paddr);
            self.meta.set(hart_id, meta_paddr);
        }
        assert(hart_ids@.take(n as int) =~= hart_ids@);
        assert(meta_paddrs@.take(n as int) =~= meta_paddrs@);
    }

    /// Lets hart `hart_id` go: fails when the identifier is beyond the table,
    /// when no per-CPU area was recorded for it, or when it was released
    /// before.
    pub fn release_secondary_hart(&mut self, hart_id: usize) -> (r: Result<(), ColdBootReleaseError>)
        requires
            old(self).wf(),
        ensures
            final(self).wf(),
            (final(self).view(), r) == release_step(old(self).view(), hart_id),
    {
        if hart_id >= MAX_COLD_BOOT_HARTS {
            return Err(ColdBootReleaseError::InvalidHartId);
        }
        if self.meta[hart_id] == 0 {
            return Err(ColdBootReleaseError::NotPrepared);
        }
        if self.release[hart_id] == 0 {
            self.release.set(hart_id, 1);
            assert(self.view() == release_step(old(self).view(), hart_id).0);
            Ok(())
        } else {
            Err(ColdBootReleaseError::AlreadyReleased)
        }
    }
}

/// A prepared hart is released by its first release and by no later one:
/// the second release of a hart fails with `AlreadyReleased` and changes
/// nothing.
pub proof fn lemma_release_once(t: BootTableView, hart: usize)
    requires
        t.meta.len() == MAX_COLD_BOOT_HARTS,
        t.release.len() == MAX_COLD_BOOT_HARTS,
        hart < MAX_COLD_BOOT_HARTS,
        t.meta[hart as int] != 0,
        t.release[hart as int] == 0,
    ensures
        release_step(t, hart).1 == Ok::<(), ColdBootReleaseError>(()),
        release_step(release_step(t, hart).0, hart).1 == Err::<(), ColdBootReleaseError>(ColdBootReleaseError::AlreadyReleased),
        release_step(release_step(t, hart).0, hart).0 == release_step(t, hart).0,
{
}

/// Preparing distinct harts records each hart's own per-CPU area address and
/// leaves the other harts' entries as they were.
pub proof fn lemma_prepared_meta(meta: Seq<usize>, hart_ids: Seq<usize>, addrs: Seq<usize>, k: int, h: int)
    requires
        hart_ids.len() == addrs.len(),
        hart_ids.no_duplicates(),
        forall|i: int| 0 <= i < hart_ids.len() ==> #[trigger] hart_ids[i] < meta.len(),
        0 <= h < meta.len(),
    ensures
        prepared_meta(meta, hart_ids, addrs).len() == meta.len(),
        0 <= k < hart_ids.len() ==> prepared_meta(meta, hart_ids, addrs)[hart_ids[k] as int] == addrs[k],
        (forall|i: int| 0 <= i < hart_ids.len() ==> hart_ids[i] != h) ==> prepared_meta(meta, hart_ids, addrs)[h] == meta[h],
    decreases hart_ids.len(),
{
    if hart_ids.len() > 0 {
        let n = hart_ids.len() - 1;
        assert(hart_ids.drop_last().no_duplicates());
        lemma_prepared_meta(meta, hart_ids.drop_last(), addrs.drop_last(), k, h);
        if 0 <= k < n {
            lemma_prepared_meta(meta, hart_ids.drop_last(), addrs.drop_last(), k, hart_ids[k] as int);
            assert(hart_ids[k] != hart_ids[n]);
        }
        if forall|i: int| 0 <= i < hart_ids.len() ==> hart_ids[i] != h {
            assert(hart_ids[n] != h);
        }
    }
}

/// What a hart does when it enters the kernel image.
#[derive(Debug, Clone, Copy, PartialEq, Eq, Structural)]
pub enum HeadAction {
    /// It claimed the boot and goes on as the primary hart.
    Primary,
    /// Its identifier lies beyond the table: it parks for good.
    Park,
    /// It waits, then looks again.
    Wait,
    /// It starts as a secondary hart on the per-CPU area at `meta`.
    Secondary { meta: usize },
}

/// One look of hart `hart` at the boot state `state` and the table `t`: the
/// boot state afterwards and what the hart does. The first hart to look at
/// an unclaimed boot claims it; a hart beyond the table parks; any other
/// hart waits until secondary harts are let through, its per-CPU area is
/// recorded and it is released.
pub open spec fn head_step(state: usize, t: BootTableView, hart: usize) -> (usize, HeadAction) {
    if state == BOOT_STATE_UNCLAIMED {
        (BOOT_STATE_PRIMARY_INIT, HeadAction::Primary)
    } else if hart >= MAX_COLD_BOOT_HARTS {
        (state, HeadAction::Park)
    } else if state != BOOT_STATE_SECONDARY_READY || t.meta[hart as int] == 0 || t.release[hart as int] == 0 {
        (state, HeadAction::Wait)
    } else {
        (state, HeadAction::Secondary { meta: t.meta[hart as int] })
    }
}

impl ColdBootTable {
    /// One look of hart `hart_id` at the boot state `state` and this table:
    /// the boot state afterwards and what the hart does.
    pub fn head_step(&self, state: usize, hart_id: usize) -> (r: (usize, HeadAction))
        requires
            self.wf(),
        ensures
            r == head_step(state, self.view(), hart_id),
    {
        if state == BOOT_STATE_UNCLAIMED {
            return (BOOT_STATE_PRIMARY_INIT, HeadAction::Primary);
        }
        if hart_id >= MAX_COLD_BOOT_HARTS {
            return (state, HeadAction::Park);
        }
        if state != BOOT_STATE_SECONDARY_READY {
            return (state, HeadAction::Wait);
        }
        let meta = self.meta[hart_id];
        if meta == 0 || self.release[hart_id] == 0 {
            return (state, HeadAction::Wait);
        }
        (state, HeadAction::Secondary { meta })
    }
}

/// At most one hart becomes primary: after any hart's look, no hart's next
/// look claims the boot again.
pub proof fn lemma_single_primary(state: usize, t: BootTableView, first: usize, second: usize)
    ensures
        head_step(head_step(state, t, first).0, t, second).1 != HeadAction::Primary,
{
}

/// Once secondary harts are let through, a hart whose per-CPU area was
/// recorded starts on that area as soon as it is released.
pub proof fn lemma_released_hart_starts(t: BootTableView, hart: usize)
    requires
        t.meta.len() == MAX_COLD_BOOT_HARTS,
        t.release.len() == MAX_COLD_BOOT_HARTS,
        hart < MAX_COLD_BOOT_HARTS,
        t.meta[hart as int] != 0,
    ensures
        head_step(BOOT_STATE_SECONDARY_READY, release_step(t, hart).0, hart).1 == (HeadAction::Secondary { meta: t.meta[hart as int] }),
        head_step(BOOT_STATE_SECONDARY_READY, t, hart).1 == (if t.release[hart as int] == 0 {
            HeadAction::Wait
        } else {
            HeadAction::Secondary { meta: t.meta[hart as int] }
        }),
{
}

} // verus!
