//! The kernel's page table slot: set once at boot, replaced when the kernel
//! switches tables, and lent out for updates.

use vstd::prelude::*;

verus! {

/// A page table as the platform knows it: an identifier and the physical
/// address of its root.
#[derive(Debug, Clone, Copy, PartialEq, Eq, Structural)]
pub struct PageTableRef {
    pub id: usize,
    pub addr: usize,
}

/// An owned page table.
#[derive(Debug)]
pub struct PageTable {
    raw: PageTableRef,
}

impl PageTable {
    /// Takes ownership of the platform table `raw`.
    pub fn raw_to_own(raw: PageTableRef) -> (r: PageTable)
        ensures
            r.raw() == raw,
    {
        PageTable { raw }
    }

    /// The platform table.
    pub closed spec fn raw(&self) -> PageTableRef {
        self.raw
    }

    /// The platform table.
    pub fn raw_ref(&self) -> (r: PageTableRef)
        ensures
            r == self.raw(),
    {
        self.raw
    }

    /// The table's identifier.
    pub fn id(&self) -> (r: usize)
        ensures
            r == self.raw().id,
    {
        self.raw.id
    }

    /// The physical address of the table's root.
    pub fn addr(&self) -> (r: usize)
        ensures
            r == self.raw().addr,
    {
        self.raw.addr
    }
}

/// The slot that holds the kernel's page table once it is set.
pub struct KernelTable {
    table: Option<PageTable>,
}

impl KernelTable {
    /// The platform table held, if any.
    pub closed spec fn current(&self) -> Option<PageTableRef> {
        match self.table {
            Some(t) => Some(t.raw),
            None => None,
        }
    }

    /// An empty slot.
    pub fn new() -> (r: KernelTable)
        ensures
            r.current() == None::<PageTableRef>,
    {
        KernelTable { table: None }
    }

    /// Installs the kernel table, which must not have been set before.
    pub fn set_kernal_table(&mut self, table: PageTable)
        requires
            old(self).current() is None,
        ensures
            final(self).current() == Some(table.raw()),
    {
        self.table = Some(table);
    }

    /// Installs `new` and hands back the table it replaces: the one held, or,
    /// when none was set, the table `active` that the hardware was using.
    pub fn replace_kernel_table(&mut self, new: PageTable, active: PageTableRef) -> (r: PageTable)
        ensures
            final(self).current() == Some(new.raw()),
            r.raw() == (match old(self).current() {
                Some(t) => t,
                None => active,
            }),
    {
        let mut previous = Some(new);
        core::mem::swap(&mut self.table, &mut previous);
        match previous {
            Some(old) => old,
            None => PageTable::raw_to_own(active),
        }
    }

    /// Runs `f` on the kernel table, which must have been set.
    pub fn with_kernel_table<R, F: FnOnce(&PageTable) -> R>(&self, f: F) -> (r: R)
        requires
            self.current() is Some,
            forall|t: &PageTable| call_requires(f, (t,)),
        ensures
            exists|t: &PageTable| Some(t.raw()) == self.current() && call_ensures(f, (t,), r),
    {
        let table = self.table.as_ref().unwrap();
        let r = f(table);
        assert(Some(table.raw()) == self.current() && call_ensures(f, (table,), r));
        r
    }
}

} // verus!
