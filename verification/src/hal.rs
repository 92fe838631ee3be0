//! The services that a platform provides to the kernel, and that the kernel
//! provides to drivers.

use vstd::prelude::*;

verus! {

/// Platform bring-up and power services.
pub trait Platform {
    /// Finishes platform setup once the kernel heap exists.
    fn post_allocator();
}

/// CPU services.
pub trait Cpu {
    /// Hardware identifier of the running CPU.
    fn current_cpu_id() -> usize;

    /// Interrupts are enabled on the running CPU.
    fn irq_is_enabled() -> bool;

    /// Enables or disables interrupts on the running CPU.
    fn irq_set_enabled(enabled: bool);
}

/// The early console.
pub trait Console {
    /// Writes bytes, returning how many were written.
    fn early_write(bytes: &[u8]) -> usize;

    /// Reads a byte, if one is waiting.
    fn early_read() -> Option<u8>;
}

/// Kernel services that drivers use: mapping device registers.
pub trait KernelOp {
    /// Maps `size` bytes of device registers at `addr`, returning the
    /// virtual address.
    fn ioremap(&self, addr: usize, size: usize) -> Option<usize>;

    /// Releases a mapping from `ioremap`.
    fn iounmap(&self, vaddr: usize, size: usize);
}

/// Whether address translation has been enabled.
pub struct MmuFlag {
    enabled: bool,
}

impl MmuFlag {
    /// Translation not yet enabled.
    pub fn new() -> (r: MmuFlag)
        ensures
            !r.spec_enabled(),
    {
        MmuFlag { enabled: false }
    }

    /// Translation is enabled.
    pub closed spec fn spec_enabled(&self) -> bool {
        self.enabled
    }

    /// Translation is enabled.
    pub fn is_mmu_enabled(&self) -> (r: bool)
        ensures
            r == self.spec_enabled(),
    {
        self.enabled
    }

    /// Records that translation is enabled.
    pub fn set_mmu_enabled(&mut self)
        ensures
            final(self).spec_enabled(),
    {
        self.enabled = true;
    }

    /// The address at which the CPU reaches physical address `paddr`: the
    /// architecture's kernel mapping of it, `mapped`, once translation is
    /// enabled, else `paddr` itself.
    pub fn phys_to_virt(&self, paddr: usize, mapped: usize) -> (r: usize)
        ensures
            r == (if self.spec_enabled() { mapped } else { paddr }),
    {
        if self.enabled {
            mapped
        } else {
            paddr
        }
    }

    /// The physical address of the CPU address `vaddr`: the architecture's
    /// translation of it, `translated`, once translation is enabled, else
    /// `vaddr` itself.
    pub fn virt_to_phys(&self, vaddr: usize, translated: usize) -> (r: usize)
        ensures
            r == (if self.spec_enabled() { translated } else { vaddr }),
    {
        if self.enabled {
            translated
        } else {
            vaddr
        }
    }
}

/// Arguments of the test runner command.
#[derive(Debug, Clone)]
pub struct TestArgs {
    /// Target architecture.
    pub target: String,
    /// Test suite.
    pub suite: String,
    /// Debug under GDB.
    pub debug: bool,
}

} // verus!
