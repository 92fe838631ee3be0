//! The page-table vocabulary that the architecture entries encode: physical
//! addresses, access rights and memory attributes.

use vstd::prelude::*;

verus! {

/// A physical address.
#[derive(Debug, Clone, Copy, PartialEq, Eq, Structural)]
pub struct PhysAddr(pub usize);

impl PhysAddr {
    /// The address as a number.
    pub fn raw(&self) -> (r: usize)
        ensures
            r == self.0,
    {
        self.0
    }
}

impl From<usize> for PhysAddr {
    fn from(value: usize) -> (r: PhysAddr) {
        PhysAddr(value)
    }
}

impl vstd::std_specs::convert::FromSpecImpl<usize> for PhysAddr {
    open spec fn obeys_from_spec() -> bool {
        true
    }

    open spec fn from_spec(v: usize) -> PhysAddr {
        PhysAddr(v)
    }
}

/// Access rights of a mapping.
#[derive(Debug, Clone, Copy, PartialEq, Eq, Structural)]
pub struct AccessFlags {
    pub read: bool,
    pub write: bool,
    pub execute: bool,
    /// Accessible from the lower (user) privilege level.
    pub lower: bool,
}

/// The memory type of a mapping.
#[derive(Debug, Clone, Copy, PartialEq, Eq, Structural)]
pub enum MemAttributes {
    /// Normal cached memory.
    Normal,
    /// Device memory.
    Device,
    /// Normal memory, not cached.
    Uncached,
    /// Per-CPU memory, mapped like normal memory.
    PerCpu,
}

/// Access rights and memory type of a mapping.
#[derive(Debug, Clone, Copy, PartialEq, Eq, Structural)]
pub struct MemConfig {
    pub access: AccessFlags,
    pub attrs: MemAttributes,
}

} // verus!
