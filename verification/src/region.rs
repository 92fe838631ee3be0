//! Named memory regions, as the hardware abstraction layer lists them for
//! diagnostics.

use vstd::prelude::*;

verus! {

/// The kind of a named memory region.
#[derive(Debug, Clone, Copy, PartialEq, Eq, Structural)]
pub enum MemoryType {
    Usable,
    Reserved,
}

/// A memory region with a name that says where it came from.
#[derive(Debug, Clone, Copy)]
pub struct MemoryDescriptor {
    pub name: &'static str,
    pub physical_start: usize,
    pub size_in_bytes: usize,
    pub memory_type: MemoryType,
}

} // verus!
