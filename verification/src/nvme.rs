//! Errors and DMA memory of the NVMe driver.

use vstd::prelude::*;

use crate::dma::DmaError;

verus! {

/// Errors of the NVMe driver.
#[derive(Debug, Clone, Copy)]
pub enum Error {
    NoMemory,
    Layout,
    Dma(DmaError),
    Unknown(&'static str),
}

impl From<DmaError> for Error {
    fn from(value: DmaError) -> (r: Error) {
        match value {
            DmaError::NoMemory => Error::NoMemory,
            DmaError::LayoutError => Error::Layout,
            other => Error::Dma(other),
        }
    }
}

impl vstd::std_specs::convert::FromSpecImpl<DmaError> for Error {
    open spec fn obeys_from_spec() -> bool {
        true
    }

    open spec fn from_spec(value: DmaError) -> Error {
        match value {
            DmaError::NoMemory => Error::NoMemory,
            DmaError::LayoutError => Error::Layout,
            other => Error::Dma(other),
        }
    }
}

/// DMA memory of the driver: its CPU address, bus address, size and alignment.
#[derive(Debug, Clone, Copy)]
pub struct DMAMem {
    pub virt: usize,
    pub phys: u64,
    pub size: usize,
    pub align: usize,
}

} // verus!
