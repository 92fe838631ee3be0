//! Powering secondary CPUs on.

use vstd::prelude::*;

verus! {

/// Why a CPU could not be powered on.
#[derive(Debug)]
pub enum CpuOnError {
    NotSupported,
    AlreadyOn,
    InvalidParameters,
    /// Another error, by its message.
    Other(String),
}

/// What the power-on request for a CPU hands to the firmware: the CPU's
/// hardware identifier and the argument for its entry, the physical address
/// of its per-CPU metadata. Both must be known for the CPU index, else the
/// parameters are invalid.
pub fn cpu_on_target(meta_addr: Option<usize>, cpu_id: Option<usize>) -> (r: Result<(usize, usize), CpuOnError>)
    ensures
        r matches Ok((id, arg)) ==> cpu_id == Some(id) && meta_addr == Some(arg),
        r is Err <==> (meta_addr is None || cpu_id is None),
        r matches Err(e) ==> e is InvalidParameters,
{
    let arg = match meta_addr {
        Some(a) => a,
        None => return Err(CpuOnError::InvalidParameters),
    };
    let id = match cpu_id {
        Some(i) => i,
        None => return Err(CpuOnError::InvalidParameters),
    };
    Ok((id, arg))
}

} // verus!
