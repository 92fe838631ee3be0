//! Results of RISC-V supervisor binary interface calls.

use vstd::prelude::*;

verus! {

/// What an SBI call that reported `error` returns: success for error code 0,
/// else the error code as a signed number.
pub fn sbi_result(error: usize) -> (r: Result<(), isize>)
    ensures
        error == 0 ==> r == Ok::<(), isize>(()),
        error != 0 ==> r == Err::<(), isize>(error as isize),
{
    if error == 0 {
        Ok(())
    } else {
        Err(error as isize)
    }
}

} // verus!
