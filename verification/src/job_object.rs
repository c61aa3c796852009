//! Job objects group a child's process tree so that it dies with its parent.
//! Only Windows has them; elsewhere these calls succeed and do nothing.
use vstd::prelude::*;

verus! {

/// Makes a job object to hold started processes; there is always one here.
pub fn create_job() -> (res: Option<()>)
    ensures
        res == Some(()),
{
    Some(())
}

/// Places a process in a job; always succeeds here.
pub fn assign_process(_job: &(), _pid: u32) -> (res: bool)
    ensures
        res,
{
    true
}

/// Ends every process in a job; always succeeds here, where a job holds nothing.
pub fn terminate_job(_job: &()) -> (res: bool)
    ensures
        res,
{
    true
}

} // verus!
