//! Ending the process of a container.

use crate::diagnostic::Error;
use vstd::prelude::*;

verus! {

/// Why a process could not be ended.
#[derive(Debug, Clone, Copy, PartialEq, Eq, Structural)]
pub enum KillError {
    /// This platform offers no way to end a process by its id.
    Unsupported,
    /// The operating system refused, or the process is gone.
    Os(i32),
}

/// Ends the process `pid`. This is the portable form of the operation: it reports
/// that the platform is not supported, so that the engine can be built and
/// tried where no process can be ended by id.
pub fn kill_process(pid: u32) -> (r: Result<(), KillError>)
    ensures
        r == Err::<(), KillError>(KillError::Unsupported),
{
    Err(KillError::Unsupported)
}

/// What stopping a container comes to, given how ending its process went:
/// always success. A process that is already gone is a stopped process.
pub fn stop_outcome(killed: Result<(), KillError>) -> (r: Result<(), Error>)
    ensures
        r is Ok,
{
    Ok(())
}

/// Stops the container whose process is `pid`. Stopping is idempotent: it
/// succeeds whether or not the process could be ended.
pub fn stop_container(pid: u32) -> (r: Result<(), Error>)
    ensures
        r is Ok,
{
    stop_outcome(kill_process(pid))
}

} // verus!
