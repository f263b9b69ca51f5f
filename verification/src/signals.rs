//! Shutdown signals. Waiting for a signal is the host's work; the chassis
//! holds nothing that would have to be released.

use crate::error::ShutdownError;
use vstd::prelude::*;

verus! {

/// Stops listening for signals.
pub fn shutdown() -> (r: Result<(), ShutdownError>)
    ensures
        r == Ok::<(), ShutdownError>(()),
{
    Ok(())
}

} // verus!
