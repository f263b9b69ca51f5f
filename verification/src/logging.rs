//! Logging of the chassis. The log sink belongs to the host, so there is
//! nothing to set up here and nothing that can fail.

use crate::error::{InitError, ShutdownError};
use vstd::prelude::*;

verus! {

/// Starts logging.
pub fn init() -> (r: Result<(), InitError>)
    ensures
        r == Ok::<(), InitError>(()),
{
    Ok(())
}

/// Stops logging. The host flushes its log sink when this has returned.
pub fn shutdown() -> (r: Result<(), ShutdownError>)
    ensures
        r == Ok::<(), ShutdownError>(()),
{
    Ok(())
}

} // verus!
