//! A chassis for services. Its core is the heap-profiling control plane
//! behind the `/pprof/*` routes: a process answers requests of the
//! remote-profiling protocol, switches sampling on and off, dumps a
//! profile, and resolves the addresses of a profile to the names of its
//! functions.
//!
//! - `jeprof` holds the routes, as functions from a request and the
//!   replies of the host to the next step.
//! - `control` knows the control points of the allocator, the operations
//!   on them and how their replies are read.
//! - `symbol_table` holds the symbols of the executable and finds the
//!   symbol that encloses an address; `nm` and `maps` read the listings
//!   that it is built from.
//! - `response` shapes responses; `text` and `fields` read and write the
//!   bytes of the protocol.
//! - `allocator`, `logging`, `signals` and `user_service` are the small
//!   pieces around the core.
//!
//! Nothing here touches the allocator, the file system or the network:
//! that is the work of the host, which hands in plain values and performs
//! the steps it is asked for.

use vstd::prelude::*;

pub mod allocator;
pub mod control;
pub mod error;
pub mod fields;
pub mod jeprof;
pub mod logging;
pub mod maps;
pub mod nm;
pub mod response;
pub mod signals;
pub mod symbol_table;
pub mod text;
pub mod user_service;

verus! {

/// Starts the parts of the chassis that need nothing from the host.
pub fn init() -> (r: Result<(), error::InitError>)
    ensures
        r == Ok::<(), error::InitError>(()),
{
    logging::init()
}

/// Stops the chassis: the signals first, then logging, the reverse of the
/// order in which they start.
pub fn shutdown() -> (r: Result<(), error::ShutdownError>)
    ensures
        r == Ok::<(), error::ShutdownError>(()),
{
    match signals::shutdown() {
        Ok(()) => logging::shutdown(),
        Err(e) => Err(e),
    }
}

} // verus!
