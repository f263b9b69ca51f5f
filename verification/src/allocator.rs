//! The policy of the allocator wrapper: a failed allocation is fatal.
//!
//! The wrapper itself implements the global allocator interface in the
//! host; here is what it decides after each call of the allocator that it
//! wraps.

use vstd::prelude::*;

verus! {

/// Whether a failed allocation must end the process: it must, unless the
/// thread is already on its way out because of an earlier failure.
pub open spec fn allocation_is_fatal(failed: bool, panicking: bool) -> bool {
    failed && !panicking
}

/// Decides what follows an allocation. `failed` says that the allocator
/// returned no memory, `panicking` that this thread has already reported a
/// failed allocation.
pub fn must_panic_on_alloc(failed: bool, panicking: bool) -> (r: bool)
    ensures
        r == allocation_is_fatal(failed, panicking),
{
    failed && !panicking
}

/// Whether a failed reallocation must end the process: as for an
/// allocation, but only where the block was to grow. A block that could not
/// shrink stays as it is.
pub open spec fn reallocation_is_fatal(
    failed: bool,
    panicking: bool,
    old_size: usize,
    new_size: usize,
) -> bool {
    failed && !panicking && new_size > old_size
}

/// Decides what follows a reallocation from `old_size` to `new_size`
/// bytes.
pub fn must_panic_on_realloc(failed: bool, panicking: bool, old_size: usize, new_size: usize) -> (r:
    bool)
    ensures
        r == reallocation_is_fatal(failed, panicking, old_size, new_size),
{
    failed && !panicking && new_size > old_size
}

} // verus!
