//! Sizing the pool of workers that fetch packages.

use vstd::prelude::*;

verus! {

/// The pool never has fewer workers than this.
pub const MIN_WORKERS: usize = 2;

/// The number of workers for a host with `units` processing units: one per
/// unit, and two on a host with a single unit.
pub open spec fn workers_for(units: nat) -> nat {
    if units > 1 {
        units
    } else {
        MIN_WORKERS as nat
    }
}

/// Calls `num_cpus::get`, which reports the number of processing units
/// available to this process. The number depends on the machine and on how
/// the process was started, so nothing is claimed of it.
#[verifier::external_body]
fn processing_units() -> usize {
    num_cpus::get()
}

/// The number of workers for a host with `units` processing units.
pub fn worker_count(units: usize) -> (workers: usize)
    ensures
        workers == workers_for(units as nat),
        workers >= MIN_WORKERS,
{
    if units > 1 {
        units
    } else {
        MIN_WORKERS
    }
}

/// The number of workers for this host: one per processing unit that the
/// host reports, and never fewer than two.
pub fn pool_size() -> (workers: usize)
    ensures
        workers >= MIN_WORKERS,
{
    worker_count(processing_units())
}

} // verus!
