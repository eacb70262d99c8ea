use vstd::prelude::*;

use crate::worker::{Phase, Worker};

verus! {

/// Relies on num_cpus::get: the number of logical CPUs available to this process,
/// which it documents to be always at least one.
#[verifier::external_body]
fn available_parallelism() -> (r: usize)
    ensures
        r >= 1,
{
    num_cpus::get()
}

/// `count` fresh workers, one per slot `0..count`, each about to read the signal.
pub fn spawn_workers(count: usize) -> (r: Vec<Worker>)
    ensures
        r@.len() == count,
        forall|i: int| 0 <= i < count ==> #[trigger] r@[i] == (Worker { slot: i as usize, phase: Phase::Checking }),
{
    let mut workers: Vec<Worker> = Vec::new();
    for n in it: 0..count
        invariant
            workers@.len() == n,
            forall|i: int| 0 <= i < n ==> #[trigger] workers@[i] == (Worker { slot: i as usize, phase: Phase::Checking }),
    {
        workers.push(Worker::new(n));
    }
    workers
}

/// One worker per available CPU, with distinct slots `0..count`; at least one.
pub fn plan_workers() -> (r: Vec<Worker>)
    ensures
        r@.len() >= 1,
        forall|i: int| 0 <= i < r@.len() ==> #[trigger] r@[i] == (Worker { slot: i as usize, phase: Phase::Checking }),
{
    let count = available_parallelism();
    spawn_workers(count)
}

} // verus!
