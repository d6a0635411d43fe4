//! The shared queue of tasks, as the scheduler's rules reach it.

use crossbeam_deque::{Injector, Steal};
use vstd::prelude::*;

verus! {

/// `crossbeam_deque::Injector`, the shared queue of tasks, carried through the
/// library as an opaque value. It changes under the hands of other threads,
/// so nothing is said of what it holds.
#[verifier::external_type_specification]
#[verifier::external_body]
#[verifier::reject_recursive_types(T)]
pub struct ExInjector<T>(Injector<T>);

/// What the shared queue answered to one attempt to take a task from it.
pub enum StealOutcome<T> {
    /// A task was taken.
    Success(T),
    /// The queue was empty at the time of the attempt.
    Empty,
    /// Another thread got in the way; the attempt is to be repeated.
    Retry,
}

/// Takes the task at the head of the queue by `crossbeam_deque::Injector::steal`
/// and tells its three answers apart. Which of them comes depends on what
/// other threads do to the queue meanwhile, so nothing is claimed of it.
#[verifier::external_body]
pub(crate) fn steal<T>(queue: &Injector<T>) -> (outcome: StealOutcome<T>) {
    match queue.steal() {
        Steal::Success(task) => StealOutcome::Success(task),
        Steal::Empty => StealOutcome::Empty,
        Steal::Retry => StealOutcome::Retry,
    }
}

/// Appends `task` to the queue by `crossbeam_deque::Injector::push`. The queue
/// is shared with other threads, so nothing is claimed of what it holds
/// afterwards.
#[verifier::external_body]
pub(crate) fn push<T>(queue: &Injector<T>, task: T) {
    queue.push(task);
}

} // verus!
