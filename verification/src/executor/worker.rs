//! The worker's rule: what to do with the answer of the shared queue.

use crate::executor::queue::{steal, StealOutcome};
use crossbeam_deque::Injector;
use std::sync::atomic::{AtomicBool, Ordering};
use vstd::prelude::*;

verus! {

/// What a worker does next.
pub enum WorkerAction<T> {
    /// Run one poll step of what was taken from the queue.
    Execute(T),
    /// Leave the loop: the runtime was shut down and the queue was seen empty.
    Exit,
    /// Yield the thread, then try the queue again.
    Yield,
    /// Try the queue again at once.
    Retry,
}

/// The worker's rule. A task that was taken is executed, whether or not the
/// runtime was shut down; an empty queue ends the worker exactly when the
/// runtime was shut down, and has it yield otherwise; contention is retried.
pub open spec fn action_for<T>(outcome: StealOutcome<T>, is_shutdown: bool) -> WorkerAction<T> {
    match outcome {
        StealOutcome::Success(task) => WorkerAction::Execute(task),
        StealOutcome::Empty => if is_shutdown {
            WorkerAction::Exit
        } else {
            WorkerAction::Yield
        },
        StealOutcome::Retry => WorkerAction::Retry,
    }
}

/// Decides what a worker does with `outcome`, given the shutdown flag as it
/// was read after the attempt.
pub fn worker_action<T>(outcome: StealOutcome<T>, is_shutdown: bool) -> (action: WorkerAction<T>)
    ensures
        action == action_for(outcome, is_shutdown),
        action is Exit <==> outcome is Empty && is_shutdown,
        outcome matches StealOutcome::Success(task) ==> action == WorkerAction::Execute(task),
{
    match outcome {
        StealOutcome::Success(task) => WorkerAction::Execute(task),
        StealOutcome::Empty => if is_shutdown {
            WorkerAction::Exit
        } else {
            WorkerAction::Yield
        },
        StealOutcome::Retry => WorkerAction::Retry,
    }
}

/// Shutdown and liveness of a worker. It leaves exactly when it sees the queue
/// empty after shutdown, so it never leaves while the runtime is open and
/// never stays once the queue has run dry after shutdown; and whatever it
/// takes from the queue it executes, shut down or not.
pub proof fn lemma_worker_leaves_only_when_done<T>(outcome: StealOutcome<T>, is_shutdown: bool)
    ensures
        action_for(outcome, is_shutdown) is Exit <==> outcome is Empty && is_shutdown,
        outcome matches StealOutcome::Success(task) ==> action_for(outcome, is_shutdown)
            == WorkerAction::Execute(task),
        !is_shutdown ==> !(action_for(outcome, is_shutdown) is Exit),
{
}

/// One turn of a worker: it asks the queue for a task, then reads the shutdown
/// flag, and decides by the worker's rule. The queue and the flag are shared
/// with other threads, so the decision holds for what this worker saw at the
/// time and nothing is claimed of it here.
pub fn worker_step<T>(queue: &Injector<T>, is_shutdown: &AtomicBool) -> (action: WorkerAction<T>) {
    let outcome = steal(queue);
    let flag: bool = is_shutdown.load(Ordering::SeqCst);
    worker_action(outcome, flag)
}

} // verus!
