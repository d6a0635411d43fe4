//! The rule of submission: a runtime that was shut down accepts nothing.

use crate::executor::queue::push;
use crossbeam_deque::Injector;
use std::sync::atomic::{AtomicBool, Ordering};
use vstd::prelude::*;

verus! {

/// Why a submission was refused.
#[derive(Clone, Copy, Debug, PartialEq, Eq, Structural)]
pub enum SpawnError {
    /// The runtime had been shut down when the computation was submitted.
    RuntimeStopped,
}

impl SpawnError {
    /// The text that describes this error.
    pub open spec fn message(&self) -> Seq<char> {
        "runtime has been stopped"@
    }

    /// The error as text.
    pub fn to_string(&self) -> (text: String)
        ensures
            text@ == self.message(),
    {
        "runtime has been stopped".to_owned()
    }
}

/// The rule of submission: refused exactly when the runtime was shut down.
pub open spec fn verdict_for(is_shutdown: bool) -> Result<(), SpawnError> {
    if is_shutdown {
        Err(SpawnError::RuntimeStopped)
    } else {
        Ok(())
    }
}

/// Decides on a submission from the shutdown flag as it was read at that
/// instant: it is refused exactly when the flag was set, and a refused
/// computation is never enqueued.
pub fn check_open(is_shutdown: bool) -> (verdict: Result<(), SpawnError>)
    ensures
        verdict == verdict_for(is_shutdown),
{
    if is_shutdown {
        Err(SpawnError::RuntimeStopped)
    } else {
        Ok(())
    }
}

/// Submits `task`: the shutdown flag is read, and where it was not set the
/// task is pushed onto the queue. A refused task is dropped without ever
/// reaching the queue. The flag is shared with other threads, so which
/// verdict comes holds for the instant at which it was read.
pub fn submit<T>(
    queue: &Injector<T>,
    is_shutdown: &AtomicBool,
    task: T,
) -> (verdict: Result<(), SpawnError>) {
    let verdict = check_open(is_shutdown.load(Ordering::SeqCst));
    if verdict.is_ok() {
        push(queue, task);
    }
    verdict
}

} // verus!
