//! A task: the slot that holds a computation while it is in flight.

use crate::join_handle::JoinError;
use vstd::prelude::*;

verus! {

/// How one poll step of a computation ended.
#[derive(Clone, Copy, Debug, PartialEq, Eq, Structural)]
pub enum PollOutcome {
    /// The computation suspended; some waker will bring its task back.
    Pending,
    /// The computation ran to its end.
    Ready,
    /// The computation failed fatally during the step.
    Panicked,
}

/// The computation slot of a task. It holds the computation from submission
/// until the poll step in which it ends or fails; from then on it is empty,
/// and a wakeup that still arrives finds nothing to do.
pub struct Task<F> {
    future: Option<F>,
}

impl<F> View for Task<F> {
    type V = Option<F>;

    closed spec fn view(&self) -> Option<F> {
        self.future
    }
}

/// The slot after a poll step with this outcome, where `slot` is the slot as
/// the step left it: a suspended computation stays, one that ended or failed
/// is dropped, and an empty slot stays empty.
pub open spec fn slot_after<F>(slot: Option<F>, outcome: PollOutcome) -> Option<F> {
    match outcome {
        PollOutcome::Pending => slot,
        PollOutcome::Ready => None,
        PollOutcome::Panicked => None,
    }
}

/// The error that a poll step with this outcome leaves for the join state:
/// that the computation panicked, where there was one to poll.
pub open spec fn failure_of<F>(slot: Option<F>, outcome: PollOutcome) -> Option<JoinError> {
    if slot is Some && outcome is Panicked {
        Some(JoinError::Panicked)
    } else {
        None
    }
}

impl<F> Task<F> {
    /// A task that holds `future`.
    pub fn new(future: F) -> (task: Task<F>)
        ensures
            task@ == Some(future),
    {
        Task { future: Some(future) }
    }

    /// The computation to poll, or nothing where the wakeup is stale. What
    /// the poll step does to the computation stays in the slot.
    pub fn future_slot(&mut self) -> (slot: Option<&mut F>)
        ensures
            (match old(self)@ {
                None => slot is None && final(self)@ is None,
                Some(future) => slot is Some && *slot.unwrap() == future && final(self)@ == Some(
                    *final(slot.unwrap()),
                ),
            }),
    {
        self.future.as_mut()
    }

    /// Settles the slot after a poll step. A suspended computation stays; one
    /// that ended or failed is dropped, and a failure is handed out to be
    /// recorded in the join state. An empty slot stays empty.
    pub fn settle(&mut self, outcome: PollOutcome) -> (failure: Option<JoinError>)
        ensures
            final(self)@ == slot_after(old(self)@, outcome),
            failure == failure_of(old(self)@, outcome),
    {
        if self.future.is_none() {
            return None;
        }
        match outcome {
            PollOutcome::Pending => None,
            PollOutcome::Ready => {
                self.future = None;
                None
            },
            PollOutcome::Panicked => {
                self.future = None;
                Some(JoinError::Panicked)
            },
        }
    }
}

} // verus!
