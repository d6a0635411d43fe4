//! The join state of a submitted computation: its result, once it has one,
//! and the waker of whoever waits for it.

use std::task::Waker;
use vstd::prelude::*;

verus! {

/// Why a computation ended without a value.
#[derive(Clone, Copy, Debug, PartialEq, Eq, Structural)]
pub enum JoinError {
    /// The computation was abandoned before it produced a value.
    Cancelled,
    /// The computation failed fatally during a poll.
    Panicked,
}

impl JoinError {
    /// The text that describes this error.
    pub open spec fn message(&self) -> Seq<char> {
        match self {
            JoinError::Cancelled => "task was cancelled"@,
            JoinError::Panicked => "task panicked"@,
        }
    }

    /// The error as text.
    pub fn to_string(&self) -> (text: String)
        ensures
            text@ == self.message(),
    {
        match self {
            JoinError::Cancelled => "task was cancelled".to_owned(),
            JoinError::Panicked => "task panicked".to_owned(),
        }
    }
}

/// What a join state holds, as contracts speak of it.
pub struct JoinStateView<T> {
    /// The result, from completion until the observer takes it.
    pub result: Option<Result<T, JoinError>>,
    /// The waker of the most recent observer, until completion fires it.
    pub waker: Option<Waker>,
}

impl<T> JoinStateView<T> {
    /// The state after completion with `result`.
    pub open spec fn completed(self, result: Result<T, JoinError>) -> JoinStateView<T> {
        JoinStateView { result: Some(result), waker: None }
    }

    /// The state after an observer polled with `waker`.
    pub open spec fn polled(self, waker: Waker) -> JoinStateView<T> {
        match self.result {
            Some(_) => JoinStateView { result: None, waker: self.waker },
            None => JoinStateView { result: None, waker: Some(waker) },
        }
    }
}

/// The state shared by the observer of a computation and the one that
/// completes it.
pub struct JoinState<T> {
    result: Option<Result<T, JoinError>>,
    waker: Option<Waker>,
}

impl<T> View for JoinState<T> {
    type V = JoinStateView<T>;

    closed spec fn view(&self) -> JoinStateView<T> {
        JoinStateView { result: self.result, waker: self.waker }
    }
}

impl<T> JoinState<T> {
    /// The state at submission: no result, and nobody waiting.
    pub fn new() -> (state: JoinState<T>)
        ensures
            state@.result is None,
            state@.waker is None,
    {
        JoinState { result: None, waker: None }
    }

    /// Whether a result is there to be taken.
    pub fn is_finished(&self) -> (finished: bool)
        ensures
            finished == self@.result is Some,
    {
        self.result.is_some()
    }

    /// Installs the result and hands out the waker of the waiting observer,
    /// if there is one, for the caller to fire. The waker slot is left empty.
    pub fn complete(&mut self, result: Result<T, JoinError>) -> (to_wake: Option<Waker>)
        ensures
            final(self)@ == old(self)@.completed(result),
            to_wake == old(self)@.waker,
    {
        self.result = Some(result);
        self.waker.take()
    }

    /// One poll by the observer. A result that is there is taken and handed
    /// out; otherwise `waker` replaces the stored one and nothing is handed
    /// out.
    pub fn poll(&mut self, waker: Waker) -> (output: Option<Result<T, JoinError>>)
        ensures
            output == old(self)@.result,
            final(self)@ == old(self)@.polled(waker),
    {
        let output = self.result.take();
        if output.is_none() {
            self.waker = Some(waker);
        }
        output
    }
}

/// What can happen to a join state: the observer polls it with a waker, or
/// the computation's end is recorded in it.
pub enum JoinEvent<T> {
    Poll(Waker),
    Complete(Result<T, JoinError>),
}

impl<T> JoinStateView<T> {
    /// The state after `event`.
    pub open spec fn after(self, event: JoinEvent<T>) -> JoinStateView<T> {
        match event {
            JoinEvent::Poll(waker) => self.polled(waker),
            JoinEvent::Complete(result) => self.completed(result),
        }
    }

    /// Whether `event` takes the result from absent to present.
    pub open spec fn fills(self, event: JoinEvent<T>) -> bool {
        self.result is None && self.after(event).result is Some
    }

    /// Whether `event` hands out a waker to be fired.
    pub open spec fn wakes(self, event: JoinEvent<T>) -> bool {
        event is Complete && self.waker is Some
    }
}

/// How many of `events` record the computation's end.
pub open spec fn completions<T>(events: Seq<JoinEvent<T>>) -> nat
    decreases events.len(),
{
    if events.len() == 0 {
        0
    } else {
        completions(events.drop_first()) + if events[0] is Complete {
            1nat
        } else {
            0nat
        }
    }
}

/// How often the result goes from absent to present while `events` happen
/// one after the other, starting in `state`.
pub open spec fn fill_count<T>(state: JoinStateView<T>, events: Seq<JoinEvent<T>>) -> nat
    decreases events.len(),
{
    if events.len() == 0 {
        0
    } else {
        fill_count(state.after(events[0]), events.drop_first()) + if state.fills(events[0]) {
            1nat
        } else {
            0nat
        }
    }
}

/// How many wakers are handed out to be fired while `events` happen one
/// after the other, starting in `state`.
pub open spec fn wake_count<T>(state: JoinStateView<T>, events: Seq<JoinEvent<T>>) -> nat
    decreases events.len(),
{
    if events.len() == 0 {
        0
    } else {
        wake_count(state.after(events[0]), events.drop_first()) + if state.wakes(events[0]) {
            1nat
        } else {
            0nat
        }
    }
}

/// Completion exactly once. Whatever happens to a join state, its result
/// goes from absent to present no more often than a completion is recorded,
/// and no more wakers are handed out than completions are recorded: with one
/// completion, at most one of each.
pub proof fn lemma_completion_happens_once<T>(
    state: JoinStateView<T>,
    events: Seq<JoinEvent<T>>,
)
    ensures
        fill_count(state, events) <= completions(events),
        wake_count(state, events) <= completions(events),
        completions(events) <= 1 ==> fill_count(state, events) <= 1 && wake_count(state, events)
            <= 1,
    decreases events.len(),
{
    if events.len() > 0 {
        lemma_completion_happens_once(state.after(events[0]), events.drop_first());
    }
}

/// A completion leaves no waker behind: a waker that it handed out is not
/// handed out again, unless an observer stores one anew.
pub proof fn lemma_waker_fires_once<T>(
    state: JoinStateView<T>,
    first: Result<T, JoinError>,
    second: Result<T, JoinError>,
)
    ensures
        !state.completed(first).wakes(JoinEvent::Complete(second)),
{
}

} // verus!
