//! The state behind a cancellation token: a flag that is set once, and the
//! wakers of those who wait for it.

use std::task::Waker;
use vstd::prelude::*;

verus! {

/// What a cancellation state holds, as contracts speak of it.
pub struct CancellationView {
    /// Whether cancellation was requested.
    pub cancelled: bool,
    /// The wakers that wait for cancellation, in the order they came.
    pub waiting: Seq<Waker>,
}

/// What can happen to a cancellation state.
pub enum CancellationEvent {
    /// Some holder of a token asks whether cancellation was requested.
    Query,
    /// Some holder of a token requests cancellation.
    Cancel,
    /// A future that waits for cancellation is polled with this waker.
    Poll(Waker),
}

impl CancellationView {
    /// The state after cancellation was requested.
    pub open spec fn cancel(self) -> CancellationView {
        CancellationView { cancelled: true, waiting: Seq::empty() }
    }

    /// The state after a poll with `waker`.
    pub open spec fn polled(self, waker: Waker) -> CancellationView {
        if self.cancelled {
            self
        } else {
            CancellationView { cancelled: false, waiting: self.waiting.push(waker) }
        }
    }

    /// The state after `event`.
    pub open spec fn after(self, event: CancellationEvent) -> CancellationView {
        match event {
            CancellationEvent::Query => self,
            CancellationEvent::Cancel => self.cancel(),
            CancellationEvent::Poll(waker) => self.polled(waker),
        }
    }

    /// The state after `events` happened one after the other.
    pub open spec fn after_all(self, events: Seq<CancellationEvent>) -> CancellationView
        decreases events.len(),
    {
        if events.len() == 0 {
            self
        } else {
            self.after(events[0]).after_all(events.drop_first())
        }
    }

    /// Nobody waits for a cancellation that was already requested.
    pub open spec fn wf(self) -> bool {
        self.cancelled ==> self.waiting.len() == 0
    }
}

/// The one state that a token, its clones and its children, and the futures
/// derived from them all share.
pub struct CancellationState {
    is_cancelled: bool,
    wakers: Vec<Waker>,
}

impl View for CancellationState {
    type V = CancellationView;

    closed spec fn view(&self) -> CancellationView {
        CancellationView { cancelled: self.is_cancelled, waiting: self.wakers@ }
    }
}

impl CancellationState {
    /// What holds of every state: nobody waits for a cancellation that was
    /// already requested.
    #[verifier::type_invariant]
    spec fn nobody_waits_in_vain(self) -> bool {
        self.is_cancelled ==> self.wakers@.len() == 0
    }

    /// The state of a new token: not cancelled, nobody waiting.
    pub fn new() -> (state: CancellationState)
        ensures
            !state@.cancelled,
            state@.waiting == Seq::<Waker>::empty(),
    {
        CancellationState { is_cancelled: false, wakers: Vec::new() }
    }

    /// Whether cancellation was requested.
    pub fn is_cancelled(&self) -> (cancelled: bool)
        ensures
            self@.wf(),
            cancelled == self@.cancelled,
    {
        proof {
            use_type_invariant(self);
        }
        self.is_cancelled
    }

    /// Requests cancellation. The flag is set and stays set; the wakers that
    /// waited are handed out, in their order, for the caller to fire. Only the
    /// first request finds any.
    pub fn cancel(&mut self) -> (to_wake: Vec<Waker>)
        ensures
            old(self)@.wf(),
            final(self)@ == old(self)@.cancel(),
            to_wake@ == old(self)@.waiting,
            old(self)@.cancelled ==> to_wake@.len() == 0,
    {
        proof {
            use_type_invariant(&*self);
        }
        // The wakers leave before the flag is set: nobody waits for a
        // cancellation that was requested.
        let mut to_wake: Vec<Waker> = Vec::new();
        std::mem::swap(&mut self.wakers, &mut to_wake);
        self.is_cancelled = true;
        to_wake
    }

    /// One poll of a future that waits for cancellation. Where cancellation
    /// was requested the future is ready and `waker` is not kept; otherwise
    /// `waker` joins those that wait, behind them.
    pub fn poll_cancelled(&mut self, waker: Waker) -> (ready: bool)
        ensures
            old(self)@.wf(),
            final(self)@.wf(),
            ready == old(self)@.cancelled,
            final(self)@ == old(self)@.polled(waker),
    {
        proof {
            use_type_invariant(&*self);
        }
        if self.is_cancelled {
            return true;
        }
        let mut wakers: Vec<Waker> = Vec::new();
        std::mem::swap(&mut self.wakers, &mut wakers);
        wakers.push(waker);
        self.wakers = wakers;
        false
    }
}

impl Default for CancellationState {
    /// The state of a new token.
    fn default() -> (state: CancellationState)
        ensures
            !state@.cancelled,
            state@.waiting == Seq::<Waker>::empty(),
    {
        CancellationState::new()
    }
}

/// Cancellation monotonicity. Once cancellation was requested, it stays
/// requested whatever happens to the state afterwards, and the state stays
/// well formed.
pub proof fn lemma_cancellation_is_monotonic(state: CancellationView, events: Seq<CancellationEvent>)
    requires
        state.wf(),
    ensures
        state.after_all(events).wf(),
        state.cancelled ==> state.after_all(events).cancelled,
        state.cancelled ==> state.after_all(events) == state,
    decreases events.len(),
{
    if events.len() > 0 {
        let next = state.after(events[0]);
        lemma_cancellation_is_monotonic(next, events.drop_first());
        if state.cancelled {
            assert(state.waiting =~= Seq::<Waker>::empty());
            assert(next == state);
        }
    }
}

/// Cancellation broadcast. After one request every later query of the shared
/// state answers that cancellation was requested, whoever asks and whatever
/// happened before the request or happens after it.
pub proof fn lemma_cancellation_reaches_every_holder(
    state: CancellationView,
    before: Seq<CancellationEvent>,
    afterwards: Seq<CancellationEvent>,
)
    requires
        state.wf(),
    ensures
        state.after_all(before).cancel().after_all(afterwards).cancelled,
{
    lemma_cancellation_is_monotonic(state, before);
    lemma_cancellation_is_monotonic(state.after_all(before).cancel(), afterwards);
}

/// A waker that waits is handed out by the request that finds it, and by no
/// later one.
pub proof fn lemma_waiting_wakers_fire_once(state: CancellationView)
    requires
        state.wf(),
    ensures
        state.cancel().waiting.len() == 0,
        state.cancel().cancel() == state.cancel(),
{
}

} // verus!
