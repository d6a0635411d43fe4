//! The timer reactor's state and the decision it takes on each turn.
//!
//! The reactor owns one registry. Whoever drives it holds it under a lock,
//! hands it the current instant, and carries out the action it answers with:
//! fire the wakers once the lock is released, or wait for a signal.

use crate::timer::registry::{
    due, earliest, in_firing_order, lemma_earliest_is_due_first, lemma_nothing_due_before_earliest,
    lemma_pop_loses_nothing, pending, wakers_of, with_timer, Timer, TimerRegistry,
};
use std::task::Waker;
use vstd::prelude::*;

verus! {

/// What the reactor's thread does next.
pub enum ReactorAction {
    /// Fire these wakers, front to back, with the registry released.
    Fire(Vec<Waker>),
    /// Wait for a registration, but no longer than this many nanoseconds.
    ParkFor(u64),
    /// Wait for a registration, however long it takes.
    Park,
}

/// Whether `action` is what a reactor does at `now` whose pending timers are
/// `timers`: to wait for a registration where none is pending, to fire what
/// is due once the earliest deadline has come, and else to wait for just as
/// long as that deadline is away.
pub open spec fn action_at(timers: Seq<Timer>, now: u64, action: ReactorAction) -> bool {
    match earliest(timers) {
        None => action is Park,
        Some(deadline) => if deadline <= now {
            action matches ReactorAction::Fire(wakers) && wakers@ == wakers_of(due(timers, now))
        } else {
            action == ReactorAction::ParkFor((deadline - now) as u64)
        },
    }
}

/// The state of the timer reactor: the one registry that it owns.
pub struct Reactor {
    registry: TimerRegistry,
}

impl View for Reactor {
    type V = Seq<Timer>;

    closed spec fn view(&self) -> Seq<Timer> {
        self.registry@
    }
}

impl Reactor {
    /// A reactor with nothing to fire.
    pub fn new() -> (reactor: Reactor)
        ensures
            reactor@ == Seq::<Timer>::empty(),
    {
        Reactor { registry: TimerRegistry::new() }
    }

    /// Takes a registration. The driver signals the reactor's thread after
    /// it: the new timer may be the earliest.
    pub fn register_timer(&mut self, deadline: u64, waker: Waker)
        ensures
            in_firing_order(old(self)@),
            in_firing_order(final(self)@),
            final(self)@ == with_timer(old(self)@, (Timer { deadline, waker })),
    {
        self.registry.register(deadline, waker);
    }

    /// Drains the timers that are due at `now`; their wakers are the
    /// caller's to fire, once.
    pub fn process_ready_timers(&mut self, now: u64) -> (ready: Vec<Waker>)
        ensures
            in_firing_order(old(self)@),
            in_firing_order(final(self)@),
            ready@ == wakers_of(due(old(self)@, now)),
            final(self)@ == pending(old(self)@, now),
    {
        self.registry.pop_ready_wakers(now)
    }

    /// For how long to wait for `deadline` at `now`: not at all once it has
    /// come.
    pub fn park_until(deadline: u64, now: u64) -> (wait: Option<u64>)
        ensures
            wait == (if deadline > now {
                Some((deadline - now) as u64)
            } else {
                None
            }),
    {
        if deadline > now {
            Some(deadline - now)
        } else {
            None
        }
    }

    /// One turn of the reactor at `now`: it fires what is due, or else waits
    /// for the earliest deadline, or for a registration where none is
    /// pending. Only firing changes the registry.
    pub fn step(&mut self, now: u64) -> (action: ReactorAction)
        ensures
            in_firing_order(old(self)@),
            in_firing_order(final(self)@),
            action_at(old(self)@, now, action),
            final(self)@ == pending(old(self)@, now),
            !(action is Fire) ==> final(self)@ == old(self)@,
    {
        let next = self.registry.next_deadline();
        proof {
            lemma_nothing_due_before_earliest(self@, now);
        }
        match next {
            None => ReactorAction::Park,
            Some(deadline) => match Reactor::park_until(deadline, now) {
                Some(wait) => ReactorAction::ParkFor(wait),
                None => ReactorAction::Fire(self.process_ready_timers(now)),
            },
        }
    }
}

/// A turn that fires hands out at least one waker, and the turn that follows
/// it at the same instant fires nothing: no waker is handed out twice, and
/// the reactor comes to rest.
pub proof fn lemma_reactor_comes_to_rest(
    timers: Seq<Timer>,
    now: u64,
    action: ReactorAction,
    next: ReactorAction,
)
    requires
        in_firing_order(timers),
        action_at(timers, now, action),
        action_at(pending(timers, now), now, next),
    ensures
        action matches ReactorAction::Fire(wakers) ==> wakers@.len() > 0,
        !(next is Fire),
{
    lemma_earliest_is_due_first(timers, now);
    lemma_pop_loses_nothing(timers, now);
    lemma_earliest_is_due_first(pending(timers, now), now);
}

/// A reactor never waits past the earliest deadline, and never fires before
/// it.
pub proof fn lemma_reactor_keeps_time(timers: Seq<Timer>, now: u64, action: ReactorAction)
    requires
        in_firing_order(timers),
        action_at(timers, now, action),
    ensures
        action matches ReactorAction::ParkFor(wait) ==> wait > 0 && earliest(timers) == Some(
            (now + wait) as u64,
        ),
        action is Fire <==> timers.len() > 0 && timers[0].deadline <= now,
        action is Park <==> timers.len() == 0,
{
}

} // verus!
