//! The state of a sleep: a deadline, and whether the reactor knows of it.

use vstd::prelude::*;

verus! {

/// What one poll of a sleep asks of its caller.
#[derive(Clone, Copy, Debug, PartialEq, Eq, Structural)]
pub enum SleepPoll {
    /// The deadline has come: the sleep is over.
    Ready,
    /// Hand the current waker to the reactor for this deadline, then suspend.
    Register(u64),
    /// Suspend: the reactor already holds a waker for this sleep.
    Pending,
}

/// A sleep in progress. Instants and durations are nanoseconds on the
/// runtime's monotonic clock.
pub struct SleepFuture {
    deadline: u64,
    is_registered: bool,
}

impl SleepFuture {
    /// The instant from which the sleep is over.
    pub closed spec fn deadline(&self) -> u64 {
        self.deadline
    }

    /// Whether the reactor has been handed a waker for this sleep.
    pub closed spec fn is_registered(&self) -> bool {
        self.is_registered
    }

    /// Whether the sleep is over at `now`.
    pub fn is_ready(&self, now: u64) -> (ready: bool)
        ensures
            ready == (now >= self.deadline()),
    {
        now >= self.deadline
    }

    /// Marks the sleep as registered. The first call answers with the
    /// deadline to register; every later one with nothing.
    pub fn ensure_registered(&mut self) -> (to_register: Option<u64>)
        ensures
            final(self).deadline() == old(self).deadline(),
            final(self).is_registered(),
            to_register == (if old(self).is_registered() {
                None
            } else {
                Some(old(self).deadline())
            }),
    {
        if self.is_registered {
            None
        } else {
            self.is_registered = true;
            Some(self.deadline)
        }
    }

    /// One poll at `now`. A sleep whose deadline has come is ready and is
    /// left as it is; otherwise it suspends, and asks to be registered on the
    /// first such poll only.
    pub fn poll(&mut self, now: u64) -> (poll: SleepPoll)
        ensures
            poll == poll_at(*old(self), now),
            final(self).deadline() == old(self).deadline(),
            final(self).is_registered() == (old(self).is_registered() || now < old(
                self,
            ).deadline()),
    {
        if self.is_ready(now) {
            return SleepPoll::Ready;
        }
        match self.ensure_registered() {
            Some(deadline) => SleepPoll::Register(deadline),
            None => SleepPoll::Pending,
        }
    }
}

/// What a poll of `sleep` at `now` answers.
pub open spec fn poll_at(sleep: SleepFuture, now: u64) -> SleepPoll {
    if now >= sleep.deadline() {
        SleepPoll::Ready
    } else if sleep.is_registered() {
        SleepPoll::Pending
    } else {
        SleepPoll::Register(sleep.deadline())
    }
}

/// A sleep that starts at `now` and lasts `duration`; the reactor does not
/// know of it yet.
pub fn sleep(now: u64, duration: u64) -> (sleep: SleepFuture)
    requires
        now + duration <= u64::MAX,
    ensures
        sleep.deadline() == now + duration,
        !sleep.is_registered(),
{
    SleepFuture { deadline: now + duration, is_registered: false }
}

/// Sleep monotonicity. A sleep of `duration` that started at `start` is
/// ready at `now` exactly when `duration` has gone by since `start`; once
/// ready, it is ready at every later instant.
pub proof fn lemma_sleep_lasts_its_duration(sleep: SleepFuture, start: u64, duration: u64, now: u64)
    requires
        sleep.deadline() == start + duration,
    ensures
        poll_at(sleep, now) is Ready <==> now - start >= duration,
        forall|later: u64|
            poll_at(sleep, now) is Ready && later >= now ==> #[trigger] poll_at(sleep, later)
                is Ready,
{
}

} // verus!
