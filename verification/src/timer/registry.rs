//! The timer registry: pending wakeups, kept in the order in which they fire.

use std::task::Waker;
use vstd::prelude::*;

verus! {

/// One pending wakeup: a waker and the instant at which it is due, in
/// nanoseconds on the runtime's monotonic clock.
pub struct Timer {
    pub deadline: u64,
    pub waker: Waker,
}

/// The timers of `timers` that are due at `now`, in their order.
#[verifier::opaque]
pub open spec fn due(timers: Seq<Timer>, now: u64) -> Seq<Timer> {
    timers.filter(|t: Timer| t.deadline <= now)
}

/// The timers of `timers` that are not yet due at `now`, in their order.
#[verifier::opaque]
pub open spec fn pending(timers: Seq<Timer>, now: u64) -> Seq<Timer> {
    timers.filter(|t: Timer| t.deadline > now)
}

/// `timers` with `timer` added: behind every timer that is due at its
/// deadline or before, ahead of every later one.
pub open spec fn with_timer(timers: Seq<Timer>, timer: Timer) -> Seq<Timer> {
    due(timers, timer.deadline) + seq![timer] + pending(timers, timer.deadline)
}

/// The wakers of `timers`, in their order.
pub open spec fn wakers_of(timers: Seq<Timer>) -> Seq<Waker> {
    timers.map_values(|t: Timer| t.waker)
}

/// Whether a timer is due exactly at `deadline`.
pub open spec fn is_at(deadline: u64) -> spec_fn(Timer) -> bool {
    |t: Timer| t.deadline == deadline
}

/// The wakers that wait for exactly `deadline`, in the order in which they
/// were registered: the registry as a map from deadlines to wakers.
pub open spec fn wakers_at(timers: Seq<Timer>, deadline: u64) -> Seq<Waker> {
    wakers_of(timers.filter(is_at(deadline)))
}

/// No timer stands before one that is due earlier.
pub open spec fn in_firing_order(timers: Seq<Timer>) -> bool {
    forall|i: int, j: int|
        0 <= i <= j < timers.len() ==> timers[i].deadline <= timers[j].deadline
}

/// The smallest deadline of `timers`, where they stand in firing order.
pub open spec fn earliest(timers: Seq<Timer>) -> Option<u64> {
    if timers.len() == 0 {
        None
    } else {
        Some(timers[0].deadline)
    }
}

/// A sequence in firing order splits at `k` into what is due at `now` and
/// what is not, as soon as the timer before `k` is due and the one at `k` is
/// not.
pub proof fn lemma_split_at_boundary(timers: Seq<Timer>, now: u64, k: int)
    requires
        in_firing_order(timers),
        0 <= k <= timers.len(),
        k > 0 ==> timers[k - 1].deadline <= now,
        k < timers.len() ==> timers[k].deadline > now,
    ensures
        due(timers, now) == timers.take(k),
        pending(timers, now) == timers.skip(k),
    decreases timers.len(),
{
    reveal(due);
    reveal(pending);
    reveal(Seq::filter);
    if timers.len() == 0 {
        assert(timers.take(k) =~= timers);
        assert(timers.skip(k) =~= timers);
    } else {
        let front = timers.drop_last();
        let last = timers.last();
        assert forall|i: int, j: int| 0 <= i <= j < front.len() implies front[i].deadline
            <= front[j].deadline by {
            assert(front[i] == timers[i] && front[j] == timers[j]);
        }
        if k == timers.len() {
            assert(last.deadline <= now);
            let k1: int = k - 1;
            if k1 > 0 {
                assert(front[k1 - 1].deadline <= timers[k - 1].deadline);
            }
            lemma_split_at_boundary(front, now, k1);
            assert(front.take(k1) =~= front);
            assert(timers.take(k) =~= front.push(last));
            assert(front.skip(k1) =~= Seq::<Timer>::empty());
            assert(timers.skip(k) =~= Seq::<Timer>::empty());
        } else {
            assert(timers[k].deadline <= last.deadline);
            lemma_split_at_boundary(front, now, k);
            assert(timers.take(k) =~= front.take(k));
            assert(timers.skip(k) =~= front.skip(k).push(last));
        }
    }
}

/// A deadline-ordered multimap of pending wakeups. Pure data: no clock and no
/// thread.
///
/// Its view is the sequence of its timers in the order in which they fire:
/// by deadline, and among equal deadlines by registration.
pub struct TimerRegistry {
    timers: Vec<Timer>,
}

impl View for TimerRegistry {
    type V = Seq<Timer>;

    closed spec fn view(&self) -> Seq<Timer> {
        self.timers@
    }
}

impl TimerRegistry {
    /// What holds of every registry: its timers stand in firing order.
    #[verifier::type_invariant]
    spec fn in_order(self) -> bool {
        in_firing_order(self.timers@)
    }

    /// A registry without timers.
    pub fn new() -> (registry: TimerRegistry)
        ensures
            registry@ == Seq::<Timer>::empty(),
    {
        TimerRegistry { timers: Vec::new() }
    }

    /// Adds a wakeup for `deadline`. It fires after every timer that is due
    /// at `deadline` or before, and ahead of every later one.
    pub fn register(&mut self, deadline: u64, waker: Waker)
        ensures
            in_firing_order(old(self)@),
            in_firing_order(final(self)@),
            final(self)@ == with_timer(old(self)@, (Timer { deadline, waker })),
    {
        proof {
            use_type_invariant(&*self);
        }
        let mut k: usize = self.timers.len();
        while k > 0 && self.timers[k - 1].deadline > deadline
            invariant
                k <= self.timers.len(),
                self.timers@ == old(self).timers@,
                forall|j: int| k <= j < self.timers.len() ==> self.timers[j].deadline > deadline,
            decreases k,
        {
            k = k - 1;
        }
        let timer = Timer { deadline, waker };
        proof {
            lemma_split_at_boundary(self@, deadline, k as int);
            lemma_with_timer_keeps_order(self@, timer);
            assert(self@.insert(k as int, timer) =~= self@.take(k as int) + seq![timer] + self@.skip(
                k as int,
            ));
        }
        // The timers are taken out for the change and put back in one piece,
        // so that the registry is in firing order at every moment.
        let mut timers: Vec<Timer> = Vec::new();
        std::mem::swap(&mut self.timers, &mut timers);
        timers.insert(k, timer);
        self.timers = timers;
    }

    /// The deadline that comes first, if any timer is pending.
    pub fn next_deadline(&self) -> (next: Option<u64>)
        ensures
            in_firing_order(self@),
            next == earliest(self@),
            next is None <==> self@.len() == 0,
            next matches Some(d) ==> exists|i: int| 0 <= i < self@.len() && self@[i].deadline == d,
            next matches Some(d) ==> forall|i: int| 0 <= i < self@.len() ==> d <= self@[i].deadline,
    {
        proof {
            use_type_invariant(self);
        }
        if self.timers.len() == 0 {
            None
        } else {
            Some(self.timers[0].deadline)
        }
    }

    /// Removes every timer that is due at `now` and hands out their wakers in
    /// firing order. The timers that are due later stay, in their order.
    pub fn pop_ready_wakers(&mut self, now: u64) -> (ready: Vec<Waker>)
        ensures
            in_firing_order(old(self)@),
            in_firing_order(final(self)@),
            ready@ == wakers_of(due(old(self)@, now)),
            final(self)@ == pending(old(self)@, now),
    {
        proof {
            use_type_invariant(&*self);
        }
        let mut k: usize = 0;
        while k < self.timers.len() && self.timers[k].deadline <= now
            invariant
                k <= self.timers.len(),
                self.timers@ == old(self).timers@,
                forall|j: int| 0 <= j < k ==> self.timers[j].deadline <= now,
            decreases self.timers.len() - k,
        {
            k = k + 1;
        }
        proof {
            lemma_split_at_boundary(self@, now, k as int);
            lemma_rest_keeps_order(self@, k as int);
        }
        let mut taken: Vec<Timer> = Vec::new();
        std::mem::swap(&mut self.timers, &mut taken);
        let later: Vec<Timer> = taken.split_off(k);
        self.timers = later;
        let ghost due_now = taken@;
        let mut ready: Vec<Waker> = Vec::new();
        for timer in iter: taken
            invariant
                iter.seq() == due_now,
                ready@ == wakers_of(due_now.take(iter.index())),
        {
            proof {
                let n: int = iter.index();
                assert(due_now.take(n + 1) =~= due_now.take(n).push(due_now[n]));
                assert(wakers_of(due_now.take(n + 1)) =~= wakers_of(due_now.take(n)).push(
                    due_now[n].waker,
                ));
            }
            ready.push(timer.waker);
        }
        assert(due_now.take(due_now.len() as int) =~= due_now);
        ready
    }
}

impl Default for TimerRegistry {
    /// A registry without timers.
    fn default() -> (registry: TimerRegistry)
        ensures
            registry@ == Seq::<Timer>::empty(),
    {
        TimerRegistry::new()
    }
}

/// Where the timers that are due at `now` end in a sequence in firing order.
proof fn lemma_boundary(timers: Seq<Timer>, now: u64) -> (k: int)
    requires
        in_firing_order(timers),
    ensures
        0 <= k <= timers.len(),
        k > 0 ==> timers[k - 1].deadline <= now,
        k < timers.len() ==> timers[k].deadline > now,
    decreases timers.len(),
{
    if timers.len() == 0 {
        0
    } else if timers.last().deadline <= now {
        timers.len() as int
    } else {
        let front = timers.drop_last();
        assert forall|i: int, j: int| 0 <= i <= j < front.len() implies front[i].deadline
            <= front[j].deadline by {
            assert(front[i] == timers[i] && front[j] == timers[j]);
        }
        lemma_boundary(front, now)
    }
}

/// Adding a timer keeps the firing order, and adds nothing else.
pub proof fn lemma_with_timer_keeps_order(timers: Seq<Timer>, timer: Timer)
    requires
        in_firing_order(timers),
    ensures
        in_firing_order(with_timer(timers, timer)),
        with_timer(timers, timer).len() == timers.len() + 1,
        with_timer(timers, timer)[due(timers, timer.deadline).len() as int] == timer,
{
    let k: int = lemma_boundary(timers, timer.deadline);
    lemma_split_at_boundary(timers, timer.deadline, k);
    let after = with_timer(timers, timer);
    assert forall|i: int, j: int| 0 <= i <= j < after.len() implies after[i].deadline
        <= after[j].deadline by {
        let a: int = if i < k { i } else { i - 1 };
        let b: int = if j < k { j } else { j - 1 };
        if i != k && j != k {
            assert(timers[a].deadline <= timers[b].deadline);
        } else if i == k && j != k {
            assert(timers[k].deadline <= timers[b].deadline);
        } else if i != k && j == k {
            assert(timers[a].deadline <= timers[k - 1].deadline);
        }
    }
}

/// What follows the first `k` timers of a sequence in firing order is in
/// firing order.
proof fn lemma_rest_keeps_order(timers: Seq<Timer>, k: int)
    requires
        in_firing_order(timers),
        0 <= k <= timers.len(),
    ensures
        in_firing_order(timers.skip(k)),
{
    let rest = timers.skip(k);
    assert forall|i: int, j: int| 0 <= i <= j < rest.len() implies rest[i].deadline
        <= rest[j].deadline by {
        assert(rest[i] == timers[k + i] && rest[j] == timers[k + j]);
    }
}

/// Handing out what is due loses nothing and repeats nothing: what is due
/// and what stays make up the registry as it was, and of what stays nothing
/// is due at the same instant.
pub proof fn lemma_pop_loses_nothing(timers: Seq<Timer>, now: u64)
    requires
        in_firing_order(timers),
    ensures
        due(timers, now) + pending(timers, now) == timers,
        in_firing_order(pending(timers, now)),
        due(pending(timers, now), now) == Seq::<Timer>::empty(),
        pending(pending(timers, now), now) == pending(timers, now),
{
    let k: int = lemma_boundary(timers, now);
    lemma_split_at_boundary(timers, now, k);
    lemma_parts_of_a_split(timers, now, k);
}

/// The parts into which a sequence in firing order splits at its boundary
/// for `now`.
proof fn lemma_parts_of_a_split(timers: Seq<Timer>, now: u64, k: int)
    requires
        in_firing_order(timers),
        0 <= k <= timers.len(),
        k < timers.len() ==> timers[k].deadline > now,
    ensures
        timers.take(k) + timers.skip(k) == timers,
        in_firing_order(timers.skip(k)),
        due(timers.skip(k), now) == Seq::<Timer>::empty(),
        pending(timers.skip(k), now) == timers.skip(k),
{
    let rest = timers.skip(k);
    assert(timers.take(k) + rest =~= timers);
    lemma_rest_keeps_order(timers, k);
    if rest.len() > 0 {
        assert(rest[0] == timers[k]);
    }
    lemma_nothing_due_before_earliest(rest, now);
}

/// Among `timers`, none of which meets `pred`, `pred` finds nothing.
proof fn lemma_filter_finds_nothing(timers: Seq<Timer>, pred: spec_fn(Timer) -> bool)
    requires
        forall|i: int| 0 <= i < timers.len() ==> !pred(#[trigger] timers[i]),
    ensures
        timers.filter(pred) == Seq::<Timer>::empty(),
    decreases timers.len(),
{
    reveal(Seq::filter);
    if timers.len() > 0 {
        let front = timers.drop_last();
        assert forall|i: int| 0 <= i < front.len() implies !pred(#[trigger] front[i]) by {
            assert(front[i] == timers[i]);
        }
        lemma_filter_finds_nothing(front, pred);
    }
}

/// What `pred` finds in a single timer.
proof fn lemma_filter_one(timer: Timer, pred: spec_fn(Timer) -> bool)
    ensures
        seq![timer].filter(pred) == (if pred(timer) {
            seq![timer]
        } else {
            Seq::<Timer>::empty()
        }),
{
    reveal(Seq::filter);
    let one = seq![timer];
    assert(one.drop_last() =~= Seq::<Timer>::empty());
    assert(one.last() == timer);
    assert(one.drop_last().filter(pred) =~= Seq::<Timer>::empty());
    assert(Seq::<Timer>::empty().push(timer) =~= one);
}

/// What `pred` finds in three sequences joined: what it finds in each.
proof fn lemma_filter_joined(
    lo: Seq<Timer>,
    one: Seq<Timer>,
    hi: Seq<Timer>,
    pred: spec_fn(Timer) -> bool,
)
    ensures
        (lo + hi).filter(pred) == lo.filter(pred) + hi.filter(pred),
        (lo + one + hi).filter(pred) == lo.filter(pred) + one.filter(pred) + hi.filter(pred),
{
    Seq::filter_distributes_over_add(lo, hi, pred);
    Seq::filter_distributes_over_add(lo + one, hi, pred);
    Seq::filter_distributes_over_add(lo, one, pred);
}

/// A timer put in at the boundary for its deadline joins, as the last, those
/// that are due exactly at that deadline, and no others.
proof fn lemma_insert_appends_at(timers: Seq<Timer>, timer: Timer, k: int, deadline: u64)
    requires
        in_firing_order(timers),
        0 <= k <= timers.len(),
        k < timers.len() ==> timers[k].deadline > timer.deadline,
    ensures
        wakers_of((timers.take(k) + seq![timer] + timers.skip(k)).filter(is_at(deadline)))
            == (if deadline == timer.deadline {
            wakers_at(timers, deadline).push(timer.waker)
        } else {
            wakers_at(timers, deadline)
        }),
{
    let pred = is_at(deadline);
    let lo = timers.take(k);
    let hi = timers.skip(k);
    let before = timers.filter(pred);
    assert(lo + hi =~= timers);
    lemma_filter_joined(lo, seq![timer], hi, pred);
    lemma_filter_one(timer, pred);
    if deadline == timer.deadline {
        assert forall|i: int| 0 <= i < hi.len() implies !pred(#[trigger] hi[i]) by {
            assert(hi[i] == timers[k + i]);
            assert(timers[k].deadline <= timers[k + i].deadline);
        }
        lemma_filter_finds_nothing(hi, pred);
        assert(lo.filter(pred) + seq![timer] + hi.filter(pred) =~= before.push(timer));
        assert(wakers_of(before.push(timer)) =~= wakers_of(before).push(timer.waker));
    } else {
        assert(lo.filter(pred) + Seq::<Timer>::empty() + hi.filter(pred) =~= before);
    }
}

/// The registry as a multimap. Registering a timer appends its waker to those
/// that wait for the same deadline, and leaves every other deadline as it
/// was.
pub proof fn lemma_register_appends_at_its_deadline(timers: Seq<Timer>, timer: Timer, deadline: u64)
    requires
        in_firing_order(timers),
    ensures
        wakers_at(with_timer(timers, timer), deadline) == (if deadline == timer.deadline {
            wakers_at(timers, deadline).push(timer.waker)
        } else {
            wakers_at(timers, deadline)
        }),
{
    let k: int = lemma_boundary(timers, timer.deadline);
    assert(with_timer(timers, timer) == timers.take(k) + seq![timer] + timers.skip(k)) by {
        lemma_split_at_boundary(timers, timer.deadline, k);
    }
    lemma_insert_appends_at(timers, timer, k, deadline);
}

/// Past the boundary for `now`, the timers that wait for `deadline` are all
/// of them where `deadline` is still to come, and none where it has come.
proof fn lemma_rest_at(timers: Seq<Timer>, now: u64, k: int, deadline: u64)
    requires
        in_firing_order(timers),
        0 <= k <= timers.len(),
        k > 0 ==> timers[k - 1].deadline <= now,
        k < timers.len() ==> timers[k].deadline > now,
    ensures
        timers.skip(k).filter(is_at(deadline)) == (if deadline <= now {
            Seq::<Timer>::empty()
        } else {
            timers.filter(is_at(deadline))
        }),
{
    let pred = is_at(deadline);
    let lo = timers.take(k);
    let hi = timers.skip(k);
    assert(lo + hi =~= timers);
    Seq::filter_distributes_over_add(lo, hi, pred);
    if deadline <= now {
        assert forall|i: int| 0 <= i < hi.len() implies !pred(#[trigger] hi[i]) by {
            assert(hi[i] == timers[k + i]);
            assert(timers[k].deadline <= timers[k + i].deadline);
        }
        lemma_filter_finds_nothing(hi, pred);
    } else {
        assert forall|i: int| 0 <= i < lo.len() implies !pred(#[trigger] lo[i]) by {
            assert(lo[i] == timers[i]);
            assert(timers[i].deadline <= timers[k - 1].deadline);
        }
        lemma_filter_finds_nothing(lo, pred);
        assert(Seq::<Timer>::empty() + hi.filter(pred) =~= hi.filter(pred));
    }
}

/// The registry as a multimap. Handing out what is due at `now` removes every
/// deadline up to `now`, and leaves every later one as it was.
pub proof fn lemma_pop_removes_due_deadlines(timers: Seq<Timer>, now: u64, deadline: u64)
    requires
        in_firing_order(timers),
    ensures
        wakers_at(pending(timers, now), deadline) == (if deadline <= now {
            Seq::<Waker>::empty()
        } else {
            wakers_at(timers, deadline)
        }),
{
    let k: int = lemma_boundary(timers, now);
    assert(pending(timers, now) == timers.skip(k)) by {
        lemma_split_at_boundary(timers, now, k);
    }
    lemma_rest_at(timers, now, k, deadline);
    assert(wakers_of(Seq::<Timer>::empty()) =~= Seq::<Waker>::empty());
}

/// A registered timer is handed out by the first drain at or after its
/// deadline, and by none before it: until then it stays pending.
pub proof fn lemma_registered_timer_fires_when_due(timers: Seq<Timer>, timer: Timer, now: u64)
    requires
        in_firing_order(timers),
    ensures
        timer.deadline <= now ==> due(with_timer(timers, timer), now).contains(timer)
            && wakers_of(due(with_timer(timers, timer), now)).contains(timer.waker),
        timer.deadline > now ==> pending(with_timer(timers, timer), now).contains(timer) && !due(
            with_timer(timers, timer),
            now,
        ).contains(timer),
{
    let after = with_timer(timers, timer);
    lemma_with_timer_keeps_order(timers, timer);
    let at: int = due(timers, timer.deadline).len() as int;
    let k: int = lemma_boundary(after, now);
    lemma_split_at_boundary(after, now, k);
    if timer.deadline <= now {
        if at >= k {
            assert(after[k].deadline <= after[at].deadline);
        }
        assert(after.take(k)[at] == timer);
        assert(wakers_of(after.take(k))[at] == timer.waker);
    } else {
        if at < k {
            assert(after[at].deadline <= after[k - 1].deadline);
        }
        assert(after.skip(k)[at - k] == timer);
        assert forall|i: int| 0 <= i < k implies after.take(k)[i] != timer by {
            assert(after[i].deadline <= after[k - 1].deadline);
        }
    }
}

/// Timer ordering. Of two pending timers the one with the earlier deadline
/// stands first; whenever the later one is handed out as due, the earlier one
/// is handed out with it, at an earlier place among the wakers.
pub proof fn lemma_earlier_deadline_fires_first(timers: Seq<Timer>, i: int, j: int, now: u64)
    requires
        in_firing_order(timers),
        0 <= i < timers.len(),
        0 <= j < timers.len(),
        timers[i].deadline < timers[j].deadline,
    ensures
        i < j,
        timers[j].deadline <= now ==> j < wakers_of(due(timers, now)).len(),
        timers[j].deadline <= now ==> wakers_of(due(timers, now))[i] == timers[i].waker,
        timers[j].deadline <= now ==> wakers_of(due(timers, now))[j] == timers[j].waker,
        timers[i].deadline <= now < timers[j].deadline ==> i < wakers_of(due(timers, now)).len()
            <= j,
        timers[i].deadline <= now < timers[j].deadline ==> wakers_of(due(timers, now))[i]
            == timers[i].waker,
        timers[i].deadline <= now < timers[j].deadline ==> pending(timers, now)[j - due(
            timers,
            now,
        ).len()] == timers[j],
{
    let k: int = lemma_boundary(timers, now);
    lemma_split_at_boundary(timers, now, k);
    if j < k {
        assert(timers[j].deadline <= timers[k - 1].deadline);
    } else {
        assert(timers[k].deadline <= timers[j].deadline);
    }
    if i < k {
        assert(timers[i].deadline <= timers[k - 1].deadline);
    } else {
        assert(timers[k].deadline <= timers[i].deadline);
    }
}

/// Once the earliest deadline has come, the timer that stands first is the
/// first of those that are due.
pub proof fn lemma_earliest_is_due_first(timers: Seq<Timer>, now: u64)
    requires
        in_firing_order(timers),
    ensures
        (earliest(timers) matches Some(d) && d <= now) ==> due(timers, now).len() > 0,
        (earliest(timers) matches Some(d) && d <= now) ==> due(timers, now)[0] == timers[0],
{
    let k: int = lemma_boundary(timers, now);
    lemma_split_at_boundary(timers, now, k);
}

/// While the earliest deadline has not come, nothing is due and every timer
/// stays.
pub proof fn lemma_nothing_due_before_earliest(timers: Seq<Timer>, now: u64)
    requires
        in_firing_order(timers),
    ensures
        (earliest(timers) matches Some(d) ==> d > now) ==> due(timers, now) == Seq::<Timer>::empty(),
        (earliest(timers) matches Some(d) ==> d > now) ==> pending(timers, now) == timers,
{
    if timers.len() == 0 || timers[0].deadline > now {
        lemma_split_at_boundary(timers, now, 0);
        assert(timers.take(0) =~= Seq::<Timer>::empty());
        assert(timers.skip(0) =~= timers);
    }
}

} // verus!
