use std::sync::atomic::{AtomicUsize, Ordering};
use std::sync::{Arc, Mutex};
use std::task::{Wake, Waker};

use runtime::timer::registry::TimerRegistry;

const MILLI: u64 = 1_000_000;
const SECOND: u64 = 1_000_000_000;
const NOW: u64 = 5 * SECOND;

struct TestWaker {
    wake_count: Arc<AtomicUsize>,
}

impl Wake for TestWaker {
    fn wake(self: Arc<Self>) {
        self.wake_count.fetch_add(1, Ordering::SeqCst);
    }
}

fn create_test_waker() -> (Waker, Arc<AtomicUsize>) {
    let count = Arc::new(AtomicUsize::new(0));
    let waker = Arc::new(TestWaker { wake_count: count.clone() });
    (Waker::from(waker), count)
}

struct Tagged {
    tag: u32,
    log: Arc<Mutex<Vec<u32>>>,
}

impl Wake for Tagged {
    fn wake(self: Arc<Self>) {
        self.log.lock().unwrap().push(self.tag);
    }
}

fn tagged(tag: u32, log: &Arc<Mutex<Vec<u32>>>) -> Waker {
    Waker::from(Arc::new(Tagged { tag, log: log.clone() }))
}

fn fire(wakers: Vec<Waker>) {
    for waker in wakers {
        waker.wake();
    }
}

#[test]
fn registry_starts_empty() {
    let registry = TimerRegistry::default();
    assert!(registry.next_deadline().is_none());
}

#[test]
fn registry_new_is_empty() {
    let mut registry = TimerRegistry::new();
    assert!(registry.next_deadline().is_none());
    assert!(registry.pop_ready_wakers(u64::MAX).is_empty());
}

#[test]
fn registry_registers_timer() {
    let mut registry = TimerRegistry::default();
    let (waker, _) = create_test_waker();
    let deadline = NOW + SECOND;

    registry.register(deadline, waker);

    assert_eq!(registry.next_deadline(), Some(deadline));
}

#[test]
fn registry_returns_earliest_deadline() {
    let mut registry = TimerRegistry::default();
    let (waker1, _) = create_test_waker();
    let (waker2, _) = create_test_waker();

    let early = NOW + 100 * MILLI;
    let late = NOW + SECOND;

    registry.register(late, waker1);
    registry.register(early, waker2);

    assert_eq!(registry.next_deadline(), Some(early));
}

#[test]
fn registry_pops_ready_wakers() {
    let mut registry = TimerRegistry::default();
    let (waker, count) = create_test_waker();

    let past = NOW - 100 * MILLI;
    registry.register(past, waker);

    let wakers = registry.pop_ready_wakers(NOW);

    assert_eq!(wakers.len(), 1);
    wakers[0].wake_by_ref();
    assert_eq!(count.load(Ordering::SeqCst), 1);
}

#[test]
fn registry_keeps_future_timers() {
    let mut registry = TimerRegistry::default();
    let (waker1, _) = create_test_waker();
    let (waker2, _) = create_test_waker();

    let past = NOW - 100 * MILLI;
    let future = NOW + 10 * SECOND;

    registry.register(past, waker1);
    registry.register(future, waker2);

    let _ = registry.pop_ready_wakers(NOW);

    assert_eq!(registry.next_deadline(), Some(future));
}

#[test]
fn registry_pops_in_deadline_order() {
    let log = Arc::new(Mutex::new(Vec::new()));
    let mut registry = TimerRegistry::new();
    registry.register(30, tagged(3, &log));
    registry.register(10, tagged(1, &log));
    registry.register(40, tagged(4, &log));
    registry.register(20, tagged(2, &log));

    let ready = registry.pop_ready_wakers(30);
    assert_eq!(ready.len(), 3);
    fire(ready);

    assert_eq!(*log.lock().unwrap(), vec![1, 2, 3]);
    assert_eq!(registry.next_deadline(), Some(40));
}

#[test]
fn registry_keeps_registration_order_among_equal_deadlines() {
    let log = Arc::new(Mutex::new(Vec::new()));
    let mut registry = TimerRegistry::new();
    registry.register(10, tagged(1, &log));
    registry.register(5, tagged(0, &log));
    registry.register(10, tagged(2, &log));
    registry.register(10, tagged(3, &log));
    registry.register(11, tagged(4, &log));

    fire(registry.pop_ready_wakers(10));

    assert_eq!(*log.lock().unwrap(), vec![0, 1, 2, 3]);
    assert_eq!(registry.next_deadline(), Some(11));
}

#[test]
fn registry_pops_a_timer_at_its_deadline_and_not_before() {
    let mut registry = TimerRegistry::new();
    let (waker, count) = create_test_waker();
    registry.register(100, waker);

    assert!(registry.pop_ready_wakers(99).is_empty());
    assert_eq!(registry.next_deadline(), Some(100));

    let ready = registry.pop_ready_wakers(100);
    assert_eq!(ready.len(), 1);
    fire(ready);
    assert_eq!(count.load(Ordering::SeqCst), 1);
    assert!(registry.next_deadline().is_none());
}

#[test]
fn registry_hands_out_each_waker_once() {
    let mut registry = TimerRegistry::new();
    let (waker, count) = create_test_waker();
    registry.register(7, waker);

    fire(registry.pop_ready_wakers(7));
    fire(registry.pop_ready_wakers(7));
    fire(registry.pop_ready_wakers(u64::MAX));

    assert_eq!(count.load(Ordering::SeqCst), 1);
}

#[test]
fn registry_takes_the_extreme_instants() {
    let log = Arc::new(Mutex::new(Vec::new()));
    let mut registry = TimerRegistry::new();
    registry.register(u64::MAX, tagged(9, &log));
    registry.register(0, tagged(0, &log));

    assert_eq!(registry.next_deadline(), Some(0));
    fire(registry.pop_ready_wakers(0));
    assert_eq!(*log.lock().unwrap(), vec![0]);
    assert_eq!(registry.next_deadline(), Some(u64::MAX));
    fire(registry.pop_ready_wakers(u64::MAX));
    assert_eq!(*log.lock().unwrap(), vec![0, 9]);
}
