use std::sync::atomic::{AtomicUsize, Ordering};
use std::sync::Arc;
use std::task::{Wake, Waker};

use runtime::{JoinError, JoinState};

struct Counting {
    count: Arc<AtomicUsize>,
}

impl Wake for Counting {
    fn wake(self: Arc<Self>) {
        self.count.fetch_add(1, Ordering::SeqCst);
    }
}

fn counting_waker() -> (Waker, Arc<AtomicUsize>) {
    let count = Arc::new(AtomicUsize::new(0));
    (Waker::from(Arc::new(Counting { count: count.clone() })), count)
}

#[test]
fn join_handle_starts_not_finished() {
    let state: JoinState<i32> = JoinState::new();
    assert!(!state.is_finished());
}

#[test]
fn join_handle_is_finished_after_complete() {
    let mut state: JoinState<i32> = JoinState::new();
    let _ = state.complete(Ok(42));
    assert!(state.is_finished());
}

#[test]
fn poll_before_completion_suspends_and_stores_the_waker() {
    let mut state: JoinState<i32> = JoinState::new();
    let (waker, count) = counting_waker();

    assert!(state.poll(waker).is_none());
    assert!(!state.is_finished());
    assert_eq!(count.load(Ordering::SeqCst), 0);

    let to_wake = state.complete(Ok(7));
    assert!(to_wake.is_some());
    to_wake.unwrap().wake();
    assert_eq!(count.load(Ordering::SeqCst), 1);
}

#[test]
fn poll_after_completion_takes_the_result() {
    let mut state: JoinState<i32> = JoinState::new();
    assert!(state.complete(Ok(42)).is_none());

    let (waker, count) = counting_waker();
    assert_eq!(state.poll(waker), Some(Ok(42)));
    assert!(!state.is_finished());
    assert_eq!(count.load(Ordering::SeqCst), 0);
}

#[test]
fn completion_with_an_error_is_handed_out_as_it_is() {
    let mut state: JoinState<i32> = JoinState::new();
    let _ = state.complete(Err(JoinError::Panicked));
    let (waker, _) = counting_waker();
    assert_eq!(state.poll(waker), Some(Err(JoinError::Panicked)));

    let mut other: JoinState<i32> = JoinState::new();
    let _ = other.complete(Err(JoinError::Cancelled));
    let (waker, _) = counting_waker();
    assert_eq!(other.poll(waker), Some(Err(JoinError::Cancelled)));
}

#[test]
fn only_the_latest_waker_is_fired() {
    let mut state: JoinState<u8> = JoinState::new();
    let (first, first_count) = counting_waker();
    let (second, second_count) = counting_waker();

    assert!(state.poll(first).is_none());
    assert!(state.poll(second).is_none());
    state.complete(Ok(1)).unwrap().wake();

    assert_eq!(first_count.load(Ordering::SeqCst), 0);
    assert_eq!(second_count.load(Ordering::SeqCst), 1);
}

#[test]
fn completion_leaves_no_waker_behind() {
    let mut state: JoinState<u8> = JoinState::new();
    let (waker, count) = counting_waker();
    assert!(state.poll(waker).is_none());

    state.complete(Ok(1)).unwrap().wake();
    assert!(state.complete(Ok(2)).is_none());
    assert_eq!(count.load(Ordering::SeqCst), 1);
}
