use std::sync::atomic::AtomicBool;

use crossbeam_deque::Injector;
use runtime::executor::queue::StealOutcome;
use runtime::executor::spawner::{check_open, submit};
use runtime::executor::task::{PollOutcome, Task};
use runtime::executor::worker::{worker_action, worker_step, WorkerAction};
use runtime::{JoinError, SpawnError};

#[test]
fn task_new_creates_with_future() {
    let mut task = Task::new(7_u32);
    assert!(task.future_slot().is_some());
}

#[test]
fn task_future_can_be_taken() {
    let mut task = Task::new(7_u32);

    let taken = task.future_slot().map(|future| *future);
    assert!(taken.is_some());
    assert_eq!(task.settle(PollOutcome::Ready), None);
    assert!(task.future_slot().is_none());
}

#[test]
fn a_submitted_task_reaches_the_queue() {
    let queue: Injector<u32> = Injector::new();
    let open = AtomicBool::new(false);

    assert_eq!(submit(&queue, &open, 1), Ok(()));

    assert!(!queue.is_empty());
}

#[test]
fn a_pending_poll_keeps_the_computation_with_what_the_poll_did_to_it() {
    let mut task = Task::new(1_u32);
    if let Some(future) = task.future_slot() {
        *future = 2;
    }
    assert_eq!(task.settle(PollOutcome::Pending), None);
    assert_eq!(task.future_slot().map(|future| *future), Some(2));
}

#[test]
fn a_panicked_poll_clears_the_slot_and_reports_it() {
    let mut task = Task::new(1_u32);
    assert_eq!(task.settle(PollOutcome::Panicked), Some(JoinError::Panicked));
    assert!(task.future_slot().is_none());
}

#[test]
fn a_stale_wakeup_finds_nothing_and_reports_nothing() {
    let mut task = Task::new(1_u32);
    assert_eq!(task.settle(PollOutcome::Ready), None);
    assert_eq!(task.settle(PollOutcome::Panicked), None);
    assert_eq!(task.settle(PollOutcome::Pending), None);
    assert!(task.future_slot().is_none());
}

#[test]
fn submission_is_refused_exactly_after_shutdown() {
    assert_eq!(check_open(false), Ok(()));
    assert_eq!(check_open(true), Err(SpawnError::RuntimeStopped));
}

#[test]
fn a_refused_submission_is_not_enqueued() {
    let queue: Injector<u32> = Injector::new();
    let stopped = AtomicBool::new(true);

    assert_eq!(submit(&queue, &stopped, 1), Err(SpawnError::RuntimeStopped));
    assert!(queue.is_empty());
}

#[test]
fn the_worker_rule_covers_every_answer_of_the_queue() {
    assert!(matches!(worker_action(StealOutcome::Success(3_u8), false), WorkerAction::Execute(3)));
    assert!(matches!(worker_action(StealOutcome::Success(3_u8), true), WorkerAction::Execute(3)));
    assert!(matches!(worker_action(StealOutcome::<u8>::Empty, false), WorkerAction::Yield));
    assert!(matches!(worker_action(StealOutcome::<u8>::Empty, true), WorkerAction::Exit));
    assert!(matches!(worker_action(StealOutcome::<u8>::Retry, false), WorkerAction::Retry));
    assert!(matches!(worker_action(StealOutcome::<u8>::Retry, true), WorkerAction::Retry));
}

#[test]
fn a_worker_takes_tasks_in_the_order_of_submission() {
    let queue: Injector<u32> = Injector::new();
    let open = AtomicBool::new(false);
    for task in [10, 20, 30] {
        assert_eq!(submit(&queue, &open, task), Ok(()));
    }

    assert!(matches!(worker_step(&queue, &open), WorkerAction::Execute(10)));
    assert!(matches!(worker_step(&queue, &open), WorkerAction::Execute(20)));
    assert!(matches!(worker_step(&queue, &open), WorkerAction::Execute(30)));
    assert!(matches!(worker_step(&queue, &open), WorkerAction::Yield));
}

#[test]
fn a_worker_drains_the_queue_before_it_exits() {
    let queue: Injector<u32> = Injector::new();
    let flag = AtomicBool::new(false);
    assert_eq!(submit(&queue, &flag, 1), Ok(()));
    assert_eq!(submit(&queue, &flag, 2), Ok(()));
    flag.store(true, std::sync::atomic::Ordering::SeqCst);

    assert!(matches!(worker_step(&queue, &flag), WorkerAction::Execute(1)));
    assert!(matches!(worker_step(&queue, &flag), WorkerAction::Execute(2)));
    assert!(matches!(worker_step(&queue, &flag), WorkerAction::Exit));
    assert!(matches!(worker_step(&queue, &flag), WorkerAction::Exit));
}
