//! The scheduler's rules: when a submission is accepted, what a worker does
//! with what it finds in the queue, and what becomes of a task after a poll.

pub mod queue;
pub mod spawner;
pub mod task;
pub mod worker;
