//! The sequential core of a small asynchronous task runtime.
//!
//! Every component of the runtime keeps its decisions here, as plain state
//! with exact contracts: the timer registry and reactor, the sleep state, the
//! join state of a submitted computation, the cancellation state, and the
//! rules by which a worker and a submission endpoint act. Threads, locks and
//! the `Future` plumbing wrap these states from the outside.
//!
//! Instants and durations are `u64` nanoseconds on a monotonic clock of the
//! embedder's choice.

pub mod cancellation;
pub mod executor;
pub mod join_handle;
pub mod timer;
pub mod waker;

pub use cancellation::CancellationState;
pub use executor::spawner::SpawnError;
pub use join_handle::{JoinError, JoinState};
pub use timer::reactor::Reactor;
pub use timer::registry::TimerRegistry;
pub use timer::sleep::{sleep, SleepFuture};
