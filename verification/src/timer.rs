//! Timers: the registry of pending wakeups, the reactor that fires them and
//! the state of a sleep.

pub mod reactor;
pub mod registry;
pub mod sleep;
