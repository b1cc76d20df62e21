//! A user-space concurrent task runtime, stated as verified sequential cores:
//! the outcome slot behind a join handle, the work-stealing scheduler, the
//! readiness registry of the reactor, the deadline-ordered timer wheel, and the
//! counters and policies of the runtime that composes them.
//!
//! Every type here is plain data with a mathematical view. Threads, locks, the
//! operating system's readiness multiplexer and the clock live with the caller,
//! which hands this library instants as nanoseconds since an origin of its
//! choosing and wakeups as values of a type of its choosing.

pub mod fs;
pub mod reactor;
pub mod runtime;
pub mod scheduler;
pub mod task;
pub mod time;
