//! A single-threaded cooperative task runtime: a FIFO scheduler of suspended
//! tasks and a reactor that turns kernel readiness notifications into wake-ups.
//!
//! The state machines live here and are verified; the kernel calls and the
//! polling of futures are performed by the surrounding application, which
//! hands the results back as plain values.
pub mod dispatcher;
pub mod executor;
pub mod kevent;
pub mod laws;
pub mod reactor;
pub mod register;
pub mod scheduler;
pub mod signal;
pub mod timer;
