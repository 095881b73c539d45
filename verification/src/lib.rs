//! A throttle pool library designed for thread-based concurrency.
//!
//! A throttle limits how fast operations on one resource may start: at most
//! `concurrent` operations per `interval`. The interval can be computed anew
//! for every operation from the throttle's log of recent failures and
//! successes.
//!
//! Durations and points in time are counted in nanoseconds; points in time
//! are taken from a time origin chosen by the throttle's owner.
pub mod fibonacci;
pub mod interval;
pub mod log;
pub mod pool;
pub mod throttle;

pub use crate::fibonacci::Fibonacci;
pub use crate::interval::{Interval, IntervalFn};
pub use crate::log::{LogRecord, ThrottleLog};
pub use crate::pool::{ThrottlePool, ThrottlePoolBuilder};
pub use crate::throttle::{RetryStep, RetryableResult, Throttle, ThrottleBuilder};
