# slottle

A throttle pool library: each throttle lets at most `concurrent` operations
per `interval` start on one resource, and a pool creates one throttle per
resource id. The interval may be computed for every operation from a log of
recent failures and successes; Fibonacci delays by failure count come
predefined.

Layout:

- `src/` is the verified library (Verus). It holds the throttle's schedule,
  its log, the interval configurations, the builders, the retry decisions and
  the pool's configuration, with their contracts and laws. Durations and
  points in time are counted in nanoseconds.
  - `log.rs`: `ThrottleLog`, the bounded log of finished operations.
  - `interval.rs`: `Interval` and the `IntervalFn` trait.
  - `fibonacci.rs`: the Fibonacci delay algorithm.
  - `throttle.rs`: `ThrottleBuilder`, `Throttle` (schedule and log),
    `RetryableResult` and the retry loop's decisions.
  - `pool.rs`: `ThrottlePoolBuilder` and `ThrottlePool`.
- `app/` wraps the library for threads: a mutex around each throttle's state,
  a semaphore for the concurrency quota, the clock and the sleeping
  (`SharedThrottle`, `SharedThrottlePool`), and what needs floating point.
- `tests/` runs the library on concrete values.
