use slottle::{Interval, RetryStep, RetryableResult, Throttle, ThrottleLog};
use std::time::Duration;

fn ms(n: u64) -> u128 {
    Duration::from_millis(n).as_nanos()
}

/// Run a retry loop the way a throttle's owner does, deciding each step
/// with `after_round`.
fn run_retry<T, E>(mut f: impl FnMut(usize) -> RetryableResult<T, E>, max_retry: usize) -> (Result<T, E>, usize) {
    let mut round = 1;
    let mut attempts = 0;
    loop {
        attempts += 1;
        match f(round).after_round(round, max_retry) {
            RetryStep::Finish(result) => return (result, attempts),
            RetryStep::Retry(next) => round = next,
        }
    }
}

#[test]
fn mod_with_concurrent_equal_0() {
    assert!(Throttle::builder().concurrent(0).build().is_none());
}

#[test]
fn mod_with_concurrent_equal_to_isize_max() {
    // this case may run out of memory in previous implementation.
    assert!(Throttle::builder()
        .concurrent(isize::MAX as u32)
        .build()
        .is_some());
}

#[test]
fn mod_with_concurrent_large_than_isize_max() {
    // Only where isize::MAX fits in a u32 (pointer width 32 or less) is there
    // a u32 larger than isize::MAX.
    if let Ok(max) = u32::try_from(isize::MAX) {
        if let Some(larger) = max.checked_add(1) {
            assert!(Throttle::builder().concurrent(larger).build().is_none());
        }
    }
}

#[test]
fn throttle_with_concurrent_equal_0() {
    assert!(Throttle::builder().concurrent(0).build().is_none());
}

#[test]
fn throttle_with_concurrent_equal_to_isize_max() {
    assert!(Throttle::builder()
        .concurrent(isize::MAX as u32)
        .build()
        .is_some());
}

#[test]
fn throttle_with_concurrent_large_than_isize_max() {
    if let Ok(max) = u32::try_from(isize::MAX) {
        if let Some(larger) = max.checked_add(1) {
            assert!(Throttle::builder().concurrent(larger).build().is_none());
        }
    }
}

#[test]
fn retryable_result_convert() {
    let orig: Result<bool, u32> = Err(42);
    let to: RetryableResult<bool, u32> = orig.into();

    assert_eq!(to, RetryableResult::RetryableErr(42))
}

#[test]
fn retryable_result_convert_ok() {
    let orig: Result<bool, u32> = Ok(true);
    let to: RetryableResult<bool, u32> = orig.into();
    assert_eq!(to, RetryableResult::Success(true));
}

#[test]
fn builder_defaults() {
    let throttle = Throttle::builder().build().unwrap();
    assert_eq!(throttle.concurrent(), 1);
    assert!(throttle.log().is_none());
}

#[test]
fn first_operation_starts_at_once() {
    let mut throttle = Throttle::builder().interval(ms(10)).build().unwrap();
    // arriving exactly at the time origin: nothing left to wait
    assert_eq!(throttle.waiting(0), Some(Some(0)));
    let mut throttle = Throttle::builder().interval(ms(10)).build().unwrap();
    // arriving later: no wait at all
    assert_eq!(throttle.waiting(5), Some(None));
}

#[test]
fn operations_spaced_by_interval_over_concurrent() {
    // 2 per 20ms = 1 per 10ms
    let mut throttle = Throttle::builder().interval(ms(20)).concurrent(2).build().unwrap();
    assert_eq!(throttle.waiting(0), Some(Some(0)));
    assert_eq!(throttle.waiting(0), Some(Some(ms(10))));
    assert_eq!(throttle.waiting(0), Some(Some(ms(20))));
    // an operation arriving after the schedule has passed does not wait
    assert_eq!(throttle.waiting(ms(100)), Some(None));
    assert_eq!(throttle.waiting(ms(101)), Some(Some(ms(9))));
}

#[test]
fn advance_exact_schedule() {
    let mut throttle = Throttle::builder().concurrent(3).build().unwrap();
    // 10ms / 3, truncated to whole nanoseconds
    assert_eq!(throttle.advance(0, ms(10)), Some(0));
    assert_eq!(throttle.advance(1, ms(10)), Some(3_333_332));
    assert_eq!(throttle.advance(7_000_000, 0), None);
    assert_eq!(throttle.advance(7_000_000, 0), Some(0));
}

#[test]
fn waiting_refuses_an_unrepresentable_schedule() {
    let mut throttle = Throttle::builder().interval(u128::MAX).build().unwrap();
    assert_eq!(throttle.waiting(0), Some(Some(0)));
    // the schedule now stands at u128::MAX: the next step does not fit, and
    // the throttle is left as it was
    assert_eq!(throttle.waiting(1), None);
    assert_eq!(throttle.waiting(1), None);
}

#[test]
fn write_log_and_interval_reads_it() {
    let interval = Interval::new(
        |log: Option<&ThrottleLog>| match log {
            Some(l) => l.failure_count() as u128 * 1000,
            None => 7,
        },
        2,
    );
    let mut throttle = Throttle::builder().interval(interval).build().unwrap();
    assert_eq!(throttle.log().unwrap().size(), 2);
    throttle.write_log(10, false);
    throttle.write_log(20, false);
    throttle.write_log(30, true);
    assert_eq!(throttle.log().unwrap().failure_count(), 1);
    assert_eq!(throttle.log().unwrap().duration(), Some(10));
    // first operation: allowed from 0, interval 1 failure * 1000
    assert_eq!(throttle.waiting(0), Some(Some(0)));
    assert_eq!(throttle.waiting(0), Some(Some(1000)));
}

#[test]
fn no_log_without_log_size() {
    let interval = Interval::new(
        |log: Option<&ThrottleLog>| match log {
            Some(_) => 1,
            None => 500,
        },
        0,
    );
    let mut throttle = Throttle::builder().interval(interval).build().unwrap();
    throttle.write_log(10, false);
    assert!(throttle.log().is_none());
    assert_eq!(throttle.waiting(0), Some(Some(0)));
    assert_eq!(throttle.waiting(0), Some(Some(500)));
}

#[test]
fn retry_rounds_example() {
    let which_round_finished: Vec<Result<usize, usize>> = vec![2, 1, 0]
        .into_iter()
        .map(|x| {
            run_retry(
                |round| match x + round >= 3 {
                    false => RetryableResult::RetryableErr(round),
                    true => RetryableResult::Success(round),
                },
                1,
            )
            .0
        })
        .collect();
    assert_eq!(which_round_finished, vec![Ok(1), Ok(2), Err(2)]);
}

#[test]
fn retry_fatal_example() {
    let which_round_finished: Vec<Result<usize, usize>> = vec![2, 1, 0]
        .into_iter()
        .map(|x| {
            run_retry(
                |round| match x + round >= 3 {
                    false => RetryableResult::FatalErr(round),
                    true => RetryableResult::Success(round),
                },
                1,
            )
            .0
        })
        .collect();
    assert_eq!(which_round_finished, vec![Ok(1), Err(1), Err(1)]);
}

#[test]
fn retry_runs_at_most_max_retry_plus_one_times() {
    let (result, attempts) = run_retry(|round| RetryableResult::<(), usize>::RetryableErr(round), 4);
    assert_eq!(result, Err(5));
    assert_eq!(attempts, 5);
    let (result, attempts) = run_retry(|round| RetryableResult::<(), usize>::RetryableErr(round), 0);
    assert_eq!(result, Err(1));
    assert_eq!(attempts, 1);
}

#[test]
fn after_round_steps() {
    assert_eq!(RetryableResult::<u8, u8>::Success(3).after_round(1, 2), RetryStep::Finish(Ok(3)));
    assert_eq!(RetryableResult::<u8, u8>::RetryableErr(4).after_round(1, 2), RetryStep::Retry(2));
    assert_eq!(RetryableResult::<u8, u8>::RetryableErr(4).after_round(3, 2), RetryStep::Finish(Err(4)));
    assert_eq!(RetryableResult::<u8, u8>::FatalErr(5).after_round(1, 2), RetryStep::Finish(Err(5)));
}

#[test]
fn run_fallible_example_schedule() {
    // one record of log: 10ms after a success, 50ms after a failure
    let interval = Interval::new(
        |log: Option<&ThrottleLog>| match log.unwrap().failure_count_cont() {
            0 => ms(10),
            _ => ms(50),
        },
        1,
    );
    let mut throttle = Throttle::builder().interval(interval).build().unwrap();
    // three failing operations queue up at once
    assert_eq!(throttle.waiting(0), Some(Some(0)));
    throttle.write_log(0, false);
    // the failure only slows down the operation after the next one
    assert_eq!(throttle.waiting(0), Some(Some(ms(10))));
    throttle.write_log(ms(10), false);
    assert_eq!(throttle.waiting(ms(10)), Some(Some(ms(50))));
}

#[test]
fn next_interval_then_try_advance() {
    let mut throttle = Throttle::builder().interval(ms(20)).concurrent(4).build().unwrap();
    let interval = throttle.next_interval();
    assert_eq!(interval, ms(20));
    assert_eq!(throttle.try_advance(0, interval), Some(Some(0)));
    assert_eq!(throttle.try_advance(ms(1), interval), Some(Some(ms(4))));
    assert_eq!(throttle.try_advance(0, 0), Some(Some(ms(10))));
}

#[test]
fn builder_default_has_no_delay() {
    let mut throttle = Throttle::builder().build().unwrap();
    assert_eq!(throttle.next_interval(), 0);
    assert_eq!(throttle.waiting(0), Some(Some(0)));
    assert_eq!(throttle.waiting(0), Some(Some(0)));
}

#[test]
fn retryable_result_is_success() {
    assert!(RetryableResult::<u8, u8>::Success(1).is_success());
    assert!(!RetryableResult::<u8, u8>::RetryableErr(1).is_success());
    assert!(!RetryableResult::<u8, u8>::FatalErr(1).is_success());
}
