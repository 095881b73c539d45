use slottle::fibonacci::{unit_fibonacci_seq, FIBONACCI_RATIO_LIMIT};
use slottle::{Fibonacci, Interval, LogRecord, ThrottleLog};
use std::time::Duration;

fn get_sample_throttle_log(failure_count: usize, total: usize) -> ThrottleLog {
    let mut log = ThrottleLog::new(total);
    for t in 0..failure_count {
        log.push(LogRecord {
            time: t as u128,
            successful: false,
        })
    }
    log
}

fn fibonacci_test_case(base_ms: u64, max_ms: u64, delay_ms: Vec<u64>) {
    let base = Duration::from_millis(base_ms);
    let max = Duration::from_millis(max_ms);
    let max_ratio = (max.as_secs_f64() / base.as_secs_f64()) as u32;
    let algo = Fibonacci::new(base.as_nanos(), max_ratio).into_interval();
    for (f_count, ms) in delay_ms.iter().enumerate() {
        let throttle_log = get_sample_throttle_log(f_count, algo.log_size());
        assert_eq!(
            algo.next_interval(Some(&throttle_log)),
            Duration::from_millis(*ms).as_nanos()
        );
    }
}

#[test]
fn interval_modify() {
    let algo = Interval::new(|_| Duration::from_millis(10).as_nanos(), 0).modify(|dur| dur * 2);

    assert_eq!(algo.next_interval(None), Duration::from_millis(20).as_nanos());
}

#[test]
fn test_fibonacci() {
    // max == base
    fibonacci_test_case(10, 10, vec![10, 10, 10]);

    // max > base but not reach next level
    fibonacci_test_case(10, 15, vec![10, 10, 10]);

    // max > base and reach next level
    fibonacci_test_case(10, 20, vec![10, 20, 20, 20]);

    // max > base but not equal the last fibonacci number
    fibonacci_test_case(10, 60, vec![10, 20, 30, 50, 50, 50]);
}

#[test]
fn unit_fibonacci_sequence() {
    assert_eq!(unit_fibonacci_seq(0), vec![1]);
    assert_eq!(unit_fibonacci_seq(1), vec![1]);
    assert_eq!(unit_fibonacci_seq(2), vec![1, 2]);
    assert_eq!(unit_fibonacci_seq(6), vec![1, 2, 3, 5]);
    assert_eq!(unit_fibonacci_seq(8), vec![1, 2, 3, 5, 8]);
    let largest = unit_fibonacci_seq(FIBONACCI_RATIO_LIMIT - 1);
    assert_eq!(largest.len(), 45);
    assert_eq!(*largest.last().unwrap(), 1836311903);
}

#[test]
fn fibonacci_delays_and_log_size() {
    let fib = Fibonacci::new(1000, 6);
    assert_eq!(fib.len(), 4);
    assert_eq!(fib.seq(), &vec![1, 2, 3, 5]);
    assert_eq!(fib.delay(0), 1000);
    assert_eq!(fib.delay(3), 5000);
    assert_eq!(fib.delay(100), 5000);
    let interval = fib.into_interval();
    assert_eq!(interval.log_size(), 4);
    // without a log no failure is counted
    assert_eq!(interval.next_interval(None), 1000);
}

#[test]
fn interval_from_nanos_and_default() {
    let fixed = Interval::from(1234u128);
    assert_eq!(fixed.next_interval(None), 1234);
    assert_eq!(fixed.log_size(), 0);
    let none = Interval::default();
    assert_eq!(none.next_interval(None), 0);
    let f = Interval::from_fn(|| 42);
    assert_eq!(f.next_interval(None), 42);
}

#[test]
fn interval_clone_shares_function() {
    let algo = Interval::new(|log: Option<&ThrottleLog>| log.map(|l| l.size() as u128).unwrap_or(9), 3);
    let copy = algo.clone();
    assert_eq!(copy.log_size(), 3);
    let log = ThrottleLog::new(3);
    assert_eq!(copy.next_interval(Some(&log)), 3);
    assert_eq!(copy.next_interval(None), 9);
}

#[test]
fn interval_modify_twice_composes() {
    let twice = Interval::from(10u128).modify(|d| d + 1).modify(|d| d * 2);
    let once = Interval::from(10u128).modify(|d| (d + 1) * 2);
    assert_eq!(twice.next_interval(None), 22);
    assert_eq!(once.next_interval(None), twice.next_interval(None));
    assert_eq!(twice.log_size(), 0);
}

#[test]
fn fibonacci_delays_stay_within_max() {
    // base 10ms, max 60ms: the delays run from 10ms to 50ms
    let fib = Fibonacci::new(10, 6);
    for failures in 0..10 {
        let d = fib.delay(failures);
        assert!(10 <= d && d <= 60);
    }
}
