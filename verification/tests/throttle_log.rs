use slottle::{LogRecord, ThrottleLog};

fn record(time: u128, successful: bool) -> LogRecord {
    LogRecord { time, successful }
}

fn rate(log: &ThrottleLog) -> f64 {
    let (failed, size) = log.failure_rate().unwrap();
    failed as f64 / size as f64
}

#[test]
fn throttle_log_op() {
    let mut log = ThrottleLog::new(4);

    assert_eq!(log.failure_count_cont(), 0);
    assert_eq!(log.failure_count(), 0);
    assert_eq!(rate(&log), 0.0);

    log.push(record(1, false));
    assert_eq!(log.failure_count_cont(), 1);
    assert_eq!(log.failure_count(), 1);
    assert_eq!(rate(&log), 0.25);

    log.push(record(2, false));
    assert_eq!(log.failure_count_cont(), 2);
    assert_eq!(log.failure_count(), 2);
    assert_eq!(rate(&log), 0.5);

    log.push(record(3, true));
    log.push(record(4, true));
    assert_eq!(log.failure_count_cont(), 0);
    assert_eq!(log.failure_count(), 2);
    assert_eq!(rate(&log), 0.5);

    log.push(record(5, true));
    assert_eq!(log.failure_count_cont(), 0);
    assert_eq!(log.failure_count(), 1);
    assert_eq!(rate(&log), 0.25);

    log.push(record(6, false));
    assert_eq!(log.failure_count_cont(), 1);
    assert_eq!(log.failure_count(), 1);
    assert_eq!(rate(&log), 0.25);
}

#[test]
fn throttle_log_new_0() {
    let mut log = ThrottleLog::new(0);

    log.push(record(1, false));
    assert_eq!(log.failure_count_cont(), 0);
    assert_eq!(log.failure_count(), 0);
    assert!(log.failure_rate().is_none());
}

#[test]
fn throttle_log_size_never_changes() {
    let mut log = ThrottleLog::new(3);
    for t in 0..10 {
        log.push(record(t, t % 2 == 0));
        assert_eq!(log.size(), 3);
    }
}

#[test]
fn throttle_log_drops_oldest_when_full() {
    let mut log = ThrottleLog::new(2);
    log.push(record(10, false));
    log.push(record(20, true));
    log.push(record(30, true));
    // the failure at time 10 has left
    assert_eq!(log.failure_count(), 0);
    // the two newest remain, 30 first and 20 last
    assert_eq!(log.duration(), Some(10));
}

#[test]
fn throttle_log_examples_from_docs() {
    // newest first: F F S F F
    let mut log = ThrottleLog::new(5);
    for successful in [false, false, true, false, false] {
        log.push(record(0, successful));
    }
    assert_eq!(log.failure_count(), 4);
    assert_eq!(log.failure_count_cont(), 2);

    // newest first: S F F F F
    let mut log = ThrottleLog::new(5);
    for successful in [false, false, false, false, true] {
        log.push(record(0, successful));
    }
    assert_eq!(log.failure_count(), 4);
    assert_eq!(log.failure_count_cont(), 0);
    assert_eq!(log.failure_rate(), Some((4, 5)));

    // newest first: F S S S S
    let mut log = ThrottleLog::new(5);
    for successful in [true, true, true, true, false] {
        log.push(record(0, successful));
    }
    assert_eq!(log.failure_count(), 1);
    assert_eq!(log.failure_count_cont(), 1);
}

#[test]
fn throttle_log_duration() {
    let mut log = ThrottleLog::new(3);
    assert_eq!(log.duration(), None);
    log.push(record(100, true));
    assert_eq!(log.duration(), None);
    log.push(record(250, true));
    assert_eq!(log.duration(), Some(150));
    log.push(record(400, false));
    assert_eq!(log.duration(), Some(300));
    log.push(record(1000, false));
    assert_eq!(log.duration(), Some(750));
}

#[test]
fn throttle_log_duration_saturates() {
    let mut log = ThrottleLog::new(2);
    log.push(record(500, true));
    log.push(record(100, true));
    assert_eq!(log.duration(), Some(0));
}

#[test]
fn throttle_log_clone_keeps_records() {
    let mut log = ThrottleLog::new(2);
    log.push(record(1, false));
    let copy = log.clone();
    assert_eq!(copy, log);
    assert_eq!(copy.failure_count(), 1);
    assert_eq!(copy.size(), 2);
}

#[test]
fn throttle_log_count_after_pushes() {
    for n in 0..4usize {
        let mut log = ThrottleLog::new(n);
        for p in 0..6u128 {
            log.push(record(p, false));
            assert_eq!(log.failure_count(), std::cmp::min(n, p as usize + 1));
        }
    }
}
