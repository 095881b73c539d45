use slottle::{Interval, ThrottleLog, ThrottlePool};

#[test]
fn pool_build_checks_concurrent() {
    assert!(ThrottlePool::<bool>::builder().concurrent(0).build().is_none());
    assert!(ThrottlePool::<bool>::builder().concurrent(2).build().is_some());
}

#[test]
fn pool_throttles_have_pool_configuration() {
    let pool: ThrottlePool<u32> = ThrottlePool::builder()
        .interval(Interval::new(|_: Option<&ThrottleLog>| 100, 3))
        .concurrent(4)
        .build()
        .unwrap();
    assert_eq!(pool.concurrent(), 4);
    let mut throttle = pool.new_throttle();
    assert_eq!(throttle.concurrent(), 4);
    assert_eq!(throttle.log().unwrap().size(), 3);
    assert_eq!(throttle.waiting(0), Some(Some(0)));
    assert_eq!(throttle.waiting(0), Some(Some(25)));
    // every new throttle starts afresh
    let mut other = pool.new_throttle();
    assert_eq!(other.waiting(0), Some(Some(0)));
}

#[test]
fn pool_builder_defaults() {
    let pool: ThrottlePool<bool> = ThrottlePool::builder().build().unwrap();
    assert_eq!(pool.concurrent(), 1);
    let mut throttle = pool.new_throttle();
    assert!(throttle.log().is_none());
    assert_eq!(throttle.waiting(3), Some(None));
    assert_eq!(throttle.waiting(3), Some(Some(0)));
}
