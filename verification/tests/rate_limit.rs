use morty_rs::rate::LastUpdate;

#[test]
fn first_poll_always_fires() {
    let mut limiter = LastUpdate::new();
    assert!(limiter.should_update(123456, 10));
}

#[test]
fn exactly_one_firing_per_interval_under_fast_polling() {
    // Interval of 10 time units, polled every 1: the initial poll fires,
    // then exactly one firing occurs per 10 polls.
    let mut limiter = LastUpdate::new();
    let mut fired: Vec<u64> = Vec::new();
    for now in 0..101u64 {
        if limiter.should_update(now, 10) {
            fired.push(now);
        }
    }
    assert_eq!(fired, vec![0, 10, 20, 30, 40, 50, 60, 70, 80, 90, 100]);
}

#[test]
fn no_firing_before_the_interval_elapses() {
    let mut limiter = LastUpdate::new();
    assert!(limiter.should_update(100, 10));
    assert!(!limiter.should_update(105, 10));
    assert!(!limiter.should_update(109, 10));
    assert!(limiter.should_update(110, 10));
    assert!(!limiter.should_update(111, 10));
}

#[test]
fn a_failed_poll_does_not_reset_the_clock() {
    let mut limiter = LastUpdate::new();
    assert!(limiter.should_update(0, 10));
    for now in 1..10u64 {
        assert!(!limiter.should_update(now, 10));
    }
    // Ten units after the last firing, not after the last poll.
    assert!(limiter.should_update(10, 10));
}

#[test]
fn zero_interval_fires_every_poll() {
    let mut limiter = LastUpdate::new();
    assert!(limiter.should_update(5, 0));
    assert!(limiter.should_update(5, 0));
    assert!(limiter.should_update(6, 0));
}
