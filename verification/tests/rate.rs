use player_connect::rate::RateLimiter;

#[test]
fn admits_up_to_the_limit_within_a_window() {
    let mut limiter = RateLimiter::new(2, 100);
    assert!(limiter.allow_at(0));
    assert!(limiter.allow_at(10));
    assert!(!limiter.allow_at(20));
    assert!(!limiter.allow_at(100));
}

#[test]
fn forgets_requests_once_they_leave_the_window() {
    let mut limiter = RateLimiter::new(2, 100);
    assert!(limiter.allow_at(0));
    assert!(limiter.allow_at(10));
    // 101 - 0 > 100: the first request is forgotten
    assert!(limiter.allow_at(101));
    // 111 - 10 > 100: the second is forgotten too
    assert!(limiter.allow_at(111));
    assert!(!limiter.allow_at(150));
}

#[test]
fn a_request_exactly_one_window_old_still_counts() {
    let mut limiter = RateLimiter::new(1, 100);
    assert!(limiter.allow_at(50));
    assert!(!limiter.allow_at(150));
    assert!(limiter.allow_at(151));
}

#[test]
fn refused_requests_are_not_remembered() {
    let mut limiter = RateLimiter::new(1, 100);
    assert!(limiter.allow_at(0));
    assert!(!limiter.allow_at(90));
    // only the request at 0 was remembered, and it is gone at 101
    assert!(limiter.allow_at(101));
}

#[test]
fn a_limiter_of_nothing_admits_nothing() {
    let mut limiter = RateLimiter::new(0, 100);
    assert!(!limiter.allow_at(0));
    assert!(!limiter.allow_at(1_000));
}

#[test]
fn no_window_holds_more_than_the_limit() {
    let mut limiter = RateLimiter::new(3, 1_000);
    let mut admitted: Vec<u128> = Vec::new();
    for t in (0u128..10_000).step_by(37) {
        if limiter.allow_at(t) {
            admitted.push(t);
        }
    }
    for &t in &admitted {
        let within = admitted.iter().filter(|&&a| a <= t && t - a <= 1_000).count();
        assert!(within <= 3, "at {}: {}", t, within);
    }
    assert!(admitted.len() >= 27);
}

#[test]
fn the_clock_driven_limiter_counts_too() {
    let mut limiter = RateLimiter::new(1, 1_000_000_000_000);
    assert!(limiter.allow());
    assert!(!limiter.allow());
}

#[test]
fn the_clock_reads_milliseconds_since_1970() {
    let before = std::time::SystemTime::now()
        .duration_since(std::time::UNIX_EPOCH)
        .unwrap()
        .as_millis();
    let now = player_connect::utils::current_time_millis();
    let after = std::time::SystemTime::now()
        .duration_since(std::time::UNIX_EPOCH)
        .unwrap()
        .as_millis();
    assert!(before <= now && now <= after);
}
