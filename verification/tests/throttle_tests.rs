use auth_core::error::AuthError;
use auth_core::throttle::{
    check_login_attempts, cleanup_login_attempts, reset_login_attempts, LoginThrottle,
    CLEANUP_SECS, LOCKOUT_SECS, MAX_ATTEMPTS,
};

const T0: u64 = 1_700_000_000;

fn fail(throttle: &mut LoginThrottle, key: &str, times: u32, at: u64) {
    for _ in 0..times {
        throttle.record_failure(key, at);
    }
}

#[test]
fn test_login_attempts() {
    let mut throttle = LoginThrottle::new();
    let ip = "127.0.0.1";

    assert!(check_login_attempts(&throttle, ip).is_ok());

    reset_login_attempts(&mut throttle, ip);
    assert!(check_login_attempts(&throttle, ip).is_ok());
}

#[test]
fn limits_are_five_failures_and_five_minutes() {
    assert_eq!(MAX_ATTEMPTS, 5);
    assert_eq!(LOCKOUT_SECS, 300);
    assert_eq!(CLEANUP_SECS, 600);
}

#[test]
fn clean_key_is_allowed_and_counts_nothing() {
    let throttle = LoginThrottle::new();
    assert_eq!(throttle.check("10.0.0.1", T0), Ok(()));
    assert_eq!(throttle.failures("10.0.0.1", T0), 0);
}

#[test]
fn each_failure_counts_once() {
    let mut throttle = LoginThrottle::new();
    for expected in 1..=4u32 {
        throttle.record_failure("10.0.0.1", T0 + expected as u64);
        assert_eq!(throttle.failures("10.0.0.1", T0 + expected as u64), expected);
        assert_eq!(throttle.check("10.0.0.1", T0 + expected as u64), Ok(()));
    }
}

#[test]
fn fifth_failure_locks() {
    let mut throttle = LoginThrottle::new();
    fail(&mut throttle, "10.0.0.1", 4, T0);
    assert_eq!(throttle.check("10.0.0.1", T0), Ok(()));
    throttle.record_failure("10.0.0.1", T0);
    assert_eq!(throttle.failures("10.0.0.1", T0), 5);
    assert_eq!(throttle.check("10.0.0.1", T0), Err(AuthError::Locked));
}

#[test]
fn lock_lasts_five_minutes_from_the_last_failure() {
    let mut throttle = LoginThrottle::new();
    fail(&mut throttle, "10.0.0.1", 5, T0);
    assert_eq!(throttle.check("10.0.0.1", T0 + 1), Err(AuthError::Locked));
    assert_eq!(throttle.check("10.0.0.1", T0 + 300), Err(AuthError::Locked));
    assert_eq!(throttle.check("10.0.0.1", T0 + 301), Ok(()));
    assert_eq!(throttle.failures("10.0.0.1", T0 + 301), 0);
}

#[test]
fn aged_out_record_starts_again_at_one() {
    let mut throttle = LoginThrottle::new();
    fail(&mut throttle, "10.0.0.1", 3, T0);
    throttle.record_failure("10.0.0.1", T0 + 301);
    assert_eq!(throttle.failures("10.0.0.1", T0 + 301), 1);
}

#[test]
fn window_slides_with_each_failure() {
    let mut throttle = LoginThrottle::new();
    throttle.record_failure("10.0.0.1", T0);
    throttle.record_failure("10.0.0.1", T0 + 200);
    throttle.record_failure("10.0.0.1", T0 + 400);
    assert_eq!(throttle.failures("10.0.0.1", T0 + 400), 3);
    assert_eq!(throttle.failures("10.0.0.1", T0 + 700), 3);
    assert_eq!(throttle.failures("10.0.0.1", T0 + 701), 0);
}

#[test]
fn keys_are_independent() {
    let mut throttle = LoginThrottle::new();
    fail(&mut throttle, "10.0.0.1", 5, T0);
    assert_eq!(throttle.check("10.0.0.2", T0), Ok(()));
    assert_eq!(throttle.failures("10.0.0.2", T0), 0);
    throttle.record_failure("10.0.0.2", T0);
    assert_eq!(throttle.failures("10.0.0.2", T0), 1);
    assert_eq!(throttle.failures("10.0.0.1", T0), 5);
}

#[test]
fn reset_clears_one_key_only() {
    let mut throttle = LoginThrottle::new();
    fail(&mut throttle, "10.0.0.1", 5, T0);
    fail(&mut throttle, "10.0.0.2", 2, T0);
    fail(&mut throttle, "10.0.0.3", 1, T0);
    reset_login_attempts(&mut throttle, "10.0.0.1");
    assert_eq!(throttle.check("10.0.0.1", T0), Ok(()));
    assert_eq!(throttle.failures("10.0.0.1", T0), 0);
    assert_eq!(throttle.failures("10.0.0.2", T0), 2);
    assert_eq!(throttle.failures("10.0.0.3", T0), 1);
    throttle.record_failure("10.0.0.1", T0);
    assert_eq!(throttle.failures("10.0.0.1", T0), 1);
}

#[test]
fn reset_of_an_unknown_key_changes_nothing() {
    let mut throttle = LoginThrottle::new();
    fail(&mut throttle, "10.0.0.2", 2, T0);
    reset_login_attempts(&mut throttle, "10.0.0.9");
    assert_eq!(throttle.failures("10.0.0.2", T0), 2);
}

#[test]
fn clock_running_backwards_keeps_records_alive() {
    let mut throttle = LoginThrottle::new();
    fail(&mut throttle, "10.0.0.1", 5, T0);
    assert_eq!(throttle.check("10.0.0.1", T0 - 1000), Err(AuthError::Locked));
}

#[test]
fn failures_beyond_the_limit_still_count() {
    let mut throttle = LoginThrottle::new();
    fail(&mut throttle, "10.0.0.1", 7, T0);
    assert_eq!(throttle.failures("10.0.0.1", T0), 7);
    assert_eq!(throttle.check("10.0.0.1", T0), Err(AuthError::Locked));
}

#[test]
fn sweep_deletes_records_older_than_ten_minutes() {
    let mut throttle = LoginThrottle::new();
    fail(&mut throttle, "old", 5, T0);
    fail(&mut throttle, "edge", 2, T0 + 100);
    fail(&mut throttle, "new", 3, T0 + 650);
    throttle.sweep(T0 + 700);
    // "old" is 700 s old and goes; "edge" is exactly 600 s old and stays.
    assert_eq!(throttle.failures("old", T0), 0);
    assert_eq!(throttle.failures("edge", T0 + 100), 2);
    assert_eq!(throttle.failures("new", T0 + 700), 3);
    throttle.sweep(T0 + 701);
    assert_eq!(throttle.failures("edge", T0 + 100), 0);
    assert_eq!(throttle.failures("new", T0 + 701), 3);
}

#[test]
fn sweep_keeps_what_is_recent() {
    let mut throttle = LoginThrottle::new();
    fail(&mut throttle, "a", 1, T0);
    fail(&mut throttle, "b", 2, T0);
    throttle.sweep(T0 + 600);
    assert_eq!(throttle.failures("a", T0), 1);
    assert_eq!(throttle.failures("b", T0), 2);
}

#[test]
fn cleanup_at_the_current_time_drops_ancient_records() {
    let mut throttle = LoginThrottle::new();
    fail(&mut throttle, "ancient", 5, 1_000);
    fail(&mut throttle, "future", 5, u64::MAX);
    cleanup_login_attempts(&mut throttle);
    assert_eq!(throttle.failures("ancient", 1_000), 0);
    assert_eq!(throttle.failures("future", u64::MAX), 5);
}

#[test]
fn check_at_the_current_time_sees_a_fresh_lock() {
    let mut throttle = LoginThrottle::new();
    fail(&mut throttle, "10.0.0.1", 5, u64::MAX);
    assert_eq!(check_login_attempts(&throttle, "10.0.0.1"), Err(AuthError::Locked));
    assert_eq!(check_login_attempts(&throttle, "10.0.0.2"), Ok(()));
    let mut stale = LoginThrottle::new();
    fail(&mut stale, "10.0.0.1", 5, 1_000);
    assert_eq!(check_login_attempts(&stale, "10.0.0.1"), Ok(()));
}

#[test]
fn a_key_may_fail_be_reset_and_fail_again_many_times() {
    let mut throttle = LoginThrottle::new();
    for round in 0..50u64 {
        throttle.record_failure("10.0.0.1", T0 + round);
        throttle.record_failure("10.0.0.1", T0 + round);
        assert_eq!(throttle.failures("10.0.0.1", T0 + round), 2);
        reset_login_attempts(&mut throttle, "10.0.0.1");
        assert_eq!(throttle.failures("10.0.0.1", T0 + round), 0);
    }
    throttle.record_failure("10.0.0.1", T0 + 50);
    throttle.record_failure("10.0.0.2", T0 + 50);
    throttle.sweep(T0 + 60);
    assert_eq!(throttle.failures("10.0.0.1", T0 + 60), 1);
    assert_eq!(throttle.failures("10.0.0.2", T0 + 60), 1);
    throttle.sweep(T0 + 50 + 601);
    assert_eq!(throttle.failures("10.0.0.1", T0 + 50), 0);
    assert_eq!(throttle.failures("10.0.0.2", T0 + 50), 0);
    throttle.record_failure("10.0.0.2", T0 + 700);
    assert_eq!(throttle.failures("10.0.0.2", T0 + 700), 1);
}
