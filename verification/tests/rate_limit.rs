use fazuh_utils::rate_limit::{check_contact_rate_limit, RateLimiter, MAX_REQUESTS, WINDOW_NANOS};

const T0: u64 = 1_000_000_000_000;
const SECOND: u64 = 1_000_000_000;

#[test]
fn allows_first_request_for_new_key() {
    let mut limits = RateLimiter::new();
    assert!(check_contact_rate_limit(&mut limits, "allows-first-key", T0));
}

#[test]
fn allows_up_to_five_consecutive_requests() {
    let mut limits = RateLimiter::new();
    let key = "allows-five-explicit-key";

    assert!(check_contact_rate_limit(&mut limits, key, T0));
    assert!(check_contact_rate_limit(&mut limits, key, T0));
    assert!(check_contact_rate_limit(&mut limits, key, T0));
    assert!(check_contact_rate_limit(&mut limits, key, T0));
    assert!(check_contact_rate_limit(&mut limits, key, T0));
    assert!(!check_contact_rate_limit(&mut limits, key, T0));
}

#[test]
fn rejects_sixth_request_within_window() {
    let mut limits = RateLimiter::new();
    let key = "rejects-sixth-key";

    assert!(check_contact_rate_limit(&mut limits, key, T0));
    assert!(check_contact_rate_limit(&mut limits, key, T0 + SECOND));
    assert!(check_contact_rate_limit(&mut limits, key, T0 + 2 * SECOND));
    assert!(check_contact_rate_limit(&mut limits, key, T0 + 3 * SECOND));
    assert!(check_contact_rate_limit(&mut limits, key, T0 + 4 * SECOND));
    assert!(!check_contact_rate_limit(&mut limits, key, T0 + 5 * SECOND));
}

#[test]
fn reopens_window_after_expiry() {
    let mut limits = RateLimiter::new();
    let key = "reopens-window-key";

    assert!(check_contact_rate_limit(&mut limits, key, T0));
    assert!(check_contact_rate_limit(&mut limits, key, T0));
    assert!(check_contact_rate_limit(&mut limits, key, T0));
    assert!(check_contact_rate_limit(&mut limits, key, T0));
    assert!(check_contact_rate_limit(&mut limits, key, T0));
    assert!(!check_contact_rate_limit(&mut limits, key, T0));

    // The window that started at T0 is 301 seconds old.
    let later = T0 + 301 * SECOND;
    assert!(check_contact_rate_limit(&mut limits, key, later));
    assert!(check_contact_rate_limit(&mut limits, key, later));
    assert!(check_contact_rate_limit(&mut limits, key, later));
    assert!(check_contact_rate_limit(&mut limits, key, later));
    assert!(check_contact_rate_limit(&mut limits, key, later));
    assert!(!check_contact_rate_limit(&mut limits, key, later));
}

#[test]
fn isolates_rate_limits_per_key() {
    let mut limits = RateLimiter::new();
    let key_a = "isolates-key-a";
    let key_b = "isolates-key-b";

    assert!(check_contact_rate_limit(&mut limits, key_a, T0));
    assert!(check_contact_rate_limit(&mut limits, key_a, T0));
    assert!(check_contact_rate_limit(&mut limits, key_a, T0));
    assert!(check_contact_rate_limit(&mut limits, key_a, T0));
    assert!(check_contact_rate_limit(&mut limits, key_a, T0));
    assert!(!check_contact_rate_limit(&mut limits, key_a, T0));

    assert!(check_contact_rate_limit(&mut limits, key_b, T0));
}

#[test]
fn window_of_exactly_five_minutes_is_still_open() {
    let mut limits = RateLimiter::new();
    let key = "edge-key";
    for _ in 0..MAX_REQUESTS {
        assert!(limits.check_at(key, T0));
    }
    // Exactly WINDOW_NANOS later the window has not yet expired.
    assert!(!limits.check_at(key, T0 + WINDOW_NANOS));
    // One nanosecond more and it has.
    assert!(limits.check_at(key, T0 + WINDOW_NANOS + 1));
}

#[test]
fn refused_request_is_not_counted_and_window_keeps_its_start() {
    let mut limits = RateLimiter::new();
    let key = "refused-key";
    for _ in 0..5 {
        assert!(limits.check_at(key, T0));
    }
    // Refusals late in the window do not move its start.
    assert!(!limits.check_at(key, T0 + 299 * SECOND));
    assert!(!limits.check_at(key, T0 + 300 * SECOND));
    assert!(limits.check_at(key, T0 + 300 * SECOND + 1));
}

#[test]
fn earlier_clock_reading_counts_as_no_time_elapsed() {
    let mut limits = RateLimiter::new();
    let key = "backwards-key";
    for _ in 0..5 {
        assert!(limits.check_at(key, T0));
    }
    assert!(!limits.check_at(key, T0 - 400 * SECOND));
}

#[test]
fn many_keys_are_tracked_independently() {
    let mut limits = RateLimiter::new();
    let keys = ["k1", "k2", "k3", "k4"];
    for round in 0..5 {
        for k in keys.iter() {
            assert!(limits.check_at(k, T0 + round), "request {round} of {k}");
        }
    }
    for k in keys.iter() {
        assert!(!limits.check_at(k, T0 + 10));
    }
}


#[test]
fn each_key_keeps_the_window_started_by_its_own_first_request() {
    let mut limits = RateLimiter::new();
    let (a, b) = ("table-a", "table-b");
    for _ in 0..5 {
        assert!(check_contact_rate_limit(&mut limits, a, T0));
    }
    for _ in 0..5 {
        assert!(check_contact_rate_limit(&mut limits, b, T0 + 100 * SECOND));
    }
    // 301 s after T0: the window of `a` has expired, that of `b` has not.
    assert!(check_contact_rate_limit(&mut limits, a, T0 + 301 * SECOND));
    assert!(!check_contact_rate_limit(&mut limits, b, T0 + 301 * SECOND));
    // 401 s after T0 the window of `b` has expired too; `a` is still in its new one.
    assert!(check_contact_rate_limit(&mut limits, b, T0 + 401 * SECOND));
    for _ in 0..4 {
        assert!(check_contact_rate_limit(&mut limits, a, T0 + 401 * SECOND));
    }
    assert!(!check_contact_rate_limit(&mut limits, a, T0 + 401 * SECOND));
}
