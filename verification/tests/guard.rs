use pricecast::guard::AbuseGuard;

#[test]
fn unknown_client_is_not_banned() {
    let mut g = AbuseGuard::new();
    assert!(!g.is_blocked_at("1.2.3.4", 1000));
    assert_eq!(g.ban_expiry("1.2.3.4"), None);
    assert!(g.attempts_of("1.2.3.4").is_empty());
}

#[test]
fn attempt_adds_as_many_entries_as_its_weight() {
    let mut g = AbuseGuard::new();
    g.record_failed_attempt_at("a", 3, 1000);
    assert_eq!(g.attempts_of("a"), vec![1000, 1000, 1000]);
    g.record_failed_attempt_at("a", 1, 1005);
    assert_eq!(g.attempts_of("a"), vec![1000, 1000, 1000, 1005]);
    assert_eq!(g.ban_expiry("a"), None);
    assert!(!g.is_blocked_at("a", 1005));
}

#[test]
fn fifth_entry_brings_a_ban_of_three_hundred_seconds() {
    let mut g = AbuseGuard::new();
    g.record_failed_attempt_at("a", 3, 1000);
    g.record_failed_attempt_at("a", 2, 1010);
    assert_eq!(g.ban_expiry("a"), Some(1310));
    assert!(g.is_blocked_at("a", 1010));
    assert!(g.is_blocked_at("a", 1309));
    assert_eq!(g.attempts_of("a").len(), 5);
}

#[test]
fn ban_ends_on_the_second_and_clears_both_records() {
    let mut g = AbuseGuard::new();
    g.record_failed_attempt_at("a", 5, 1000);
    assert!(g.is_blocked_at("a", 1299));
    assert_eq!(g.ban_expiry("a"), Some(1300));
    assert_eq!(g.attempts_of("a").len(), 5);
    assert!(!g.is_blocked_at("a", 1300));
    assert_eq!(g.ban_expiry("a"), None);
    assert!(g.attempts_of("a").is_empty());
    assert!(!g.is_blocked_at("a", 1301));
}

#[test]
fn attempts_older_than_a_minute_no_longer_count() {
    let mut g = AbuseGuard::new();
    g.record_failed_attempt_at("a", 4, 1000);
    g.record_failed_attempt_at("a", 1, 1060);
    assert_eq!(g.attempts_of("a"), vec![1060]);
    assert_eq!(g.ban_expiry("a"), None);
    let mut h = AbuseGuard::new();
    h.record_failed_attempt_at("a", 4, 1000);
    h.record_failed_attempt_at("a", 1, 1059);
    assert_eq!(h.attempts_of("a").len(), 5);
    assert_eq!(h.ban_expiry("a"), Some(1359));
}

#[test]
fn ban_is_set_whatever_was_there() {
    let mut g = AbuseGuard::new();
    g.block_ip_at("a", 600, 50);
    assert_eq!(g.ban_expiry("a"), Some(650));
    g.block_ip_at("a", 10, 60);
    assert_eq!(g.ban_expiry("a"), Some(70));
    assert!(g.is_blocked_at("a", 69));
    assert!(!g.is_blocked_at("a", 70));
}

#[test]
fn ban_near_the_end_of_time_lasts_to_the_end() {
    let mut g = AbuseGuard::new();
    g.block_ip_at("a", 10, u64::MAX - 3);
    assert_eq!(g.ban_expiry("a"), Some(u64::MAX));
}

#[test]
fn expired_ban_of_one_client_leaves_the_others() {
    let mut g = AbuseGuard::new();
    g.record_failed_attempt_at("a", 5, 1000);
    g.record_failed_attempt_at("b", 2, 1000);
    g.block_ip_at("c", 1000, 1000);
    assert!(!g.is_blocked_at("a", 2000));
    assert_eq!(g.attempts_of("b"), vec![1000, 1000]);
    assert_eq!(g.ban_expiry("c"), Some(2000));
}

#[test]
fn weight_zero_records_nothing_new() {
    let mut g = AbuseGuard::new();
    g.record_failed_attempt_at("a", 0, 1000);
    assert!(g.attempts_of("a").is_empty());
    assert_eq!(g.ban_expiry("a"), None);
}

#[test]
fn present_moment_calls_use_the_clock() {
    let mut g = AbuseGuard::new();
    g.record_failed_attempt("a", 5);
    assert!(g.is_blocked("a"));
    g.block_ip("b", 0);
    assert!(!g.is_blocked("b"));
    g.block_ip("c", 1000);
    assert!(g.is_blocked("c"));
}
