use pricecast::rate_limiter::{RateLimitStatus, RateLimiter};

#[test]
fn first_sixty_requests_pass_and_are_counted() {
    let mut l = RateLimiter::new();
    for i in 0..60usize {
        let (ok, count, status) = l.check_at("1.1.1.1", 1000);
        assert!(ok);
        assert_eq!(count, i + 1);
        assert_eq!(status, RateLimitStatus::Allowed);
    }
    assert_eq!(l.requests_of("1.1.1.1").len(), 60);
}

#[test]
fn requests_after_the_sixtieth_are_limited_and_not_recorded() {
    let mut l = RateLimiter::new();
    for _ in 0..60 {
        l.check_at("1.1.1.1", 1000);
    }
    for _ in 0..100 {
        let (ok, count, status) = l.check_at("1.1.1.1", 1010);
        assert!(!ok);
        assert_eq!(count, 60);
        assert_eq!(status, RateLimitStatus::Limited);
    }
    assert_eq!(l.requests_of("1.1.1.1"), vec![1000u64; 60]);
}

#[test]
fn requests_pass_again_once_the_window_has_moved_on() {
    let mut l = RateLimiter::new();
    for _ in 0..60 {
        l.check_at("1.1.1.1", 1000);
    }
    assert_eq!(l.check_at("1.1.1.1", 1059).2, RateLimitStatus::Limited);
    let (ok, count, status) = l.check_at("1.1.1.1", 1060);
    assert!(ok);
    assert_eq!(count, 1);
    assert_eq!(status, RateLimitStatus::Allowed);
    assert_eq!(l.requests_of("1.1.1.1"), vec![1060]);
}

#[test]
fn window_slides_request_by_request() {
    let mut l = RateLimiter::new();
    for t in 1..=60u64 {
        assert_eq!(l.check_at("a", t).2, RateLimitStatus::Allowed);
    }
    assert_eq!(l.check_at("a", 60).2, RateLimitStatus::Limited);
    let (ok, count, _) = l.check_at("a", 61);
    assert!(ok);
    assert_eq!(count, 60);
}

#[test]
fn clients_are_counted_apart() {
    let mut l = RateLimiter::new();
    for _ in 0..60 {
        l.check_at("a", 500);
    }
    assert_eq!(l.check_at("a", 500).2, RateLimitStatus::Limited);
    let (ok, count, status) = l.check_at("b", 500);
    assert!(ok);
    assert_eq!(count, 1);
    assert_eq!(status, RateLimitStatus::Allowed);
}

#[test]
fn sweep_forgets_clients_without_recent_requests() {
    let mut l = RateLimiter::new();
    l.check_at("old", 100);
    l.check_at("recent", 150);
    assert!(l.tracks("old"));
    assert!(l.tracks("recent"));
    l.check_at("new", 200);
    assert!(!l.tracks("old"));
    assert!(l.tracks("recent"));
    assert!(l.tracks("new"));
    assert_eq!(l.requests_of("recent"), vec![150]);
}

#[test]
fn sweep_waits_for_its_interval() {
    let mut l = RateLimiter::new();
    l.check_at("old", 100);
    l.check_at("other", 129);
    l.cleanup(170);
    assert!(!l.tracks("old"));
    assert!(l.tracks("other"));
    l.cleanup(199);
    assert!(l.tracks("other"));
    l.cleanup(200);
    assert!(!l.tracks("other"));
}

#[test]
fn refused_client_keeps_an_entry_in_the_table() {
    let mut l = RateLimiter::new();
    assert!(!l.tracks("a"));
    l.check_at("a", 1000);
    assert!(l.tracks("a"));
    assert!(l.requests_of("nobody").is_empty());
}

#[test]
fn present_moment_check_passes_a_first_request() {
    let mut l = RateLimiter::new();
    let (ok, count, status) = l.check("9.9.9.9");
    assert!(ok);
    assert_eq!(count, 1);
    assert_eq!(status, RateLimitStatus::Allowed);
}

#[test]
fn window_counts_from_second_zero() {
    let mut l = RateLimiter::new();
    for i in 0..60usize {
        let (ok, count, status) = l.check_at("a", 0);
        assert!(ok);
        assert_eq!(count, i + 1);
        assert_eq!(status, RateLimitStatus::Allowed);
    }
    for _ in 0..60 {
        let (ok, count, status) = l.check_at("a", 0);
        assert!(!ok);
        assert_eq!(count, 60);
        assert_eq!(status, RateLimitStatus::Limited);
    }
    assert_eq!(l.check_at("a", 59).2, RateLimitStatus::Limited);
    assert_eq!(l.requests_of("a"), vec![0u64; 60]);
    let (ok, count, status) = l.check_at("a", 60);
    assert!(ok);
    assert_eq!(count, 1);
    assert_eq!(status, RateLimitStatus::Allowed);
}

#[test]
fn request_far_ahead_of_the_clock_still_counts() {
    let mut l = RateLimiter::new();
    l.check_at("a", 500);
    let (ok, count, _) = l.check_at("a", 100);
    assert!(ok);
    assert_eq!(count, 2);
    assert_eq!(l.requests_of("a"), vec![500, 100]);
}
