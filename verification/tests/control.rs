use pricecast::handlers::{
    catch_all, catch_all_at, secret_matches, set_limit, set_limit_at, CatchAllOutcome, LimitQuery,
    SetLimitOutcome,
};
use pricecast::state::AppState;
use pricecast::utils::ProfitFigures;

const SECRET: &str = "indonesia";

fn estimate(buy: i64, sell: i64, modal: i64, pokok: i64) -> ProfitFigures {
    let gram = modal as f64 / buy as f64;
    let val = (gram * sell as f64 - pokok as f64) as i64;
    ProfitFigures { val, gram: format!("{:.4}", gram).replace('.', ",") }
}

fn key(k: &str) -> LimitQuery {
    LimitQuery { key: Some(k.to_string()) }
}

#[test]
fn secret_must_match_exactly() {
    assert!(secret_matches("indonesia", "indonesia"));
    assert!(secret_matches("", ""));
    assert!(!secret_matches("indonesib", "indonesia"));
    assert!(!secret_matches("Indonesia", "indonesia"));
    assert!(!secret_matches("indonesi", "indonesia"));
    assert!(!secret_matches("indonesiaa", "indonesia"));
    assert!(!secret_matches("", "indonesia"));
    assert!(secret_matches("rahasia🚀", "rahasia🚀"));
    assert!(!secret_matches("rahasia🚀", "rahasia🔻"));
}

#[test]
fn accepted_change_sets_the_limit_and_is_sent_out() {
    let mut board = AppState::new(estimate);
    let mut rx = board.subscribe().unwrap();
    let outcome = set_limit_at(&mut board, "a", "100", &key(SECRET), SECRET, 1000, 50);
    assert_eq!(outcome, SetLimitOutcome::Accepted(100));
    assert_eq!(board.limit_bulan(), 100);
    assert_eq!(board.last_successful_call(), 1000);
    assert_eq!(board.version(), 1);
    let sent = rx.try_recv().unwrap();
    assert_eq!(&sent[..], br#"{"history":[],"usd_idr_history":[],"limit_bulan":100}"#);
    assert_eq!(board.get_cached_state_at(60), sent);
    assert!(board.failed_attempts_of("a").is_empty());
    assert_eq!(outcome.status_code(), 200);
    assert_eq!(outcome.body(), r#"{"status":"ok","limit_bulan":100}"#);
}

#[test]
fn bounds_are_accepted_and_what_lies_beyond_is_not() {
    let mut board = AppState::new(estimate);
    assert_eq!(
        set_limit_at(&mut board, "a", "0", &key(SECRET), SECRET, 1000, 0),
        SetLimitOutcome::Accepted(0)
    );
    assert_eq!(
        set_limit_at(&mut board, "a", "88888", &key(SECRET), SECRET, 1005, 0),
        SetLimitOutcome::Accepted(88888)
    );
    let high = set_limit_at(&mut board, "a", "88889", &key(SECRET), SECRET, 1010, 0);
    assert_eq!(high, SetLimitOutcome::OutOfRange);
    assert_eq!(
        set_limit_at(&mut board, "a", "-1", &key(SECRET), SECRET, 1010, 0),
        SetLimitOutcome::OutOfRange
    );
    assert_eq!(board.limit_bulan(), 88888);
    assert_eq!(board.last_successful_call(), 1005);
    assert_eq!(board.version(), 2);
    assert!(board.failed_attempts_of("a").is_empty());
    assert_eq!(high.status_code(), 400);
    assert_eq!(high.body(), "Nilai harus 0-88888");
}

#[test]
fn missing_key_is_refused_and_counted() {
    let mut board = AppState::new(estimate);
    let none = set_limit_at(&mut board, "a", "5", &LimitQuery { key: None }, SECRET, 1000, 0);
    assert_eq!(none, SetLimitOutcome::MissingKey);
    assert_eq!(board.failed_attempts_of("a"), vec![1000]);
    let empty = set_limit_at(&mut board, "a", "5", &key(""), SECRET, 1001, 0);
    assert_eq!(empty, SetLimitOutcome::MissingKey);
    assert_eq!(board.failed_attempts_of("a"), vec![1000, 1001]);
    assert_eq!(board.limit_bulan(), 8);
    assert_eq!(board.version(), 0);
    assert_eq!(none.status_code(), 400);
    assert_eq!(none.body(), "Parameter key diperlukan");
}

#[test]
fn wrong_key_is_refused_and_counted() {
    let mut board = AppState::new(estimate);
    let outcome = set_limit_at(&mut board, "a", "5", &key("indonesib"), SECRET, 1000, 0);
    assert_eq!(outcome, SetLimitOutcome::WrongKey);
    assert_eq!(
        set_limit_at(&mut board, "a", "5", &key("x"), SECRET, 1000, 0),
        SetLimitOutcome::WrongKey
    );
    assert_eq!(board.failed_attempts_of("a"), vec![1000, 1000]);
    assert_eq!(board.limit_bulan(), 8);
    assert_eq!(outcome.status_code(), 403);
    assert_eq!(outcome.body(), "Akses ditolak");
}

#[test]
fn value_that_is_no_number_is_refused_and_counted() {
    let mut board = AppState::new(estimate);
    for value in ["abc", "", "1.5", "12x", " 1"] {
        assert_eq!(
            set_limit_at(&mut board, value, value, &key(SECRET), SECRET, 1000, 0),
            SetLimitOutcome::NotANumber
        );
        assert_eq!(board.failed_attempts_of(value), vec![1000]);
    }
    assert_eq!(SetLimitOutcome::NotANumber.status_code(), 400);
    assert_eq!(SetLimitOutcome::NotANumber.body(), "Nilai harus angka");
}

#[test]
fn change_within_the_cooldown_is_refused_without_penalty() {
    let mut board = AppState::new(estimate);
    set_limit_at(&mut board, "a", "10", &key(SECRET), SECRET, 1000, 0);
    let outcome = set_limit_at(&mut board, "a", "20", &key(SECRET), SECRET, 1004, 0);
    assert_eq!(outcome, SetLimitOutcome::TooSoon);
    assert_eq!(board.limit_bulan(), 10);
    assert_eq!(board.version(), 1);
    assert!(board.failed_attempts_of("a").is_empty());
    assert_eq!(
        set_limit_at(&mut board, "b", "99999", &key(SECRET), SECRET, 1004, 0),
        SetLimitOutcome::TooSoon
    );
    assert_eq!(
        set_limit_at(&mut board, "a", "20", &key(SECRET), SECRET, 1005, 0),
        SetLimitOutcome::Accepted(20)
    );
    assert_eq!(outcome.status_code(), 429);
    assert_eq!(outcome.body(), "Terlalu cepat");
}

#[test]
fn first_change_must_wait_for_second_five() {
    let mut board = AppState::new(estimate);
    assert_eq!(
        set_limit_at(&mut board, "a", "20", &key(SECRET), SECRET, 4, 0),
        SetLimitOutcome::TooSoon
    );
    assert_eq!(
        set_limit_at(&mut board, "a", "20", &key(SECRET), SECRET, 5, 0),
        SetLimitOutcome::Accepted(20)
    );
}

#[test]
fn five_wrong_keys_bring_a_ban() {
    let mut board = AppState::new(estimate);
    for _ in 0..5 {
        assert_eq!(
            set_limit_at(&mut board, "a", "5", &key("wrong"), SECRET, 1000, 0),
            SetLimitOutcome::WrongKey
        );
    }
    assert_eq!(board.ban_expiry("a"), Some(1300));
    let outcome = set_limit_at(&mut board, "a", "5", &key(SECRET), SECRET, 1001, 0);
    assert_eq!(outcome, SetLimitOutcome::Banned);
    assert_eq!(board.limit_bulan(), 8);
    assert_eq!(outcome.status_code(), 429);
    assert_eq!(outcome.body(), "IP diblokir sementara");
    assert_eq!(
        set_limit_at(&mut board, "a", "5", &key(SECRET), SECRET, 1300, 0),
        SetLimitOutcome::Accepted(5)
    );
}

#[test]
fn change_at_the_present_moment_is_accepted() {
    let mut board = AppState::new(estimate);
    assert_eq!(set_limit(&mut board, "a", "7", &key(SECRET), SECRET), SetLimitOutcome::Accepted(7));
    assert_eq!(board.limit_bulan(), 7);
    assert_eq!(set_limit(&mut board, "a", "9", &key(SECRET), SECRET), SetLimitOutcome::TooSoon);
}

#[test]
fn unknown_path_is_not_found_and_counted() {
    let mut board = AppState::new(estimate);
    let outcome = catch_all_at(&mut board, "a", "/nothing", 1000);
    assert_eq!(outcome, CatchAllOutcome::NotFound);
    assert_eq!(board.failed_attempts_of("a"), vec![1000]);
    assert_eq!(outcome.status_code(), 404);
    assert_eq!(outcome.body(), "Halaman tidak ditemukan");
}

#[test]
fn administrative_path_is_forbidden_and_weighs_two() {
    let mut board = AppState::new(estimate);
    let outcome = catch_all_at(&mut board, "a", "/my-Admin-page", 1000);
    assert_eq!(outcome, CatchAllOutcome::Forbidden);
    assert_eq!(board.failed_attempts_of("a"), vec![1000, 1000]);
    assert_eq!(catch_all_at(&mut board, "b", "/x/CONFIG", 1000), CatchAllOutcome::Forbidden);
    assert_eq!(outcome.status_code(), 403);
    assert_eq!(outcome.body(), "Akses ditolak");
}

#[test]
fn control_prefix_is_not_forbidden_by_the_fallback() {
    let mut board = AppState::new(estimate);
    assert_eq!(catch_all_at(&mut board, "a", "/aturTx/config", 1000), CatchAllOutcome::NotFound);
    assert_eq!(board.failed_attempts_of("a"), vec![1000]);
}

#[test]
fn banned_client_gets_no_further_penalty_from_the_fallback() {
    let mut board = AppState::new(estimate);
    for _ in 0..5 {
        catch_all_at(&mut board, "a", "/nothing", 1000);
    }
    assert_eq!(board.ban_expiry("a"), Some(1300));
    let outcome = catch_all_at(&mut board, "a", "/nothing", 1001);
    assert_eq!(outcome, CatchAllOutcome::Banned);
    assert_eq!(board.failed_attempts_of("a").len(), 5);
    assert_eq!(outcome.status_code(), 429);
    assert_eq!(outcome.body(), "IP diblokir sementara");
}

#[test]
fn fallback_at_the_present_moment_counts_an_attempt() {
    let mut board = AppState::new(estimate);
    assert_eq!(catch_all(&mut board, "a", "/nothing"), CatchAllOutcome::NotFound);
    assert_eq!(board.failed_attempts_of("a").len(), 1);
}
