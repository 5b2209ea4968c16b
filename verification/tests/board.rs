use pricecast::state::{clamp_millis, AppState};
use pricecast::treasury::{GoldRateData, RateValue};
use pricecast::utils::ProfitFigures;
use std::cell::Cell;
use std::rc::Rc;

fn estimate(buy: i64, sell: i64, modal: i64, pokok: i64) -> ProfitFigures {
    let gram = modal as f64 / buy as f64;
    let val = (gram * sell as f64 - pokok as f64) as i64;
    ProfitFigures { val, gram: format!("{:.4}", gram).replace('.', ",") }
}

fn update(buy: i64, sell: i64, at: &str) -> GoldRateData {
    GoldRateData {
        buying_rate: Some(RateValue::Number(buy)),
        selling_rate: Some(RateValue::Number(sell)),
        created_at: Some(at.to_string()),
    }
}

fn text(v: &serde_json::Value, key: &str) -> String {
    v.get(key).unwrap().as_str().unwrap().to_string()
}

#[test]
fn new_board_serves_the_empty_snapshot() {
    let mut board = AppState::new(estimate);
    assert_eq!(board.limit_bulan(), 8);
    assert_eq!(board.version(), 0);
    assert_eq!(board.connection_count(), 0);
    assert_eq!(board.last_buy(), None);
    assert_eq!(board.last_successful_call(), 0);
    assert!(board.history().is_empty());
    assert!(board.usd_idr_history().is_empty());
    let doc = board.get_cached_state_at(0);
    assert_eq!(&doc[..], br#"{"history":[],"usd_idr_history":[],"limit_bulan":8}"#);
    let later = board.get_cached_state_at(1_000_000);
    assert_eq!(&later[..], br#"{"history":[],"usd_idr_history":[],"limit_bulan":8}"#);
}

#[test]
fn snapshot_of_one_update_is_written_out_in_full() {
    let mut board = AppState::new(estimate);
    let sent = board.process_data_at(&update(100, 90, "2024-01-01 10:00:00"), 5).unwrap();
    let expected = [
        "{\"history\":[{\"buying_rate\":\"100\",\"selling_rate\":\"90\",",
        "\"buying_rate_raw\":100,\"selling_rate_raw\":90,",
        "\"waktu_display\":\"10:00:00➖\",\"diff_display\":\"➖tetap\",",
        "\"transaction_display\":\"Beli: 100<br>Jual: 90<br>➖tetap\",",
        "\"created_at\":\"2024-01-01 10:00:00\",",
        "\"jt10\":\"-669.000🔴100000,0000gr\",",
        "\"jt20\":\"-1.330.000🔴200000,0000gr\",",
        "\"jt30\":\"-1.995.000🔴300000,0000gr\",",
        "\"jt40\":\"-2.660.000🔴400000,0000gr\",",
        "\"jt50\":\"-3.325.000🔴500000,0000gr\"}],",
        "\"usd_idr_history\":[],\"limit_bulan\":8}",
    ]
    .join("");
    assert_eq!(std::str::from_utf8(&sent).unwrap(), expected);
}

#[test]
fn three_updates_show_neutral_up_and_down() {
    let mut board = AppState::new(estimate);
    assert!(board.process_data_at(&update(100, 95, "2024-01-01 10:00:00"), 0).is_some());
    assert!(board.process_data_at(&update(120, 115, "2024-01-01 10:01:00"), 100).is_some());
    assert!(board.process_data_at(&update(110, 105, "2024-01-01 10:02:00"), 200).is_some());
    let doc = board.get_cached_state_at(201);
    let v: serde_json::Value = serde_json::from_slice(&doc).unwrap();
    let history = v.get("history").unwrap().as_array().unwrap();
    assert_eq!(history.len(), 3);
    assert_eq!(history[0].get("buying_rate_raw").unwrap().as_i64(), Some(100));
    assert_eq!(history[1].get("buying_rate_raw").unwrap().as_i64(), Some(120));
    assert_eq!(history[2].get("buying_rate_raw").unwrap().as_i64(), Some(110));
    assert_eq!(history[0].get("selling_rate_raw").unwrap().as_i64(), Some(95));
    assert_eq!(history[1].get("selling_rate_raw").unwrap().as_i64(), Some(115));
    assert_eq!(history[2].get("selling_rate_raw").unwrap().as_i64(), Some(105));
    assert_eq!(text(&history[0], "diff_display"), "➖tetap");
    assert_eq!(text(&history[1], "diff_display"), "🚀+20");
    assert_eq!(text(&history[2], "diff_display"), "🔻-10");
    assert_eq!(text(&history[0], "waktu_display"), "10:00:00➖");
    assert_eq!(text(&history[1], "waktu_display"), "10:01:00🚀");
    assert_eq!(text(&history[2], "waktu_display"), "10:02:00🔻");
    assert_eq!(text(&history[1], "buying_rate"), "120");
    assert_eq!(text(&history[1], "transaction_display"), "Beli: 120<br>Jual: 115<br>🚀+20");
    assert_eq!(text(&history[2], "created_at"), "2024-01-01 10:02:00");
    assert_eq!(v.get("limit_bulan").unwrap().as_i64(), Some(8));
    assert_eq!(v.get("usd_idr_history").unwrap().as_array().unwrap().len(), 0);
    let stored = board.history();
    assert_eq!(stored.len(), 3);
    assert_eq!(stored.get(0).status, "➖");
    assert_eq!(stored.get(0).diff, 0);
    assert_eq!(stored.get(1).status, "🚀");
    assert_eq!(stored.get(1).diff, 20);
    assert_eq!(stored.get(2).status, "🔻");
    assert_eq!(stored.get(2).diff, -10);
    assert_eq!(stored.get(2).buying_rate, 110);
    assert_eq!(stored.get(2).selling_rate, 105);
}

#[test]
fn texts_are_escaped_in_the_snapshot() {
    let mut board = AppState::new(estimate);
    board.record_usd_price_at("16\"000\\".to_string(), "a\nb".to_string(), 0);
    let doc = board.get_cached_state_at(1);
    assert_eq!(
        std::str::from_utf8(&doc).unwrap(),
        "{\"history\":[],\"usd_idr_history\":[{\"price\":\"16\\\"000\\\\\",\"time\":\"a\\nb\"}],\"limit_bulan\":8}"
    );
}

#[test]
fn second_request_within_the_time_to_live_builds_nothing() {
    let calls = Rc::new(Cell::new(0u32));
    let seen = calls.clone();
    let counting = move |buy: i64, sell: i64, modal: i64, pokok: i64| {
        seen.set(seen.get() + 1);
        estimate(buy, sell, modal, pokok)
    };
    let mut board = AppState::new(counting);
    let sent = board.process_data_at(&update(100, 95, "k1"), 1000).unwrap();
    assert_eq!(calls.get(), 5);
    let again = board.get_cached_state_at(1000);
    assert_eq!(again, sent);
    let still = board.get_cached_state_at(1019);
    assert_eq!(still, sent);
    assert_eq!(calls.get(), 5);
    let early = board.get_cached_state_at(990);
    assert_eq!(early, sent);
    assert_eq!(calls.get(), 5);
}

#[test]
fn request_after_the_time_to_live_builds_anew() {
    let calls = Rc::new(Cell::new(0u32));
    let seen = calls.clone();
    let counting = move |buy: i64, sell: i64, modal: i64, pokok: i64| {
        seen.set(seen.get() + 1);
        estimate(buy, sell, modal, pokok)
    };
    let mut board = AppState::new(counting);
    let sent = board.process_data_at(&update(100, 95, "k1"), 1000).unwrap();
    assert_eq!(calls.get(), 5);
    let rebuilt = board.get_cached_state_at(1020);
    assert_eq!(rebuilt, sent);
    assert_eq!(calls.get(), 10);
    let cached = board.get_cached_state_at(1039);
    assert_eq!(cached, sent);
    assert_eq!(calls.get(), 10);
}

#[test]
fn invalidated_cache_is_rebuilt_at_once() {
    let calls = Rc::new(Cell::new(0u32));
    let seen = calls.clone();
    let counting = move |buy: i64, sell: i64, modal: i64, pokok: i64| {
        seen.set(seen.get() + 1);
        estimate(buy, sell, modal, pokok)
    };
    let mut board = AppState::new(counting);
    board.process_data_at(&update(100, 95, "k1"), 1000);
    assert_eq!(board.version(), 1);
    board.invalidate_cache();
    assert_eq!(board.version(), 2);
    assert_eq!(calls.get(), 5);
    board.get_cached_state_at(1001);
    assert_eq!(calls.get(), 10);
    board.get_cached_state_at(1002);
    assert_eq!(calls.get(), 10);
}

#[test]
fn snapshot_after_a_change_reflects_the_change() {
    let mut board = AppState::new(estimate);
    let before = board.get_cached_state_at(0);
    let sent = board.process_data_at(&update(100, 95, "k1"), 1).unwrap();
    assert_ne!(sent, before);
    let after = board.get_cached_state_at(2);
    assert_eq!(after, sent);
    let v: serde_json::Value = serde_json::from_slice(&after).unwrap();
    assert_eq!(v.get("history").unwrap().as_array().unwrap().len(), 1);
}

#[test]
fn every_change_moves_the_version_on() {
    let mut board = AppState::new(estimate);
    assert_eq!(board.version(), 0);
    board.process_data_at(&update(100, 95, "k1"), 0);
    assert_eq!(board.version(), 1);
    board.record_usd_price_at("16000".to_string(), "10:00:00".to_string(), 0);
    assert_eq!(board.version(), 2);
    board.process_data_at(&update(100, 95, "k1"), 0);
    assert_eq!(board.version(), 2);
    board.get_cached_state_at(500);
    assert_eq!(board.version(), 2);
}

#[test]
fn changes_are_sent_to_subscribers() {
    let mut board = AppState::new(estimate);
    let mut rx = board.subscribe().unwrap();
    let sent = board.process_data_at(&update(100, 95, "k1"), 0).unwrap();
    assert_eq!(rx.try_recv().unwrap(), sent);
    let usd = board.record_usd_price_at("16000".to_string(), "10:00:00".to_string(), 1).unwrap();
    assert_eq!(rx.try_recv().unwrap(), usd);
    assert!(board.process_data_at(&update(1, 1, "k1"), 2).is_none());
    assert!(rx.try_recv().is_err());
}

#[test]
fn board_admits_five_hundred_subscribers() {
    let mut board = AppState::new(estimate);
    let mut receivers = Vec::new();
    for _ in 0..500 {
        receivers.push(board.subscribe().unwrap());
    }
    assert!(board.subscribe().is_none());
    assert_eq!(board.connection_count(), 500);
    board.unsubscribe();
    assert_eq!(board.connection_count(), 499);
    assert!(board.heartbeat());
    assert_eq!(&receivers[0].try_recv().unwrap()[..], b"{\"ping\":true}");
}

#[test]
fn heartbeat_is_silent_without_subscribers() {
    let board = AppState::new(estimate);
    assert!(!board.heartbeat());
}

#[test]
fn board_bans_and_forgets() {
    let mut board = AppState::new(estimate);
    board.record_failed_attempt_at("a", 2, 100);
    assert_eq!(board.failed_attempts_of("a"), vec![100, 100]);
    assert!(!board.is_ip_blocked_at("a", 100));
    board.record_failed_attempt_at("a", 3, 110);
    assert_eq!(board.ban_expiry("a"), Some(410));
    assert!(board.is_ip_blocked_at("a", 409));
    assert!(!board.is_ip_blocked_at("a", 410));
    assert_eq!(board.ban_expiry("a"), None);
    assert!(board.failed_attempts_of("a").is_empty());
    board.block_ip_at("b", 600, 1000);
    assert_eq!(board.ban_expiry("b"), Some(1600));
}

#[test]
fn present_moment_calls_work_on_the_board() {
    let mut board = AppState::new(estimate);
    let doc = board.get_cached_state();
    assert_eq!(&doc[..], br#"{"history":[],"usd_idr_history":[],"limit_bulan":8}"#);
    board.block_ip("a", 1000);
    assert!(board.is_ip_blocked("a"));
    board.record_failed_attempt("b", 5);
    assert!(board.is_ip_blocked("b"));
    assert!(board.clock_millis() < 60_000);
    let sent = board.process_data(&update(100, 95, "k1"));
    assert!(sent.is_some());
    let usd = board.record_usd_price("16000".to_string());
    assert!(usd.is_some());
    assert_eq!(board.usd_idr_history().get(0).time.len(), 8);
}

#[test]
fn milliseconds_are_clamped_to_sixty_four_bits() {
    assert_eq!(clamp_millis(0), 0);
    assert_eq!(clamp_millis(19), 19);
    assert_eq!(clamp_millis(u64::MAX as u128), u64::MAX);
    assert_eq!(clamp_millis(u64::MAX as u128 + 1), u64::MAX);
    assert_eq!(clamp_millis(u128::MAX), u64::MAX);
}

#[test]
fn cached_snapshot_is_handed_out_only_while_fresh() {
    let mut board = AppState::new(estimate);
    let first = board.cached_state_at(0).unwrap();
    assert_eq!(&first[..], br#"{"history":[],"usd_idr_history":[],"limit_bulan":8}"#);
    assert!(board.cached_state_at(19).is_some());
    assert!(board.cached_state_at(20).is_none());
    let rebuilt = board.get_cached_state_at(20);
    assert_eq!(board.cached_state_at(39), Some(rebuilt));
    assert!(board.cached_state_at(40).is_none());
    board.invalidate_cache();
    assert!(board.cached_state_at(20).is_none());
    let sent = board.process_data_at(&update(100, 95, "k1"), 50).unwrap();
    assert_eq!(board.cached_state_at(69), Some(sent));
    assert!(board.cached_state_at(70).is_none());
}

#[test]
fn cached_snapshot_at_the_present_moment_is_the_fresh_one() {
    let mut board = AppState::new(estimate);
    let sent = board.process_data(&update(100, 95, "k1")).unwrap();
    if let Some(doc) = board.cached_state() {
        assert_eq!(doc, sent);
    }
    assert_eq!(board.get_cached_state(), sent);
}
