use pricecast::utils::{
    calc_profit, current_timestamp, current_wib_time, format_diff_display, format_profit,
    format_rupiah, format_waktu_only, wib_time_at, ProfitFigures,
};

fn estimate(buy: i64, sell: i64, modal: i64, pokok: i64) -> ProfitFigures {
    let gram = modal as f64 / buy as f64;
    let val = (gram * sell as f64 - pokok as f64) as i64;
    ProfitFigures { val, gram: format!("{:.4}", gram).replace('.', ",") }
}

#[test]
fn rupiah_groups_digits_by_three() {
    assert_eq!(format_rupiah(0), "0");
    assert_eq!(format_rupiah(7), "7");
    assert_eq!(format_rupiah(100), "100");
    assert_eq!(format_rupiah(999), "999");
    assert_eq!(format_rupiah(1000), "1.000");
    assert_eq!(format_rupiah(1001), "1.001");
    assert_eq!(format_rupiah(12345), "12.345");
    assert_eq!(format_rupiah(1000000), "1.000.000");
    assert_eq!(format_rupiah(1234567), "1.234.567");
}

#[test]
fn rupiah_keeps_the_sign_in_front() {
    assert_eq!(format_rupiah(-1), "-1");
    assert_eq!(format_rupiah(-999), "-999");
    assert_eq!(format_rupiah(-1000), "-1.000");
    assert_eq!(format_rupiah(-1234567), "-1.234.567");
}

#[test]
fn rupiah_reaches_both_ends_of_the_range() {
    assert_eq!(format_rupiah(i64::MAX), "9.223.372.036.854.775.807");
    assert_eq!(format_rupiah(i64::MIN), "-9.223.372.036.854.775.808");
}

#[test]
fn diff_display_follows_the_marker() {
    assert_eq!(format_diff_display(20, "🚀"), "🚀+20");
    assert_eq!(format_diff_display(1500, "🚀"), "🚀+1.500");
    assert_eq!(format_diff_display(-10, "🔻"), "🔻-10");
    assert_eq!(format_diff_display(-25000, "🔻"), "🔻-25.000");
    assert_eq!(format_diff_display(0, "➖"), "➖tetap");
    assert_eq!(format_diff_display(5, "anything"), "➖tetap");
    assert_eq!(format_diff_display(5, ""), "➖tetap");
}

#[test]
fn diff_display_takes_amounts_that_do_not_fit_the_marker() {
    assert_eq!(format_diff_display(-5, "🚀"), "🚀+-5");
    assert_eq!(format_diff_display(10, "🔻"), "🔻-10");
    assert_eq!(format_diff_display(i64::MIN, "🔻"), "🔻-9.223.372.036.854.775.808");
}

#[test]
fn waktu_cuts_the_time_of_day_out() {
    assert_eq!(format_waktu_only("2024-01-01 10:00:00", "🚀"), "10:00:00🚀");
    assert_eq!(format_waktu_only("2024-05-17 23:59:58.123Z", "➖"), "23:59:58➖");
    assert_eq!(format_waktu_only("2024-01-01 10:00:00", ""), "10:00:00");
}

#[test]
fn waktu_shows_a_short_timestamp_whole() {
    assert_eq!(format_waktu_only("10:00", "🔻"), "10:00🔻");
    assert_eq!(format_waktu_only("", "x"), "x");
    assert_eq!(format_waktu_only("2024-01-01 10:00:0", "x"), "2024-01-01 10:00:0x");
}

#[test]
fn waktu_shows_a_timestamp_whole_where_the_cut_would_split_a_character() {
    let at = "aaaaaaaaaaébbbbbbbbbb";
    assert!(at.len() >= 19);
    assert!(!at.is_char_boundary(11));
    assert_eq!(format_waktu_only(at, "!"), "aaaaaaaaaaébbbbbbbbbb!");
    let end = "aaaaaaaaaaaaaaaaaaébbb";
    assert!(end.is_char_boundary(11));
    assert!(!end.is_char_boundary(19));
    assert_eq!(format_waktu_only(end, "!"), "aaaaaaaaaaaaaaaaaaébbb!");
}

#[test]
fn waktu_cuts_by_bytes_where_the_cut_is_clean() {
    let at = "éééééa12345678zz";
    assert_eq!(at.len(), 21);
    assert_eq!(format_waktu_only(at, "~"), "12345678~");
}

#[test]
fn wib_clock_is_seven_hours_ahead() {
    assert_eq!(wib_time_at(0), "07:00:00");
    assert_eq!(wib_time_at(17 * 3600), "00:00:00");
    assert_eq!(wib_time_at(17 * 3600 - 1), "23:59:59");
    assert_eq!(wib_time_at(1_700_000_000), "05:13:20");
    assert_eq!(wib_time_at(u64::MAX), {
        let d = ((u64::MAX % 86400) + 25200) % 86400;
        format!("{:02}:{:02}:{:02}", d / 3600, (d % 3600) / 60, d % 60)
    });
}

#[test]
fn present_clock_has_the_shape_of_a_time() {
    let s = current_wib_time();
    let b = s.as_bytes();
    assert_eq!(b.len(), 8);
    assert_eq!(b[2], b':');
    assert_eq!(b[5], b':');
    let hours: u32 = s[0..2].parse().unwrap();
    let minutes: u32 = s[3..5].parse().unwrap();
    let seconds: u32 = s[6..8].parse().unwrap();
    assert!(hours < 24 && minutes < 60 && seconds < 60);
}

#[test]
fn present_timestamp_is_after_the_year_2020() {
    assert!(current_timestamp() > 1_577_836_800);
}

#[test]
fn profit_text_follows_the_sign() {
    assert_eq!(
        format_profit(&ProfitFigures { val: 1234, gram: "0,1234".to_string() }),
        "+1.234🟢0,1234gr"
    );
    assert_eq!(
        format_profit(&ProfitFigures { val: -669000, gram: "100000,0000".to_string() }),
        "-669.000🔴100000,0000gr"
    );
    assert_eq!(format_profit(&ProfitFigures { val: 0, gram: "1,0000".to_string() }), "0➖1,0000gr");
    assert_eq!(
        format_profit(&ProfitFigures { val: i64::MIN, gram: "x".to_string() }),
        "-9.223.372.036.854.775.808🔴xgr"
    );
}

#[test]
fn profit_is_a_dash_without_a_buying_rate() {
    assert_eq!(calc_profit(0, 90, 10_000_000, 9_669_000, &estimate), "-");
}

#[test]
fn profit_uses_the_figures_of_the_estimate() {
    assert_eq!(calc_profit(100, 90, 10_000_000, 9_669_000, &estimate), "-669.000🔴100000,0000gr");
    assert_eq!(
        calc_profit(1_000_000, 1_000_000, 10_000_000, 9_669_000, &estimate),
        "+331.000🟢10,0000gr"
    );
    assert_eq!(
        calc_profit(1_000_000, 966_900, 10_000_000, 9_669_000, &estimate),
        "0➖10,0000gr"
    );
    assert_eq!(
        calc_profit(1_350_000, 1_300_000, 20_000_000, 19_330_000, &estimate),
        "-70.740🔴14,8148gr"
    );
}
