//! Clock readings and the display forms of prices.

use vstd::prelude::*;
use vstd::string::*;
use vstd::utf8::*;
use core::time::Duration;
use std::time::{SystemTime, UNIX_EPOCH};
use crate::text::{
    decimal, magnitude, push_decimal, push_three_digits, push_two_digits, same_text, three_digits,
    two_digits,
};

verus! {

#[verifier::external_type_specification]
#[verifier::external_body]
pub struct ExSystemTime(SystemTime);

/// `SystemTime::now` reads the system clock. Nothing is promised of the
/// reading.
#[verifier::external_body]
fn system_now() -> (t: SystemTime) {
    SystemTime::now()
}

/// `SystemTime::duration_since`, asked for the time since the Unix epoch:
/// there is none where the clock stands before the epoch.
#[verifier::external_body]
fn since_epoch(t: &SystemTime) -> (d: Option<Duration>) {
    t.duration_since(UNIX_EPOCH).ok()
}

/// `Duration::as_secs` gives the whole seconds of a duration.
pub assume_specification[ Duration::as_secs ](d: &Duration) -> (secs: u64)
;

/// `Duration::as_millis` gives the whole milliseconds of a duration.
pub assume_specification[ Duration::as_millis ](d: &Duration) -> (millis: u128)
;

/// Seconds since the Unix epoch by the system clock; zero where the clock
/// stands before the epoch.
pub fn current_timestamp() -> u64 {
    match since_epoch(&system_now()) {
        Some(d) => d.as_secs(),
        None => 0,
    }
}

/// The time of day, seven hours east of Greenwich, at `secs` seconds since
/// the epoch, in seconds since midnight.
pub open spec fn wib_second_of_day(secs: int) -> int {
    (secs + 7 * 3600) % 86400
}

/// `HH:MM:SS` for the time of day seven hours east of Greenwich.
pub open spec fn wib_clock(secs: int) -> Seq<char> {
    let d = wib_second_of_day(secs);
    two_digits((d / 3600) as nat) + seq![':'] + two_digits(((d % 3600) / 60) as nat) + seq![':']
        + two_digits((d % 60) as nat)
}

/// The clock text for `secs` seconds since the epoch.
pub fn wib_time_at(secs: u64) -> (s: String)
    ensures
        s@ == wib_clock(secs as int),
{
    let d: u64 = (secs % 86400 + 7 * 3600) % 86400;
    proof {
        vstd::arithmetic::div_mod::lemma_add_mod_noop(secs as int, 25200, 86400);
    }
    let mut s = String::new();
    push_two_digits(&mut s, d / 3600);
    s.push(':');
    push_two_digits(&mut s, (d % 3600) / 60);
    s.push(':');
    push_two_digits(&mut s, d % 60);
    s
}

/// The clock text for the present moment.
pub fn current_wib_time() -> (s: String)
    ensures
        exists|secs: u64| s@ == wib_clock(secs as int),
{
    wib_time_at(current_timestamp())
}

/// The digits of `n` in groups of three, counted from the right and
/// separated by dots.
pub open spec fn grouped(n: nat) -> Seq<char>
    decreases n,
{
    if n < 1000 {
        decimal(n)
    } else {
        grouped(n / 1000) + seq!['.'] + three_digits(n % 1000)
    }
}

/// An amount in dot-grouped form, with a minus sign before a negative one.
pub open spec fn rupiah(v: int) -> Seq<char> {
    if v < 0 {
        seq!['-'] + grouped((-v) as nat)
    } else {
        grouped(v as nat)
    }
}

/// Appends the dot-grouped digits of `n`.
pub fn push_grouped(out: &mut String, n: u64)
    ensures
        final(out)@ == old(out)@ + grouped(n as nat),
    decreases n,
{
    if n < 1000 {
        push_decimal(out, n);
    } else {
        push_grouped(out, n / 1000);
        out.push('.');
        push_three_digits(out, n % 1000);
    }
}

/// Appends the dot-grouped form of `v`.
pub fn push_rupiah(out: &mut String, v: i64)
    ensures
        final(out)@ == old(out)@ + rupiah(v as int),
{
    if v < 0 {
        out.push('-');
    }
    push_grouped(out, magnitude(v));
}

/// An amount in rupiah notation: `1234567` becomes `1.234.567`.
pub fn format_rupiah(n: i64) -> (s: String)
    ensures
        s@ == rupiah(n as int),
{
    let mut s = String::new();
    push_rupiah(&mut s, n);
    s
}

/// The magnitude of `v`.
pub open spec fn abs(v: int) -> int {
    if v < 0 {
        -v
    } else {
        v
    }
}

/// The change against the previous price, behind the marker of its
/// direction: an amount with a plus sign after the rising marker, the
/// magnitude with a minus sign after the falling one, and a fixed word for
/// anything else.
pub open spec fn diff_display(diff: int, status: Seq<char>) -> Seq<char> {
    if status == "🚀"@ {
        "🚀+"@ + rupiah(diff)
    } else if status == "🔻"@ {
        "🔻-"@ + grouped(abs(diff) as nat)
    } else {
        "➖tetap"@
    }
}

/// The change shown beside a price.
pub fn format_diff_display(diff: i64, status: &str) -> (s: String)
    ensures
        s@ == diff_display(diff as int, status@),
{
    if same_text(status, "🚀") {
        let mut s = String::from_str("🚀+");
        push_rupiah(&mut s, diff);
        s
    } else if same_text(status, "🔻") {
        let mut s = String::from_str("🔻-");
        push_grouped(&mut s, magnitude(diff));
        s
    } else {
        String::from_str("➖tetap")
    }
}

/// Whether bytes 11 to 19 of the text can be cut out as text of their own.
pub open spec fn has_clock_field(created_at: Seq<char>) -> bool {
    let b = encode_utf8(created_at);
    b.len() >= 19 && is_char_boundary(b, 11) && is_char_boundary(b, 19)
}

/// The time of day inside a timestamp of the form `YYYY-MM-DD HH:MM:SS`:
/// bytes 11 to 19 where they can be cut out, the whole text otherwise.
pub open spec fn clock_field(created_at: Seq<char>) -> Seq<char> {
    if has_clock_field(created_at) {
        decode_utf8(encode_utf8(created_at).subrange(11, 19))
    } else {
        created_at
    }
}

/// The time of day of an entry, followed by the marker of its direction.
pub fn format_waktu_only(created_at: &str, status: &str) -> (s: String)
    ensures
        s@ == clock_field(created_at@) + status@,
{
    let mut s = String::new();
    if created_at.as_bytes().len() >= 19 && created_at.is_char_boundary(11)
        && created_at.is_char_boundary(19) {
        let (head, _rest) = created_at.split_at(19);
        proof {
            let b = created_at.spec_bytes();
            encode_utf8_valid_utf8(created_at@);
            encode_utf8_valid_utf8(head@);
            is_char_boundary_iff_not_is_continuation_byte(b, 11);
            is_char_boundary_iff_not_is_continuation_byte(head.spec_bytes(), 11);
            assert(head.spec_bytes()[11] == b[11]);
        }
        let (_date, time) = head.split_at(11);
        proof {
            assert(time.spec_bytes() =~= created_at.spec_bytes().subrange(11, 19));
            encode_utf8_decode_utf8(time@);
        }
        s.append(time);
    } else {
        s.append(created_at);
    }
    s.append(status);
    s
}

/// The two figures behind a profit estimate: the profit in rupiah, cut to a
/// whole number, and the weight bought, in grams, as text with four
/// decimals and a decimal comma.
pub struct ProfitFigures {
    pub val: i64,
    pub gram: String,
}

/// A profit estimate as shown: the amount behind its sign, a marker of the
/// sign, and the weight bought.
pub open spec fn profit_text(val: int, gram: Seq<char>) -> Seq<char> {
    if val > 0 {
        seq!['+'] + rupiah(val) + "🟢"@ + gram + "gr"@
    } else if val < 0 {
        seq!['-'] + grouped(abs(val) as nat) + "🔴"@ + gram + "gr"@
    } else {
        rupiah(0) + "➖"@ + gram + "gr"@
    }
}

/// The text of a profit estimate with the given figures.
pub fn format_profit(figures: &ProfitFigures) -> (s: String)
    ensures
        s@ == profit_text(figures.val as int, figures.gram@),
{
    let mut s = String::new();
    if figures.val > 0 {
        s.push('+');
        push_rupiah(&mut s, figures.val);
        s.append("🟢");
    } else if figures.val < 0 {
        s.push('-');
        push_grouped(&mut s, magnitude(figures.val));
        s.append("🔴");
    } else {
        push_rupiah(&mut s, 0);
        s.append("➖");
    }
    s.append(figures.gram.as_str());
    s.append("gr");
    s
}

/// `cell` is what is shown for capital `modal`, of which `pokok` is the
/// principal to recover, bought at `buy_rate` and sold at `sell_rate`: a dash
/// where the buying rate is zero, else the text of figures that `estimate`
/// gives for these four numbers.
pub open spec fn shows_profit<F: Fn(i64, i64, i64, i64) -> ProfitFigures>(
    estimate: &F,
    buy_rate: i64,
    sell_rate: i64,
    modal: i64,
    pokok: i64,
    cell: Seq<char>,
) -> bool {
    if buy_rate == 0 {
        cell == "-"@
    } else {
        exists|figures: ProfitFigures| #[trigger]
            estimate.ensures((buy_rate, sell_rate, modal, pokok), figures) && cell == profit_text(
                figures.val as int,
                figures.gram@,
            )
    }
}

/// The profit shown for capital `modal`, of which `pokok` is the principal
/// to recover, bought at `buy_rate` and sold at `sell_rate`. The division
/// and rounding are `estimate`'s; it is not asked where the buying rate is
/// zero.
pub fn calc_profit<F: Fn(i64, i64, i64, i64) -> ProfitFigures>(
    buy_rate: i64,
    sell_rate: i64,
    modal: i64,
    pokok: i64,
    estimate: &F,
) -> (s: String)
    requires
        buy_rate != 0 ==> estimate.requires((buy_rate, sell_rate, modal, pokok)),
    ensures
        shows_profit(estimate, buy_rate, sell_rate, modal, pokok, s@),
{
    if buy_rate == 0 {
        return String::from_str("-");
    }
    let figures = estimate(buy_rate, sell_rate, modal, pokok);
    format_profit(&figures)
}

} // verus!
