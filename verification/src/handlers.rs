//! The privileged change of the monthly limit, and what becomes of
//! requests for unknown paths.

use vstd::prelude::*;
use vstd::string::*;
use subtle::ConstantTimeEq;
use crate::config::{
    MAX_LIMIT, MIN_LIMIT, RATE_LIMIT_SECONDS, WEIGHT_MALFORMED, WEIGHT_UNAUTHORIZED,
};
use crate::guard::{after_attempt, after_query, banned_at};
use crate::json::{bytes_clone, decimal_text};
use crate::security::{lowercase, to_lowercase, under_control_prefix};
use crate::snapshot::is_snapshot_of;
use crate::state::{after_get, after_invalidate, with_guard, AppState, AppView};
use crate::text::{
    chars_of, contains, has_infix, lemma_bytes_decide_text, parse_i64, parsed_i64, signed_decimal,
    starts_with,
};
use crate::utils::{current_timestamp, ProfitFigures};

verus! {

/// The query of a request to change the limit.
#[derive(Clone, Debug)]
pub struct LimitQuery {
    pub key: Option<String>,
}

/// `ConstantTimeEq::ct_eq` on byte slices, read with `Choice::unwrap_u8`:
/// one where the slices have the same length and the same bytes, zero
/// otherwise.
#[verifier::external_body]
fn ct_eq_bytes(a: &[u8], b: &[u8]) -> (r: u8)
    ensures
        r == (if a@ == b@ {
            1u8
        } else {
            0u8
        }),
{
    a.ct_eq(b).unwrap_u8()
}

/// Whether `key` is the secret. Keys of the secret's length are compared
/// in time that does not depend on where they differ.
pub fn secret_matches(key: &str, secret: &str) -> (r: bool)
    ensures
        r == (key@ == secret@),
{
    let kb = key.as_bytes();
    let sb = secret.as_bytes();
    proof {
        lemma_bytes_decide_text(key@, secret@);
    }
    !(kb.len() != sb.len() || ct_eq_bytes(kb, sb) != 1)
}

/// How a request to change the limit ends.
#[derive(Clone, Copy, Debug, PartialEq, Eq, Structural)]
pub enum SetLimitOutcome {
    /// The client is banned.
    Banned,
    /// The request names no key.
    MissingKey,
    /// The key is not the secret.
    WrongKey,
    /// The value is no number.
    NotANumber,
    /// The last change is too short a time ago.
    TooSoon,
    /// The value lies outside the bounds.
    OutOfRange,
    /// The limit is now the value.
    Accepted(i64),
}

/// How a request to change the limit ends: for a banned client, as
/// banned; without a key, or with an empty one, as missing its key; with a
/// key that is not the secret, as wrong; with a value that is no numeral,
/// as no number; within the cooldown after the last change, as too soon;
/// with a value outside the bounds, as out of range; and accepted
/// otherwise.
pub open spec fn limit_outcome(
    v: AppView,
    ip: Seq<char>,
    value: Seq<char>,
    key: Option<Seq<char>>,
    secret: Seq<char>,
    now: u64,
) -> SetLimitOutcome {
    if banned_at(v.guard.bans, ip, now) {
        SetLimitOutcome::Banned
    } else if key is None || key->0.len() == 0 {
        SetLimitOutcome::MissingKey
    } else if key->0 != secret {
        SetLimitOutcome::WrongKey
    } else if parsed_i64(value) is None {
        SetLimitOutcome::NotANumber
    } else if now - v.last_successful_call < RATE_LIMIT_SECONDS {
        SetLimitOutcome::TooSoon
    } else if parsed_i64(value)->0 < MIN_LIMIT || parsed_i64(value)->0 > MAX_LIMIT {
        SetLimitOutcome::OutOfRange
    } else {
        SetLimitOutcome::Accepted(parsed_i64(value)->0)
    }
}

/// The board after a request to change the limit, before any snapshot is
/// built. A ban that has run out is forgotten. A missing key, a wrong key
/// and a value that is no number each count as a failed attempt of the
/// lowest weight. An accepted request sets the limit and the time of the
/// last change, and the board moves on to its next version. A request that
/// comes too soon or is out of range changes nothing more.
pub open spec fn after_limit_request(
    v: AppView,
    ip: Seq<char>,
    outcome: SetLimitOutcome,
    now: u64,
) -> AppView {
    let queried = with_guard(v, after_query(v.guard, ip, now));
    match outcome {
        SetLimitOutcome::MissingKey | SetLimitOutcome::WrongKey | SetLimitOutcome::NotANumber => with_guard(
            v,
            after_attempt(queried.guard, ip, WEIGHT_UNAUTHORIZED as nat, now),
        ),
        SetLimitOutcome::Accepted(limit) => after_invalidate(
            AppView { limit_bulan: limit, last_successful_call: now, ..queried },
        ),
        _ => queried,
    }
}

/// The board once a request to change the limit is answered: after an
/// accepted change a snapshot, `built`, was asked for at `now_ms`.
pub open spec fn served_limit_request(
    v: AppView,
    outcome: SetLimitOutcome,
    now_ms: u64,
    built: Seq<u8>,
) -> AppView {
    if outcome is Accepted {
        after_get(v, now_ms, built)
    } else {
        v
    }
}

/// The HTTP status that goes with an outcome.
pub open spec fn limit_status(outcome: SetLimitOutcome) -> u16 {
    match outcome {
        SetLimitOutcome::Banned => 429,
        SetLimitOutcome::MissingKey => 400,
        SetLimitOutcome::WrongKey => 403,
        SetLimitOutcome::NotANumber => 400,
        SetLimitOutcome::TooSoon => 429,
        SetLimitOutcome::OutOfRange => 400,
        SetLimitOutcome::Accepted(_) => 200,
    }
}

/// The body that goes with an outcome: a JSON object for an accepted
/// change, a line of text for every other.
pub open spec fn limit_body(outcome: SetLimitOutcome) -> Seq<char> {
    match outcome {
        SetLimitOutcome::Banned => "IP diblokir sementara"@,
        SetLimitOutcome::MissingKey => "Parameter key diperlukan"@,
        SetLimitOutcome::WrongKey => "Akses ditolak"@,
        SetLimitOutcome::NotANumber => "Nilai harus angka"@,
        SetLimitOutcome::TooSoon => "Terlalu cepat"@,
        SetLimitOutcome::OutOfRange => "Nilai harus "@ + signed_decimal(MIN_LIMIT as int) + "-"@
            + signed_decimal(MAX_LIMIT as int),
        SetLimitOutcome::Accepted(limit) => "{\"status\":\"ok\",\"limit_bulan\":"@ + signed_decimal(
            limit as int,
        ) + "}"@,
    }
}

impl SetLimitOutcome {
    /// The HTTP status that goes with the outcome.
    pub fn status_code(&self) -> (code: u16)
        ensures
            code == limit_status(*self),
    {
        match self {
            SetLimitOutcome::Banned => 429,
            SetLimitOutcome::MissingKey => 400,
            SetLimitOutcome::WrongKey => 403,
            SetLimitOutcome::NotANumber => 400,
            SetLimitOutcome::TooSoon => 429,
            SetLimitOutcome::OutOfRange => 400,
            SetLimitOutcome::Accepted(_) => 200,
        }
    }

    /// The body that goes with the outcome.
    pub fn body(&self) -> (text: String)
        ensures
            text@ == limit_body(*self),
    {
        match self {
            SetLimitOutcome::Banned => String::from_str("IP diblokir sementara"),
            SetLimitOutcome::MissingKey => String::from_str("Parameter key diperlukan"),
            SetLimitOutcome::WrongKey => String::from_str("Akses ditolak"),
            SetLimitOutcome::NotANumber => String::from_str("Nilai harus angka"),
            SetLimitOutcome::TooSoon => String::from_str("Terlalu cepat"),
            SetLimitOutcome::OutOfRange => {
                let mut text = String::from_str("Nilai harus ");
                text.append(decimal_text(MIN_LIMIT).as_str());
                text.append("-");
                text.append(decimal_text(MAX_LIMIT).as_str());
                text
            },
            SetLimitOutcome::Accepted(limit) => {
                let mut text = String::from_str("{\"status\":\"ok\",\"limit_bulan\":");
                text.append(decimal_text(*limit).as_str());
                text.append("}");
                text
            },
        }
    }
}

/// The key that a query names.
pub open spec fn key_of(query: &LimitQuery) -> Option<Seq<char>> {
    match query.key {
        Some(k) => Some(k@),
        None => None,
    }
}

/// Handles a request of `ip` to set the limit to `value`, at second `now`
/// and millisecond `now_ms` of the board's clock. An accepted change is
/// followed by a new snapshot, which is cached and sent to every subscriber.
pub fn set_limit_at<F: Fn(i64, i64, i64, i64) -> ProfitFigures>(
    state: &mut AppState<F>,
    ip: &str,
    value: &str,
    query: &LimitQuery,
    secret: &str,
    now: u64,
    now_ms: u64,
) -> (outcome: SetLimitOutcome)
    requires
        old(state).wf(),
    ensures
        final(state).follows(old(state)),
        outcome == limit_outcome(old(state)@, ip@, value@, key_of(query), secret@, now),
        final(state)@ == served_limit_request(
            after_limit_request(old(state)@, ip@, outcome, now),
            outcome,
            now_ms,
            final(state)@.cache.data,
        ),
        outcome is Accepted ==> is_snapshot_of(
            &final(state).estimator(),
            final(state)@.history,
            final(state)@.usd_idr_history,
            final(state)@.limit_bulan as int,
            final(state)@.cache.data,
        ),
{
    if state.guard.is_blocked_at(ip, now) {
        return SetLimitOutcome::Banned;
    }
    let key = match &query.key {
        Some(k) => {
            if k.as_str().unicode_len() == 0 {
                state.guard.record_failed_attempt_at(ip, WEIGHT_UNAUTHORIZED, now);
                return SetLimitOutcome::MissingKey;
            }
            k
        },
        None => {
            state.guard.record_failed_attempt_at(ip, WEIGHT_UNAUTHORIZED, now);
            return SetLimitOutcome::MissingKey;
        },
    };
    if !secret_matches(key.as_str(), secret) {
        state.guard.record_failed_attempt_at(ip, WEIGHT_UNAUTHORIZED, now);
        return SetLimitOutcome::WrongKey;
    }
    let int_value = match parse_i64(value) {
        Some(n) => n,
        None => {
            state.guard.record_failed_attempt_at(ip, WEIGHT_UNAUTHORIZED, now);
            return SetLimitOutcome::NotANumber;
        },
    };
    if now < state.last_successful_call || now - state.last_successful_call < RATE_LIMIT_SECONDS {
        return SetLimitOutcome::TooSoon;
    }
    if int_value < MIN_LIMIT || int_value > MAX_LIMIT {
        return SetLimitOutcome::OutOfRange;
    }
    state.invalidate_cache();
    state.limit_bulan = int_value;
    state.last_successful_call = now;
    let cached = state.get_cached_state_at(now_ms);
    state.ws_manager.broadcast(bytes_clone(&cached));
    SetLimitOutcome::Accepted(int_value)
}

/// Handles a request to set the limit at the present moment.
pub fn set_limit<F: Fn(i64, i64, i64, i64) -> ProfitFigures>(
    state: &mut AppState<F>,
    ip: &str,
    value: &str,
    query: &LimitQuery,
    secret: &str,
) -> (outcome: SetLimitOutcome)
    requires
        old(state).wf(),
    ensures
        final(state).follows(old(state)),
        exists|now: u64, now_ms: u64|
            {
                &&& outcome == #[trigger] limit_outcome(
                    old(state)@,
                    ip@,
                    value@,
                    key_of(query),
                    secret@,
                    now,
                )
                &&& final(state)@ == #[trigger] served_limit_request(
                    after_limit_request(old(state)@, ip@, outcome, now),
                    outcome,
                    now_ms,
                    final(state)@.cache.data,
                )
            },
        outcome is Accepted ==> is_snapshot_of(
            &final(state).estimator(),
            final(state)@.history,
            final(state)@.usd_idr_history,
            final(state)@.limit_bulan as int,
            final(state)@.cache.data,
        ),
{
    let now = current_timestamp();
    let now_ms = state.clock_millis();
    set_limit_at(state, ip, value, query, secret, now, now_ms)
}

/// How a request for a path that nothing serves ends.
#[derive(Clone, Copy, Debug, PartialEq, Eq, Structural)]
pub enum CatchAllOutcome {
    /// The client is banned.
    Banned,
    /// The path looks like an administrative one.
    Forbidden,
    /// There is no such page.
    NotFound,
}

/// Whether a path, in lowercase, looks like an administrative one: it
/// names an admin or a config, and does not lie under the control prefix.
pub open spec fn looks_administrative(lower: Seq<char>) -> bool {
    !under_control_prefix(lower) && (has_infix(lower, "admin"@) || has_infix(lower, "config"@))
}

/// How a request of `ip` for an unknown path ends.
pub open spec fn fallback_outcome(v: AppView, ip: Seq<char>, lower: Seq<char>, now: u64) -> CatchAllOutcome {
    if banned_at(v.guard.bans, ip, now) {
        CatchAllOutcome::Banned
    } else if looks_administrative(lower) {
        CatchAllOutcome::Forbidden
    } else {
        CatchAllOutcome::NotFound
    }
}

/// The board after a request for an unknown path: unless the client is
/// banned, the request counts as a failed attempt, heavier where the path
/// looks like an administrative one.
pub open spec fn after_fallback(v: AppView, ip: Seq<char>, lower: Seq<char>, now: u64) -> AppView {
    let queried = after_query(v.guard, ip, now);
    match fallback_outcome(v, ip, lower, now) {
        CatchAllOutcome::Banned => with_guard(v, queried),
        CatchAllOutcome::Forbidden => with_guard(
            v,
            after_attempt(queried, ip, WEIGHT_MALFORMED as nat, now),
        ),
        CatchAllOutcome::NotFound => with_guard(
            v,
            after_attempt(queried, ip, WEIGHT_UNAUTHORIZED as nat, now),
        ),
    }
}

impl CatchAllOutcome {
    /// The HTTP status that goes with the outcome.
    pub fn status_code(&self) -> (code: u16)
        ensures
            code == (match *self {
                CatchAllOutcome::Banned => 429u16,
                CatchAllOutcome::Forbidden => 403u16,
                CatchAllOutcome::NotFound => 404u16,
            }),
    {
        match self {
            CatchAllOutcome::Banned => 429,
            CatchAllOutcome::Forbidden => 403,
            CatchAllOutcome::NotFound => 404,
        }
    }

    /// The line of text that goes with the outcome.
    pub fn body(&self) -> (text: String)
        ensures
            text@ == (match *self {
                CatchAllOutcome::Banned => "IP diblokir sementara"@,
                CatchAllOutcome::Forbidden => "Akses ditolak"@,
                CatchAllOutcome::NotFound => "Halaman tidak ditemukan"@,
            }),
    {
        match self {
            CatchAllOutcome::Banned => String::from_str("IP diblokir sementara"),
            CatchAllOutcome::Forbidden => String::from_str("Akses ditolak"),
            CatchAllOutcome::NotFound => String::from_str("Halaman tidak ditemukan"),
        }
    }
}

/// Handles a request for an unknown path that is given in lowercase.
pub fn catch_all_lowered<F: Fn(i64, i64, i64, i64) -> ProfitFigures>(
    state: &mut AppState<F>,
    ip: &str,
    lower: &str,
    now: u64,
) -> (outcome: CatchAllOutcome)
    requires
        old(state).wf(),
    ensures
        final(state).follows(old(state)),
        outcome == fallback_outcome(old(state)@, ip@, lower@, now),
        final(state)@ == after_fallback(old(state)@, ip@, lower@, now),
{
    if state.guard.is_blocked_at(ip, now) {
        return CatchAllOutcome::Banned;
    }
    let p = chars_of(lower);
    if !starts_with(&p, &chars_of("/aturt")) && (contains(&p, &chars_of("admin")) || contains(
        &p,
        &chars_of("config"),
    )) {
        state.guard.record_failed_attempt_at(ip, WEIGHT_MALFORMED, now);
        return CatchAllOutcome::Forbidden;
    }
    state.guard.record_failed_attempt_at(ip, WEIGHT_UNAUTHORIZED, now);
    CatchAllOutcome::NotFound
}

/// Handles a request of `ip` for an unknown path at second `now`.
pub fn catch_all_at<F: Fn(i64, i64, i64, i64) -> ProfitFigures>(
    state: &mut AppState<F>,
    ip: &str,
    path: &str,
    now: u64,
) -> (outcome: CatchAllOutcome)
    requires
        old(state).wf(),
    ensures
        final(state).follows(old(state)),
        outcome == fallback_outcome(old(state)@, ip@, lowercase(path@), now),
        final(state)@ == after_fallback(old(state)@, ip@, lowercase(path@), now),
{
    let lower = to_lowercase(path);
    catch_all_lowered(state, ip, lower.as_str(), now)
}

/// Handles a request for an unknown path at the present moment.
pub fn catch_all<F: Fn(i64, i64, i64, i64) -> ProfitFigures>(
    state: &mut AppState<F>,
    ip: &str,
    path: &str,
) -> (outcome: CatchAllOutcome)
    requires
        old(state).wf(),
    ensures
        final(state).follows(old(state)),
        exists|now: u64|
            {
                &&& outcome == #[trigger] fallback_outcome(old(state)@, ip@, lowercase(path@), now)
                &&& final(state)@ == after_fallback(old(state)@, ip@, lowercase(path@), now)
            },
{
    let now = current_timestamp();
    catch_all_at(state, ip, path, now)
}

} // verus!
