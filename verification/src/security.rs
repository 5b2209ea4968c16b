//! The screening that every request passes before it is served.

use vstd::prelude::*;
use vstd::string::*;
use crate::config::{RETRY_AFTER_SECS, STRICT_BLOCK_SECS, WEIGHT_SUSPICIOUS_PATH};
use crate::guard::{after_attempt, after_ban, after_query, ban_expired, banned_at};
use crate::rate_limiter::{after_check, verdict, LimiterView, RateLimitStatus};
use crate::state::{AppState, AppView};
use crate::text::{chars_of, contains, has_infix, has_prefix, same_text, starts_with, text_of};
use crate::utils::{current_timestamp, ProfitFigures};

verus! {

/// Whether `c` is white space: one of the twenty-five characters that
/// Unicode marks as such.
pub open spec fn is_white_space(c: char) -> bool {
    let u = c as u32;
    ||| 9 <= u <= 13
    ||| u == 0x20
    ||| u == 0x85
    ||| u == 0xA0
    ||| u == 0x1680
    ||| 0x2000 <= u <= 0x200A
    ||| u == 0x2028
    ||| u == 0x2029
    ||| u == 0x202F
    ||| u == 0x205F
    ||| u == 0x3000
}

/// Whether `c` is white space.
pub fn white_space(c: char) -> (r: bool)
    ensures
        r == is_white_space(c),
{
    let u = c as u32;
    (9 <= u && u <= 13) || u == 0x20 || u == 0x85 || u == 0xA0 || u == 0x1680 || (0x2000 <= u && u
        <= 0x200A) || u == 0x2028 || u == 0x2029 || u == 0x202F || u == 0x205F || u == 0x3000
}

/// A text without the white space it begins with.
pub open spec fn trim_start(s: Seq<char>) -> Seq<char>
    decreases s.len(),
{
    if s.len() > 0 && is_white_space(s[0]) {
        trim_start(s.drop_first())
    } else {
        s
    }
}

/// A text without the white space it ends with.
pub open spec fn trim_end(s: Seq<char>) -> Seq<char>
    decreases s.len(),
{
    if s.len() > 0 && is_white_space(s.last()) {
        trim_end(s.drop_last())
    } else {
        s
    }
}

/// A text without the white space around it.
pub open spec fn trimmed(s: Seq<char>) -> Seq<char> {
    trim_end(trim_start(s))
}

/// The position of the first comma of `s` at or after `from`, or the
/// length of `s` where there is none.
pub open spec fn segment_end(s: Seq<char>, from: int) -> int
    decreases s.len() - from,
{
    if from >= s.len() || s[from] == ',' {
        from
    } else {
        segment_end(s, from + 1)
    }
}

/// What stands before the first comma of `s`; all of `s` where it has none.
pub open spec fn first_segment(s: Seq<char>) -> Seq<char> {
    s.take(segment_end(s, 0))
}

/// The text `v[from..to]` without the white space around it.
fn trimmed_text(v: &Vec<char>, from: usize, to: usize) -> (r: String)
    requires
        from <= to <= v.len(),
    ensures
        r@ == trimmed(v@.subrange(from as int, to as int)),
{
    let mut a: usize = from;
    while a < to && white_space(v[a])
        invariant
            from <= a <= to <= v.len(),
            trim_start(v@.subrange(from as int, to as int)) == trim_start(
                v@.subrange(a as int, to as int),
            ),
        decreases to - a,
    {
        proof {
            assert(v@.subrange(a as int, to as int).drop_first() =~= v@.subrange(a + 1, to as int));
        }
        a = a + 1;
    }
    let mut b: usize = to;
    while b > a && white_space(v[b - 1])
        invariant
            a <= b <= to <= v.len(),
            trim_end(v@.subrange(a as int, to as int)) == trim_end(v@.subrange(a as int, b as int)),
        decreases b - a,
    {
        proof {
            assert(v@.subrange(a as int, b as int).drop_last() =~= v@.subrange(a as int, b - 1));
        }
        b = b - 1;
    }
    text_of(v, a, b)
}

/// The address a request is taken to come from: the first entry of the
/// forwarded-for header, else the real-address header, each without the
/// white space around it; `unknown` where the request has neither. The
/// headers are those of a proxy that is trusted; nothing is checked.
pub open spec fn client_ip(
    forwarded_for: Option<Seq<char>>,
    real_ip: Option<Seq<char>>,
) -> Seq<char> {
    match forwarded_for {
        Some(list) => trimmed(first_segment(list)),
        None => match real_ip {
            Some(ip) => trimmed(ip),
            None => "unknown"@,
        },
    }
}

/// The address a request is taken to come from, given the text of its
/// forwarded-for header and of its real-address header, where it has them.
pub fn get_client_ip(forwarded_for: Option<&str>, real_ip: Option<&str>) -> (ip: String)
    ensures
        ip@ == client_ip(
            match forwarded_for {
                Some(s) => Some(s@),
                None => None,
            },
            match real_ip {
                Some(s) => Some(s@),
                None => None,
            },
        ),
{
    match forwarded_for {
        Some(list) => {
            let v = chars_of(list);
            let mut i: usize = 0;
            while i < v.len() && v[i] != ','
                invariant
                    i <= v.len(),
                    segment_end(v@, 0) == segment_end(v@, i as int),
                decreases v.len() - i,
            {
                i = i + 1;
            }
            proof {
                assert(v@.take(i as int) =~= v@.subrange(0, i as int));
            }
            trimmed_text(&v, 0, i)
        },
        None => match real_ip {
            Some(ip) => {
                let v = chars_of(ip);
                proof {
                    assert(v@.subrange(0, v@.len() as int) =~= v@);
                }
                trimmed_text(&v, 0, v.len())
            },
            None => String::from_str("unknown"),
        },
    }
}

/// The lowercase form that `str::to_lowercase` gives a text.
pub uninterp spec fn lowercase(s: Seq<char>) -> Seq<char>;

/// `str::to_lowercase` of the standard library: the lowercase form of a
/// text by the rules of Unicode, which depend on nothing but the text.
#[verifier::external_body]
pub(crate) fn to_lowercase(s: &str) -> (r: String)
    ensures
        r@ == lowercase(s@),
{
    s.to_lowercase()
}

/// The fragments that give a probing request away.
pub open spec fn suspicious_fragments() -> Seq<Seq<char>> {
    seq![
        "/admin"@,
        "/login"@,
        "/wp-admin"@,
        "/phpmyadmin"@,
        "/.env"@,
        "/config"@,
        "/api/admin"@,
        "/administrator"@,
        "/wp-login"@,
        "/backup"@,
        "/.git"@,
        "/shell"@,
        "/cmd"@,
        "/exec"@,
        "/eval"@,
        "/system"@,
        "/passwd"@,
        "/etc"@,
    ]
}

/// Whether a path, in lowercase, lies under the prefix of the board's own
/// control surface.
pub open spec fn under_control_prefix(lower: Seq<char>) -> bool {
    has_prefix(lower, "/aturt"@)
}

/// Whether a path, in lowercase, holds one of the fragments.
pub open spec fn holds_fragment(lower: Seq<char>) -> bool {
    exists|k: int| 0 <= k < suspicious_fragments().len() && has_infix(lower, #[trigger] suspicious_fragments()[k])
}

/// Whether a path, in lowercase, looks like a probe: it holds one of the
/// fragments and does not lie under the control prefix.
pub open spec fn suspicious_lowered(lower: Seq<char>) -> bool {
    !under_control_prefix(lower) && holds_fragment(lower)
}

fn fragments() -> (v: Vec<&'static str>)
    ensures
        v@.len() == suspicious_fragments().len(),
        forall|k: int| 0 <= k < v@.len() ==> (#[trigger] v@[k])@ == suspicious_fragments()[k],
{
    vec![
        "/admin",
        "/login",
        "/wp-admin",
        "/phpmyadmin",
        "/.env",
        "/config",
        "/api/admin",
        "/administrator",
        "/wp-login",
        "/backup",
        "/.git",
        "/shell",
        "/cmd",
        "/exec",
        "/eval",
        "/system",
        "/passwd",
        "/etc",
    ]
}

/// Whether a path that is already in lowercase looks like a probe.
pub fn is_suspicious_lowered(lower: &str) -> (r: bool)
    ensures
        r == suspicious_lowered(lower@),
{
    let p = chars_of(lower);
    let prefix = chars_of("/aturt");
    if starts_with(&p, &prefix) {
        return false;
    }
    let list = fragments();
    let mut k: usize = 0;
    while k < list.len()
        invariant
            k <= list@.len(),
            p@ == lower@,
            !under_control_prefix(lower@),
            list@.len() == suspicious_fragments().len(),
            forall|j: int| 0 <= j < list@.len() ==> (#[trigger] list@[j])@ == suspicious_fragments()[j],
            forall|j: int| 0 <= j < k ==> !has_infix(p@, #[trigger] suspicious_fragments()[j]),
        decreases list@.len() - k,
    {
        let fragment = chars_of(list[k]);
        if contains(&p, &fragment) {
            proof {
                assert(has_infix(lower@, suspicious_fragments()[k as int]));
            }
            return true;
        }
        k = k + 1;
    }
    false
}

/// Whether a path looks like a probe.
pub fn is_suspicious(path: &str) -> (r: bool)
    ensures
        r == suspicious_lowered(lowercase(path@)),
{
    let lower = to_lowercase(path);
    is_suspicious_lowered(lower.as_str())
}

/// Whether a path is served without asking the rate limiter: the page,
/// the health check, the state, the subscription, and everything under the
/// control prefix.
pub open spec fn whitelisted(path: Seq<char>, lower: Seq<char>) -> bool {
    ||| path == "/ws"@
    ||| path == "/api/state"@
    ||| path == "/health"@
    ||| path == "/"@
    ||| under_control_prefix(lower)
}

/// Whether a path, given with its lowercase form, is served without asking
/// the rate limiter.
pub fn is_whitelisted(path: &str, lower: &str) -> (r: bool)
    ensures
        r == whitelisted(path@, lower@),
{
    if same_text(path, "/ws") || same_text(path, "/api/state") || same_text(path, "/health")
        || same_text(path, "/") {
        return true;
    }
    let p = chars_of(lower);
    let prefix = chars_of("/aturt");
    starts_with(&p, &prefix)
}

/// What becomes of a request.
#[derive(Clone, Copy, Debug, PartialEq, Eq, Structural)]
pub enum SecurityVerdict {
    /// It is handed on to be served.
    Forward,
    /// It is refused with "too many requests" and a hint to come back in
    /// sixty seconds.
    TooManyRequests,
    /// It is refused as forbidden.
    Forbidden,
}

impl SecurityVerdict {
    /// The HTTP status of the refusal, if the request is refused.
    pub fn status_code(&self) -> (code: Option<u16>)
        ensures
            code == (match *self {
                SecurityVerdict::Forward => None::<u16>,
                SecurityVerdict::TooManyRequests => Some(429u16),
                SecurityVerdict::Forbidden => Some(403u16),
            }),
    {
        match self {
            SecurityVerdict::Forward => None,
            SecurityVerdict::TooManyRequests => Some(429),
            SecurityVerdict::Forbidden => Some(403),
        }
    }

    /// The seconds after which a client that is refused for its many
    /// requests is told to come back.
    pub fn retry_after(&self) -> (secs: Option<u64>)
        ensures
            secs == (if *self == SecurityVerdict::TooManyRequests {
                Some(RETRY_AFTER_SECS)
            } else {
                None
            }),
    {
        match self {
            SecurityVerdict::TooManyRequests => Some(RETRY_AFTER_SECS),
            _ => None,
        }
    }
}

/// Whether the rate limiter is asked about a request: the client is not
/// banned and the path is not whitelisted.
pub open spec fn limiter_asked(v: AppView, ip: Seq<char>, path: Seq<char>, lower: Seq<char>, now: u64) -> bool {
    !banned_at(v.guard.bans, ip, now) && !whitelisted(path, lower)
}

/// What the rate limiter says of a request about which it is asked.
pub open spec fn limiter_says(v: AppView, ip: Seq<char>, now: u64) -> RateLimitStatus {
    verdict(v.limiter, ip, now)
}

/// What becomes of a request of `ip` for `path`, whose lowercase form is
/// `lower`, at second `now`. In this order: a banned client is refused; on
/// a path that is not whitelisted, a client over the strict limit or over
/// the limit is refused; a path that looks like a probe is forbidden; every
/// other request is handed on.
pub open spec fn screening(
    v: AppView,
    ip: Seq<char>,
    path: Seq<char>,
    lower: Seq<char>,
    now: u64,
) -> SecurityVerdict {
    if banned_at(v.guard.bans, ip, now) {
        SecurityVerdict::TooManyRequests
    } else if !whitelisted(path, lower) && limiter_says(v, ip, now) != RateLimitStatus::Allowed {
        SecurityVerdict::TooManyRequests
    } else if suspicious_lowered(lower) {
        SecurityVerdict::Forbidden
    } else {
        SecurityVerdict::Forward
    }
}

/// The rate limiter's records after a request: changed by the request
/// where the limiter was asked, and only there.
pub open spec fn limiter_after_screening(
    v: AppView,
    ip: Seq<char>,
    path: Seq<char>,
    lower: Seq<char>,
    now: u64,
) -> LimiterView {
    if limiter_asked(v, ip, path, lower, now) {
        after_check(v.limiter, ip, now)
    } else {
        v.limiter
    }
}

/// The board after a request. A ban that has run out is forgotten. The
/// limiter records a request about which it is asked; a client over the
/// strict limit is banned for the longer duration; a request that is
/// forbidden counts as a failed attempt with the weight of a probe.
pub open spec fn after_screening(
    v: AppView,
    ip: Seq<char>,
    path: Seq<char>,
    lower: Seq<char>,
    now: u64,
) -> AppView {
    let queried = after_query(v.guard, ip, now);
    let limiter = limiter_after_screening(v, ip, path, lower, now);
    let guard = if banned_at(v.guard.bans, ip, now) {
        queried
    } else if !whitelisted(path, lower) && limiter_says(v, ip, now) == RateLimitStatus::Blocked {
        after_ban(queried, ip, STRICT_BLOCK_SECS, now)
    } else if !whitelisted(path, lower) && limiter_says(v, ip, now) == RateLimitStatus::Limited {
        queried
    } else if suspicious_lowered(lower) {
        after_attempt(queried, ip, WEIGHT_SUSPICIOUS_PATH as nat, now)
    } else {
        queried
    };
    AppView { guard, limiter, ..v }
}

/// Screens a request whose path is given with its lowercase form.
pub fn screen_lowered<F: Fn(i64, i64, i64, i64) -> ProfitFigures>(
    state: &mut AppState<F>,
    ip: &str,
    path: &str,
    lower: &str,
    now: u64,
) -> (r: SecurityVerdict)
    requires
        old(state).wf(),
    ensures
        final(state).follows(old(state)),
        r == screening(old(state)@, ip@, path@, lower@, now),
        final(state)@ == after_screening(old(state)@, ip@, path@, lower@, now),
{
    if state.guard.is_blocked_at(ip, now) {
        return SecurityVerdict::TooManyRequests;
    }
    if !is_whitelisted(path, lower) {
        let (_ok, _count, status) = state.rate_limiter.check_at(ip, now);
        match status {
            RateLimitStatus::Blocked => {
                state.guard.block_ip_at(ip, STRICT_BLOCK_SECS, now);
                return SecurityVerdict::TooManyRequests;
            },
            RateLimitStatus::Limited => {
                return SecurityVerdict::TooManyRequests;
            },
            RateLimitStatus::Allowed => {},
        }
    }
    if is_suspicious_lowered(lower) {
        state.guard.record_failed_attempt_at(ip, WEIGHT_SUSPICIOUS_PATH, now);
        return SecurityVerdict::Forbidden;
    }
    SecurityVerdict::Forward
}

/// Screens a request of `ip` for `path` at second `now`.
pub fn security_middleware_at<F: Fn(i64, i64, i64, i64) -> ProfitFigures>(
    state: &mut AppState<F>,
    ip: &str,
    path: &str,
    now: u64,
) -> (r: SecurityVerdict)
    requires
        old(state).wf(),
    ensures
        final(state).follows(old(state)),
        r == screening(old(state)@, ip@, path@, lowercase(path@), now),
        final(state)@ == after_screening(old(state)@, ip@, path@, lowercase(path@), now),
{
    let lower = to_lowercase(path);
    screen_lowered(state, ip, path, lower.as_str(), now)
}

/// Screens a request of `ip` for `path` at the present moment.
pub fn security_middleware<F: Fn(i64, i64, i64, i64) -> ProfitFigures>(
    state: &mut AppState<F>,
    ip: &str,
    path: &str,
) -> (r: SecurityVerdict)
    requires
        old(state).wf(),
    ensures
        final(state).follows(old(state)),
        exists|now: u64|
            {
                &&& r == #[trigger] screening(old(state)@, ip@, path@, lowercase(path@), now)
                &&& final(state)@ == after_screening(old(state)@, ip@, path@, lowercase(path@), now)
            },
{
    let now = current_timestamp();
    security_middleware_at(state, ip, path, now)
}

/// A request for a whitelisted path leaves the rate limiter's records as
/// they were, whatever they hold, and is never refused on their account.
pub proof fn lemma_whitelisted_bypasses_limiter(
    v: AppView,
    ip: Seq<char>,
    path: Seq<char>,
    lower: Seq<char>,
    now: u64,
)
    requires
        whitelisted(path, lower),
    ensures
        after_screening(v, ip, path, lower, now).limiter == v.limiter,
        !banned_at(v.guard.bans, ip, now) ==> screening(v, ip, path, lower, now)
            != SecurityVerdict::TooManyRequests,
{
}

/// A request for a path that looks like a probe, from a client that is
/// neither banned nor held back by the rate limiter, is forbidden and
/// counts as a failed attempt with the weight of a probe.
pub proof fn lemma_probe_is_forbidden(
    v: AppView,
    ip: Seq<char>,
    path: Seq<char>,
    lower: Seq<char>,
    now: u64,
)
    requires
        suspicious_lowered(lower),
        !banned_at(v.guard.bans, ip, now),
        whitelisted(path, lower) || limiter_says(v, ip, now) == RateLimitStatus::Allowed,
    ensures
        screening(v, ip, path, lower, now) == SecurityVerdict::Forbidden,
        after_screening(v, ip, path, lower, now).guard == after_attempt(
            after_query(v.guard, ip, now),
            ip,
            WEIGHT_SUSPICIOUS_PATH as nat,
            now,
        ),
{
}

/// A path under the control prefix is never taken for a probe, whatever
/// fragments it holds: a request for it is not forbidden, and is handed on
/// unless the client is banned; it brings no failed attempt and no ban, and
/// leaves the guard as it was but for a ban that has run out, which is
/// forgotten.
pub proof fn lemma_control_prefix_exempt(
    v: AppView,
    ip: Seq<char>,
    path: Seq<char>,
    lower: Seq<char>,
    now: u64,
)
    requires
        under_control_prefix(lower),
    ensures
        !suspicious_lowered(lower),
        screening(v, ip, path, lower, now) != SecurityVerdict::Forbidden,
        !banned_at(v.guard.bans, ip, now) ==> screening(v, ip, path, lower, now)
            == SecurityVerdict::Forward,
        after_screening(v, ip, path, lower, now).guard == after_query(v.guard, ip, now),
        !ban_expired(v.guard.bans, ip, now) ==> after_screening(v, ip, path, lower, now).guard
            == v.guard,
        after_screening(v, ip, path, lower, now).limiter == v.limiter,
{
}

} // verus!
