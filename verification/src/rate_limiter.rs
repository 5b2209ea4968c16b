//! A sliding-window request counter for each client.

use vstd::prelude::*;
use vstd::string::*;
use dashmap::DashMap;
use crate::config::{
    CLEANUP_INTERVAL_SECS, RATE_LIMIT_MAX_REQUESTS, RATE_LIMIT_STRICT_MAX, RATE_LIMIT_WINDOW,
};
use crate::guard::record_of;
use crate::tables::{
    no_stamps, stamp_table, stamps, stamps_get, stamps_insert, stamps_keys, stamps_remove,
};
use crate::utils::current_timestamp;

verus! {

/// The verdict on a request.
#[derive(Clone, Copy, Debug, PartialEq, Eq, Structural)]
pub enum RateLimitStatus {
    Allowed,
    Limited,
    Blocked,
}

/// Whether a request made at `t` still counts at `now`: it does unless it
/// is a whole window old or older.
pub open spec fn counts_in_window(t: u64, now: u64) -> bool {
    now - t < RATE_LIMIT_WINDOW
}

/// The requests of a record that still count at `now`.
pub open spec fn in_window(record: Seq<u64>, now: u64) -> Seq<u64> {
    record.filter(|t: u64| counts_in_window(t, now))
}

/// The verdict for a client with `count` requests in the window.
pub open spec fn status_for(count: nat) -> RateLimitStatus {
    if count >= RATE_LIMIT_STRICT_MAX {
        RateLimitStatus::Blocked
    } else if count >= RATE_LIMIT_MAX_REQUESTS {
        RateLimitStatus::Limited
    } else {
        RateLimitStatus::Allowed
    }
}

/// The limiter's records as plain values.
pub ghost struct LimiterView {
    pub requests: Map<Seq<char>, Seq<u64>>,
    pub last_cleanup: u64,
}

/// Whether a sweep of the whole table is due at `now`.
pub open spec fn sweep_due(last_cleanup: u64, now: u64) -> bool {
    now - last_cleanup >= CLEANUP_INTERVAL_SECS
}

/// The table after a sweep at `now`: every record holds what still counts
/// of it, and the keys whose record is then empty are gone.
pub open spec fn swept(table: Map<Seq<char>, Seq<u64>>, now: u64) -> Map<Seq<char>, Seq<u64>> {
    Map::new(
        |k: Seq<char>| table.dom().contains(k) && in_window(table[k], now).len() > 0,
        |k: Seq<char>| in_window(table[k], now),
    )
}

/// The limiter after the sweep that a request at `now` may set off.
pub open spec fn after_cleanup(v: LimiterView, now: u64) -> LimiterView {
    if sweep_due(v.last_cleanup, now) {
        LimiterView { requests: swept(v.requests, now), last_cleanup: now }
    } else {
        v
    }
}

/// The requests of `ip` that count when it asks at `now`.
pub open spec fn counted(v: LimiterView, ip: Seq<char>, now: u64) -> Seq<u64> {
    in_window(record_of(after_cleanup(v, now).requests, ip), now)
}

/// The verdict on a request of `ip` at `now`.
pub open spec fn verdict(v: LimiterView, ip: Seq<char>, now: u64) -> RateLimitStatus {
    status_for(counted(v, ip, now).len())
}

/// The limiter after a request of `ip` at `now`: the record of `ip` holds
/// what still counts, and the request itself where it was let through.
pub open spec fn after_check(v: LimiterView, ip: Seq<char>, now: u64) -> LimiterView {
    let c = after_cleanup(v, now);
    let record = counted(v, ip, now);
    if verdict(v, ip, now) == RateLimitStatus::Allowed {
        LimiterView { requests: c.requests.insert(ip, record.push(now)), last_cleanup: c.last_cleanup }
    } else {
        LimiterView { requests: c.requests.insert(ip, record), last_cleanup: c.last_cleanup }
    }
}

/// The count that goes with the answer, namely the requests in the window,
/// the request itself included where it was let through.
pub open spec fn reported_count(v: LimiterView, ip: Seq<char>, now: u64) -> nat {
    if verdict(v, ip, now) == RateLimitStatus::Allowed {
        counted(v, ip, now).len() + 1
    } else {
        counted(v, ip, now).len()
    }
}

/// The entries of `record` that still count at `now`.
fn prune(record: &Vec<u64>, now: u64) -> (kept: Vec<u64>)
    ensures
        kept@ == in_window(record@, now),
{
    let mut kept: Vec<u64> = Vec::new();
    let mut i: usize = 0;
    proof {
        reveal(Seq::filter);
    }
    while i < record.len()
        invariant
            i <= record@.len(),
            kept@ == in_window(record@.take(i as int), now),
        decreases record@.len() - i,
    {
        let t = record[i];
        proof {
            reveal(Seq::filter);
            assert(record@.take(i + 1).drop_last() =~= record@.take(i as int));
        }
        if t > now || now - t < RATE_LIMIT_WINDOW {
            kept.push(t);
        }
        i = i + 1;
    }
    proof {
        assert(record@.take(i as int) =~= record@);
    }
    kept
}

/// Whether `k` is among the first `n` of `keys`.
pub open spec fn listed(keys: Seq<String>, n: int, k: Seq<char>) -> bool {
    exists|j: int| 0 <= j < n && #[trigger] keys[j]@ == k
}

/// A table in the middle of a sweep: the keys already visited are swept,
/// the others are as they were.
pub open spec fn partly_swept(
    table: Map<Seq<char>, Seq<u64>>,
    now: u64,
    keys: Seq<String>,
    n: int,
) -> Map<Seq<char>, Seq<u64>> {
    Map::new(
        |k: Seq<char>|
            table.dom().contains(k) && (listed(keys, n, k) ==> in_window(table[k], now).len() > 0),
        |k: Seq<char>|
            if listed(keys, n, k) {
                in_window(table[k], now)
            } else {
                table[k]
            },
    )
}

/// The sliding-window counters of all clients.
pub struct RateLimiter {
    requests: DashMap<String, Vec<u64>>,
    last_cleanup: u64,
}

impl View for RateLimiter {
    type V = LimiterView;

    closed spec fn view(&self) -> LimiterView {
        LimiterView { requests: stamps(self.requests), last_cleanup: self.last_cleanup }
    }
}

impl RateLimiter {
    /// A limiter without records.
    pub fn new() -> (l: Self)
        ensures
            l@ == (LimiterView { requests: no_stamps(), last_cleanup: 0 }),
    {
        Self { requests: stamp_table(), last_cleanup: 0 }
    }

    /// The requests recorded for `ip`.
    pub fn requests_of(&self, ip: &str) -> (r: Vec<u64>)
        ensures
            r@ == record_of(self@.requests, ip@),
    {
        match stamps_get(&self.requests, ip) {
            Some(v) => v,
            None => Vec::new(),
        }
    }

    /// Whether a record is kept for `ip`.
    pub fn tracks(&self, ip: &str) -> (r: bool)
        ensures
            r == self@.requests.dom().contains(ip@),
    {
        stamps_get(&self.requests, ip).is_some()
    }

    /// Sweeps the whole table where the last sweep is long enough ago.
    pub fn cleanup(&mut self, now: u64)
        ensures
            final(self)@ == after_cleanup(old(self)@, now),
    {
        if now < self.last_cleanup || now - self.last_cleanup < CLEANUP_INTERVAL_SECS {
            return ;
        }
        self.last_cleanup = now;
        let keys = stamps_keys(&self.requests);
        let ghost table = stamps(self.requests);
        let mut i: usize = 0;
        proof {
            assert(stamps(self.requests) =~= partly_swept(table, now, keys@, 0));
        }
        while i < keys.len()
            invariant
                i <= keys@.len(),
                self.last_cleanup == now,
                stamps(self.requests) == partly_swept(table, now, keys@, i as int),
                forall|j: int| 0 <= j < keys@.len() ==> table.dom().contains(#[trigger] keys@[j]@),
                forall|a: int, b: int|
                    0 <= a < b < keys@.len() ==> #[trigger] keys@[a]@ != #[trigger] keys@[b]@,
            decreases keys@.len() - i,
        {
            let key = keys[i].as_str();
            let ghost k = keys@[i as int]@;
            proof {
                assert(!listed(keys@, i as int, k));
                assert(listed(keys@, i + 1, k));
                assert forall|o: Seq<char>| o != k implies (listed(keys@, i + 1, o) <==> listed(
                    keys@,
                    i as int,
                    o,
                )) by {
                    if listed(keys@, i + 1, o) {
                        let j = choose|j: int| 0 <= j < i + 1 && #[trigger] keys@[j]@ == o;
                        assert(j < i);
                    }
                }
            }
            match stamps_get(&self.requests, key) {
                Some(before) => {
                    let kept = prune(&before, now);
                    if kept.len() == 0 {
                        stamps_remove(&mut self.requests, key);
                    } else {
                        stamps_insert(&mut self.requests, String::from_str(key), kept);
                    }
                },
                None => {},
            }
            proof {
                assert(stamps(self.requests) =~= partly_swept(table, now, keys@, i + 1));
            }
            i = i + 1;
        }
        proof {
            assert forall|o: Seq<char>| table.dom().contains(o) implies listed(
                keys@,
                keys@.len() as int,
                o,
            ) by {
                let j = choose|j: int| 0 <= j < keys@.len() && #[trigger] keys@[j]@ == o;
                assert(keys@[j]@ == o);
            }
            assert(partly_swept(table, now, keys@, keys@.len() as int) =~= swept(table, now));
        }
    }

    /// Judges a request of `ip` at `now`. The answer holds whether the
    /// request is let through, the number of requests then counted for
    /// `ip`, and the verdict.
    pub fn check_at(&mut self, ip: &str, now: u64) -> (r: (bool, usize, RateLimitStatus))
        ensures
            r.2 == verdict(old(self)@, ip@, now),
            r.0 == (r.2 == RateLimitStatus::Allowed),
            r.1 == reported_count(old(self)@, ip@, now),
            final(self)@ == after_check(old(self)@, ip@, now),
    {
        self.cleanup(now);
        let before = self.requests_of(ip);
        let mut record = prune(&before, now);
        let count = record.len();
        if count >= RATE_LIMIT_STRICT_MAX {
            stamps_insert(&mut self.requests, String::from_str(ip), record);
            return (false, count, RateLimitStatus::Blocked);
        }
        if count >= RATE_LIMIT_MAX_REQUESTS {
            stamps_insert(&mut self.requests, String::from_str(ip), record);
            return (false, count, RateLimitStatus::Limited);
        }
        record.push(now);
        stamps_insert(&mut self.requests, String::from_str(ip), record);
        (true, count + 1, RateLimitStatus::Allowed)
    }

    /// Judges a request of `ip` at the present moment.
    pub fn check(&mut self, ip: &str) -> (r: (bool, usize, RateLimitStatus))
        ensures
            exists|now: u64|
                {
                    &&& r.2 == #[trigger] verdict(old(self)@, ip@, now)
                    &&& r.0 == (r.2 == RateLimitStatus::Allowed)
                    &&& r.1 == reported_count(old(self)@, ip@, now)
                    &&& final(self)@ == after_check(old(self)@, ip@, now)
                },
    {
        let now = current_timestamp();
        self.check_at(ip, now)
    }
}

/// A filter changes nothing where every entry passes it.
pub proof fn lemma_filter_all<A>(s: Seq<A>, pred: spec_fn(A) -> bool)
    requires
        forall|i: int| 0 <= i < s.len() ==> pred(#[trigger] s[i]),
    ensures
        s.filter(pred) == s,
    decreases s.len(),
{
    reveal(Seq::filter);
    if s.len() > 0 {
        lemma_filter_all(s.drop_last(), pred);
        assert(s.drop_last().push(s.last()) =~= s);
    }
}

/// A filter leaves nothing where no entry passes it.
pub proof fn lemma_filter_none<A>(s: Seq<A>, pred: spec_fn(A) -> bool)
    requires
        forall|i: int| 0 <= i < s.len() ==> !pred(#[trigger] s[i]),
    ensures
        s.filter(pred) == Seq::<A>::empty(),
    decreases s.len(),
{
    reveal(Seq::filter);
    if s.len() > 0 {
        lemma_filter_none(s.drop_last(), pred);
    }
}

/// Filtering a second time changes nothing.
pub proof fn lemma_filter_twice<A>(s: Seq<A>, pred: spec_fn(A) -> bool)
    ensures
        s.filter(pred).filter(pred) == s.filter(pred),
    decreases s.len(),
{
    reveal(Seq::filter);
    if s.len() > 0 {
        lemma_filter_twice(s.drop_last(), pred);
        let sub = s.drop_last().filter(pred);
        if pred(s.last()) {
            assert(sub.push(s.last()).drop_last() =~= sub);
        }
    }
}

/// The sweep does not change what counts for a client: the requests
/// counted at `now` are those of its record that fall in the window.
pub proof fn lemma_counted(v: LimiterView, ip: Seq<char>, now: u64)
    ensures
        counted(v, ip, now) == in_window(record_of(v.requests, ip), now),
{
    let pred = |t: u64| counts_in_window(t, now);
    let record = record_of(v.requests, ip);
    if sweep_due(v.last_cleanup, now) {
        lemma_filter_twice(record, pred);
        if !swept(v.requests, now).dom().contains(ip) {
            reveal(Seq::filter);
            if v.requests.dom().contains(ip) {
                assert(in_window(record, now) =~= Seq::<u64>::empty());
            }
            assert(in_window(Seq::<u64>::empty(), now) =~= Seq::<u64>::empty());
        }
    }
}

/// The limiter after requests of `ip` at each of `times`, in order.
pub open spec fn after_checks(v: LimiterView, ip: Seq<char>, times: Seq<u64>) -> LimiterView
    decreases times.len(),
{
    if times.len() == 0 {
        v
    } else {
        after_check(after_checks(v, ip, times.drop_last()), ip, times.last())
    }
}

/// The times are in order and less than one window apart from first to
/// last.
pub open spec fn in_one_window(times: Seq<u64>) -> bool {
    &&& forall|i: int, j: int| 0 <= i <= j < times.len() ==> times[i] <= times[j]
    &&& times.len() > 0 ==> times.last() - times[0] < RATE_LIMIT_WINDOW
}

proof fn lemma_checks_record(v: LimiterView, ip: Seq<char>, times: Seq<u64>, k: int)
    requires
        in_one_window(times),
        record_of(v.requests, ip) == Seq::<u64>::empty(),
        0 <= k <= times.len(),
    ensures
        record_of(after_checks(v, ip, times.take(k)).requests, ip) == times.take(
            if k < RATE_LIMIT_MAX_REQUESTS {
                k
            } else {
                RATE_LIMIT_MAX_REQUESTS as int
            },
        ),
        k < times.len() ==> verdict(after_checks(v, ip, times.take(k)), ip, times[k]) == (if k
            < RATE_LIMIT_MAX_REQUESTS {
            RateLimitStatus::Allowed
        } else {
            RateLimitStatus::Limited
        }),
    decreases k,
{
    let m: int = if k < RATE_LIMIT_MAX_REQUESTS {
        k
    } else {
        RATE_LIMIT_MAX_REQUESTS as int
    };
    if k == 0 {
        assert(times.take(0) =~= Seq::<u64>::empty());
    } else {
        lemma_checks_record(v, ip, times, k - 1);
        let before = after_checks(v, ip, times.take(k - 1));
        assert(times.take(k).drop_last() =~= times.take(k - 1));
        assert(times.take(k).last() == times[k - 1]);
        assert(after_checks(v, ip, times.take(k)) == after_check(before, ip, times[k - 1]));
        lemma_counted(before, ip, times[k - 1]);
        let pm: int = if k - 1 < RATE_LIMIT_MAX_REQUESTS {
            k - 1
        } else {
            RATE_LIMIT_MAX_REQUESTS as int
        };
        lemma_filter_all(times.take(pm), |t: u64| counts_in_window(t, times[k - 1]));
        if k - 1 < RATE_LIMIT_MAX_REQUESTS {
            assert(times.take(k - 1).push(times[k - 1]) =~= times.take(k));
        }
    }
    if k < times.len() {
        let state = after_checks(v, ip, times.take(k));
        lemma_counted(state, ip, times[k]);
        lemma_filter_all(times.take(m), |t: u64| counts_in_window(t, times[k]));
    }
}

/// Of the requests that one client, not yet on record, makes within one
/// window, the first sixty are let through and every later one is refused
/// as over the limit: a refused request is not recorded, so the count of
/// such a client stays at sixty for as long as the window lasts.
pub proof fn lemma_window_verdicts(v: LimiterView, ip: Seq<char>, times: Seq<u64>, k: int)
    requires
        in_one_window(times),
        record_of(v.requests, ip) == Seq::<u64>::empty(),
        0 <= k < times.len(),
    ensures
        verdict(after_checks(v, ip, times.take(k)), ip, times[k]) == (if k < RATE_LIMIT_MAX_REQUESTS {
            RateLimitStatus::Allowed
        } else {
            RateLimitStatus::Limited
        }),
{
    lemma_checks_record(v, ip, times, k);
}

/// Once every request on a client's record has left the window, its next
/// request is let through and is the only one counted.
pub proof fn lemma_aged_out(v: LimiterView, ip: Seq<char>, now: u64)
    requires
        forall|i: int|
            0 <= i < record_of(v.requests, ip).len() ==> !counts_in_window(
                #[trigger] record_of(v.requests, ip)[i],
                now,
            ),
    ensures
        verdict(v, ip, now) == RateLimitStatus::Allowed,
        reported_count(v, ip, now) == 1,
        record_of(after_check(v, ip, now).requests, ip) == seq![now],
{
    lemma_counted(v, ip, now);
    lemma_filter_none(record_of(v.requests, ip), |t: u64| counts_in_window(t, now));
    assert(Seq::<u64>::empty().push(now) =~= seq![now]);
}

/// A client is banned on request exactly when a hundred and twenty
/// requests of its record fall in the window.
pub proof fn lemma_blocked_iff(v: LimiterView, ip: Seq<char>, now: u64)
    ensures
        verdict(v, ip, now) == RateLimitStatus::Blocked <==> in_window(
            record_of(v.requests, ip),
            now,
        ).len() >= RATE_LIMIT_STRICT_MAX,
{
    lemma_counted(v, ip, now);
}

/// A request leaves no more than sixty entries on a record that held no
/// more before, and such a record never brings a ban: requests that are
/// refused are not recorded, so no number of them adds up to one.
pub proof fn lemma_record_stays_bounded(v: LimiterView, ip: Seq<char>, now: u64)
    requires
        record_of(v.requests, ip).len() <= RATE_LIMIT_MAX_REQUESTS,
    ensures
        verdict(v, ip, now) != RateLimitStatus::Blocked,
        record_of(after_check(v, ip, now).requests, ip).len() <= RATE_LIMIT_MAX_REQUESTS,
{
    lemma_counted(v, ip, now);
    record_of(v.requests, ip).lemma_filter_len(|t: u64| counts_in_window(t, now));
}

} // verus!
