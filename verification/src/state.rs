//! The board: both histories, the monthly limit, the snapshot cache, and
//! the records of the screening rules.

use vstd::prelude::*;
use vstd::string::*;
use bytes::Bytes;
use core::time::Duration;
use std::time::Instant;
use tokio::sync::broadcast::Receiver;
use crate::config::{
    DEFAULT_LIMIT, MAX_CONNECTIONS, MAX_HISTORY, MAX_LIMIT, MAX_SHOWN_UPDATES, MAX_USD_HISTORY,
    MIN_LIMIT, STATE_CACHE_TTL_MS,
};
use crate::entry::{gold_views, usd_views, GoldEntry, GoldEntryView, UsdIdrEntry, UsdIdrEntryView};
use crate::guard::{
    after_attempt, after_ban, after_query, banned_at, record_of, AbuseGuard, GuardView,
};
use crate::history::RollingHistory;
use crate::json::{bytes_clone, bytes_of};
use crate::rate_limiter::{LimiterView, RateLimiter};
use crate::snapshot::{build_full_state_fast, is_snapshot_of};
use crate::tables::{no_expiries, no_stamps};
use crate::utils::ProfitFigures;
use crate::ws_manager::WsManager;

verus! {

#[verifier::external_type_specification]
#[verifier::external_body]
pub struct ExInstant(Instant);

/// `Instant::now` reads the monotonic clock.
#[verifier::external_body]
fn clock_reading() -> Instant {
    Instant::now()
}

/// `Instant::elapsed` gives the time that has passed since the reading.
#[verifier::external_body]
fn elapsed_since(start: &Instant) -> Duration {
    start.elapsed()
}

/// A built snapshot: its bytes, the version of the board it was built for,
/// and the millisecond, on the board's own clock, at which it was built.
pub struct CachedState {
    pub data: Bytes,
    pub version: u64,
    pub created_at: u64,
}

/// A built snapshot as a plain value.
pub ghost struct CacheView {
    pub data: Seq<u8>,
    pub version: u64,
    pub created_at: u64,
}

impl View for CachedState {
    type V = CacheView;

    open spec fn view(&self) -> CacheView {
        CacheView { data: bytes_of(self.data), version: self.version, created_at: self.created_at }
    }
}

/// The board as a plain value.
pub ghost struct AppView {
    pub history: Seq<GoldEntryView>,
    pub usd_idr_history: Seq<UsdIdrEntryView>,
    pub last_buy: Option<i64>,
    pub shown_updates: Seq<Seq<char>>,
    pub limit_bulan: i64,
    pub connections: nat,
    pub limiter: LimiterView,
    pub guard: GuardView,
    pub last_successful_call: u64,
    pub cache: CacheView,
    pub cache_version: u64,
}

/// Whether the cached snapshot may be served at `now_ms`: it was built for
/// the present version, less than the time to live ago.
pub open spec fn cache_fresh(v: AppView, now_ms: u64) -> bool {
    v.cache.version == v.cache_version && now_ms - v.cache.created_at < STATE_CACHE_TTL_MS
}

/// The bytes served at `now_ms`, where `built` is what a rebuild gives.
pub open spec fn served(v: AppView, now_ms: u64, built: Seq<u8>) -> Seq<u8> {
    if cache_fresh(v, now_ms) {
        v.cache.data
    } else {
        built
    }
}

/// The board after a snapshot was asked for at `now_ms`: unchanged where
/// the cache was fresh; else the cache holds `built`, stamped with the
/// present version and `now_ms`.
pub open spec fn after_get(v: AppView, now_ms: u64, built: Seq<u8>) -> AppView {
    if cache_fresh(v, now_ms) {
        v
    } else {
        AppView {
            cache: CacheView { data: built, version: v.cache_version, created_at: now_ms },
            ..v
        }
    }
}

/// The version after `version`; the counter starts over after the last
/// number.
pub open spec fn next_version(version: u64) -> u64 {
    if version == u64::MAX {
        0
    } else {
        (version + 1) as u64
    }
}

/// The board after its cache was invalidated: the version has moved on,
/// and the cached snapshot is stamped with a version other than the new one.
pub open spec fn after_invalidate(v: AppView) -> AppView {
    AppView {
        cache_version: next_version(v.cache_version),
        cache: if v.cache.version == next_version(v.cache_version) {
            CacheView { version: v.cache_version, ..v.cache }
        } else {
            v.cache
        },
        ..v
    }
}

/// The board with its guard replaced.
pub open spec fn with_guard(v: AppView, guard: GuardView) -> AppView {
    AppView { guard, ..v }
}

/// Whether no text occurs twice.
pub open spec fn distinct(s: Seq<Seq<char>>) -> bool {
    forall|i: int, j: int| 0 <= i < j < s.len() ==> s[i] != s[j]
}

/// The texts of a run of strings.
pub open spec fn texts(s: Seq<String>) -> Seq<Seq<char>> {
    s.map_values(|t: String| t@)
}

/// The board. `F` is the arithmetic behind the profit estimates.
pub struct AppState<F> {
    pub(crate) history: RollingHistory<GoldEntry>,
    pub(crate) usd_idr_history: RollingHistory<UsdIdrEntry>,
    pub(crate) last_buy: i64,
    pub(crate) has_last_buy: bool,
    pub(crate) shown_updates: Vec<String>,
    pub(crate) limit_bulan: i64,
    pub(crate) ws_manager: WsManager,
    pub(crate) rate_limiter: RateLimiter,
    pub(crate) guard: AbuseGuard,
    pub(crate) last_successful_call: u64,
    pub(crate) state_cache: CachedState,
    pub(crate) cache_version: u64,
    pub(crate) started: Instant,
    pub(crate) estimate: F,
}

impl<F: Fn(i64, i64, i64, i64) -> ProfitFigures> AppState<F> {
    /// The board as a plain value.
    pub open(crate) spec fn view(&self) -> AppView {
        AppView {
            history: gold_views(self.history@),
            usd_idr_history: usd_views(self.usd_idr_history@),
            last_buy: if self.has_last_buy {
                Some(self.last_buy)
            } else {
                None
            },
            shown_updates: texts(self.shown_updates@),
            limit_bulan: self.limit_bulan,
            connections: self.ws_manager.connections(),
            limiter: self.rate_limiter@,
            guard: self.guard@,
            last_successful_call: self.last_successful_call,
            cache: self.state_cache@,
            cache_version: self.cache_version,
        }
    }

    /// The arithmetic behind the profit estimates.
    pub open(crate) spec fn estimator(&self) -> F {
        self.estimate
    }

    /// What holds of every board: the histories keep to their capacities,
    /// the limit to its bounds, the subscribers to their number; no update
    /// key is remembered twice; the estimate can be asked of any numbers;
    /// and a cached snapshot that is stamped with the present version is a
    /// snapshot of the present state.
    pub open(crate) spec fn wf(&self) -> bool {
        &&& self.history.wf()
        &&& self.history.cap() == MAX_HISTORY
        &&& self.usd_idr_history.wf()
        &&& self.usd_idr_history.cap() == MAX_USD_HISTORY
        &&& self.ws_manager.wf()
        &&& MIN_LIMIT <= self.limit_bulan <= MAX_LIMIT
        &&& self.shown_updates@.len() <= MAX_SHOWN_UPDATES
        &&& distinct(texts(self.shown_updates@))
        &&& forall|a: i64, b: i64, c: i64, d: i64| self.estimate.requires((a, b, c, d))
        &&& self.state_cache.version == self.cache_version ==> is_snapshot_of(
            &self.estimate,
            gold_views(self.history@),
            usd_views(self.usd_idr_history@),
            self.limit_bulan as int,
            bytes_of(self.state_cache.data),
        )
    }

    /// The board is well-formed and works with the same arithmetic as
    /// `before`.
    pub open spec fn follows(&self, before: &Self) -> bool {
        self.wf() && self.estimator() == before.estimator()
    }

    /// What well-formedness means for the plain value.
    pub proof fn lemma_wf(&self)
        requires
            self.wf(),
        ensures
            self@.history.len() <= MAX_HISTORY,
            self@.usd_idr_history.len() <= MAX_USD_HISTORY,
            self@.connections <= MAX_CONNECTIONS,
            MIN_LIMIT <= self@.limit_bulan <= MAX_LIMIT,
            self@.shown_updates.len() <= MAX_SHOWN_UPDATES,
            distinct(self@.shown_updates),
            self@.cache.version == self@.cache_version ==> is_snapshot_of(
                &self.estimator(),
                self@.history,
                self@.usd_idr_history,
                self@.limit_bulan as int,
                self@.cache.data,
            ),
    {
        self.history.lemma_wf();
        self.usd_idr_history.lemma_wf();
    }

    /// An empty board with the default limit, no subscriber and no record.
    /// Its cache holds the snapshot of the empty board.
    pub fn new(estimate: F) -> (s: Self)
        requires
            forall|a: i64, b: i64, c: i64, d: i64| estimate.requires((a, b, c, d)),
        ensures
            s.wf(),
            s.estimator() == estimate,
            s@.history == Seq::<GoldEntryView>::empty(),
            s@.usd_idr_history == Seq::<UsdIdrEntryView>::empty(),
            s@.last_buy is None,
            s@.shown_updates == Seq::<Seq<char>>::empty(),
            s@.limit_bulan == DEFAULT_LIMIT,
            s@.connections == 0,
            s@.limiter == (LimiterView { requests: no_stamps(), last_cleanup: 0 }),
            s@.guard == (GuardView { bans: no_expiries(), attempts: no_stamps() }),
            s@.last_successful_call == 0,
            s@.cache_version == 0,
            s@.cache.version == 0,
            s@.cache.created_at == 0,
    {
        let history = RollingHistory::new(MAX_HISTORY);
        let usd_idr_history = RollingHistory::new(MAX_USD_HISTORY);
        let data = build_full_state_fast(&estimate, &history, &usd_idr_history, DEFAULT_LIMIT);
        let s = Self {
            history,
            usd_idr_history,
            last_buy: 0,
            has_last_buy: false,
            shown_updates: Vec::new(),
            limit_bulan: DEFAULT_LIMIT,
            ws_manager: WsManager::new(),
            rate_limiter: RateLimiter::new(),
            guard: AbuseGuard::new(),
            last_successful_call: 0,
            state_cache: CachedState { data, version: 0, created_at: 0 },
            cache_version: 0,
            started: clock_reading(),
            estimate,
        };
        proof {
            assert(s@.history =~= Seq::<GoldEntryView>::empty());
            assert(s@.usd_idr_history =~= Seq::<UsdIdrEntryView>::empty());
            assert(s@.shown_updates =~= Seq::<Seq<char>>::empty());
        }
        s
    }

    /// The stored price updates, oldest first.
    pub fn history(&self) -> (h: &RollingHistory<GoldEntry>)
        ensures
            gold_views(h@) == self@.history,
    {
        &self.history
    }

    /// The stored exchange-rate readings, oldest first.
    pub fn usd_idr_history(&self) -> (h: &RollingHistory<UsdIdrEntry>)
        ensures
            usd_views(h@) == self@.usd_idr_history,
    {
        &self.usd_idr_history
    }

    /// The monthly limit.
    pub fn limit_bulan(&self) -> (limit: i64)
        ensures
            limit == self@.limit_bulan,
    {
        self.limit_bulan
    }

    /// The version of the board: it moves on with every change.
    pub fn version(&self) -> (version: u64)
        ensures
            version == self@.cache_version,
    {
        self.cache_version
    }

    /// The second of the last accepted change of the limit.
    pub fn last_successful_call(&self) -> (t: u64)
        ensures
            t == self@.last_successful_call,
    {
        self.last_successful_call
    }

    /// The buying rate of the last accepted update.
    pub fn last_buy(&self) -> (r: Option<i64>)
        ensures
            r == self@.last_buy,
    {
        if self.has_last_buy {
            Some(self.last_buy)
        } else {
            None
        }
    }

    /// The second at which the ban on `ip` ends, if one is recorded.
    pub fn ban_expiry(&self, ip: &str) -> (r: Option<u64>)
        ensures
            r == (if self@.guard.bans.dom().contains(ip@) {
                Some(self@.guard.bans[ip@])
            } else {
                None
            }),
    {
        self.guard.ban_expiry(ip)
    }

    /// The failed attempts recorded for `ip`.
    pub fn failed_attempts_of(&self, ip: &str) -> (r: Vec<u64>)
        ensures
            r@ == record_of(self@.guard.attempts, ip@),
    {
        self.guard.attempts_of(ip)
    }

    /// The requests that the rate limiter has recorded for `ip`.
    pub fn requests_of(&self, ip: &str) -> (r: Vec<u64>)
        ensures
            r@ == record_of(self@.limiter.requests, ip@),
    {
        self.rate_limiter.requests_of(ip)
    }

    /// Milliseconds on the board's own clock, which started with the board.
    pub fn clock_millis(&self) -> u64 {
        let d = elapsed_since(&self.started);
        clamp_millis(d.as_millis())
    }

    /// Marks the cached snapshot as out of date.
    pub fn invalidate_cache(&mut self)
        requires
            old(self).wf(),
        ensures
            final(self).follows(old(self)),
            final(self)@ == after_invalidate(old(self)@),
    {
        let before = self.cache_version;
        self.cache_version = if before == u64::MAX {
            0
        } else {
            before + 1
        };
        if self.state_cache.version == self.cache_version {
            self.state_cache.version = before;
        }
    }

    /// The cached snapshot, where it may be served at millisecond `now_ms`
    /// of the board's clock. The board is only read.
    pub fn cached_state_at(&self, now_ms: u64) -> (doc: Option<Bytes>)
        requires
            self.wf(),
        ensures
            doc is Some == cache_fresh(self@, now_ms),
            doc is Some ==> bytes_of(doc->0) == self@.cache.data,
            doc is Some ==> is_snapshot_of(
                &self.estimator(),
                self@.history,
                self@.usd_idr_history,
                self@.limit_bulan as int,
                bytes_of(doc->0),
            ),
    {
        if self.state_cache.version == self.cache_version && (now_ms < self.state_cache.created_at
            || now_ms - self.state_cache.created_at < STATE_CACHE_TTL_MS) {
            Some(bytes_clone(&self.state_cache.data))
        } else {
            None
        }
    }

    /// The cached snapshot, where it may be served at the present moment.
    pub fn cached_state(&self) -> (doc: Option<Bytes>)
        requires
            self.wf(),
        ensures
            exists|now_ms: u64| doc is Some == #[trigger] cache_fresh(self@, now_ms),
            doc is Some ==> bytes_of(doc->0) == self@.cache.data,
            doc is Some ==> is_snapshot_of(
                &self.estimator(),
                self@.history,
                self@.usd_idr_history,
                self@.limit_bulan as int,
                bytes_of(doc->0),
            ),
    {
        let now_ms = self.clock_millis();
        self.cached_state_at(now_ms)
    }

    /// The snapshot of the board at millisecond `now_ms` of its clock: the
    /// cached one where it is fresh, a newly built one otherwise, which is
    /// then cached.
    pub fn get_cached_state_at(&mut self, now_ms: u64) -> (doc: Bytes)
        requires
            old(self).wf(),
        ensures
            final(self).follows(old(self)),
            final(self)@ == after_get(old(self)@, now_ms, bytes_of(doc)),
            bytes_of(doc) == served(old(self)@, now_ms, bytes_of(doc)),
            bytes_of(doc) == final(self)@.cache.data,
            is_snapshot_of(
                &old(self).estimator(),
                old(self)@.history,
                old(self)@.usd_idr_history,
                old(self)@.limit_bulan as int,
                bytes_of(doc),
            ),
    {
        let ver = self.cache_version;
        match self.cached_state_at(now_ms) {
            Some(doc) => {
                return doc;
            },
            None => {},
        }
        let data = build_full_state_fast(
            &self.estimate,
            &self.history,
            &self.usd_idr_history,
            self.limit_bulan,
        );
        let doc = bytes_clone(&data);
        self.state_cache = CachedState { data, version: ver, created_at: now_ms };
        doc
    }

    /// The snapshot of the board at the present moment.
    pub fn get_cached_state(&mut self) -> (doc: Bytes)
        requires
            old(self).wf(),
        ensures
            final(self).follows(old(self)),
            exists|now_ms: u64| final(self)@ == #[trigger] after_get(old(self)@, now_ms, bytes_of(doc)),
            bytes_of(doc) == final(self)@.cache.data,
            is_snapshot_of(
                &old(self).estimator(),
                old(self)@.history,
                old(self)@.usd_idr_history,
                old(self)@.limit_bulan as int,
                bytes_of(doc),
            ),
    {
        let now_ms = self.clock_millis();
        self.get_cached_state_at(now_ms)
    }

    /// Whether `ip` is banned at second `now`; a ban that has run out is
    /// forgotten, with the failed attempts of `ip`.
    pub fn is_ip_blocked_at(&mut self, ip: &str, now: u64) -> (blocked: bool)
        requires
            old(self).wf(),
        ensures
            final(self).follows(old(self)),
            blocked == banned_at(old(self)@.guard.bans, ip@, now),
            final(self)@ == with_guard(old(self)@, after_query(old(self)@.guard, ip@, now)),
    {
        self.guard.is_blocked_at(ip, now)
    }

    /// Bans `ip` from second `now` for `duration` seconds.
    pub fn block_ip_at(&mut self, ip: &str, duration: u64, now: u64)
        requires
            old(self).wf(),
        ensures
            final(self).follows(old(self)),
            final(self)@ == with_guard(old(self)@, after_ban(old(self)@.guard, ip@, duration, now)),
    {
        self.guard.block_ip_at(ip, duration, now);
    }

    /// Records a failed attempt of `ip` at second `now`.
    pub fn record_failed_attempt_at(&mut self, ip: &str, weight: usize, now: u64)
        requires
            old(self).wf(),
        ensures
            final(self).follows(old(self)),
            final(self)@ == with_guard(
                old(self)@,
                after_attempt(old(self)@.guard, ip@, weight as nat, now),
            ),
    {
        self.guard.record_failed_attempt_at(ip, weight, now);
    }

    /// Whether `ip` is banned at the present moment.
    pub fn is_ip_blocked(&mut self, ip: &str) -> (blocked: bool)
        requires
            old(self).wf(),
        ensures
            final(self).follows(old(self)),
            exists|now: u64|
                blocked == banned_at(old(self)@.guard.bans, ip@, now) && final(self)@ == with_guard(
                    old(self)@,
                    #[trigger] after_query(old(self)@.guard, ip@, now),
                ),
    {
        let now = crate::utils::current_timestamp();
        self.is_ip_blocked_at(ip, now)
    }

    /// Bans `ip` from the present moment for `duration` seconds.
    pub fn block_ip(&mut self, ip: &str, duration: u64)
        requires
            old(self).wf(),
        ensures
            final(self).follows(old(self)),
            exists|now: u64|
                final(self)@ == with_guard(
                    old(self)@,
                    #[trigger] after_ban(old(self)@.guard, ip@, duration, now),
                ),
    {
        let now = crate::utils::current_timestamp();
        self.block_ip_at(ip, duration, now);
    }

    /// Records a failed attempt of `ip` at the present moment.
    pub fn record_failed_attempt(&mut self, ip: &str, weight: usize)
        requires
            old(self).wf(),
        ensures
            final(self).follows(old(self)),
            exists|now: u64|
                final(self)@ == with_guard(
                    old(self)@,
                    #[trigger] after_attempt(old(self)@.guard, ip@, weight as nat, now),
                ),
    {
        let now = crate::utils::current_timestamp();
        self.record_failed_attempt_at(ip, weight, now);
    }

    /// The number of admitted subscribers.
    pub fn connection_count(&self) -> (n: usize)
        ensures
            n == self@.connections,
    {
        self.ws_manager.count()
    }

    /// Admits a subscriber, unless the limit is reached.
    pub fn subscribe(&mut self) -> (r: Option<Receiver<Bytes>>)
        requires
            old(self).wf(),
        ensures
            final(self).follows(old(self)),
            r is Some <==> old(self)@.connections < MAX_CONNECTIONS,
            final(self)@ == (AppView {
                connections: if r is Some {
                    old(self)@.connections + 1
                } else {
                    old(self)@.connections
                },
                ..old(self)@
            }),
    {
        self.ws_manager.subscribe()
    }

    /// Lets one admitted subscriber go.
    pub fn unsubscribe(&mut self)
        requires
            old(self).wf(),
            old(self)@.connections > 0,
        ensures
            final(self).follows(old(self)),
            final(self)@ == (AppView {
                connections: (old(self)@.connections - 1) as nat,
                ..old(self)@
            }),
    {
        self.ws_manager.unsubscribe();
    }

    /// Sends a message to every subscriber.
    pub fn broadcast(&self, data: Bytes) {
        self.ws_manager.broadcast(data);
    }

    /// One beat of the heart: a ping goes out where there is a subscriber.
    pub fn heartbeat(&self) -> (sent: bool)
        ensures
            sent == (self@.connections > 0),
    {
        self.ws_manager.heartbeat()
    }
}

/// While the cached snapshot is fresh it is served as it is, without a
/// rebuild: the bytes are those of the cache, and the board does not change.
pub proof fn lemma_fresh_cache_is_served(v: AppView, now_ms: u64, built: Seq<u8>)
    requires
        cache_fresh(v, now_ms),
    ensures
        served(v, now_ms, built) == v.cache.data,
        after_get(v, now_ms, built) == v,
{
}

/// Of two requests for the snapshot with no change of the board between
/// them, the second, where it comes within the time to live of what the
/// first served, is given the same bytes, and nothing is built for it.
pub proof fn lemma_repeated_get(
    v: AppView,
    first_ms: u64,
    first_built: Seq<u8>,
    second_ms: u64,
    second_built: Seq<u8>,
)
    requires
        second_ms - after_get(v, first_ms, first_built).cache.created_at < STATE_CACHE_TTL_MS,
    ensures
        served(after_get(v, first_ms, first_built), second_ms, second_built) == served(
            v,
            first_ms,
            first_built,
        ),
        after_get(after_get(v, first_ms, first_built), second_ms, second_built) == after_get(
            v,
            first_ms,
            first_built,
        ),
{
}

/// Once the cache is invalidated, the cached snapshot is fresh at no
/// moment: the next request for the snapshot is given a newly built one,
/// which is then the cached one, stamped with the new version.
pub proof fn lemma_invalidate_forces_rebuild(v: AppView, now_ms: u64, built: Seq<u8>)
    ensures
        !cache_fresh(after_invalidate(v), now_ms),
        served(after_invalidate(v), now_ms, built) == built,
        after_get(after_invalidate(v), now_ms, built).cache == (CacheView {
            data: built,
            version: next_version(v.cache_version),
            created_at: now_ms,
        }),
        cache_fresh(after_get(after_invalidate(v), now_ms, built), now_ms),
{
}

/// A count of milliseconds as a 64-bit number: the count itself where it
/// fits, the largest number otherwise.
pub fn clamp_millis(millis: u128) -> (r: u64)
    ensures
        r == (if millis > u64::MAX {
            u64::MAX
        } else {
            millis as u64
        }),
{
    if millis > 0xffff_ffff_ffff_ffff {
        u64::MAX
    } else {
        millis as u64
    }
}

} // verus!
