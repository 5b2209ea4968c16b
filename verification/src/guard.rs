//! Bans and the failed attempts that lead to them.

use vstd::prelude::*;
use vstd::string::*;
use dashmap::DashMap;
use crate::config::{BLOCK_DURATION_SECS, FAILED_ATTEMPT_WINDOW, MAX_FAILED_ATTEMPTS};
use crate::tables::{
    expiries, expiry_get, expiry_insert, expiry_remove, expiry_table, no_expiries, no_stamps,
    stamp_table_with_capacity, stamps, stamps_get, stamps_insert, stamps_remove,
};
use crate::utils::current_timestamp;

verus! {

/// The second at which a ban set at `now` for `duration` seconds ends; the
/// last second that can be told where the sum cannot.
pub open spec fn ban_end(now: u64, duration: u64) -> u64 {
    if now + duration > u64::MAX {
        u64::MAX
    } else {
        (now + duration) as u64
    }
}

/// Whether an attempt at `t` still counts at `now`.
pub open spec fn counts_at(t: u64, now: u64) -> bool {
    now - t < FAILED_ATTEMPT_WINDOW
}

/// The attempts of a record that still count at `now`.
pub open spec fn recent(record: Seq<u64>, now: u64) -> Seq<u64> {
    record.filter(|t: u64| counts_at(t, now))
}

/// A record after a failed attempt of the given weight at `now`: what still
/// counts of it, and after that `weight` entries for the new attempt.
pub open spec fn with_attempt(record: Seq<u64>, now: u64, weight: nat) -> Seq<u64> {
    recent(record, now) + Seq::new(weight, |i: int| now)
}

/// The record kept for `ip`, empty where none is kept.
pub open spec fn record_of(table: Map<Seq<char>, Seq<u64>>, ip: Seq<char>) -> Seq<u64> {
    if table.dom().contains(ip) {
        table[ip]
    } else {
        Seq::empty()
    }
}

/// Whether `ip` is banned at `now`.
pub open spec fn banned_at(bans: Map<Seq<char>, u64>, ip: Seq<char>, now: u64) -> bool {
    bans.dom().contains(ip) && now < bans[ip]
}

/// Whether a ban on `ip` has run out at `now`.
pub open spec fn ban_expired(bans: Map<Seq<char>, u64>, ip: Seq<char>, now: u64) -> bool {
    bans.dom().contains(ip) && now >= bans[ip]
}

/// The bans and failed attempts as plain values.
pub ghost struct GuardView {
    pub bans: Map<Seq<char>, u64>,
    pub attempts: Map<Seq<char>, Seq<u64>>,
}

/// The guard after `ip` was asked about at `now`: a ban that has run out is
/// forgotten together with the failed attempts of `ip`.
pub open spec fn after_query(g: GuardView, ip: Seq<char>, now: u64) -> GuardView {
    if ban_expired(g.bans, ip, now) {
        GuardView { bans: g.bans.remove(ip), attempts: g.attempts.remove(ip) }
    } else {
        g
    }
}

/// The guard after `ip` was banned at `now` for `duration` seconds.
pub open spec fn after_ban(g: GuardView, ip: Seq<char>, duration: u64, now: u64) -> GuardView {
    GuardView { bans: g.bans.insert(ip, ban_end(now, duration)), attempts: g.attempts }
}

/// The guard after a failed attempt of `ip` at `now`: the attempt is
/// recorded, and where the record then holds the number of entries that
/// brings a ban, `ip` is banned for the standard duration.
pub open spec fn after_attempt(g: GuardView, ip: Seq<char>, weight: nat, now: u64) -> GuardView {
    let record = with_attempt(record_of(g.attempts, ip), now, weight);
    let attempts = g.attempts.insert(ip, record);
    if record.len() >= MAX_FAILED_ATTEMPTS {
        GuardView { bans: g.bans.insert(ip, ban_end(now, BLOCK_DURATION_SECS)), attempts }
    } else {
        GuardView { bans: g.bans, attempts }
    }
}

/// The entries of `record` that still count at `now`.
fn prune(record: &Vec<u64>, now: u64) -> (kept: Vec<u64>)
    ensures
        kept@ == recent(record@, now),
{
    let mut kept: Vec<u64> = Vec::new();
    let mut i: usize = 0;
    proof {
        reveal(Seq::filter);
    }
    while i < record.len()
        invariant
            i <= record@.len(),
            kept@ == recent(record@.take(i as int), now),
        decreases record@.len() - i,
    {
        let t = record[i];
        proof {
            reveal(Seq::filter);
            assert(record@.take(i + 1).drop_last() =~= record@.take(i as int));
        }
        if t > now || now - t < FAILED_ATTEMPT_WINDOW {
            kept.push(t);
        }
        i = i + 1;
    }
    proof {
        assert(record@.take(i as int) =~= record@);
    }
    kept
}

/// The table of bans and the table of failed attempts.
pub struct AbuseGuard {
    blocked_ips: DashMap<String, u64>,
    failed_attempts: DashMap<String, Vec<u64>>,
}

impl View for AbuseGuard {
    type V = GuardView;

    closed spec fn view(&self) -> GuardView {
        GuardView { bans: expiries(self.blocked_ips), attempts: stamps(self.failed_attempts) }
    }
}

impl AbuseGuard {
    /// A guard that knows of no ban and no failed attempt.
    pub fn new() -> (g: Self)
        ensures
            g@ == (GuardView { bans: no_expiries(), attempts: no_stamps() }),
    {
        Self { blocked_ips: expiry_table(32), failed_attempts: stamp_table_with_capacity(32) }
    }

    /// The second at which the ban on `ip` ends, if one is recorded.
    pub fn ban_expiry(&self, ip: &str) -> (r: Option<u64>)
        ensures
            r == (if self@.bans.dom().contains(ip@) {
                Some(self@.bans[ip@])
            } else {
                None
            }),
    {
        expiry_get(&self.blocked_ips, ip)
    }

    /// The failed attempts recorded for `ip`.
    pub fn attempts_of(&self, ip: &str) -> (r: Vec<u64>)
        ensures
            r@ == record_of(self@.attempts, ip@),
    {
        match stamps_get(&self.failed_attempts, ip) {
            Some(v) => v,
            None => Vec::new(),
        }
    }

    /// Whether `ip` is banned at `now`. A ban that has run out is removed,
    /// and the failed attempts of `ip` with it.
    pub fn is_blocked_at(&mut self, ip: &str, now: u64) -> (blocked: bool)
        ensures
            blocked == banned_at(old(self)@.bans, ip@, now),
            final(self)@ == after_query(old(self)@, ip@, now),
    {
        match expiry_get(&self.blocked_ips, ip) {
            Some(until) => {
                if now < until {
                    return true;
                }
                expiry_remove(&mut self.blocked_ips, ip);
                stamps_remove(&mut self.failed_attempts, ip);
                false
            },
            None => false,
        }
    }

    /// Bans `ip` from `now` for `duration` seconds, whatever was recorded
    /// for it before.
    pub fn block_ip_at(&mut self, ip: &str, duration: u64, now: u64)
        ensures
            final(self)@ == after_ban(old(self)@, ip@, duration, now),
    {
        expiry_insert(&mut self.blocked_ips, String::from_str(ip), now.saturating_add(duration));
    }

    /// Records a failed attempt of `ip` at `now` with the given weight, and
    /// bans `ip` where that fills its record.
    pub fn record_failed_attempt_at(&mut self, ip: &str, weight: usize, now: u64)
        ensures
            final(self)@ == after_attempt(old(self)@, ip@, weight as nat, now),
    {
        let before = self.attempts_of(ip);
        let mut record = prune(&before, now);
        let ghost kept = record@;
        let mut i: usize = 0;
        while i < weight
            invariant
                i <= weight,
                record@ == kept + Seq::new(i as nat, |j: int| now),
            decreases weight - i,
        {
            record.push(now);
            proof {
                assert(record@ =~= kept + Seq::new((i + 1) as nat, |j: int| now));
            }
            i = i + 1;
        }
        let full = record.len() >= MAX_FAILED_ATTEMPTS;
        stamps_insert(&mut self.failed_attempts, String::from_str(ip), record);
        if full {
            self.block_ip_at(ip, BLOCK_DURATION_SECS, now);
        }
    }

    /// Whether `ip` is banned at the present moment.
    pub fn is_blocked(&mut self, ip: &str) -> (blocked: bool)
        ensures
            exists|now: u64|
                blocked == banned_at(old(self)@.bans, ip@, now) && final(self)@ == #[trigger] after_query(
                    old(self)@,
                    ip@,
                    now,
                ),
    {
        let now = current_timestamp();
        self.is_blocked_at(ip, now)
    }

    /// Bans `ip` from the present moment for `duration` seconds.
    pub fn block_ip(&mut self, ip: &str, duration: u64)
        ensures
            exists|now: u64| final(self)@ == #[trigger] after_ban(old(self)@, ip@, duration, now),
    {
        let now = current_timestamp();
        self.block_ip_at(ip, duration, now);
    }

    /// Records a failed attempt of `ip` at the present moment.
    pub fn record_failed_attempt(&mut self, ip: &str, weight: usize)
        ensures
            exists|now: u64|
                final(self)@ == #[trigger] after_attempt(old(self)@, ip@, weight as nat, now),
    {
        let now = current_timestamp();
        self.record_failed_attempt_at(ip, weight, now);
    }
}

/// A failed attempt of weight `w` adds `w` entries to what still counts of
/// the client's record.
pub proof fn lemma_attempt_adds_weight(g: GuardView, ip: Seq<char>, weight: nat, now: u64)
    ensures
        record_of(after_attempt(g, ip, weight, now).attempts, ip).len() == recent(
            record_of(g.attempts, ip),
            now,
        ).len() + weight,
{
}

/// The failed attempt that brings the weight still counted for a client to
/// the limit bans it for the standard duration: the client is banned at
/// every moment before the end of that duration and at none from then on,
/// and the first question about it from then on clears its ban and its
/// failed attempts.
pub proof fn lemma_attempts_ban(g: GuardView, ip: Seq<char>, weight: nat, now: u64, later: u64)
    requires
        recent(record_of(g.attempts, ip), now).len() + weight >= MAX_FAILED_ATTEMPTS,
        now + BLOCK_DURATION_SECS <= u64::MAX,
    ensures
        banned_at(after_attempt(g, ip, weight, now).bans, ip, later) <==> later < now
            + BLOCK_DURATION_SECS,
        later >= now + BLOCK_DURATION_SECS ==> {
            let cleared = after_query(after_attempt(g, ip, weight, now), ip, later);
            &&& !cleared.bans.dom().contains(ip)
            &&& !cleared.attempts.dom().contains(ip)
        },
{
}

/// A failed attempt that leaves the weight counted for a client under the
/// limit bans nobody.
pub proof fn lemma_attempt_below_limit(g: GuardView, ip: Seq<char>, weight: nat, now: u64)
    requires
        recent(record_of(g.attempts, ip), now).len() + weight < MAX_FAILED_ATTEMPTS,
    ensures
        after_attempt(g, ip, weight, now).bans == g.bans,
{
}

/// A failed attempt bans the client exactly when the weight still counted
/// for it, the attempt included, reaches the limit. The ban then ends after
/// the standard duration, counted from the attempt; otherwise no ban
/// changes.
pub proof fn lemma_ban_iff_weight_reaches_limit(g: GuardView, ip: Seq<char>, weight: nat, now: u64)
    ensures
        recent(record_of(g.attempts, ip), now).len() + weight >= MAX_FAILED_ATTEMPTS ==> after_attempt(
            g,
            ip,
            weight,
            now,
        ).bans == g.bans.insert(ip, ban_end(now, BLOCK_DURATION_SECS)),
        recent(record_of(g.attempts, ip), now).len() + weight >= MAX_FAILED_ATTEMPTS && now
            + BLOCK_DURATION_SECS <= u64::MAX ==> after_attempt(g, ip, weight, now).bans[ip] == now
            + BLOCK_DURATION_SECS,
        recent(record_of(g.attempts, ip), now).len() + weight < MAX_FAILED_ATTEMPTS ==> after_attempt(
            g,
            ip,
            weight,
            now,
        ).bans == g.bans,
{
}

} // verus!
