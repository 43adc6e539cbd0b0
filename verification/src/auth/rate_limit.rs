//! Locking out addresses after repeated failed authentication attempts.
//! Times are milliseconds; each operation that reads the time has a form
//! ending in `_at` that takes it as an argument.
use crate::auth::session::elapsed;
use crate::clock::now_millis;
use dashmap::DashMap;
use vstd::prelude::*;

verus! {

/// Default number of failed attempts before an address is locked out.
pub const DEFAULT_MAX_ATTEMPTS: u32 = 5;

/// Default lockout duration: five minutes, in milliseconds.
pub const DEFAULT_LOCKOUT_DURATION: u64 = 300_000;

/// How long the record of an address that is not locked out is kept: a day.
pub const ATTEMPT_RETENTION: u64 = 86_400_000;

/// The failed attempts of one address.
#[derive(Debug, Clone, Copy)]
pub struct RateLimitEntry {
    /// Failed attempts since the last reset.
    pub failed_attempts: u32,
    /// Time of the last failed attempt.
    pub last_failure: u64,
    /// Whether the address is locked out.
    pub is_locked_out: bool,
    /// When the lockout ends.
    pub lockout_expiry: Option<u64>,
}

/// The record of an address with no failed attempt yet, made at `now`.
pub open spec fn blank_entry(now: u64) -> RateLimitEntry {
    RateLimitEntry { failed_attempts: 0, last_failure: now, is_locked_out: false, lockout_expiry: None }
}

/// `x + y`, stopping at the largest `u64`.
pub open spec fn sat_add(x: u64, y: u64) -> u64 {
    if x + y > u64::MAX {
        u64::MAX
    } else {
        (x + y) as u64
    }
}

/// The record of `ip` in `m`, or a blank one made at `now`.
pub open spec fn prior_entry(m: Map<Seq<char>, RateLimitEntry>, ip: Seq<char>, now: u64) -> RateLimitEntry {
    if m.contains_key(ip) {
        m[ip]
    } else {
        blank_entry(now)
    }
}

/// The record after a failed attempt at `now`: an expired lockout is reset
/// first; the count goes up by one (stopping at the largest `u32`); reaching
/// `max_attempts` locks the address out until `now + lockout`.
pub open spec fn after_failure(e: RateLimitEntry, now: u64, max_attempts: u32, lockout: u64) -> RateLimitEntry {
    let reset = match e.lockout_expiry {
        Some(expiry) => now > expiry,
        None => false,
    };
    let base = if reset {
        RateLimitEntry { failed_attempts: 0, last_failure: e.last_failure, is_locked_out: false, lockout_expiry: None }
    } else {
        e
    };
    let count: u32 = if base.failed_attempts == u32::MAX {
        u32::MAX
    } else {
        (base.failed_attempts + 1) as u32
    };
    if count >= max_attempts {
        RateLimitEntry { failed_attempts: count, last_failure: now, is_locked_out: true, lockout_expiry: Some(sat_add(now, lockout)) }
    } else {
        RateLimitEntry { failed_attempts: count, last_failure: now, is_locked_out: base.is_locked_out, lockout_expiry: base.lockout_expiry }
    }
}

/// The address of record `e` is refused at `now`: it is locked out and the
/// lockout has not ended.
pub open spec fn refused(e: RateLimitEntry, now: u64) -> bool {
    e.is_locked_out && match e.lockout_expiry {
        Some(expiry) => now < expiry,
        None => false,
    }
}

/// An attempt from `ip` is admitted at `now`: it has no record, or its
/// record is not refused.
pub open spec fn admits(m: Map<Seq<char>, RateLimitEntry>, ip: Seq<char>, now: u64) -> bool {
    !(m.contains_key(ip) && refused(m[ip], now))
}

/// A cleanup at `now` keeps record `e`: a lockout keeps it until the lockout
/// ends; otherwise it is kept for a day after the last failure.
pub open spec fn attempt_kept(e: RateLimitEntry, now: u64) -> bool {
    if e.is_locked_out && e.lockout_expiry is Some {
        now < e.lockout_expiry->Some_0
    } else {
        elapsed(now, e.last_failure) < ATTEMPT_RETENTION
    }
}

/// The records of `m` that a cleanup at `now` keeps.
pub open spec fn kept_records(m: Map<Seq<char>, RateLimitEntry>, now: u64) -> Map<Seq<char>, RateLimitEntry> {
    m.restrict(m.dom().filter(|k: Seq<char>| attempt_kept(m[k], now)))
}

/// Whether a cleanup at `now` keeps record `e`.
pub fn keep_attempt(e: &RateLimitEntry, now: u64) -> (b: bool)
    ensures
        b == attempt_kept(*e, now),
{
    if e.is_locked_out {
        if let Some(expiry) = e.lockout_expiry {
            return now < expiry;
        }
    }
    let since = if now >= e.last_failure {
        now - e.last_failure
    } else {
        0
    };
    since < ATTEMPT_RETENTION
}

/// No records at all.
pub open spec fn no_records() -> Map<Seq<char>, RateLimitEntry> {
    Map::empty()
}

/// The map from addresses to their records.
pub type AttemptMap = DashMap<String, RateLimitEntry>;

/// The record after failed attempts at the times `ts`, in order, starting
/// from `e`.
pub open spec fn failures(e: RateLimitEntry, ts: Seq<u64>, max_attempts: u32, lockout: u64) -> RateLimitEntry
    decreases ts.len(),
{
    if ts.len() == 0 {
        e
    } else {
        after_failure(failures(e, ts.drop_last(), max_attempts, lockout), ts.last(), max_attempts, lockout)
    }
}

proof fn lemma_failures_count(start: u64, ts: Seq<u64>, max_attempts: u32, lockout: u64)
    requires
        ts.len() < max_attempts,
    ensures
        failures(blank_entry(start), ts, max_attempts, lockout) == (RateLimitEntry {
            failed_attempts: ts.len() as u32,
            last_failure: if ts.len() == 0 {
                start
            } else {
                ts.last()
            },
            is_locked_out: false,
            lockout_expiry: None,
        }),
    decreases ts.len(),
{
    if ts.len() > 0 {
        lemma_failures_count(start, ts.drop_last(), max_attempts, lockout);
    }
}

/// An address with no record that fails `max_attempts` times (at least
/// once), at whatever times, is refused from its last failure until the
/// lockout that it started ends.
pub proof fn lemma_lockout_after_max_failures(start: u64, ts: Seq<u64>, later: u64, max_attempts: u32, lockout: u64)
    requires
        max_attempts >= 1,
        ts.len() == max_attempts,
        ts.last() <= later,
        later < ts.last() + lockout,
        ts.last() + lockout <= u64::MAX,
    ensures
        refused(failures(blank_entry(start), ts, max_attempts, lockout), later),
{
    lemma_failures_count(start, ts.drop_last(), max_attempts, lockout);
}

/// Each failure of `ts` comes less than `lockout` after the one before.
pub open spec fn close_failures(ts: Seq<u64>, lockout: u64) -> bool {
    forall|i: int| 0 < i < ts.len() ==> #[trigger] ts[i] < ts[i - 1] + lockout
}

proof fn lemma_close_failures(start: u64, ts: Seq<u64>, max_attempts: u32, lockout: u64)
    requires
        max_attempts >= 1,
        ts.len() >= max_attempts,
        close_failures(ts, lockout),
    ensures
        ({
            let e = failures(blank_entry(start), ts, max_attempts, lockout);
            &&& e.is_locked_out
            &&& e.failed_attempts >= max_attempts
            &&& e.lockout_expiry == Some(sat_add(ts.last(), lockout))
        }),
    decreases ts.len(),
{
    let d = ts.drop_last();
    if d.len() < max_attempts {
        lemma_failures_count(start, d, max_attempts, lockout);
    } else {
        assert forall|i: int| 0 < i < d.len() implies #[trigger] d[i] < d[i - 1] + lockout by {
            assert(d[i] == ts[i] && d[i - 1] == ts[i - 1]);
        }
        lemma_close_failures(start, d, max_attempts, lockout);
        assert(ts[ts.len() - 1] < ts[ts.len() - 2] + lockout);
        assert(d.last() == ts[ts.len() - 2]);
    }
}

/// The lockout law: an address with no record (or one cleared by a
/// success) that then fails at the times `ts`, each less than `lockout`
/// after the one before, is refused at `now` exactly when it has failed at
/// least `max_attempts` times and `now` is before the lockout that the last
/// failure set (`lockout` after it, stopping at the largest time).
pub proof fn lemma_lockout_law(start: u64, ts: Seq<u64>, now: u64, max_attempts: u32, lockout: u64)
    requires
        max_attempts >= 1,
        close_failures(ts, lockout),
    ensures
        refused(failures(blank_entry(start), ts, max_attempts, lockout), now) == (ts.len() >= max_attempts && now
            < sat_add(ts.last(), lockout)),
{
    if ts.len() < max_attempts {
        lemma_failures_count(start, ts, max_attempts, lockout);
    } else {
        lemma_close_failures(start, ts, max_attempts, lockout);
    }
}

/// After a success, an address is admitted at any time.
pub proof fn lemma_success_admits(m: Map<Seq<char>, RateLimitEntry>, ip: Seq<char>, now: u64)
    ensures
        admits(m.remove(ip), ip, now),
{
}

/// The records that a `DashMap` of failed attempts holds, by address.
pub uninterp spec fn attempt_table(m: AttemptMap) -> Map<Seq<char>, RateLimitEntry>;

/// An empty map (`DashMap::new`).
#[verifier::external_body]
fn attempts_new() -> (m: AttemptMap)
    ensures
        attempt_table(m) == no_records(),
{
    DashMap::new()
}

/// The record of `ip`, copied out (`DashMap::get`).
#[verifier::external_body]
fn attempts_get(m: &AttemptMap, ip: &str) -> (r: Option<RateLimitEntry>)
    ensures
        r == (if attempt_table(*m).contains_key(ip@) {
            Some(attempt_table(*m)[ip@])
        } else {
            None
        }),
{
    match m.get(ip) {
        Some(r) => Some(*r),
        None => None,
    }
}

/// Sets the record of `ip` (`DashMap::insert`).
#[verifier::external_body]
fn attempts_insert(m: &mut AttemptMap, ip: String, e: RateLimitEntry)
    ensures
        attempt_table(*final(m)) == attempt_table(*old(m)).insert(ip@, e),
{
    m.insert(ip, e);
}

/// Removes the record of `ip` (`DashMap::remove`).
#[verifier::external_body]
fn attempts_remove(m: &mut AttemptMap, ip: &str)
    ensures
        attempt_table(*final(m)) == attempt_table(*old(m)).remove(ip@),
{
    m.remove(ip);
}

/// Keeps the records that `keep_attempt` keeps at `now` (`DashMap::retain`,
/// which asks the closure once about every entry and erases those refused).
#[verifier::external_body]
fn attempts_retain(m: &mut AttemptMap, now: u64)
    ensures
        attempt_table(*final(m)) == kept_records(attempt_table(*old(m)), now),
{
    m.retain(|_, e| keep_attempt(e, now));
}

/// Failed authentication attempts by address, with lockout.
pub struct AuthRateLimiter {
    attempts: AttemptMap,
    max_attempts: u32,
    lockout_duration: u64,
}

impl View for AuthRateLimiter {
    type V = Map<Seq<char>, RateLimitEntry>;

    closed spec fn view(&self) -> Map<Seq<char>, RateLimitEntry> {
        attempt_table(self.attempts)
    }
}

impl AuthRateLimiter {
    /// Failed attempts that lock an address out.
    pub closed spec fn max_attempts_view(&self) -> u32 {
        self.max_attempts
    }

    /// How long a lockout lasts.
    pub closed spec fn lockout_view(&self) -> u64 {
        self.lockout_duration
    }

    /// A limiter with no records.
    pub fn new(max_attempts: u32, lockout_duration: u64) -> (l: Self)
        ensures
            l@ == Map::<Seq<char>, RateLimitEntry>::empty(),
            l.max_attempts_view() == max_attempts,
            l.lockout_view() == lockout_duration,
    {
        AuthRateLimiter { attempts: attempts_new(), max_attempts, lockout_duration }
    }

    /// Records a failed attempt from `ip` at `now`; returns whether the
    /// address is now locked out by this attempt's count.
    pub fn record_failed_attempt_at(&mut self, ip: &str, now: u64) -> (locked: bool)
        ensures
            final(self).max_attempts_view() == old(self).max_attempts_view(),
            final(self).lockout_view() == old(self).lockout_view(),
            final(self)@ == old(self)@.insert(
                ip@,
                after_failure(
                    prior_entry(old(self)@, ip@, now),
                    now,
                    old(self).max_attempts_view(),
                    old(self).lockout_view(),
                ),
            ),
            locked == (final(self)@[ip@].failed_attempts >= old(self).max_attempts_view()),
    {
        let mut entry = match attempts_get(&self.attempts, ip) {
            Some(e) => e,
            None => RateLimitEntry { failed_attempts: 0, last_failure: now, is_locked_out: false, lockout_expiry: None },
        };
        if let Some(expiry) = entry.lockout_expiry {
            if now > expiry {
                entry.is_locked_out = false;
                entry.failed_attempts = 0;
                entry.lockout_expiry = None;
            }
        }
        entry.failed_attempts = if entry.failed_attempts == u32::MAX {
            u32::MAX
        } else {
            entry.failed_attempts + 1
        };
        entry.last_failure = now;
        let locked = entry.failed_attempts >= self.max_attempts;
        if locked {
            entry.is_locked_out = true;
            let until: u64 = if now > u64::MAX - self.lockout_duration {
                u64::MAX
            } else {
                now + self.lockout_duration
            };
            entry.lockout_expiry = Some(until);
        }
        attempts_insert(&mut self.attempts, ip.to_owned(), entry);
        locked
    }

    /// Records a failed attempt from `ip` at the current time.
    pub fn record_failed_attempt(&mut self, ip: &str) -> (locked: bool)
        ensures
            final(self).max_attempts_view() == old(self).max_attempts_view(),
            final(self).lockout_view() == old(self).lockout_view(),
            exists|now: u64|
                final(self)@ == old(self)@.insert(
                    ip@,
                    after_failure(
                        #[trigger] prior_entry(old(self)@, ip@, now),
                        now,
                        old(self).max_attempts_view(),
                        old(self).lockout_view(),
                    ),
                ),
            locked == (final(self)@[ip@].failed_attempts >= old(self).max_attempts_view()),
    {
        self.record_failed_attempt_at(ip, now_millis())
    }

    /// A successful authentication from `ip` forgets its failed attempts.
    pub fn record_success(&mut self, ip: &str)
        ensures
            final(self).max_attempts_view() == old(self).max_attempts_view(),
            final(self).lockout_view() == old(self).lockout_view(),
            final(self)@ == old(self)@.remove(ip@),
    {
        attempts_remove(&mut self.attempts, ip);
    }

    /// Whether `ip` may attempt to authenticate at `now`.
    pub fn check_rate_limit_at(&self, ip: &str, now: u64) -> (allowed: bool)
        ensures
            allowed == admits(self@, ip@, now),
    {
        match attempts_get(&self.attempts, ip) {
            Some(e) => {
                if e.is_locked_out {
                    if let Some(expiry) = e.lockout_expiry {
                        if now < expiry {
                            return false;
                        }
                    }
                }
                true
            },
            None => true,
        }
    }

    /// Whether `ip` may attempt to authenticate at the current time.
    pub fn check_rate_limit(&self, ip: &str) -> (allowed: bool)
        ensures
            exists|now: u64| allowed == #[trigger] admits(self@, ip@, now),
    {
        self.check_rate_limit_at(ip, now_millis())
    }

    /// Forgets ended lockouts and, for addresses not locked out, failures
    /// older than a day.
    pub fn cleanup_at(&mut self, now: u64)
        ensures
            final(self).max_attempts_view() == old(self).max_attempts_view(),
            final(self).lockout_view() == old(self).lockout_view(),
            final(self)@ == kept_records(old(self)@, now),
    {
        attempts_retain(&mut self.attempts, now);
    }

    /// Cleans up at the current time.
    pub fn cleanup(&mut self)
        ensures
            final(self).max_attempts_view() == old(self).max_attempts_view(),
            final(self).lockout_view() == old(self).lockout_view(),
            exists|now: u64| final(self)@ == #[trigger] kept_records(old(self)@, now),
    {
        self.cleanup_at(now_millis())
    }
}

impl Default for AuthRateLimiter {
    /// Five failed attempts lock an address out for five minutes.
    fn default() -> (l: Self)
        ensures
            l@ == Map::<Seq<char>, RateLimitEntry>::empty(),
            l.max_attempts_view() == DEFAULT_MAX_ATTEMPTS,
            l.lockout_view() == DEFAULT_LOCKOUT_DURATION,
    {
        AuthRateLimiter::new(DEFAULT_MAX_ATTEMPTS, DEFAULT_LOCKOUT_DURATION)
    }
}

} // verus!
