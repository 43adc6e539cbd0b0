//! Request rate limiting by client address: a window starts with a client's
//! first request after the previous window ended, and within it that request
//! and `max_requests` more are let through. Times are milliseconds; each operation that reads the time
//! has a form ending in `_at` that takes it as an argument.
use crate::auth::session::elapsed;
use crate::clock::now_millis;
use crate::error::AppError;
use dashmap::DashMap;
use vstd::prelude::*;

verus! {

/// A client's current window.
#[derive(Debug, Clone, Copy)]
pub struct RateLimitEntry {
    /// When the window started.
    pub last_request: u64,
    /// Requests counted in the window.
    pub count: u32,
}

/// The window after a request at `now`: past the window's length a new
/// window starts with this request; otherwise the request is counted
/// (the count stops at the largest `u32`).
pub open spec fn after_request(e: RateLimitEntry, now: u64, window: u64) -> RateLimitEntry {
    if elapsed(now, e.last_request) > window {
        RateLimitEntry { last_request: now, count: 1 }
    } else {
        RateLimitEntry {
            last_request: e.last_request,
            count: if e.count == u32::MAX {
                u32::MAX
            } else {
                (e.count + 1) as u32
            },
        }
    }
}

/// A request at `now` against window `e` is allowed: it starts a new window,
/// or the window's count with it is at most `max_requests + 1` (the request
/// that opened the window and `max_requests` more).
pub open spec fn request_allowed(e: RateLimitEntry, now: u64, window: u64, max_requests: u32) -> bool {
    elapsed(now, e.last_request) > window || after_request(e, now, window).count <= max_requests + 1
}

/// The window of `ip` in `m`, or a fresh one opened at `now`.
pub open spec fn window_of(m: Map<Seq<char>, RateLimitEntry>, ip: Seq<char>, now: u64) -> RateLimitEntry {
    if m.contains_key(ip) {
        m[ip]
    } else {
        RateLimitEntry { last_request: now, count: 0 }
    }
}

/// The windows of `m` that have not ended at `now`.
pub open spec fn open_windows(m: Map<Seq<char>, RateLimitEntry>, now: u64, window: u64) -> Map<
    Seq<char>,
    RateLimitEntry,
> {
    m.restrict(m.dom().filter(|k: Seq<char>| elapsed(now, m[k].last_request) <= window))
}

/// No windows at all.
pub open spec fn no_windows() -> Map<Seq<char>, RateLimitEntry> {
    Map::empty()
}

/// Whether window `e` has not ended at `now`.
pub fn window_open(e: &RateLimitEntry, now: u64, window: u64) -> (b: bool)
    ensures
        b == (elapsed(now, e.last_request) <= window),
{
    let since = if now >= e.last_request {
        now - e.last_request
    } else {
        0
    };
    since <= window
}

/// The map from client addresses to their windows.
pub type WindowMap = DashMap<String, RateLimitEntry>;

/// The windows that a `DashMap` of windows holds, by address.
pub uninterp spec fn window_table(m: WindowMap) -> Map<Seq<char>, RateLimitEntry>;

/// An empty map (`DashMap::new`).
#[verifier::external_body]
fn windows_new() -> (m: WindowMap)
    ensures
        window_table(m) == no_windows(),
{
    DashMap::new()
}

/// The window of `ip`, copied out (`DashMap::get`).
#[verifier::external_body]
fn windows_get(m: &WindowMap, ip: &str) -> (r: Option<RateLimitEntry>)
    ensures
        r == (if window_table(*m).contains_key(ip@) {
            Some(window_table(*m)[ip@])
        } else {
            None
        }),
{
    match m.get(ip) {
        Some(r) => Some(*r),
        None => None,
    }
}

/// Sets the window of `ip` (`DashMap::insert`).
#[verifier::external_body]
fn windows_insert(m: &mut WindowMap, ip: String, e: RateLimitEntry)
    ensures
        window_table(*final(m)) == window_table(*old(m)).insert(ip@, e),
{
    m.insert(ip, e);
}

/// Keeps the windows that have not ended at `now` (`DashMap::retain`, which
/// asks the closure once about every entry and erases those refused).
#[verifier::external_body]
fn windows_retain(m: &mut WindowMap, now: u64, window: u64)
    ensures
        window_table(*final(m)) == open_windows(window_table(*old(m)), now, window),
{
    m.retain(|_, e| window_open(e, now, window));
}

/// Request windows by client address.
pub struct RateLimiter {
    entries: WindowMap,
    window: u64,
    max_requests: u32,
}

impl View for RateLimiter {
    type V = Map<Seq<char>, RateLimitEntry>;

    closed spec fn view(&self) -> Map<Seq<char>, RateLimitEntry> {
        window_table(self.entries)
    }
}

impl RateLimiter {
    /// The length of a window.
    pub closed spec fn window_view(&self) -> u64 {
        self.window
    }

    /// Requests allowed in a window.
    pub closed spec fn max_requests_view(&self) -> u32 {
        self.max_requests
    }

    /// A limiter with no windows.
    pub fn new(window: u64, max_requests: u32) -> (l: Self)
        ensures
            l@ == no_windows(),
            l.window_view() == window,
            l.max_requests_view() == max_requests,
    {
        RateLimiter { entries: windows_new(), window, max_requests }
    }

    /// Counts a request from `client_ip` at `now` and says whether it is allowed.
    pub fn check_rate_limit_at(&mut self, client_ip: &str, now: u64) -> (allowed: bool)
        ensures
            final(self).window_view() == old(self).window_view(),
            final(self).max_requests_view() == old(self).max_requests_view(),
            final(self)@ == old(self)@.insert(
                client_ip@,
                after_request(window_of(old(self)@, client_ip@, now), now, old(self).window_view()),
            ),
            allowed == request_allowed(
                window_of(old(self)@, client_ip@, now),
                now,
                old(self).window_view(),
                old(self).max_requests_view(),
            ),
    {
        let mut entry = match windows_get(&self.entries, client_ip) {
            Some(e) => e,
            None => RateLimitEntry { last_request: now, count: 0 },
        };
        let allowed = if !window_open(&entry, now, self.window) {
            entry.count = 1;
            entry.last_request = now;
            true
        } else {
            entry.count = if entry.count == u32::MAX {
                u32::MAX
            } else {
                entry.count + 1
            };
            (entry.count as u64) <= (self.max_requests as u64) + 1
        };
        windows_insert(&mut self.entries, client_ip.to_owned(), entry);
        allowed
    }

    /// Counts a request from `client_ip` at the current time.
    pub fn check_rate_limit(&mut self, client_ip: &str) -> (allowed: bool)
        ensures
            final(self).window_view() == old(self).window_view(),
            final(self).max_requests_view() == old(self).max_requests_view(),
            exists|now: u64|
                final(self)@ == old(self)@.insert(
                    client_ip@,
                    after_request(#[trigger] window_of(old(self)@, client_ip@, now), now, old(self).window_view()),
                ) && allowed == request_allowed(
                    window_of(old(self)@, client_ip@, now),
                    now,
                    old(self).window_view(),
                    old(self).max_requests_view(),
                ),
    {
        self.check_rate_limit_at(client_ip, now_millis())
    }

    /// Forgets the windows that have ended at `now`.
    pub fn clear_expired_at(&mut self, now: u64)
        ensures
            final(self).window_view() == old(self).window_view(),
            final(self).max_requests_view() == old(self).max_requests_view(),
            final(self)@ == open_windows(old(self)@, now, old(self).window_view()),
    {
        windows_retain(&mut self.entries, now, self.window);
    }

    /// Forgets the windows that have ended at the current time.
    pub fn clear_expired(&mut self)
        ensures
            final(self).window_view() == old(self).window_view(),
            final(self).max_requests_view() == old(self).max_requests_view(),
            exists|now: u64| final(self)@ == #[trigger] open_windows(old(self)@, now, old(self).window_view()),
    {
        self.clear_expired_at(now_millis())
    }
}

/// Counts a request from `client_ip`; a refused request is the error
/// `RateLimitExceeded`.
pub fn check_rate_limit(limiter: &mut RateLimiter, client_ip: &str) -> (r: Result<(), AppError>)
    ensures
        final(limiter).window_view() == old(limiter).window_view(),
        final(limiter).max_requests_view() == old(limiter).max_requests_view(),
        exists|now: u64|
            final(limiter)@ == old(limiter)@.insert(
                client_ip@,
                after_request(#[trigger] window_of(old(limiter)@, client_ip@, now), now, old(limiter).window_view()),
            ) && (r is Ok <==> request_allowed(
                window_of(old(limiter)@, client_ip@, now),
                now,
                old(limiter).window_view(),
                old(limiter).max_requests_view(),
            )),
        r matches Err(e) ==> e is RateLimitExceeded,
{
    if !limiter.check_rate_limit(client_ip) {
        return Err(AppError::RateLimitExceeded);
    }
    Ok(())
}

/// Within one window, the requests after the one that opened it and
/// `max_requests` more are refused: a request against a window that has not
/// ended and already holds more than `max_requests` is refused.
pub proof fn lemma_window_full_refuses(e: RateLimitEntry, now: u64, window: u64, max_requests: u32)
    requires
        elapsed(now, e.last_request) <= window,
        e.count > max_requests,
        max_requests < u32::MAX - 1,
    ensures
        !request_allowed(e, now, window, max_requests),
{
}

/// A request after the window has ended is allowed, and starts a window of one.
pub proof fn lemma_new_window_allows(e: RateLimitEntry, now: u64, window: u64, max_requests: u32)
    requires
        elapsed(now, e.last_request) > window,
    ensures
        request_allowed(e, now, window, max_requests),
        after_request(e, now, window) == (RateLimitEntry { last_request: now, count: 1 }),
{
}

} // verus!
