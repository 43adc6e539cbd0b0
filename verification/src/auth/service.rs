//! The authentication service: sessions behind a common interface, and the
//! default service that adds authentication rate limiting.
use crate::auth::rate_limit::{admits, AuthRateLimiter};
use crate::auth::session::{secure_token_text, touch, SessionEntry, SessionManager};
use crate::auth::token_generator::{unpadded_len, DEFAULT_TOKEN_BYTES};
use crate::error::AppError;
use crate::messages::Session;
use vstd::prelude::*;

verus! {

/// What the server needs of an authentication service.
pub trait AuthService {
    /// The service's state is well formed.
    spec fn valid(&self) -> bool;

    /// The session held under `token`, live or not, if any.
    spec fn held(&self, token: Seq<char>) -> Option<Session>;

    /// The session held under `token` is live (may be used) at time `now`.
    spec fn live_at(&self, token: Seq<char>, now: u64) -> bool;

    /// Opens a session for a location of a meet; returns its token, which is
    /// not empty and under which the service now holds that session.
    fn new_session(&mut self, meet_id: String, location_name: String, priority: u8) -> (token: String)
        requires
            old(self).valid(),
        ensures
            final(self).valid(),
            token@.len() > 0,
            final(self).held(token@) == Some(Session { token, meet_id, location_name, priority }),
    ;

    /// The session of `token`, if it is live; the sessions held stay as they
    /// were.
    fn get_session(&mut self, token: &str) -> (r: Option<Session>)
        requires
            old(self).valid(),
        ensures
            final(self).valid(),
            forall|t: Seq<char>| #[trigger] final(self).held(t) == old(self).held(t),
            r matches Some(x) ==> old(self).held(token@) == Some(x),
            exists|now: u64| (r is Some) == #[trigger] old(self).live_at(token@, now),
    ;

    /// Whether the session of `token` is live; a token under which no
    /// session is held is refused, and the sessions held stay as they were.
    fn validate_session(&mut self, token: &str) -> (ok: bool)
        requires
            old(self).valid(),
        ensures
            final(self).valid(),
            forall|t: Seq<char>| #[trigger] final(self).held(t) == old(self).held(t),
            ok ==> old(self).held(token@) is Some,
            exists|now: u64| ok == #[trigger] old(self).live_at(token@, now),
    ;
}

/// The session held under `token` in the session map `m`, if any.
pub open spec fn held_in(m: Map<Seq<char>, SessionEntry>, token: Seq<char>) -> Option<Session> {
    if m.contains_key(token) {
        Some(m[token].session)
    } else {
        None
    }
}

impl AuthService for SessionManager {
    open spec fn valid(&self) -> bool {
        self.wf()
    }

    open spec fn held(&self, token: Seq<char>) -> Option<Session> {
        held_in(self@, token)
    }

    open spec fn live_at(&self, token: Seq<char>, now: u64) -> bool {
        SessionManager::live_at(self, token, now)
    }

    /// Creates a session with fresh random tokens and returns its token.
    fn new_session(&mut self, meet_id: String, location_name: String, priority: u8) -> (token: String)
        ensures
            secure_token_text(token@),
            final(self)@.contains_key(token@),
            final(self)@[token@].session.token == token,
            final(self)@[token@].session.meet_id == meet_id,
            final(self)@[token@].session.location_name == location_name,
            final(self)@[token@].session.priority == priority,
    {
        let s = self.create_session(meet_id, location_name, priority);
        assert(unpadded_len(DEFAULT_TOKEN_BYTES as nat) > 0);
        s.token
    }

    /// The session of `token`, if it is live now.
    fn get_session(&mut self, token: &str) -> (r: Option<Session>)
        ensures
            final(self).same_limits(old(self)),
            exists|now: u64|
                r == (if old(self).live_at(token@, now) {
                    Some(old(self)@[token@].session)
                } else {
                    None
                }) && final(self)@ == (if old(self).live_at(token@, now) {
                    touch(old(self)@, token@, now)
                } else {
                    old(self)@
                }),
    {
        let now = crate::clock::now_millis();
        let r = self.get_session_at(token, now);
        assert(AuthService::live_at(&*old(self), token@, now) == old(self).live_at(token@, now));
        proof {
            assert forall|t: Seq<char>| #[trigger] held_in(self@, t) == held_in(old(self)@, t) by {
                if t == token@ && old(self)@.contains_key(t) {
                }
            }
        }
        r
    }

    /// Whether the session of `token` is live now.
    fn validate_session(&mut self, token: &str) -> (ok: bool)
        ensures
            final(self).same_limits(old(self)),
            exists|now: u64|
                ok == old(self).live_at(token@, now) && final(self)@ == (if ok {
                    touch(old(self)@, token@, now)
                } else {
                    old(self)@
                }),
    {
        let now = crate::clock::now_millis();
        let ok = self.validate_session_at(token, now);
        assert(AuthService::live_at(&*old(self), token@, now) == old(self).live_at(token@, now));
        proof {
            assert forall|t: Seq<char>| #[trigger] held_in(self@, t) == held_in(old(self)@, t) by {
                if t == token@ && old(self)@.contains_key(t) {
                }
            }
        }
        ok
    }
}

/// Sessions together with authentication rate limiting.
pub struct DefaultAuth {
    sm: SessionManager,
    rate_limiter: AuthRateLimiter,
}

impl DefaultAuth {
    /// The sessions.
    pub closed spec fn sessions(&self) -> SessionManager {
        self.sm
    }

    /// The authentication rate limiter.
    pub closed spec fn limiter(&self) -> AuthRateLimiter {
        self.rate_limiter
    }

    /// A service over `sm` with the default rate limiter.
    pub fn new(sm: SessionManager) -> (a: Self)
        ensures
            a.sessions() == sm,
            a.limiter()@ == Map::<Seq<char>, crate::auth::rate_limit::RateLimitEntry>::empty(),
            a.limiter().max_attempts_view() == crate::auth::rate_limit::DEFAULT_MAX_ATTEMPTS,
            a.limiter().lockout_view() == crate::auth::rate_limit::DEFAULT_LOCKOUT_DURATION,
    {
        DefaultAuth { sm, rate_limiter: AuthRateLimiter::default() }
    }

    /// A service over `sm` with the given rate limiter.
    pub fn new_with_rate_limiter(sm: SessionManager, rate_limiter: AuthRateLimiter) -> (a: Self)
        ensures
            a.sessions() == sm,
            a.limiter() == rate_limiter,
    {
        DefaultAuth { sm, rate_limiter }
    }

    /// Whether `ip` may attempt to authenticate now; if not, the error
    /// `AuthRateLimited`.
    pub fn check_auth_rate_limit(&self, ip: &str) -> (r: Result<(), AppError>)
        ensures
            exists|now: u64| (r is Ok) == #[trigger] admits(self.limiter()@, ip@, now),
            r matches Err(e) ==> e is AuthRateLimited,
    {
        let now = crate::clock::now_millis();
        let allowed = self.rate_limiter.check_rate_limit_at(ip, now);
        assert(allowed == admits(self.limiter()@, ip@, now));
        if !allowed {
            return Err(AppError::AuthRateLimited);
        }
        Ok(())
    }

    /// Records a failed authentication attempt from `ip`.
    pub fn record_failed_attempt(&mut self, ip: &str)
        ensures
            final(self).sessions() == old(self).sessions(),
            final(self).limiter().max_attempts_view() == old(self).limiter().max_attempts_view(),
            final(self).limiter().lockout_view() == old(self).limiter().lockout_view(),
            final(self).limiter()@.contains_key(ip@),
    {
        let _ = self.rate_limiter.record_failed_attempt(ip);
    }

    /// Records a successful authentication from `ip`.
    pub fn record_success(&mut self, ip: &str)
        ensures
            final(self).sessions() == old(self).sessions(),
            final(self).limiter()@ == old(self).limiter()@.remove(ip@),
    {
        self.rate_limiter.record_success(ip);
    }
}

impl AuthService for DefaultAuth {
    open spec fn valid(&self) -> bool {
        self.sessions().wf()
    }

    open spec fn held(&self, token: Seq<char>) -> Option<Session> {
        held_in(self.sessions()@, token)
    }

    open spec fn live_at(&self, token: Seq<char>, now: u64) -> bool {
        self.sessions().live_at(token, now)
    }

    /// Creates a session with fresh random tokens and returns its token.
    fn new_session(&mut self, meet_id: String, location_name: String, priority: u8) -> (token: String)
        ensures
            secure_token_text(token@),
            final(self).sessions()@.contains_key(token@),
    {
        self.sm.new_session(meet_id, location_name, priority)
    }

    /// The session of `token`, if it is live now.
    fn get_session(&mut self, token: &str) -> (r: Option<Session>)
        ensures
            final(self).limiter() == old(self).limiter(),
            final(self).sessions().same_limits(&old(self).sessions()),
            exists|now: u64|
                r == (if old(self).sessions().live_at(token@, now) {
                    Some(old(self).sessions()@[token@].session)
                } else {
                    None
                }) && final(self).sessions()@ == (if old(self).sessions().live_at(token@, now) {
                    touch(old(self).sessions()@, token@, now)
                } else {
                    old(self).sessions()@
                }),
    {
        let now = crate::clock::now_millis();
        let r = self.sm.get_session_at(token, now);
        assert(AuthService::live_at(&*old(self), token@, now) == old(self).sessions().live_at(token@, now));
        proof {
            assert forall|t: Seq<char>| #[trigger] held_in(self.sessions()@, t) == held_in(old(self).sessions()@, t) by {
                if t == token@ && old(self).sessions()@.contains_key(t) {
                }
            }
        }
        r
    }

    /// Whether the session of `token` is live now.
    fn validate_session(&mut self, token: &str) -> (ok: bool)
        ensures
            final(self).limiter() == old(self).limiter(),
            final(self).sessions().same_limits(&old(self).sessions()),
            exists|now: u64|
                ok == old(self).sessions().live_at(token@, now) && final(self).sessions()@ == (if ok {
                    touch(old(self).sessions()@, token@, now)
                } else {
                    old(self).sessions()@
                }),
    {
        let now = crate::clock::now_millis();
        let ok = self.sm.validate_session_at(token, now);
        assert(AuthService::live_at(&*old(self), token@, now) == old(self).sessions().live_at(token@, now));
        proof {
            assert forall|t: Seq<char>| #[trigger] held_in(self.sessions()@, t) == held_in(old(self).sessions()@, t) by {
                if t == token@ && old(self).sessions()@.contains_key(t) {
                }
            }
        }
        ok
    }
}

} // verus!
