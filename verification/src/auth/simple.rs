//! A plain session store: UUID tokens that expire a day after they are
//! issued, and scrypt password hashing. Times are milliseconds; each
//! operation that reads the time has a form ending in `_at` that takes it.
use crate::auth::password::{hash_password as scrypt_hash_password, phc_parses, scrypt_accepts, scrypt_verify};
use crate::clock::now_millis;
use crate::error::AppError;
use crate::messages::{new_uuid_string, uuid_hyphenated};
use crate::table::StrMap;
use vstd::prelude::*;

verus! {

/// How long a session lasts: 24 hours, in milliseconds.
pub const SESSION_LIFETIME: u64 = 86_400_000;

/// A session of a location of a meet.
#[derive(Debug, Clone)]
pub struct Session {
    pub meet_id: String,
    pub location_name: String,
    pub priority: u8,
    /// When the session was issued.
    pub created_at: u64,
    /// When the session stops being valid.
    pub expires_at: u64,
}

/// The expiry of a session issued at `now`: a day later, or the end of the
/// clock's range.
pub open spec fn expiry_after(now: u64) -> u64 {
    if now + SESSION_LIFETIME > u64::MAX {
        u64::MAX
    } else {
        (now + SESSION_LIFETIME) as u64
    }
}

/// The session of `token` exists in `m` and has not expired at `now`.
pub open spec fn valid_at(m: Map<Seq<char>, Session>, token: Seq<char>, now: u64) -> bool {
    m.contains_key(token) && now < m[token].expires_at
}

/// A copy of a session.
fn copy_session(s: &Session) -> (r: Session)
    ensures
        r == *s,
{
    Session {
        meet_id: s.meet_id.clone(),
        location_name: s.location_name.clone(),
        priority: s.priority,
        created_at: s.created_at,
        expires_at: s.expires_at,
    }
}

/// Sessions by token.
pub struct SessionManager {
    sessions: StrMap<Session>,
}

impl View for SessionManager {
    type V = Map<Seq<char>, Session>;

    closed spec fn view(&self) -> Map<Seq<char>, Session> {
        self.sessions.map()
    }
}

impl SessionManager {
    /// The table of sessions is well formed.
    pub closed spec fn wf(&self) -> bool {
        self.sessions.wf()
    }

    /// An empty store.
    pub fn new() -> (m: Self)
        ensures
            m.wf(),
            m@ == Map::<Seq<char>, Session>::empty(),
    {
        SessionManager { sessions: StrMap::new() }
    }

    /// Hashes a password with scrypt and a random salt.
    pub fn hash_password(plain: &str) -> (r: Result<String, AppError>)
        ensures
            r is Ok,
            r matches Ok(h) ==> h@.len() >= 8 && h@.take(8) == "$scrypt$"@ && scrypt_accepts(h@, plain@),
    {
        scrypt_hash_password(plain)
    }

    /// Whether `plain` matches the scrypt hash `hash`.
    pub fn verify_password(hash: &str, plain: &str) -> (ok: bool)
        ensures
            ok == scrypt_accepts(hash@, plain@),
            !phc_parses(hash@) ==> !ok,
            ok ==> hash@.len() > 0 && hash@[0] == '$',
    {
        scrypt_verify(hash, plain)
    }

    /// Issues a session with a fresh random UUID token at `now`.
    pub fn new_session_at(&mut self, meet_id: String, location_name: String, priority: u8, now: u64) -> (token: String)
        requires
            old(self).wf(),
        ensures
            final(self).wf(),
            uuid_hyphenated(token@),
            final(self)@ == old(self)@.insert(
                token@,
                Session { meet_id, location_name, priority, created_at: now, expires_at: expiry_after(now) },
            ),
    {
        let token = new_uuid_string();
        let expires_at: u64 = if now > u64::MAX - SESSION_LIFETIME {
            u64::MAX
        } else {
            now + SESSION_LIFETIME
        };
        let session = Session { meet_id, location_name, priority, created_at: now, expires_at };
        self.sessions.insert(token.clone(), session);
        token
    }

    /// Issues a session with a fresh random UUID token at the current time.
    pub fn new_session(&mut self, meet_id: String, location_name: String, priority: u8) -> (token: String)
        requires
            old(self).wf(),
        ensures
            final(self).wf(),
            uuid_hyphenated(token@),
            exists|now: u64|
                final(self)@ == old(self)@.insert(
                    token@,
                    Session { meet_id, location_name, priority, created_at: now, expires_at: #[trigger] expiry_after(now) },
                ),
    {
        self.new_session_at(meet_id, location_name, priority, now_millis())
    }

    /// The session of `token`, expired or not.
    pub fn get(&self, token: &str) -> (r: Option<Session>)
        requires
            self.wf(),
        ensures
            r == (if self@.contains_key(token@) {
                Some(self@[token@])
            } else {
                None
            }),
    {
        match self.sessions.get(token) {
            Some(s) => Some(copy_session(s)),
            None => None,
        }
    }

    /// Whether the session of `token` exists and has not expired at `now`.
    pub fn validate_session_at(&self, token: &str, now: u64) -> (ok: bool)
        requires
            self.wf(),
        ensures
            ok == valid_at(self@, token@, now),
    {
        match self.sessions.get(token) {
            Some(s) => now < s.expires_at,
            None => false,
        }
    }

    /// Whether the session of `token` exists and has not expired now.
    pub fn validate_session(&self, token: &str) -> (ok: bool)
        requires
            self.wf(),
        ensures
            ok ==> self@.contains_key(token@),
            exists|now: u64| ok == #[trigger] valid_at(self@, token@, now),
    {
        let now = now_millis();
        let ok = self.validate_session_at(token, now);
        assert(ok == valid_at(self@, token@, now));
        ok
    }
}

/// A session issued at `now` is valid at any time before a day has passed,
/// and invalid from then on (unless the clock's range ends first).
pub proof fn lemma_session_lifetime(now: u64, later: u64)
    requires
        now + SESSION_LIFETIME <= u64::MAX,
    ensures
        (now <= later && later < now + SESSION_LIFETIME) ==> later < expiry_after(now),
        later >= now + SESSION_LIFETIME ==> !(later < expiry_after(now)),
{
}

} // verus!
