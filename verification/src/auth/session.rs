//! Session tokens with absolute and idle expiry, CSRF tokens and rotation.
//!
//! Times are milliseconds on the clock of `crate::clock`. Each operation that
//! depends on the time has a form ending in `_at` that takes the time as an
//! argument, and a form without the suffix that reads the clock (and, where a
//! token is made, draws it from the secure random source) and then does the
//! same.
use crate::auth::token_generator::{generate_secure_token, unpadded_len, url_safe_char, DEFAULT_TOKEN_BYTES};
use crate::clock::now_millis;
use crate::error::AppError;
use crate::messages::Session;
use crate::table::{distinct_keys, has_key, lemma_pairs_map, pairs_map, StrMap};
use vstd::prelude::*;

verus! {

/// Absolute maximum session lifetime: 24 hours, in milliseconds.
pub const SESSION_ABSOLUTE_TTL: u64 = 86_400_000;

/// Idle timeout for sessions: one hour, in milliseconds.
pub const SESSION_IDLE_TTL: u64 = 3_600_000;

/// A stored session with its timing and CSRF data.
#[derive(Debug, Clone)]
pub struct SessionEntry {
    /// The session data.
    pub session: Session,
    /// When the session was created.
    pub created_at: u64,
    /// When the session was last used.
    pub last_active: u64,
    /// The session's CSRF token.
    pub csrf_token: String,
    /// Age of the session when it was last exported or restored.
    pub created_at_duration: u64,
    /// Idle time of the session when it was last exported or restored.
    pub last_active_duration: u64,
}

/// The time from `since` to `now`, zero when `now` is earlier.
pub open spec fn elapsed(now: u64, since: u64) -> nat {
    if now >= since {
        (now - since) as nat
    } else {
        0
    }
}

/// A well-formed secure token: the unpadded URL-safe base64 text of
/// `DEFAULT_TOKEN_BYTES` random bytes.
pub open spec fn secure_token_text(t: Seq<char>) -> bool {
    &&& t.len() == unpadded_len(DEFAULT_TOKEN_BYTES as nat)
    &&& forall|i: int| 0 <= i < t.len() ==> url_safe_char(#[trigger] t[i])
}

impl SessionEntry {
    /// Neither the absolute lifetime nor the idle timeout has run out at `now`.
    pub open spec fn live(self, now: u64, absolute_ttl: u64, idle_ttl: u64) -> bool {
        elapsed(now, self.created_at) <= absolute_ttl && elapsed(now, self.last_active) <= idle_ttl
    }

    /// The entry, used at `now`.
    pub open spec fn touched(self, now: u64) -> SessionEntry {
        SessionEntry {
            session: self.session,
            created_at: self.created_at,
            last_active: now,
            csrf_token: self.csrf_token,
            created_at_duration: self.created_at_duration,
            last_active_duration: self.last_active_duration,
        }
    }

    /// The entry with its age and idle time measured at `now`.
    pub open spec fn measured(self, now: u64) -> SessionEntry {
        SessionEntry {
            session: self.session,
            created_at: self.created_at,
            last_active: self.last_active,
            csrf_token: self.csrf_token,
            created_at_duration: elapsed(now, self.created_at) as u64,
            last_active_duration: elapsed(now, self.last_active) as u64,
        }
    }
}

/// Every entry of `m` with its age and idle time measured at `now`.
pub open spec fn measured_all(m: Map<Seq<char>, SessionEntry>, now: u64) -> Map<Seq<char>, SessionEntry> {
    m.map_values(|e: SessionEntry| e.measured(now))
}

/// The entry of a session created at `now`.
pub open spec fn fresh_entry(session: Session, csrf_token: String, now: u64) -> SessionEntry {
    SessionEntry {
        session,
        created_at: now,
        last_active: now,
        csrf_token,
        created_at_duration: 0,
        last_active_duration: 0,
    }
}

/// The entry of a session restored at `now` with the given age and idle time.
pub open spec fn restored_entry(
    session: Session,
    csrf_token: String,
    created_at_duration: u64,
    last_active_duration: u64,
    now: u64,
) -> SessionEntry {
    SessionEntry {
        session,
        created_at: (now - created_at_duration) as u64,
        last_active: (now - last_active_duration) as u64,
        csrf_token,
        created_at_duration,
        last_active_duration,
    }
}

/// The entry that replaces `e` when its session is rotated at `now` to
/// `new_token`: same meet, location, priority and creation time, a new CSRF
/// token, last used now.
pub open spec fn rotated_entry(e: SessionEntry, new_token: String, new_csrf: String, now: u64) -> SessionEntry {
    SessionEntry {
        session: Session {
            token: new_token,
            meet_id: e.session.meet_id,
            location_name: e.session.location_name,
            priority: e.session.priority,
        },
        created_at: e.created_at,
        last_active: now,
        csrf_token: new_csrf,
        created_at_duration: 0,
        last_active_duration: 0,
    }
}

/// `m` with the entry of `token` used at `now`.
pub open spec fn touch(m: Map<Seq<char>, SessionEntry>, token: Seq<char>, now: u64) -> Map<
    Seq<char>,
    SessionEntry,
> {
    m.insert(token, m[token].touched(now))
}

/// The entries of `m` that are live at `now`.
pub open spec fn live_entries(
    m: Map<Seq<char>, SessionEntry>,
    now: u64,
    absolute_ttl: u64,
    idle_ttl: u64,
) -> Map<Seq<char>, SessionEntry> {
    m.restrict(m.dom().filter(|k: Seq<char>| m[k].live(now, absolute_ttl, idle_ttl)))
}

/// A session created at time `now` is valid at any later time `later` that
/// is within both the absolute lifetime and the idle timeout of its creation.
pub proof fn lemma_new_session_valid(
    m: Map<Seq<char>, SessionEntry>,
    s: Session,
    csrf: String,
    now: u64,
    later: u64,
    absolute_ttl: u64,
    idle_ttl: u64,
)
    requires
        now <= later,
        later - now <= absolute_ttl,
        later - now <= idle_ttl,
    ensures
        m.insert(s.token@, fresh_entry(s, csrf, now)).contains_key(s.token@),
        m.insert(s.token@, fresh_entry(s, csrf, now))[s.token@].live(later, absolute_ttl, idle_ttl),
{
}

/// A session is refused once it has been idle longer than the idle timeout,
/// or has lived longer than the absolute lifetime, however recently it was used.
pub proof fn lemma_expired_session_refused(e: SessionEntry, now: u64, absolute_ttl: u64, idle_ttl: u64)
    requires
        elapsed(now, e.last_active) > idle_ttl || elapsed(now, e.created_at) > absolute_ttl,
    ensures
        !e.live(now, absolute_ttl, idle_ttl),
{
}

/// Rotation retires the old token; the new token carries the same meet,
/// location and priority, and at the moment of rotation it is valid exactly
/// when the session has not outlived its absolute lifetime.
pub proof fn lemma_rotation(
    m: Map<Seq<char>, SessionEntry>,
    old_token: Seq<char>,
    new_token: String,
    new_csrf: String,
    now: u64,
    absolute_ttl: u64,
    idle_ttl: u64,
)
    requires
        m.contains_key(old_token),
        new_token@ != old_token,
    ensures
        ({
            let r = m.remove(old_token).insert(new_token@, rotated_entry(m[old_token], new_token, new_csrf, now));
            &&& !r.contains_key(old_token)
            &&& r.contains_key(new_token@)
            &&& r[new_token@].session.token == new_token
            &&& r[new_token@].session.meet_id == m[old_token].session.meet_id
            &&& r[new_token@].session.location_name == m[old_token].session.location_name
            &&& r[new_token@].session.priority == m[old_token].session.priority
            &&& r[new_token@].live(now, absolute_ttl, idle_ttl) <==> elapsed(now, m[old_token].created_at)
                <= absolute_ttl
        }),
{
}

/// After a cleanup at `now`, a session remains exactly when it is valid at
/// `now`, unchanged; a second cleanup at the same time removes nothing.
pub proof fn lemma_cleanup_keeps_live(
    m: Map<Seq<char>, SessionEntry>,
    now: u64,
    absolute_ttl: u64,
    idle_ttl: u64,
)
    ensures
        forall|k: Seq<char>|
            #[trigger] live_entries(m, now, absolute_ttl, idle_ttl).contains_key(k) <==> (m.contains_key(k)
                && m[k].live(now, absolute_ttl, idle_ttl)),
        forall|k: Seq<char>|
            #[trigger] live_entries(m, now, absolute_ttl, idle_ttl).contains_key(k) ==> live_entries(
                m,
                now,
                absolute_ttl,
                idle_ttl,
            )[k] == m[k],
        live_entries(live_entries(m, now, absolute_ttl, idle_ttl), now, absolute_ttl, idle_ttl)
            == live_entries(m, now, absolute_ttl, idle_ttl),
{
    let l = live_entries(m, now, absolute_ttl, idle_ttl);
    assert(live_entries(l, now, absolute_ttl, idle_ttl) =~= l);
}

/// The CSRF token handed out for a session (which marks it as used at
/// `now`) verifies at that same time exactly when the session has not
/// outlived its absolute lifetime; any other text is refused.
pub proof fn lemma_csrf_round_trip(
    m: Map<Seq<char>, SessionEntry>,
    token: Seq<char>,
    other: Seq<char>,
    now: u64,
    absolute_ttl: u64,
    idle_ttl: u64,
)
    requires
        m.contains_key(token),
        other != m[token].csrf_token@,
    ensures
        ({
            let used = touch(m, token, now);
            &&& used[token].csrf_token == m[token].csrf_token
            &&& (used[token].live(now, absolute_ttl, idle_ttl) && used[token].csrf_token@ == m[token].csrf_token@)
                <==> elapsed(now, m[token].created_at) <= absolute_ttl
            &&& !(used[token].live(now, absolute_ttl, idle_ttl) && used[token].csrf_token@ == other)
        }),
{
}

/// The time from `since` to `now`, zero when `now` is earlier.
fn elapsed_ms(now: u64, since: u64) -> (d: u64)
    ensures
        d == elapsed(now, since),
{
    if now >= since {
        now - since
    } else {
        0
    }
}

/// A copy of a session.
fn copy_session(s: &Session) -> (r: Session)
    ensures
        r == *s,
{
    Session {
        token: s.token.clone(),
        meet_id: s.meet_id.clone(),
        location_name: s.location_name.clone(),
        priority: s.priority,
    }
}

/// A copy of a session entry.
fn copy_entry(e: &SessionEntry) -> (r: SessionEntry)
    ensures
        r == *e,
{
    SessionEntry {
        session: copy_session(&e.session),
        created_at: e.created_at,
        last_active: e.last_active,
        csrf_token: e.csrf_token.clone(),
        created_at_duration: e.created_at_duration,
        last_active_duration: e.last_active_duration,
    }
}

/// Compares two strings byte by byte without stopping at the first
/// difference, so that the time taken does not tell where they differ.
pub fn constant_time_compare(a: &str, b: &str) -> (same: bool)
    ensures
        same == (a@ == b@),
{
    let a_bytes = a.as_bytes();
    let b_bytes = b.as_bytes();
    proof {
        vstd::utf8::encode_utf8_decode_utf8(a@);
        vstd::utf8::encode_utf8_decode_utf8(b@);
    }
    if a_bytes.len() != b_bytes.len() {
        assert(a@ != b@);
        return false;
    }
    let mut result: u8 = 0;
    let mut i: usize = 0;
    while i < a_bytes.len()
        invariant
            a_bytes.len() == b_bytes.len(),
            i <= a_bytes.len(),
            result == 0 <==> forall|j: int| 0 <= j < i ==> a_bytes@[j] == b_bytes@[j],
        decreases a_bytes.len() - i,
    {
        let x = a_bytes[i];
        let y = b_bytes[i];
        let next = result | (x ^ y);
        assert(next == 0 <==> (result == 0 && x == y)) by (bit_vector)
            requires
                next == result | (x ^ y),
        ;
        proof {
            if next == 0 {
                assert forall|j: int| 0 <= j < i + 1 implies a_bytes@[j] == b_bytes@[j] by {
                    if j < i {
                    }
                }
            }
        }
        result = next;
        i = i + 1;
    }
    if result == 0 {
        assert(a_bytes@ =~= b_bytes@);
        true
    } else {
        false
    }
}

/// Sessions by token.
pub struct SessionManager {
    sessions: StrMap<SessionEntry>,
    absolute_ttl: u64,
    idle_ttl: u64,
}

impl View for SessionManager {
    type V = Map<Seq<char>, SessionEntry>;

    closed spec fn view(&self) -> Map<Seq<char>, SessionEntry> {
        self.sessions.map()
    }
}

impl SessionManager {
    /// The table of sessions is well formed.
    pub closed spec fn wf(&self) -> bool {
        self.sessions.wf()
    }

    /// The absolute session lifetime.
    pub closed spec fn absolute_limit(&self) -> u64 {
        self.absolute_ttl
    }

    /// The idle timeout.
    pub closed spec fn idle_limit(&self) -> u64 {
        self.idle_ttl
    }

    /// The session of `token` exists and is live at `now`.
    pub open spec fn live_at(&self, token: Seq<char>, now: u64) -> bool {
        self@.contains_key(token) && self@[token].live(now, self.absolute_limit(), self.idle_limit())
    }

    /// `other` has the same timeouts.
    pub open spec fn same_limits(&self, other: &SessionManager) -> bool {
        self.absolute_limit() == other.absolute_limit() && self.idle_limit() == other.idle_limit()
    }

    /// An empty manager with the default timeouts.
    pub fn new() -> (m: Self)
        ensures
            m.wf(),
            m@ == Map::<Seq<char>, SessionEntry>::empty(),
            m.absolute_limit() == SESSION_ABSOLUTE_TTL,
            m.idle_limit() == SESSION_IDLE_TTL,
    {
        SessionManager { sessions: StrMap::new(), absolute_ttl: SESSION_ABSOLUTE_TTL, idle_ttl: SESSION_IDLE_TTL }
    }

    /// An empty manager with the given timeouts.
    pub fn new_with_timeouts(absolute_ttl: u64, idle_ttl: u64) -> (m: Self)
        ensures
            m.wf(),
            m@ == Map::<Seq<char>, SessionEntry>::empty(),
            m.absolute_limit() == absolute_ttl,
            m.idle_limit() == idle_ttl,
    {
        SessionManager { sessions: StrMap::new(), absolute_ttl, idle_ttl }
    }

    /// Whether `e` is live at `now` under this manager's timeouts.
    fn entry_live(&self, e: &SessionEntry, now: u64) -> (b: bool)
        ensures
            b == e.live(now, self.absolute_limit(), self.idle_limit()),
    {
        elapsed_ms(now, e.created_at) <= self.absolute_ttl && elapsed_ms(now, e.last_active) <= self.idle_ttl
    }

    /// Marks the session of `token`, which exists, as used at `now`.
    fn touch_entry(&mut self, token: &str, now: u64)
        requires
            old(self).wf(),
            old(self)@.contains_key(token@),
        ensures
            final(self).wf(),
            final(self).same_limits(old(self)),
            final(self)@ == touch(old(self)@, token@, now),
    {
        let e = match self.sessions.get(token) {
            Some(e) => copy_entry(e),
            None => {
                return;
            },
        };
        let updated = SessionEntry {
            session: e.session,
            created_at: e.created_at,
            last_active: now,
            csrf_token: e.csrf_token,
            created_at_duration: e.created_at_duration,
            last_active_duration: e.last_active_duration,
        };
        self.sessions.insert(token.to_owned(), updated);
    }

    /// Registers a new session for `meet_id` at `location_name` under the
    /// given session and CSRF tokens, created at `now`.
    pub fn create_session_at(
        &mut self,
        meet_id: String,
        location_name: String,
        priority: u8,
        token: String,
        csrf_token: String,
        now: u64,
    ) -> (s: Session)
        requires
            old(self).wf(),
        ensures
            final(self).wf(),
            final(self).same_limits(old(self)),
            s == (Session { token, meet_id, location_name, priority }),
            final(self)@ == old(self)@.insert(token@, fresh_entry(s, csrf_token, now)),
    {
        let key = token.clone();
        let session = Session { token, meet_id, location_name, priority };
        let entry = SessionEntry {
            session: copy_session(&session),
            created_at: now,
            last_active: now,
            csrf_token,
            created_at_duration: 0,
            last_active_duration: 0,
        };
        self.sessions.insert(key, entry);
        session
    }

    /// Creates a session with fresh random session and CSRF tokens, at the
    /// current time.
    pub fn create_session(&mut self, meet_id: String, location_name: String, priority: u8) -> (s: Session)
        requires
            old(self).wf(),
        ensures
            final(self).wf(),
            final(self).same_limits(old(self)),
            s.meet_id == meet_id && s.location_name == location_name && s.priority == priority,
            secure_token_text(s.token@),
            exists|csrf: String, now: u64|
                secure_token_text(csrf@) && final(self)@ == old(self)@.insert(s.token@, fresh_entry(s, csrf, now)),
    {
        let token = generate_secure_token();
        let csrf_token = generate_secure_token();
        let now = now_millis();
        let ghost csrf = csrf_token;
        let s = self.create_session_at(meet_id, location_name, priority, token, csrf_token, now);
        assert(secure_token_text(csrf@) && final(self)@ == old(self)@.insert(s.token@, fresh_entry(s, csrf, now)));
        s
    }

    /// Restores a session that was `created_at_duration` old and idle for
    /// `last_active_duration` at `now`.
    pub fn add_session_at(
        &mut self,
        token: String,
        session: Session,
        created_at_duration: u64,
        last_active_duration: u64,
        csrf_token: String,
        now: u64,
    )
        requires
            old(self).wf(),
            created_at_duration <= now,
            last_active_duration <= now,
        ensures
            final(self).wf(),
            final(self).same_limits(old(self)),
            final(self)@ == old(self)@.insert(
                token@,
                restored_entry(session, csrf_token, created_at_duration, last_active_duration, now),
            ),
    {
        let entry = SessionEntry {
            session,
            created_at: now - created_at_duration,
            last_active: now - last_active_duration,
            csrf_token,
            created_at_duration,
            last_active_duration,
        };
        self.sessions.insert(token, entry);
    }

    /// Restores a session at the current time. A duration longer than the
    /// clock's reading cannot be placed on it: the manager is left as it was
    /// and an `Internal` error is returned.
    pub fn add_session(
        &mut self,
        token: String,
        session: Session,
        created_at_duration: u64,
        last_active_duration: u64,
        csrf_token: String,
    ) -> (r: Result<(), AppError>)
        requires
            old(self).wf(),
        ensures
            final(self).wf(),
            final(self).same_limits(old(self)),
            r is Err ==> final(self)@ == old(self)@ && r->Err_0 is Internal,
            r is Ok ==> exists|now: u64|
                created_at_duration <= now && last_active_duration <= now && final(self)@
                    == old(self)@.insert(
                    token@,
                    restored_entry(session, csrf_token, created_at_duration, last_active_duration, now),
                ),
    {
        let now = now_millis();
        if created_at_duration > now || last_active_duration > now {
            return Err(AppError::Internal("session is older than the clock".to_string()));
        }
        self.add_session_at(token, session, created_at_duration, last_active_duration, csrf_token, now);
        Ok(())
    }

    /// All sessions, each with its age and idle time measured at `now`.
    pub fn get_all_sessions_at(&self, now: u64) -> (r: StrMap<SessionEntry>)
        requires
            self.wf(),
        ensures
            r.wf(),
            r.map() == measured_all(self@, now),
    {
        let entries = self.sessions.entries();
        let mut out: Vec<(String, SessionEntry)> = Vec::new();
        let mut i: usize = 0;
        while i < entries.len()
            invariant
                entries@ == self.sessions.pairs(),
                i <= entries@.len(),
                out@.len() == i,
                forall|j: int| 0 <= j < i ==> #[trigger] out@[j].0@ == entries@[j].0@,
                forall|j: int| 0 <= j < i ==> #[trigger] out@[j].1 == entries@[j].1.measured(now),
            decreases entries@.len() - i,
        {
            let (k, e) = &entries[i];
            let measured = SessionEntry {
                session: copy_session(&e.session),
                created_at: e.created_at,
                last_active: e.last_active,
                csrf_token: e.csrf_token.clone(),
                created_at_duration: elapsed_ms(now, e.created_at),
                last_active_duration: elapsed_ms(now, e.last_active),
            };
            out.push((k.clone(), measured));
            i = i + 1;
        }
        proof {
            let src = self.sessions.pairs();
            let dst = out@;
            assert(distinct_keys(dst)) by {
                assert forall|a: int, b: int| 0 <= a < dst.len() && 0 <= b < dst.len() && a != b
                    implies #[trigger] dst[a].0@ != #[trigger] dst[b].0@ by {
                    assert(dst[a].0@ == src[a].0@);
                    assert(dst[b].0@ == src[b].0@);
                }
            }
            lemma_pairs_map(src);
            lemma_pairs_map(dst);
            assert forall|k: Seq<char>| pairs_map(dst).dom().contains(k) <==> pairs_map(src).dom().contains(k) by {
                if has_key(dst, k) {
                    let j = choose|j: int| 0 <= j < dst.len() && #[trigger] dst[j].0@ == k;
                    assert(src[j].0@ == k);
                }
                if has_key(src, k) {
                    let j = choose|j: int| 0 <= j < src.len() && #[trigger] src[j].0@ == k;
                    assert(dst[j].0@ == k);
                }
            }
            assert(pairs_map(dst).dom() =~= pairs_map(src).dom());
            assert forall|k: Seq<char>| #[trigger] pairs_map(dst).contains_key(k) implies pairs_map(dst)[k]
                == pairs_map(src)[k].measured(now) by {
                let j = choose|j: int| 0 <= j < dst.len() && #[trigger] dst[j].0@ == k;
                assert(src[j].0@ == k);
                assert(pairs_map(dst)[dst[j].0@] == dst[j].1);
                assert(pairs_map(src)[src[j].0@] == src[j].1);
            }
            assert(pairs_map(dst) =~= measured_all(pairs_map(src), now));
        }
        StrMap::from_pairs(out)
    }

    /// All sessions, each with its age and idle time measured at the current time.
    pub fn get_all_sessions(&self) -> (r: StrMap<SessionEntry>)
        requires
            self.wf(),
        ensures
            r.wf(),
            exists|now: u64| r.map() == #[trigger] measured_all(self@, now),
    {
        let now = now_millis();
        self.get_all_sessions_at(now)
    }

    /// The CSRF token of the session of `token`, which is marked as used at
    /// `now` whether or not it has expired.
    pub fn get_csrf_token_at(&mut self, token: &str, now: u64) -> (r: Option<String>)
        requires
            old(self).wf(),
        ensures
            final(self).wf(),
            final(self).same_limits(old(self)),
            r == (if old(self)@.contains_key(token@) {
                Some(old(self)@[token@].csrf_token)
            } else {
                None
            }),
            final(self)@ == (if old(self)@.contains_key(token@) {
                touch(old(self)@, token@, now)
            } else {
                old(self)@
            }),
    {
        let csrf = match self.sessions.get(token) {
            Some(e) => e.csrf_token.clone(),
            None => {
                return None;
            },
        };
        self.touch_entry(token, now);
        Some(csrf)
    }

    /// The CSRF token of the session of `token`, at the current time.
    pub fn get_csrf_token(&mut self, token: &str) -> (r: Option<String>)
        requires
            old(self).wf(),
        ensures
            final(self).wf(),
            final(self).same_limits(old(self)),
            r == (if old(self)@.contains_key(token@) {
                Some(old(self)@[token@].csrf_token)
            } else {
                None
            }),
            !old(self)@.contains_key(token@) ==> final(self)@ == old(self)@,
            old(self)@.contains_key(token@) ==> exists|now: u64|
                final(self)@ == #[trigger] touch(old(self)@, token@, now),
    {
        let now = now_millis();
        self.get_csrf_token_at(token, now)
    }

    /// The session of `token` if it is live at `now`, which then counts as
    /// a use. An expired session is left in place.
    pub fn get_session_at(&mut self, token: &str, now: u64) -> (r: Option<Session>)
        requires
            old(self).wf(),
        ensures
            final(self).wf(),
            final(self).same_limits(old(self)),
            r == (if old(self).live_at(token@, now) {
                Some(old(self)@[token@].session)
            } else {
                None
            }),
            final(self)@ == (if old(self).live_at(token@, now) {
                touch(old(self)@, token@, now)
            } else {
                old(self)@
            }),
    {
        let session = match self.sessions.get(token) {
            Some(e) => {
                if !self.entry_live(e, now) {
                    return None;
                }
                copy_session(&e.session)
            },
            None => {
                return None;
            },
        };
        self.touch_entry(token, now);
        Some(session)
    }

    /// The session of `token` if it is live at the current time.
    pub fn get_session(&mut self, token: &str) -> (r: Option<Session>)
        requires
            old(self).wf(),
        ensures
            final(self).wf(),
            final(self).same_limits(old(self)),
            exists|now: u64|
                r == (if old(self).live_at(token@, now) {
                    Some(old(self)@[token@].session)
                } else {
                    None
                }) && final(self)@ == (if old(self).live_at(token@, now) {
                    touch(old(self)@, token@, now)
                } else {
                    old(self)@
                }),
    {
        let now = now_millis();
        self.get_session_at(token, now)
    }

    /// Whether the session of `token` is live at `now`; if so it counts as a use.
    pub fn validate_session_at(&mut self, token: &str, now: u64) -> (ok: bool)
        requires
            old(self).wf(),
        ensures
            final(self).wf(),
            final(self).same_limits(old(self)),
            ok == old(self).live_at(token@, now),
            final(self)@ == (if ok {
                touch(old(self)@, token@, now)
            } else {
                old(self)@
            }),
    {
        let live = match self.sessions.get(token) {
            Some(e) => self.entry_live(e, now),
            None => false,
        };
        if live {
            self.touch_entry(token, now);
        }
        live
    }

    /// Whether the session of `token` is live at the current time.
    pub fn validate_session(&mut self, token: &str) -> (ok: bool)
        requires
            old(self).wf(),
        ensures
            final(self).wf(),
            final(self).same_limits(old(self)),
            exists|now: u64|
                ok == old(self).live_at(token@, now) && final(self)@ == (if ok {
                    touch(old(self)@, token@, now)
                } else {
                    old(self)@
                }),
    {
        let now = now_millis();
        self.validate_session_at(token, now)
    }

    /// Removes the session of `token`, if there is one.
    pub fn remove_session(&mut self, token: &str)
        requires
            old(self).wf(),
        ensures
            final(self).wf(),
            final(self).same_limits(old(self)),
            final(self)@ == old(self)@.remove(token@),
    {
        let _ = self.sessions.remove(token);
    }

    /// Moves the session of `old_token` to `new_token` with the CSRF token
    /// `new_csrf`, keeping its meet, location, priority and creation time and
    /// marking it as used at `now`. Expiry is not checked.
    pub fn rotate_session_at(&mut self, old_token: &str, new_token: String, new_csrf: String, now: u64) -> (r:
        Option<String>)
        requires
            old(self).wf(),
        ensures
            final(self).wf(),
            final(self).same_limits(old(self)),
            r == (if old(self)@.contains_key(old_token@) {
                Some(new_token)
            } else {
                None
            }),
            final(self)@ == (if old(self)@.contains_key(old_token@) {
                old(self)@.remove(old_token@).insert(
                    new_token@,
                    rotated_entry(old(self)@[old_token@], new_token, new_csrf, now),
                )
            } else {
                old(self)@
            }),
    {
        let e = match self.sessions.remove(old_token) {
            Some(e) => e,
            None => {
                return None;
            },
        };
        let session = Session {
            token: new_token.clone(),
            meet_id: e.session.meet_id,
            location_name: e.session.location_name,
            priority: e.session.priority,
        };
        let entry = SessionEntry {
            session,
            created_at: e.created_at,
            last_active: now,
            csrf_token: new_csrf,
            created_at_duration: 0,
            last_active_duration: 0,
        };
        self.sessions.insert(new_token.clone(), entry);
        Some(new_token)
    }

    /// Moves the session of `old_token` to a fresh random token with a fresh
    /// CSRF token, at the current time.
    pub fn rotate_session(&mut self, old_token: &str) -> (r: Option<String>)
        requires
            old(self).wf(),
        ensures
            final(self).wf(),
            final(self).same_limits(old(self)),
            r is Some <==> old(self)@.contains_key(old_token@),
            r is None ==> final(self)@ == old(self)@,
            r matches Some(t) ==> secure_token_text(t@) && exists|new_csrf: String, now: u64|
                secure_token_text(new_csrf@) && final(self)@ == old(self)@.remove(old_token@).insert(
                    t@,
                    rotated_entry(old(self)@[old_token@], t, new_csrf, now),
                ),
    {
        if self.sessions.get(old_token).is_none() {
            return None;
        }
        let new_token = generate_secure_token();
        let new_csrf = generate_secure_token();
        let now = now_millis();
        let ghost csrf = new_csrf;
        let r = self.rotate_session_at(old_token, new_token, new_csrf, now);
        proof {
            let t = r->Some_0;
            assert(secure_token_text(csrf@) && final(self)@ == old(self)@.remove(old_token@).insert(
                t@,
                rotated_entry(old(self)@[old_token@], t, csrf, now),
            ));
        }
        r
    }

    /// Removes every session that has expired at `now`, returning how many
    /// were removed.
    pub fn cleanup_expired_sessions_at(&mut self, now: u64) -> (removed: usize)
        requires
            old(self).wf(),
        ensures
            final(self).wf(),
            final(self).same_limits(old(self)),
            final(self)@ == live_entries(old(self)@, now, old(self).absolute_limit(), old(self).idle_limit()),
            removed == old(self)@.len() - final(self)@.len(),
    {
        let ghost before = self.sessions.pairs();
        let mut kept: Vec<(String, SessionEntry)> = Vec::new();
        let ghost mut idx: Seq<int> = Seq::empty();
        let mut removed: usize = 0;
        let mut i: usize = 0;
        let n = self.sessions.len();
        while i < n
            invariant
                self.sessions.pairs() == before,
                self.wf(),
                n == before.len(),
                i <= n,
                idx.len() == kept@.len(),
                removed + kept@.len() == i,
                forall|a: int| 0 <= a < idx.len() ==> 0 <= #[trigger] idx[a] < i,
                forall|a: int, b: int| 0 <= a < b < idx.len() ==> #[trigger] idx[a] < #[trigger] idx[b],
                forall|a: int| 0 <= a < idx.len() ==> #[trigger] kept@[a] == before[idx[a]],
                forall|a: int|
                    0 <= a < idx.len() ==> (#[trigger] before[idx[a]]).1.live(
                        now,
                        self.absolute_ttl,
                        self.idle_ttl,
                    ),
                forall|j: int|
                    0 <= j < i && (#[trigger] before[j]).1.live(now, self.absolute_ttl, self.idle_ttl)
                        ==> exists|a: int| 0 <= a < idx.len() && idx[a] == j,
            decreases n - i,
        {
            let entries = self.sessions.entries();
            let (k, e) = &entries[i];
            if self.entry_live(e, now) {
                kept.push((k.clone(), copy_entry(e)));
                proof {
                    let prev = idx;
                    idx = idx.push(i as int);
                    assert(kept@[idx.len() - 1] == before[i as int]);
                    assert forall|j: int|
                        0 <= j < i + 1 && (#[trigger] before[j]).1.live(now, self.absolute_ttl, self.idle_ttl)
                            implies exists|a: int| 0 <= a < idx.len() && idx[a] == j by {
                        if j == i {
                            assert(idx[idx.len() - 1] == j);
                        } else {
                            let a = choose|a: int| 0 <= a < prev.len() && prev[a] == j;
                            assert(idx[a] == j);
                        }
                    }
                }
            } else {
                removed = removed + 1;
            }
            i = i + 1;
        }
        proof {
            let after = kept@;
            lemma_pairs_map(before);
            assert(distinct_keys(after)) by {
                assert forall|a: int, b: int| 0 <= a < after.len() && 0 <= b < after.len() && a != b
                    implies #[trigger] after[a].0@ != #[trigger] after[b].0@ by {
                    assert(after[a] == before[idx[a]]);
                    assert(after[b] == before[idx[b]]);
                    if a < b {
                        assert(idx[a] < idx[b]);
                    } else {
                        assert(idx[b] < idx[a]);
                    }
                }
            }
            lemma_pairs_map(after);
            let m = pairs_map(before);
            let target = live_entries(m, now, self.absolute_ttl, self.idle_ttl);
            assert forall|k: Seq<char>| pairs_map(after).dom().contains(k) <==> target.dom().contains(k) by {
                if has_key(after, k) {
                    let a = choose|a: int| 0 <= a < after.len() && #[trigger] after[a].0@ == k;
                    assert(after[a] == before[idx[a]]);
                    assert(m[before[idx[a]].0@] == before[idx[a]].1);
                }
                if target.dom().contains(k) {
                    let j = choose|j: int| 0 <= j < before.len() && #[trigger] before[j].0@ == k;
                    assert(m[before[j].0@] == before[j].1);
                    assert(before[j].1.live(now, self.absolute_ttl, self.idle_ttl));
                    let a = choose|a: int| 0 <= a < idx.len() && idx[a] == j;
                    assert(after[a] == before[idx[a]]);
                    assert(has_key(after, k));
                }
            }
            assert(pairs_map(after).dom() =~= target.dom());
            assert forall|k: Seq<char>| #[trigger] pairs_map(after).contains_key(k) implies pairs_map(after)[k]
                == target[k] by {
                let a = choose|a: int| 0 <= a < after.len() && #[trigger] after[a].0@ == k;
                assert(after[a] == before[idx[a]]);
                assert(pairs_map(after)[after[a].0@] == after[a].1);
                assert(m[before[idx[a]].0@] == before[idx[a]].1);
            }
            assert(pairs_map(after) =~= target);
        }
        self.sessions = StrMap::from_pairs(kept);
        removed
    }

    /// Removes every session that has expired at the current time, returning
    /// how many were removed.
    pub fn cleanup_expired_sessions(&mut self) -> (removed: usize)
        requires
            old(self).wf(),
        ensures
            final(self).wf(),
            final(self).same_limits(old(self)),
            exists|now: u64|
                final(self)@ == live_entries(old(self)@, now, old(self).absolute_limit(), old(self).idle_limit()),
            removed == old(self)@.len() - final(self)@.len(),
    {
        let now = now_millis();
        self.cleanup_expired_sessions_at(now)
    }

    /// The number of stored sessions, expired ones included.
    pub fn active_session_count(&self) -> (n: usize)
        requires
            self.wf(),
        ensures
            n == self@.len(),
    {
        self.sessions.len()
    }

    /// Whether the session of `session_token` is live at `now` and its CSRF
    /// token is `csrf_token`, compared in constant time. A live session
    /// counts as used, whichever the answer.
    pub fn verify_csrf_token_at(&mut self, session_token: &str, csrf_token: &str, now: u64) -> (ok: bool)
        requires
            old(self).wf(),
        ensures
            final(self).wf(),
            final(self).same_limits(old(self)),
            ok == (old(self).live_at(session_token@, now) && old(self)@[session_token@].csrf_token@ == csrf_token@),
            final(self)@ == (if old(self).live_at(session_token@, now) {
                touch(old(self)@, session_token@, now)
            } else {
                old(self)@
            }),
    {
        let expected = match self.sessions.get(session_token) {
            Some(e) => {
                if !self.entry_live(e, now) {
                    return false;
                }
                e.csrf_token.clone()
            },
            None => {
                return false;
            },
        };
        self.touch_entry(session_token, now);
        constant_time_compare(expected.as_str(), csrf_token)
    }

    /// Whether the session of `session_token` is live at the current time and
    /// its CSRF token is `csrf_token`.
    pub fn verify_csrf_token(&mut self, session_token: &str, csrf_token: &str) -> (ok: bool)
        requires
            old(self).wf(),
        ensures
            final(self).wf(),
            final(self).same_limits(old(self)),
            exists|now: u64|
                ok == (old(self).live_at(session_token@, now) && old(self)@[session_token@].csrf_token@
                    == csrf_token@) && final(self)@ == (if old(self).live_at(session_token@, now) {
                    touch(old(self)@, session_token@, now)
                } else {
                    old(self)@
                }),
    {
        let now = now_millis();
        self.verify_csrf_token_at(session_token, csrf_token, now)
    }
}

} // verus!
