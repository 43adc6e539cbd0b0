//! The decisions of a meet client's WebSocket connection: which response a
//! message gets, which updates are relayed to the other clients, when to
//! wait and retry after a session seems lost, and what an error tells the
//! client.
//!
//! The connection itself (the channels to the clients, the waiting) is the
//! caller's: each decision is a `HandlerStep` for it to carry out.
use crate::auth::service::AuthService;
use crate::conflict::resolve_conflicts;
use crate::error::AppError;
use crate::messages::{new_uuid_string, uuid_hyphenated, ClientMessage, ServerMessage, Session, Update, UpdateWithMetadata};
use vstd::prelude::*;

verus! {

/// Reconnection attempts allowed before a session is given up.
pub const MAX_RECONNECT_ATTEMPTS: u8 = 5;

/// Base delay between reconnection attempts, in milliseconds.
pub const RECONNECT_DELAY_MS: u64 = 1000;

/// What the connection does next.
#[derive(Debug)]
pub enum HandlerStep {
    /// Send this response to the client.
    Respond(ServerMessage),
    /// Relay `updates` to the meet's other clients, then send `response`.
    Broadcast { meet_id: String, updates: Vec<UpdateWithMetadata>, response: ServerMessage },
    /// Wait `delay_ms` milliseconds, then hand `retry` to `resume_after_wait`.
    Reconnect { delay_ms: u64, retry: ClientMessage },
}

/// The updates as relayed by `client` with `priority`: each numbered by its
/// position in the batch.
pub open spec fn relayed(client: String, priority: u8, us: Seq<Update>) -> Seq<UpdateWithMetadata> {
    Seq::new(
        us.len(),
        |i: int| UpdateWithMetadata { update: us[i], source_client: client, server_seq: i as u64, priority },
    )
}

/// The step that reports the session of `token` invalid.
pub open spec fn invalid_session(token: String) -> HandlerStep {
    HandlerStep::Respond(ServerMessage::InvalidSession { session_token: token })
}

/// The step that waits before the `attempt`-th reconnection and then retries `msg`.
pub open spec fn reconnect_step(attempt: u8, msg: ClientMessage) -> HandlerStep {
    HandlerStep::Reconnect { delay_ms: (RECONNECT_DELAY_MS * attempt) as u64, retry: msg }
}

/// `b` is the connection `a`, unchanged.
pub open spec fn same_handler(a: WebSocketHandler, b: WebSocketHandler) -> bool {
    &&& b.client_id_view() == a.client_id_view()
    &&& b.priority_view() == a.priority_view()
    &&& b.attempts_view() == a.attempts_view()
    &&& b.registered_view() == a.registered_view()
}

/// An answer `ok` about a session token, and the session `s` handed out for
/// it, fit the session `held` under that token: `ok` only where a session is
/// held, and `s` is the held one.
pub open spec fn answer_fits(held: Option<Session>, ok: bool, s: Option<Session>) -> bool {
    &&& ok ==> held is Some
    &&& s matches Some(x) ==> held == Some(x)
}

/// What `auth` may answer about `token`: an answer that fits its session
/// and is its liveness at some time.
pub open spec fn answer_given<A: AuthService>(auth: A, token: Seq<char>, ok: bool, s: Option<Session>) -> bool {
    &&& answer_fits(auth.held(token), ok, s)
    &&& exists|now: u64| ok == #[trigger] auth.live_at(token, now)
}

/// The connection `a` becomes `b` and takes `step` after a session check
/// of `token` failed for `msg`: a wait and retry of `msg` (one attempt
/// more), or, once the attempts are used up, the session reported invalid.
pub open spec fn reconnect_outcome(
    a: WebSocketHandler,
    b: WebSocketHandler,
    msg: ClientMessage,
    token: String,
    step: HandlerStep,
) -> bool {
    &&& b.client_id_view() == a.client_id_view()
    &&& b.priority_view() == a.priority_view()
    &&& b.registered_view() == a.registered_view()
    &&& a.attempts_view() >= MAX_RECONNECT_ATTEMPTS ==> b.attempts_view() == a.attempts_view() && step
        == invalid_session(token)
    &&& a.attempts_view() < MAX_RECONNECT_ATTEMPTS ==> b.attempts_view() == a.attempts_view() + 1 && step
        == reconnect_step(b.attempts_view(), msg)
}

/// What a message that needs a session comes to on connection `a` (which
/// becomes `b`), given the service's answer `ok` on the session and the
/// session `s` it handed out: with a valid session, updates are
/// acknowledged (one fresh identifier each) and, if any, relayed under the
/// session's priority; a pull is answered with no updates; a publication is
/// acknowledged. A valid session that cannot be read back is reported
/// invalid; an invalid one leads to a wait and retry.
pub open spec fn session_outcome(
    a: WebSocketHandler,
    b: WebSocketHandler,
    msg: ClientMessage,
    ok: bool,
    s: Option<Session>,
    step: HandlerStep,
) -> bool {
    match msg {
        ClientMessage::UpdateInit { meet_id, session_token, updates } => {
            if !ok {
                reconnect_outcome(a, b, msg, session_token, step)
            } else {
                match s {
                    None => step == invalid_session(session_token) && same_handler(a, b),
                    Some(x) => {
                        &&& b.client_id_view() == a.client_id_view()
                        &&& b.registered_view() == a.registered_view()
                        &&& b.priority_view() == x.priority
                        &&& updates@.len() == 0 ==> b.attempts_view() == a.attempts_view() && (step matches HandlerStep::Respond(
                            ServerMessage::UpdateAck { meet_id: m, update_ids },
                        ) && m == meet_id && update_ids@.len() == 0)
                        &&& updates@.len() > 0 ==> b.attempts_view() == 0 && (step matches HandlerStep::Broadcast {
                            meet_id: r,
                            updates: relay,
                            response: ServerMessage::UpdateAck { meet_id: m, update_ids },
                        } && r == meet_id && m == meet_id && relay@ == relayed(a.client_id_view(), x.priority, updates@)
                            && update_ids@.len() == updates@.len() && forall|i: int|
                            0 <= i < update_ids@.len() ==> uuid_hyphenated(#[trigger] update_ids@[i]@))
                    },
                }
            }
        },
        ClientMessage::ClientPull { meet_id, session_token, last_server_seq } => {
            if !ok {
                reconnect_outcome(a, b, msg, session_token, step)
            } else {
                same_handler(a, b) && (step matches HandlerStep::Respond(
                    ServerMessage::ServerPull { meet_id: m, last_server_seq: l, updates_relayed },
                ) && m == meet_id && l == last_server_seq && updates_relayed@.len() == 0)
            }
        },
        ClientMessage::PublishMeet { meet_id, session_token, .. } => {
            if !ok {
                reconnect_outcome(a, b, msg, session_token, step)
            } else {
                same_handler(a, b) && step == HandlerStep::Respond(ServerMessage::PublishAck { meet_id })
            }
        },
        _ => false,
    }
}

/// What handling `msg` comes to on connection `a` (which becomes `b`) with
/// service `auth0` (which becomes `auth1`). Creating or joining a meet sets
/// the priority and opens a session for the meet, location and priority,
/// answered with its non-empty token; a message that needs a session comes
/// to its `session_outcome` for the service's answer on it; a recovery
/// response is answered as unknown.
pub open spec fn handled<A: AuthService>(
    auth0: A,
    auth1: A,
    a: WebSocketHandler,
    b: WebSocketHandler,
    msg: ClientMessage,
    step: HandlerStep,
) -> bool {
    match msg {
        ClientMessage::CreateMeet { meet_id, location_name, priority, .. } => {
            &&& b.priority_view() == priority
            &&& b.attempts_view() == a.attempts_view()
            &&& step matches HandlerStep::Respond(ServerMessage::MeetCreated { meet_id: m, session_token: t })
            &&& m == meet_id && t@.len() > 0
            &&& auth1.held(t@) == Some(Session { token: t, meet_id, location_name, priority })
        },
        ClientMessage::JoinMeet { meet_id, location_name, priority, .. } => {
            &&& b.priority_view() == priority
            &&& b.attempts_view() == a.attempts_view()
            &&& step matches HandlerStep::Respond(ServerMessage::MeetJoined { meet_id: m, session_token: t })
            &&& m == meet_id && t@.len() > 0
            &&& auth1.held(t@) == Some(Session { token: t, meet_id, location_name, priority })
        },
        ClientMessage::StateRecoveryResponse { .. } => {
            &&& same_handler(a, b)
            &&& step matches HandlerStep::Respond(ServerMessage::UnknownMessageType { msg_type })
            &&& msg_type@ == "StateRecoveryResponse"@
        },
        ClientMessage::UpdateInit { session_token, .. } => session_answered(auth0, a, b, msg, session_token, step),
        ClientMessage::ClientPull { session_token, .. } => session_answered(auth0, a, b, msg, session_token, step),
        ClientMessage::PublishMeet { session_token, .. } => session_answered(auth0, a, b, msg, session_token, step),
    }
}

/// `msg`, which needs the session of `token`, comes to its
/// `session_outcome` for some answer that service `auth0` may give on it.
pub open spec fn session_answered<A: AuthService>(
    auth0: A,
    a: WebSocketHandler,
    b: WebSocketHandler,
    msg: ClientMessage,
    token: String,
    step: HandlerStep,
) -> bool {
    exists|ok: bool, s: Option<Session>|
        #[trigger] answer_given(auth0, token@, ok, s) && session_outcome(a, b, msg, ok, s, step)
}

/// What resuming `retry` after a wait comes to on connection `a` (which
/// becomes `b`) with service `auth0` (which becomes `auth1`): a message
/// that needs a session is checked once more; if the service refuses it the
/// session is reported invalid and nothing changes, otherwise the message
/// is handled again, with answers that fit the same held session. Other
/// messages are handled as by `handled`.
pub open spec fn resumed<A: AuthService>(
    auth0: A,
    auth1: A,
    a: WebSocketHandler,
    b: WebSocketHandler,
    retry: ClientMessage,
    step: HandlerStep,
) -> bool {
    match retry {
        ClientMessage::UpdateInit { session_token, .. } => resumed_session(auth0, a, b, retry, session_token, step),
        ClientMessage::ClientPull { session_token, .. } => resumed_session(auth0, a, b, retry, session_token, step),
        ClientMessage::PublishMeet { session_token, .. } => resumed_session(auth0, a, b, retry, session_token, step),
        _ => handled(auth0, auth1, a, b, retry, step),
    }
}

/// Resuming `retry`, which needs the session of `token`: checked once more
/// by `auth0`; a refusal reports the session invalid and changes nothing,
/// otherwise the message is handled again, with answers that fit the same
/// held session.
pub open spec fn resumed_session<A: AuthService>(
    auth0: A,
    a: WebSocketHandler,
    b: WebSocketHandler,
    retry: ClientMessage,
    token: String,
    step: HandlerStep,
) -> bool {
    exists|ok0: bool|
        #[trigger] answer_given(auth0, token@, ok0, None) && (!ok0 ==> step == invalid_session(token) && same_handler(
            a,
            b,
        )) && (ok0 ==> exists|ok: bool, s: Option<Session>|
            #[trigger] answer_fits(auth0.held(token@), ok, s) && session_outcome(a, b, retry, ok, s, step))
}

/// A copy of an update.
fn copy_update(u: &Update) -> (r: Update)
    ensures
        r == *u,
{
    Update { location: u.location.clone(), value: u.value.clone(), timestamp: u.timestamp }
}

/// The state of one client's connection.
pub struct WebSocketHandler {
    client_id: String,
    client_priority: u8,
    reconnect_attempts: u8,
    registered: bool,
}

impl WebSocketHandler {
    /// The client's identifier.
    pub closed spec fn client_id_view(&self) -> String {
        self.client_id
    }

    /// The client's priority.
    pub closed spec fn priority_view(&self) -> u8 {
        self.client_priority
    }

    /// Reconnection attempts since the last success.
    pub closed spec fn attempts_view(&self) -> u8 {
        self.reconnect_attempts
    }

    /// The client has registered for a meet.
    pub closed spec fn registered_view(&self) -> bool {
        self.registered
    }

    /// A connection with a fresh random identifier, priority 0.
    pub fn new() -> (h: Self)
        ensures
            uuid_hyphenated(h.client_id_view()@),
            h.priority_view() == 0,
            h.attempts_view() == 0,
            !h.registered_view(),
    {
        WebSocketHandler { client_id: new_uuid_string(), client_priority: 0, reconnect_attempts: 0, registered: false }
    }

    /// The client's identifier.
    pub fn client_id(&self) -> (r: &String)
        ensures
            *r == self.client_id_view(),
    {
        &self.client_id
    }

    /// Marks the client as registered for a meet; the reconnection count starts over.
    pub fn register_client(&mut self, meet_id: &str)
        ensures
            final(self).registered_view(),
            final(self).attempts_view() == 0,
            final(self).client_id_view() == old(self).client_id_view(),
            final(self).priority_view() == old(self).priority_view(),
    {
        self.registered = true;
        self.reconnect_attempts = 0;
    }

    /// Whether the client is registered, so that unregistering it from the
    /// meet's clients has something to remove.
    pub fn unregister_client(&self, meet_id: &str) -> (r: bool)
        ensures
            r == self.registered_view(),
    {
        self.registered
    }

    /// Sets the client's priority.
    pub fn set_priority(&mut self, priority: u8)
        ensures
            final(self).priority_view() == priority,
            final(self).client_id_view() == old(self).client_id_view(),
            final(self).attempts_view() == old(self).attempts_view(),
            final(self).registered_view() == old(self).registered_view(),
    {
        self.client_priority = priority;
    }

    /// The updates as relayed by this client.
    pub fn relay_updates(&self, updates: &Vec<Update>) -> (r: Vec<UpdateWithMetadata>)
        requires
            updates@.len() <= u64::MAX,
        ensures
            r@ == relayed(self.client_id_view(), self.priority_view(), updates@),
    {
        let mut out: Vec<UpdateWithMetadata> = Vec::new();
        let mut i: usize = 0;
        while i < updates.len()
            invariant
                i <= updates@.len(),
                updates@.len() <= u64::MAX,
                out@ == relayed(self.client_id_view(), self.priority_view(), updates@).take(i as int),
            decreases updates@.len() - i,
        {
            let m = UpdateWithMetadata {
                update: copy_update(&updates[i]),
                source_client: self.client_id.clone(),
                server_seq: i as u64,
                priority: self.client_priority,
            };
            out.push(m);
            proof {
                let all = relayed(self.client_id_view(), self.priority_view(), updates@);
                assert(all.take(i + 1) =~= all.take(i as int).push(all[i as int]));
            }
            i = i + 1;
        }
        assert(relayed(self.client_id_view(), self.priority_view(), updates@).take(updates@.len() as int)
            =~= relayed(self.client_id_view(), self.priority_view(), updates@));
        out
    }

    /// Keeps one of `updates` per location, the one with the highest priority.
    pub fn resolve_conflicts(&self, updates: &[UpdateWithMetadata]) -> (r: Vec<UpdateWithMetadata>)
        ensures
            r@ == crate::conflict::resolve(updates@),
    {
        resolve_conflicts(updates)
    }

    /// One fresh random identifier per update.
    fn update_ids(n: usize) -> (ids: Vec<String>)
        ensures
            ids@.len() == n,
            forall|i: int| 0 <= i < n ==> uuid_hyphenated(#[trigger] ids@[i]@),
    {
        let mut ids: Vec<String> = Vec::new();
        let mut i: usize = 0;
        while i < n
            invariant
                i <= n,
                ids@.len() == i,
                forall|j: int| 0 <= j < i ==> uuid_hyphenated(#[trigger] ids@[j]@),
            decreases n - i,
        {
            ids.push(new_uuid_string());
            i = i + 1;
        }
        ids
    }

    /// The step for a message whose session was found invalid: wait and
    /// retry, `RECONNECT_DELAY_MS` times the attempt's number, unless
    /// `MAX_RECONNECT_ATTEMPTS` attempts have been made; then the session is
    /// reported invalid.
    fn try_reconnect(&mut self, retry: ClientMessage, session_token: String) -> (step: HandlerStep)
        ensures
            final(self).client_id_view() == old(self).client_id_view(),
            final(self).priority_view() == old(self).priority_view(),
            final(self).registered_view() == old(self).registered_view(),
            old(self).attempts_view() >= MAX_RECONNECT_ATTEMPTS ==> final(self).attempts_view()
                == old(self).attempts_view() && step == invalid_session(session_token),
            old(self).attempts_view() < MAX_RECONNECT_ATTEMPTS ==> final(self).attempts_view() == old(
                self,
            ).attempts_view() + 1 && step == reconnect_step(final(self).attempts_view(), retry),
    {
        if self.reconnect_attempts >= MAX_RECONNECT_ATTEMPTS {
            return HandlerStep::Respond(ServerMessage::InvalidSession { session_token });
        }
        self.reconnect_attempts = self.reconnect_attempts + 1;
        let delay: u64 = RECONNECT_DELAY_MS * (self.reconnect_attempts as u64);
        HandlerStep::Reconnect { delay_ms: delay, retry }
    }

    /// Decides what to do with a message from the client.
    ///
    /// Creating or joining a meet sets the client's priority and opens a
    /// session, answered with the meet's identifier and the session's token.
    /// The other messages need a valid session; when it is not valid the
    /// handler waits and retries (see `try_reconnect`). With a valid session,
    /// updates are acknowledged with one fresh identifier each and, if there
    /// are any, relayed to the meet's other clients under the session's
    /// priority; a pull is answered with no updates and the client's own
    /// sequence number; a publication is acknowledged. Recovery responses are
    /// not handled here.
    pub fn handle_message<A: AuthService>(&mut self, auth: &mut A, msg: ClientMessage) -> (step: HandlerStep)
        requires
            old(auth).valid(),
        ensures
            final(auth).valid(),
            final(self).client_id_view() == old(self).client_id_view(),
            final(self).registered_view() == old(self).registered_view(),
            handled(*old(auth), *final(auth), *old(self), *final(self), msg, step),
            !(msg is CreateMeet || msg is JoinMeet) ==> forall|t: Seq<char>| #[trigger] final(auth).held(t) == old(
                auth,
            ).held(t),
    {
        match msg {
            ClientMessage::CreateMeet { meet_id, password, location_name, priority } => {
                self.set_priority(priority);
                let session_token = auth.new_session(meet_id.clone(), location_name, priority);
                HandlerStep::Respond(ServerMessage::MeetCreated { meet_id, session_token })
            },
            ClientMessage::JoinMeet { meet_id, password, location_name, priority } => {
                self.set_priority(priority);
                let session_token = auth.new_session(meet_id.clone(), location_name, priority);
                HandlerStep::Respond(ServerMessage::MeetJoined { meet_id, session_token })
            },
            ClientMessage::UpdateInit { meet_id, session_token, updates } => {
                let ok = auth.validate_session(session_token.as_str());
                if ok {
                    let s = auth.get_session(session_token.as_str());
                    proof {
                        assert(answer_given(*old(auth), session_token@, ok, s));
                    }
                    let ghost sg = s;
                    let st = match s {
                        Some(session) => {
                            self.set_priority(session.priority);
                            let update_ids = WebSocketHandler::update_ids(updates.len());
                            if updates.len() > 0 {
                                let relay = self.relay_updates(&updates);
                                self.reconnect_attempts = 0;
                                HandlerStep::Broadcast {
                                    meet_id: meet_id.clone(),
                                    updates: relay,
                                    response: ServerMessage::UpdateAck { meet_id, update_ids },
                                }
                            } else {
                                HandlerStep::Respond(ServerMessage::UpdateAck { meet_id, update_ids })
                            }
                        },
                        None => HandlerStep::Respond(ServerMessage::InvalidSession { session_token }),
                    };
                    assert(session_outcome(*old(self), *self, msg, ok, sg, st));
                    st
                } else {
                    proof {
                        assert(answer_given(*old(auth), session_token@, ok, None));
                    }
                    let token = session_token.clone();
                    self.try_reconnect(ClientMessage::UpdateInit { meet_id, session_token, updates }, token)
                }
            },
            ClientMessage::ClientPull { meet_id, session_token, last_server_seq } => {
                let ok = auth.validate_session(session_token.as_str());
                proof {
                    assert(answer_given(*old(auth), session_token@, ok, None));
                }
                if ok {
                    HandlerStep::Respond(
                        ServerMessage::ServerPull { meet_id, last_server_seq, updates_relayed: Vec::new() },
                    )
                } else {
                    let token = session_token.clone();
                    self.try_reconnect(ClientMessage::ClientPull { meet_id, session_token, last_server_seq }, token)
                }
            },
            ClientMessage::PublishMeet { meet_id, session_token, return_email, opl_csv } => {
                let ok = auth.validate_session(session_token.as_str());
                proof {
                    assert(answer_given(*old(auth), session_token@, ok, None));
                }
                if ok {
                    HandlerStep::Respond(ServerMessage::PublishAck { meet_id })
                } else {
                    let token = session_token.clone();
                    self.try_reconnect(
                        ClientMessage::PublishMeet { meet_id, session_token, return_email, opl_csv },
                        token,
                    )
                }
            },
            ClientMessage::StateRecoveryResponse { .. } => {
                HandlerStep::Respond(
                    ServerMessage::UnknownMessageType { msg_type: "StateRecoveryResponse".to_string() },
                )
            },
        }
    }

    /// After the wait of a `Reconnect` step: if the message's session is now
    /// valid, the message is handled again; otherwise the session is
    /// reported invalid.
    pub fn resume_after_wait<A: AuthService>(&mut self, auth: &mut A, retry: ClientMessage) -> (step: HandlerStep)
        requires
            old(auth).valid(),
        ensures
            final(auth).valid(),
            final(self).client_id_view() == old(self).client_id_view(),
            final(self).registered_view() == old(self).registered_view(),
            resumed(*old(auth), *final(auth), *old(self), *final(self), retry, step),
            !(retry is CreateMeet || retry is JoinMeet) ==> forall|t: Seq<char>| #[trigger] final(auth).held(t) == old(
                auth,
            ).held(t),
    {
        let token = match &retry {
            ClientMessage::UpdateInit { session_token, .. } => session_token.clone(),
            ClientMessage::ClientPull { session_token, .. } => session_token.clone(),
            ClientMessage::PublishMeet { session_token, .. } => session_token.clone(),
            _ => {
                return self.handle_message(auth, retry);
            },
        };
        let ok0 = auth.validate_session(token.as_str());
        proof {
            assert(answer_given(*old(auth), token@, ok0, None));
        }
        if ok0 {
            let ghost mid = *auth;
            let step = self.handle_message(auth, retry);
            proof {
                let (ok, s) = choose|ok: bool, s: Option<Session>|
                    #[trigger] answer_given(mid, token@, ok, s) && session_outcome(*old(self), *self, retry, ok, s, step);
                assert(mid.held(token@) == old(auth).held(token@));
                assert(answer_fits(old(auth).held(token@), ok, s));
            }
            step
        } else {
            HandlerStep::Respond(ServerMessage::InvalidSession { session_token: token })
        }
    }
}

/// The message that tells a client about an error: authentication and
/// validation errors carry their message, too many authentication attempts a
/// fixed text, and every other error a generic internal-error text.
pub fn error_message(e: AppError) -> (m: ServerMessage)
    ensures
        match e {
            AppError::Auth(msg) => m matches ServerMessage::Error { code, message } && code@ == "AUTH_ERROR"@
                && message == msg,
            AppError::InvalidInput(msg) => m matches ServerMessage::Error { code, message } && code@
                == "VALIDATION_ERROR"@ && message == msg,
            AppError::AuthRateLimited => m matches ServerMessage::Error { code, message } && code@
                == "AUTH_RATE_LIMITED"@ && message@
                == "Too many authentication attempts. Please try again later."@,
            _ => m matches ServerMessage::Error { code, message } && code@ == "INTERNAL_ERROR"@ && message@
                == "An internal server error occurred"@,
        },
{
    match e {
        AppError::Auth(msg) => ServerMessage::Error { code: "AUTH_ERROR".to_string(), message: msg },
        AppError::InvalidInput(msg) => ServerMessage::Error { code: "VALIDATION_ERROR".to_string(), message: msg },
        AppError::AuthRateLimited => ServerMessage::Error {
            code: "AUTH_RATE_LIMITED".to_string(),
            message: "Too many authentication attempts. Please try again later.".to_string(),
        },
        _ => ServerMessage::Error {
            code: "INTERNAL_ERROR".to_string(),
            message: "An internal server error occurred".to_string(),
        },
    }
}

} // verus!
