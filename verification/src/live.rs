//! The live-meet service: the decisions taken on each message of the
//! client/server protocol, over the server's sessions and meets.
//!
//! Storing a new meet's information, persisting and relaying recorded
//! updates, and sending the answer are the caller's work: each decision is a
//! `LiveAction` for it to carry out.
use crate::auth::password::{
    hash_password, phc_accepts, meets_requirements, scrypt_accepts, validate_password_strength, verify_password,
    PasswordRequirements, MIN_PASSWORD_LENGTH,
};
use crate::auth::token_generator::generate_secure_token;
use crate::auth::session::{fresh_entry, touch, SessionManager};
use crate::error::{app_text, AppError};
use crate::json::parse_json;
use crate::meet_actor::{
    entries_after, log_view, recovered_value, update_outcome, updates_view, MeetActor,
};
use crate::messages::Session;
use crate::protocol::{ClientToServer, EndpointPriority, MeetInfo, ServerToClient, Update, UpdateView, UpdateWithServerSeq};
use crate::table::{has_key, lemma_pairs_map, StrMap};
use crate::text::{decimal, decimal_string, push_char, push_str};
use crate::validation::{
    email_problem, location_name_problem, meet_id_problem, password_problem, session_token_problem,
    update_problem, validate_email, validate_location_name, validate_meet_id, validate_password,
    validate_session_token, validate_update,
};
use rand::Rng;
use vstd::prelude::*;

verus! {

/// Priority given to a location that joins a meet.
pub const JOIN_PRIORITY: u8 = 5;

/// What the connection does next.
#[derive(Debug)]
pub enum LiveAction {
    /// Send this message to the client.
    Send(ServerToClient),
    /// Store the new meet's password hash and endpoints; once they are
    /// stored, open the meet with `open_stored_meet` for the creating
    /// location `location_name` with `priority`, and send what it answers.
    StoreMeet {
        meet_id: String,
        password_hash: String,
        endpoints: Vec<EndpointPriority>,
        location_name: String,
        priority: u8,
    },
    /// Persist and relay the records of meet `meet_id` from position `from` of
    /// its log on, then send `message`.
    PersistAndSend { meet_id: String, from: usize, message: ServerToClient },
    /// Store the published results and return address of meet `meet_id`,
    /// then send `message`.
    StoreCsvAndSend { meet_id: String, opl_csv: String, return_email: String, message: ServerToClient },
    /// Fail with this error; nothing is sent.
    Fail(AppError),
}

/// A meet identifier as the server makes them: three numbers from 100 to
/// 999 joined by hyphens.
pub open spec fn meet_id_text(a: nat, b: nat, c: nat) -> Seq<char> {
    decimal(a) + seq!['-'] + decimal(b) + seq!['-'] + decimal(c)
}

/// `s` is a meet identifier that the server could have made.
pub open spec fn generated_meet_id(s: Seq<char>) -> bool {
    exists|a: nat, b: nat, c: nat|
        100 <= a < 1000 && 100 <= b < 1000 && 100 <= c < 1000 && s == #[trigger] meet_id_text(a, b, c)
}

/// A number drawn from `lo..hi` by the thread's random generator
/// (`rand::thread_rng().gen_range(lo..hi)`); which one is left open.
#[verifier::external_body]
fn random_in_range(lo: u64, hi: u64) -> (r: u64)
    requires
        lo < hi,
    ensures
        lo <= r < hi,
{
    rand::thread_rng().gen_range(lo..hi)
}

/// A fresh random meet identifier.
pub fn generate_meet_id() -> (id: String)
    ensures
        generated_meet_id(id@),
{
    let a = random_in_range(100, 1000);
    let b = random_in_range(100, 1000);
    let c = random_in_range(100, 1000);
    let mut id = decimal_string(a);
    push_char(&mut id, '-');
    let sb = decimal_string(b);
    push_str(&mut id, sb.as_str());
    push_char(&mut id, '-');
    let sc = decimal_string(c);
    push_str(&mut id, sc.as_str());
    assert(id@ == meet_id_text(a as nat, b as nat, c as nat));
    id
}

/// The location and password of a new meet pass validation.
pub open spec fn create_fields_ok(location_name: Seq<char>, password: Seq<char>) -> bool {
    location_name_problem(location_name) is None && password_problem(password) is None
}

/// The meet identifier, password and location of a join pass validation.
pub open spec fn join_fields_ok(meet_id: Seq<char>, password: Seq<char>, location_name: Seq<char>) -> bool {
    meet_id_problem(meet_id) is None && password_problem(password) is None && location_name_problem(location_name)
        is None
}

/// The session token and return address of a publication pass validation.
pub open spec fn publish_fields_ok(session_token: Seq<char>, email: Seq<char>) -> bool {
    session_token_problem(session_token) is None && email_problem(email) is None
}

/// Every update of a batch passes validation.
pub open spec fn batch_ok(us: Seq<Update>) -> bool {
    forall|i: int| 0 <= i < us.len() ==> update_problem(#[trigger] us[i]) is None
}

/// An update as the meet records it from the live protocol: its value read
/// back as JSON (or `null`), its sequence number carried through a signed
/// timestamp, no server number seen.
pub open spec fn as_recorded(u: Update) -> UpdateView {
    UpdateView {
        update_key: u.update_key@,
        update_value: recovered_value(u.update_value@),
        local_seq_num: ((u.local_seq_num as i64) as u64),
        after_server_seq_num: 0,
    }
}

/// The batch as the meet records it.
pub open spec fn batch_as_recorded(us: Seq<Update>) -> Seq<UpdateView> {
    us.map_values(|u: Update| as_recorded(u))
}

/// `action` reports the answer `r` of meet `meet_id` to a batch: the
/// acknowledgements, after the records from position `from` are persisted;
/// or a malformed-message notice that carries the error's text.
pub open spec fn batch_answer(action: LiveAction, meet_id: Seq<char>, from: nat, r: Result<Vec<(u64, u64)>, AppError>) -> bool {
    match r {
        Ok(acks) => action matches LiveAction::PersistAndSend {
            meet_id: m,
            from: f,
            message: ServerToClient::UpdateAck { update_acks },
        } && m@ == meet_id && f == from && update_acks == acks,
        Err(e) => action matches LiveAction::Send(ServerToClient::MalformedMessage { err_msg }) && err_msg@
            == "Failed to apply updates: "@ + app_text(e),
    }
}

/// `action` sends a malformed-message notice with text `text`.
pub open spec fn malformed(action: LiveAction, text: Seq<char>) -> bool {
    action matches LiveAction::Send(ServerToClient::MalformedMessage { err_msg }) && err_msg@ == text
}

/// `action` fails with an authentication error for an invalid session.
pub open spec fn invalid_session(action: LiveAction) -> bool {
    action matches LiveAction::Fail(AppError::Auth(m)) && m@ == "Invalid session"@
}

/// Server `b` is `a`, and `action` is to store a new meet for a creation by
/// `this_location_name` with `password` and `endpoints`: a fresh identifier,
/// the password hashed with scrypt, the endpoints, and the creating location
/// with the first endpoint's priority, for which the meet is opened once
/// stored.
pub open spec fn meet_started(
    a: LiveState,
    b: LiveState,
    this_location_name: String,
    password: String,
    endpoints: Vec<EndpointPriority>,
    action: LiveAction,
) -> bool {
    &&& action matches LiveAction::StoreMeet { meet_id, password_hash, endpoints: e2, location_name, priority }
    &&& generated_meet_id(meet_id@) && e2 == endpoints
    &&& password_hash@.take(8) == "$scrypt$"@ && scrypt_accepts(password_hash@, password@)
    &&& location_name == this_location_name && priority == endpoints@[0].priority
    &&& unchanged(a, b)
}

/// Server `b` is `a` with stored meet `meet_id` opened at `now`: an empty
/// log and a session for `location_name` with `priority`, whose token the
/// answer `reply` carries with the meet's identifier.
pub open spec fn meet_opened(
    a: LiveState,
    b: LiveState,
    meet_id: String,
    location_name: String,
    priority: u8,
    now: u64,
    reply: ServerToClient,
) -> bool {
    &&& reply matches ServerToClient::MeetCreated { meet_id: m2, session_token }
    &&& m2 == meet_id
    &&& exists|actor: MeetActor|
        b.meets_view() == a.meets_view().insert(meet_id@, actor) && actor.wf() && actor.log().len() == 0
            && actor.meet_id_view() == meet_id@ && #[trigger] actor.last_update_time_view() == now
    &&& b.sessions_view().same_limits(&a.sessions_view())
    &&& exists|csrf: String|
        b.sessions_view()@ == a.sessions_view()@.insert(
            session_token@,
            #[trigger] fresh_entry(Session { token: session_token, meet_id, location_name, priority }, csrf, now),
        )
}

/// What creating a meet for `this_location_name` with `password` and
/// `endpoints` makes of server `a`: `b`, with `action`. Invalid fields are
/// answered as malformed; otherwise, with nothing changed yet, the meet is
/// to be stored under a fresh identifier with the hashed password and the
/// endpoints, and then opened (`open_stored_meet`) for the creating location
/// with the first endpoint's priority.
pub open spec fn create_outcome(
    a: LiveState,
    b: LiveState,
    this_location_name: String,
    password: String,
    endpoints: Vec<EndpointPriority>,
    now: u64,
    action: LiveAction,
) -> bool {
    &&& !create_fields_ok(this_location_name@, password@) ==> malformed(action, "Invalid meet parameters"@) && unchanged(a, b)
    &&& create_fields_ok(this_location_name@, password@) ==> meet_started(
        a,
        b,
        this_location_name,
        password,
        endpoints,
        action,
    )
}

/// What joining meet `meet_id` from `location_name` with `password` makes
/// of server `a`: `b`, with `action`. Invalid fields are answered as
/// malformed; otherwise a session is opened for the location with the join
/// priority and its token sent. Neither the meet nor the password is checked.
pub open spec fn join_outcome(
    a: LiveState,
    b: LiveState,
    meet_id: String,
    password: String,
    location_name: String,
    now: u64,
    action: LiveAction,
) -> bool {
    &&& !join_fields_ok(meet_id@, password@, location_name@) ==> malformed(action, "Invalid meet credentials"@) && unchanged(a, b)
    &&& join_fields_ok(meet_id@, password@, location_name@) ==> (action matches LiveAction::Send(
        ServerToClient::MeetJoined { session_token },
    ) && b.meets_view() == a.meets_view() && b.sessions_view().same_limits(&a.sessions_view()) && (exists|
        csrf: String,
    |
        b.sessions_view()@ == a.sessions_view()@.insert(
            session_token@,
            #[trigger] fresh_entry(
                Session { token: session_token, meet_id, location_name, priority: JOIN_PRIORITY },
                csrf,
                now,
            ),
        )))
}

/// Server `b` has the same sessions and meets as server `a`.
pub open spec fn unchanged(a: LiveState, b: LiveState) -> bool {
    &&& b.sessions_view()@ == a.sessions_view()@
    &&& b.sessions_view().same_limits(&a.sessions_view())
    &&& b.meets_view() == a.meets_view()
}

/// The session of `token` is live at `now` in server `a`, and `b` has the
/// same sessions except that this one was used at `now`.
pub open spec fn session_used(a: LiveState, b: LiveState, token: Seq<char>, now: u64) -> bool {
    &&& a.sessions_view().live_at(token, now)
    &&& b.sessions_view()@ == touch(a.sessions_view()@, token, now)
    &&& b.sessions_view().same_limits(&a.sessions_view())
}

/// What a batch of `updates` under session `token` at `now` makes of server
/// `a`: `b`, with `action`. An invalid session fails; a session whose meet
/// is gone fails with `MeetNotFound`; an invalid update makes the batch
/// malformed; otherwise the meet takes the batch, as recorded from the live
/// protocol, from the anonymous client with the session's priority, and its
/// answer is reported.
pub open spec fn update_init_outcome(
    a: LiveState,
    b: LiveState,
    token: String,
    updates: Vec<Update>,
    now: u64,
    action: LiveAction,
) -> bool {
    let s = a.sessions_view()@[token@].session;
    let k = s.meet_id@;
    &&& !a.sessions_view().live_at(token@, now) ==> invalid_session(action) && unchanged(a, b)
    &&& a.sessions_view().live_at(token@, now) ==> {
        &&& session_used(a, b, token@, now)
        &&& !a.meets_view().contains_key(k) ==> (action matches LiveAction::Fail(e) && e is MeetNotFound)
            && b.meets_view() == a.meets_view()
        &&& a.meets_view().contains_key(k) && !batch_ok(updates@) ==> malformed(action, "Invalid update data"@)
            && b.meets_view() == a.meets_view()
        &&& a.meets_view().contains_key(k) && batch_ok(updates@) && a.meets_view()[k].seq() + updates@.len()
            > u64::MAX ==> (action matches LiveAction::Fail(e) && e is Internal) && b.meets_view() == a.meets_view()
        &&& a.meets_view().contains_key(k) && batch_ok(updates@) && a.meets_view()[k].seq() + updates@.len()
            <= u64::MAX ==> exists|actor: MeetActor, r: Result<Vec<(u64, u64)>, AppError>|
            b.meets_view() == a.meets_view().insert(k, actor) && #[trigger] update_outcome(
                a.meets_view()[k],
                actor,
                "anonymous"@,
                s.priority,
                batch_as_recorded(updates@),
                now,
                r,
            ) && batch_answer(action, k, a.meets_view()[k].log().len(), r)
    }
}

/// What a pull after `last_server_seq` under session `token` at `now` makes
/// of server `a`: `b`, with `action`. An invalid session fails; otherwise the
/// records of the session's meet numbered past `last_server_seq` are sent
/// (none if the meet is gone), with the client's own number.
pub open spec fn pull_outcome(a: LiveState, b: LiveState, token: String, last_server_seq: u64, now: u64, action: LiveAction) -> bool {
    let k = a.sessions_view()@[token@].session.meet_id@;
    &&& !a.sessions_view().live_at(token@, now) ==> invalid_session(action) && unchanged(a, b)
    &&& a.sessions_view().live_at(token@, now) ==> {
        &&& session_used(a, b, token@, now)
        &&& b.meets_view() == a.meets_view()
        &&& action matches LiveAction::Send(ServerToClient::ServerPull { last_server_seq: l, updates_relayed })
        &&& l == last_server_seq
        &&& if a.meets_view().contains_key(k) {
            log_view(updates_relayed@) == entries_after(a.meets_view()[k].log(), last_server_seq)
        } else {
            updates_relayed@.len() == 0
        }
    }
}

/// What a publication under session `token` with `return_email` at `now`
/// makes of server `a`: `b`, with `action`. Invalid fields are answered as
/// malformed; an invalid session fails; otherwise it is acknowledged.
pub open spec fn publish_outcome(a: LiveState, b: LiveState, token: String, return_email: String, now: u64, action: LiveAction) -> bool {
    &&& !publish_fields_ok(token@, return_email@) ==> malformed(action, "Invalid session or email"@) && unchanged(a, b)
    &&& publish_fields_ok(token@, return_email@) && !a.sessions_view().live_at(token@, now) ==> invalid_session(action)
        && unchanged(a, b)
    &&& publish_fields_ok(token@, return_email@) && a.sessions_view().live_at(token@, now) ==> session_used(
        a,
        b,
        token@,
        now,
    ) && b.meets_view() == a.meets_view() && (action matches LiveAction::Send(ServerToClient::PublishAck))
}

/// The text that refuses a password too weak for the default requirements.
pub open spec fn weak_password_text() -> Seq<char> {
    "Password must be at least "@ + decimal(MIN_PASSWORD_LENGTH as nat)
        + " characters and contain uppercase, lowercase, digit, and special character"@
}

/// The default password requirements, as values.
pub open spec fn default_requirements() -> PasswordRequirements {
    PasswordRequirements {
        min_length: MIN_PASSWORD_LENGTH,
        require_uppercase: true,
        require_lowercase: true,
        require_digit: true,
        require_special: true,
    }
}

/// The priority of the first endpoint named `location`, or 0 when none is.
pub open spec fn endpoint_priority(endpoints: Seq<EndpointPriority>, location: Seq<char>) -> u8
    decreases endpoints.len(),
{
    if endpoints.len() == 0 {
        0
    } else if endpoints[0].location_name@ == location {
        endpoints[0].priority
    } else {
        endpoint_priority(endpoints.drop_first(), location)
    }
}

/// What creating a meet under stored-meet rules makes of server `a`: `b`,
/// with `action`. A password weaker than the default requirements is
/// answered as malformed; otherwise as in `create_outcome` once its fields
/// are accepted.
pub open spec fn stored_create_outcome(
    a: LiveState,
    b: LiveState,
    this_location_name: String,
    password: String,
    endpoints: Vec<EndpointPriority>,
    now: u64,
    action: LiveAction,
) -> bool {
    &&& !meets_requirements(password@, default_requirements()) ==> malformed(action, weak_password_text()) && unchanged(a, b)
    &&& meets_requirements(password@, default_requirements()) ==> meet_started(
        a,
        b,
        this_location_name,
        password,
        endpoints,
        action,
    )
}

/// What joining meet `meet_id` from `location_name` with `password` makes
/// of server `a`, given what storage holds of the meet: `b`, with `action`.
/// A storage error fails; a password that the stored hash does not accept is
/// answered as malformed; otherwise a session is opened for the location
/// with the priority of its endpoint (0 if it has none) and its token sent.
pub open spec fn stored_join_outcome(
    a: LiveState,
    b: LiveState,
    meet_id: String,
    password: String,
    location_name: String,
    stored: Result<MeetInfo, AppError>,
    now: u64,
    action: LiveAction,
) -> bool {
    match stored {
        Err(e) => action == LiveAction::Fail(e) && unchanged(a, b),
        Ok(info) => {
            &&& !phc_accepts(info.password_hash@, password@) ==> malformed(action, "Invalid password"@) && unchanged(a, b)
            &&& phc_accepts(info.password_hash@, password@) ==> (action matches LiveAction::Send(
                ServerToClient::MeetJoined { session_token },
            ) && b.meets_view() == a.meets_view() && b.sessions_view().same_limits(&a.sessions_view()) && (exists|
                csrf: String,
            |
                b.sessions_view()@ == a.sessions_view()@.insert(
                    session_token@,
                    #[trigger] fresh_entry(
                        Session {
                            token: session_token,
                            meet_id,
                            location_name,
                            priority: endpoint_priority(info.endpoints@, location_name@),
                        },
                        csrf,
                        now,
                    ),
                )))
        },
    }
}

/// What a batch of `updates` under session `token` at `now` makes of server
/// `a` under stored-meet rules: `b`, with `action`. An invalid session fails;
/// a session whose meet is gone fails with `MeetNotFound`; otherwise the meet
/// takes the batch as sent, from the session's location with its priority;
/// its acknowledgements are sent, or its error is the failure.
pub open spec fn stored_update_outcome(
    a: LiveState,
    b: LiveState,
    token: String,
    updates: Vec<Update>,
    now: u64,
    action: LiveAction,
) -> bool {
    let s = a.sessions_view()@[token@].session;
    let k = s.meet_id@;
    &&& !a.sessions_view().live_at(token@, now) ==> invalid_session(action) && unchanged(a, b)
    &&& a.sessions_view().live_at(token@, now) ==> {
        &&& session_used(a, b, token@, now)
        &&& !a.meets_view().contains_key(k) ==> (action matches LiveAction::Fail(e) && e is MeetNotFound)
            && b.meets_view() == a.meets_view()
        &&& a.meets_view().contains_key(k) && a.meets_view()[k].seq() + updates@.len() > u64::MAX ==> (
        action matches LiveAction::Fail(e) && e is Internal) && b.meets_view() == a.meets_view()
        &&& a.meets_view().contains_key(k) && a.meets_view()[k].seq() + updates@.len() <= u64::MAX ==> exists|
            actor: MeetActor,
            r: Result<Vec<(u64, u64)>, AppError>,
        |
            b.meets_view() == a.meets_view().insert(k, actor) && #[trigger] update_outcome(
                a.meets_view()[k],
                actor,
                s.location_name@,
                s.priority,
                updates_view(updates@),
                now,
                r,
            ) && match r {
                Ok(acks) => action matches LiveAction::PersistAndSend {
                    meet_id: m,
                    from: f,
                    message: ServerToClient::UpdateAck { update_acks },
                } && m@ == k && f == a.meets_view()[k].log().len() && update_acks == acks,
                Err(e) => action == LiveAction::Fail(e),
            }
    }
}

/// What a pull under stored-meet rules makes of server `a`: as in
/// `pull_outcome`, except that a session whose meet is gone fails with
/// `MeetNotFound`.
pub open spec fn stored_pull_outcome(
    a: LiveState,
    b: LiveState,
    token: String,
    last_server_seq: u64,
    now: u64,
    action: LiveAction,
) -> bool {
    let k = a.sessions_view()@[token@].session.meet_id@;
    &&& !a.sessions_view().live_at(token@, now) ==> invalid_session(action) && unchanged(a, b)
    &&& a.sessions_view().live_at(token@, now) ==> {
        &&& session_used(a, b, token@, now)
        &&& b.meets_view() == a.meets_view()
        &&& !a.meets_view().contains_key(k) ==> (action matches LiveAction::Fail(e) && e is MeetNotFound)
        &&& a.meets_view().contains_key(k) ==> (action matches LiveAction::Send(
            ServerToClient::ServerPull { last_server_seq: l, updates_relayed },
        ) && l == last_server_seq && log_view(updates_relayed@) == entries_after(
            a.meets_view()[k].log(),
            last_server_seq,
        ))
    }
}

/// What a publication under stored-meet rules makes of server `a`: an
/// invalid session fails; a session whose meet is gone fails with
/// `MeetNotFound`; otherwise the results and address are to be stored before
/// the acknowledgement is sent.
pub open spec fn stored_publish_outcome(
    a: LiveState,
    b: LiveState,
    token: String,
    return_email: String,
    opl_csv: String,
    now: u64,
    action: LiveAction,
) -> bool {
    let k = a.sessions_view()@[token@].session.meet_id@;
    &&& !a.sessions_view().live_at(token@, now) ==> invalid_session(action) && unchanged(a, b)
    &&& a.sessions_view().live_at(token@, now) ==> {
        &&& session_used(a, b, token@, now)
        &&& b.meets_view() == a.meets_view()
        &&& !a.meets_view().contains_key(k) ==> (action matches LiveAction::Fail(e) && e is MeetNotFound)
        &&& a.meets_view().contains_key(k) ==> (action matches LiveAction::StoreCsvAndSend {
            meet_id: m,
            opl_csv: c,
            return_email: r,
            message: ServerToClient::PublishAck,
        } && m@ == k && c == opl_csv && r == return_email)
    }
}

/// What message `msg` at `now` makes of server `a` under stored-meet rules,
/// given what storage holds of the meet that a join names: `b`, with `action`.
pub open spec fn stored_outcome(
    a: LiveState,
    b: LiveState,
    msg: ClientToServer,
    stored: Result<MeetInfo, AppError>,
    now: u64,
    action: LiveAction,
) -> bool {
    match msg {
        ClientToServer::CreateMeet { this_location_name, password, endpoints } => stored_create_outcome(
            a,
            b,
            this_location_name,
            password,
            endpoints,
            now,
            action,
        ),
        ClientToServer::JoinMeet { meet_id, password, location_name } => stored_join_outcome(
            a,
            b,
            meet_id,
            password,
            location_name,
            stored,
            now,
            action,
        ),
        ClientToServer::UpdateInit { session_token, updates } => stored_update_outcome(
            a,
            b,
            session_token,
            updates,
            now,
            action,
        ),
        ClientToServer::ClientPull { session_token, last_server_seq } => stored_pull_outcome(
            a,
            b,
            session_token,
            last_server_seq,
            now,
            action,
        ),
        ClientToServer::PublishMeet { session_token, return_email, opl_csv } => stored_publish_outcome(
            a,
            b,
            session_token,
            return_email,
            opl_csv,
            now,
            action,
        ),
    }
}

/// What message `msg` at `now` makes of server `a`: `b`, with `action`.
pub open spec fn live_outcome(a: LiveState, b: LiveState, msg: ClientToServer, now: u64, action: LiveAction) -> bool {
    match msg {
        ClientToServer::CreateMeet { this_location_name, password, endpoints } => create_outcome(
            a,
            b,
            this_location_name,
            password,
            endpoints,
            now,
            action,
        ),
        ClientToServer::JoinMeet { meet_id, password, location_name } => join_outcome(
            a,
            b,
            meet_id,
            password,
            location_name,
            now,
            action,
        ),
        ClientToServer::UpdateInit { session_token, updates } => update_init_outcome(
            a,
            b,
            session_token,
            updates,
            now,
            action,
        ),
        ClientToServer::ClientPull { session_token, last_server_seq } => pull_outcome(
            a,
            b,
            session_token,
            last_server_seq,
            now,
            action,
        ),
        ClientToServer::PublishMeet { session_token, return_email, .. } => publish_outcome(
            a,
            b,
            session_token,
            return_email,
            now,
            action,
        ),
    }
}

/// The server's sessions and meets.
pub struct LiveState {
    sessions: SessionManager,
    meets: StrMap<MeetActor>,
}

impl LiveState {
    /// The sessions.
    pub closed spec fn sessions_view(&self) -> SessionManager {
        self.sessions
    }

    /// The meets, by identifier.
    pub closed spec fn meets_view(&self) -> Map<Seq<char>, MeetActor> {
        self.meets.map()
    }

    /// The sessions and meets are well formed, each meet under its own identifier.
    pub closed spec fn wf(&self) -> bool {
        &&& self.sessions.wf()
        &&& self.meets.wf()
        &&& forall|k: Seq<char>| #[trigger]
            self.meets.map().contains_key(k) ==> self.meets.map()[k].wf() && self.meets.map()[k].meet_id_view() == k
    }

    /// A server with the given sessions and no meets.
    pub fn new(sessions: SessionManager) -> (s: Self)
        requires
            sessions.wf(),
        ensures
            s.wf(),
            s.sessions_view() == sessions,
            s.meets_view() == Map::<Seq<char>, MeetActor>::empty(),
    {
        LiveState { sessions, meets: StrMap::new() }
    }

    /// The sessions.
    pub fn sessions(&self) -> (r: &SessionManager)
        ensures
            *r == self.sessions_view(),
    {
        &self.sessions
    }

    /// The meet `meet_id`, if it exists.
    pub fn get_meet(&self, meet_id: &str) -> (r: Option<&MeetActor>)
        requires
            self.wf(),
        ensures
            match r {
                Some(a) => self.meets_view().contains_key(meet_id@) && *a == self.meets_view()[meet_id@],
                None => !self.meets_view().contains_key(meet_id@),
            },
    {
        self.meets.get(meet_id)
    }

    /// Starts meet `meet_id` with an empty log at `now`, replacing any meet
    /// of that identifier.
    pub fn create_meet(&mut self, meet_id: String, now: u64)
        requires
            old(self).wf(),
        ensures
            final(self).wf(),
            final(self).sessions_view() == old(self).sessions_view(),
            exists|a: MeetActor|
                final(self).meets_view() == old(self).meets_view().insert(meet_id@, a) && #[trigger] a.wf()
                    && a.log().len() == 0 && a.meet_id_view() == meet_id@ && a.last_update_time_view() == now,
    {
        let actor = MeetActor::new_at(meet_id.clone(), now);
        self.meets.insert(meet_id, actor);
        let ghost m = self.meets.map();
        assert forall|k: Seq<char>| #[trigger] m.contains_key(k) implies m[k].wf() && m[k].meet_id_view() == k by {
            if k != meet_id@ {
                assert(old(self).meets.map().contains_key(k));
            }
        }
    }

    /// Stops meet `meet_id`; whether there was one.
    pub fn delete_meet(&mut self, meet_id: &str) -> (existed: bool)
        requires
            old(self).wf(),
        ensures
            final(self).wf(),
            final(self).sessions_view() == old(self).sessions_view(),
            final(self).meets_view() == old(self).meets_view().remove(meet_id@),
            existed == old(self).meets_view().contains_key(meet_id@),
    {
        let r = self.meets.remove(meet_id);
        let ghost m = self.meets.map();
        assert forall|k: Seq<char>| #[trigger] m.contains_key(k) implies m[k].wf() && m[k].meet_id_view() == k by {
            assert(old(self).meets.map().contains_key(k));
        }
        r.is_some()
    }

    /// The identifiers of the running meets, each once.
    pub fn get_all_meet_ids(&self) -> (ids: Vec<String>)
        requires
            self.wf(),
        ensures
            ids@.len() == self.meets_view().len(),
            forall|k: Seq<char>|
                self.meets_view().contains_key(k) <==> exists|j: int| 0 <= j < ids@.len() && #[trigger] ids@[j]@ == k,
    {
        let entries = self.meets.entries();
        let mut out: Vec<String> = Vec::new();
        let mut i: usize = 0;
        while i < entries.len()
            invariant
                entries@ == self.meets.pairs(),
                i <= entries@.len(),
                out@.len() == i,
                forall|j: int| 0 <= j < i ==> #[trigger] out@[j]@ == entries@[j].0@,
            decreases entries@.len() - i,
        {
            out.push(entries[i].0.clone());
            i = i + 1;
        }
        proof {
            let pairs = self.meets.pairs();
            lemma_pairs_map(pairs);
            assert forall|k: Seq<char>|
                self.meets_view().contains_key(k) <==> exists|j: int| 0 <= j < out@.len() && #[trigger] out@[j]@ == k by {
                if self.meets_view().contains_key(k) {
                    assert(has_key(pairs, k));
                    let j = choose|j: int| 0 <= j < pairs.len() && #[trigger] pairs[j].0@ == k;
                    assert(out@[j]@ == k);
                }
                if exists|j: int| 0 <= j < out@.len() && #[trigger] out@[j]@ == k {
                    let j = choose|j: int| 0 <= j < out@.len() && #[trigger] out@[j]@ == k;
                    assert(pairs[j].0@ == k);
                    assert(has_key(pairs, k));
                }
            }
        }
        out
    }

    /// Removes the sessions that have expired at `now`; how many were removed.
    pub fn cleanup_expired_sessions_at(&mut self, now: u64) -> (removed: usize)
        requires
            old(self).wf(),
        ensures
            final(self).wf(),
            final(self).meets_view() == old(self).meets_view(),
            final(self).sessions_view().same_limits(&old(self).sessions_view()),
            final(self).sessions_view()@ == crate::auth::session::live_entries(
                old(self).sessions_view()@,
                now,
                old(self).sessions_view().absolute_limit(),
                old(self).sessions_view().idle_limit(),
            ),
            removed == old(self).sessions_view()@.len() - final(self).sessions_view()@.len(),
    {
        self.sessions.cleanup_expired_sessions_at(now)
    }

    /// The batch as the meet records it.
    fn convert_batch(updates: &Vec<Update>) -> (r: Vec<Update>)
        ensures
            updates_view(r@) == batch_as_recorded(updates@),
    {
        let mut out: Vec<Update> = Vec::new();
        let mut i: usize = 0;
        while i < updates.len()
            invariant
                i <= updates@.len(),
                updates_view(out@) == batch_as_recorded(updates@).take(i as int),
            decreases updates@.len() - i,
        {
            let u = &updates[i];
            let value = match parse_json(u.update_value.as_str()) {
                Ok(t) => t,
                Err(_) => "null".to_string(),
            };
            let timestamp = u.local_seq_num as i64;
            let c = Update {
                update_key: u.update_key.clone(),
                update_value: value,
                local_seq_num: timestamp as u64,
                after_server_seq_num: 0,
            };
            let ghost before = out@;
            out.push(c);
            proof {
                assert(c@ == as_recorded(updates@[i as int]));
                assert(updates_view(out@) =~= updates_view(before).push(c@));
                assert(batch_as_recorded(updates@).take(i + 1) =~= batch_as_recorded(updates@).take(i as int).push(
                    as_recorded(updates@[i as int]),
                ));
            }
            i = i + 1;
        }
        assert(batch_as_recorded(updates@).take(updates@.len() as int) =~= batch_as_recorded(updates@));
        out
    }

    /// Whether every update of the batch passes validation.
    fn batch_valid(updates: &Vec<Update>) -> (ok: bool)
        ensures
            ok == batch_ok(updates@),
    {
        let mut i: usize = 0;
        while i < updates.len()
            invariant
                i <= updates@.len(),
                forall|j: int| 0 <= j < i ==> update_problem(#[trigger] updates@[j]) is None,
            decreases updates@.len() - i,
        {
            if validate_update(&updates[i]).is_err() {
                return false;
            }
            i = i + 1;
        }
        true
    }

    /// Decides a meet for a creating location: picks a random identifier
    /// and hashes the password; the meet is to be stored, then opened with a
    /// session for the location with the first endpoint's priority.
    fn start_meet(
        &mut self,
        this_location_name: String,
        password: String,
        endpoints: Vec<EndpointPriority>,
    ) -> (action: LiveAction)
        requires
            old(self).wf(),
            endpoints@.len() > 0,
        ensures
            final(self).wf(),
            meet_started(*old(self), *final(self), this_location_name, password, endpoints, action),
    {
        let meet_id = generate_meet_id();
        let hashed = match hash_password(password.as_str()) {
            Ok(h) => h,
            Err(e) => {
                return LiveAction::Fail(e);
            },
        };
        let priority = endpoints[0].priority;
        LiveAction::StoreMeet { meet_id, password_hash: hashed, endpoints, location_name: this_location_name, priority }
    }

    /// Opens a meet whose information has been stored, at `now`: starts it
    /// with an empty log (replacing any meet of that identifier) and opens a
    /// session for the creating location with `priority`; answers with the
    /// meet's identifier and the session's token.
    pub fn open_stored_meet_at(&mut self, meet_id: String, location_name: String, priority: u8, now: u64) -> (reply:
        ServerToClient)
        requires
            old(self).wf(),
        ensures
            final(self).wf(),
            meet_opened(*old(self), *final(self), meet_id, location_name, priority, now, reply),
    {
        let actor = MeetActor::new_at(meet_id.clone(), now);
        self.meets.insert(meet_id.clone(), actor);
        let token = generate_secure_token();
        let csrf = generate_secure_token();
        let ghost c = csrf;
        let session = self.sessions.create_session_at(meet_id.clone(), location_name, priority, token, csrf, now);
        assert(self.sessions@ == old(self).sessions@.insert(session.token@, fresh_entry(session, c, now)));
        let ghost m = self.meets.map();
        assert forall|k: Seq<char>| #[trigger] m.contains_key(k) implies m[k].wf() && m[k].meet_id_view() == k by {
            if k != meet_id@ {
                assert(old(self).meets.map().contains_key(k));
            }
        }
        ServerToClient::MeetCreated { meet_id, session_token: session.token }
    }

    /// Opens a meet whose information has been stored, at the current time.
    pub fn open_stored_meet(&mut self, meet_id: String, location_name: String, priority: u8) -> (reply: ServerToClient)
        requires
            old(self).wf(),
        ensures
            final(self).wf(),
            exists|now: u64| #[trigger] meet_opened(*old(self), *final(self), meet_id, location_name, priority, now, reply),
    {
        let now = crate::clock::now_millis();
        self.open_stored_meet_at(meet_id, location_name, priority, now)
    }

    /// Creates a meet: validates the location and password, then starts it.
    fn handle_create_meet(
        &mut self,
        this_location_name: String,
        password: String,
        endpoints: Vec<EndpointPriority>,
        now: u64,
    ) -> (action: LiveAction)
        requires
            old(self).wf(),
            create_fields_ok(this_location_name@, password@) ==> endpoints@.len() > 0,
        ensures
            final(self).wf(),
            create_outcome(*old(self), *final(self), this_location_name, password, endpoints, now, action),
    {
        if validate_location_name(this_location_name.as_str()).is_err() || validate_password(password.as_str()).is_err() {
            return LiveAction::Send(ServerToClient::MalformedMessage { err_msg: "Invalid meet parameters".to_string() });
        }
        self.start_meet(this_location_name, password, endpoints)
    }

    /// Opens a session for a location that joins a meet.
    fn join_meet(&mut self, meet_id: String, password: String, location_name: String, now: u64) -> (action: LiveAction)
        requires
            old(self).wf(),
        ensures
            final(self).wf(),
            join_outcome(*old(self), *final(self), meet_id, password, location_name, now, action),
    {
        if validate_meet_id(meet_id.as_str()).is_err() || validate_password(password.as_str()).is_err()
            || validate_location_name(location_name.as_str()).is_err() {
            return LiveAction::Send(
                ServerToClient::MalformedMessage { err_msg: "Invalid meet credentials".to_string() },
            );
        }
        let token = generate_secure_token();
        let csrf = generate_secure_token();
        let ghost c = csrf;
        let session = self.sessions.create_session_at(meet_id, location_name, JOIN_PRIORITY, token, csrf, now);
        assert(self.sessions@ == old(self).sessions@.insert(session.token@, fresh_entry(session, c, now)));
        LiveAction::Send(ServerToClient::MeetJoined { session_token: session.token })
    }

    /// Takes a batch of updates under a session.
    fn update_init(&mut self, session_token: String, updates: Vec<Update>, now: u64) -> (action: LiveAction)
        requires
            old(self).wf(),
        ensures
            final(self).wf(),
            update_init_outcome(*old(self), *final(self), session_token, updates, now, action),
    {
        let session = match self.sessions.get_session_at(session_token.as_str(), now) {
            Some(s) => s,
            None => {
                return LiveAction::Fail(AppError::Auth("Invalid session".to_string()));
            },
        };
        let seq = match self.meets.get(session.meet_id.as_str()) {
            Some(a) => a.server_seq(),
            None => {
                return LiveAction::Fail(AppError::MeetNotFound);
            },
        };
        if !LiveState::batch_valid(&updates) {
            return LiveAction::Send(ServerToClient::MalformedMessage { err_msg: "Invalid update data".to_string() });
        }
        let converted = LiveState::convert_batch(&updates);
        assert(converted@.len() == updates_view(converted@).len());
        assert(updates@.len() == batch_as_recorded(updates@).len());
        let n = converted.len() as u64;
        if seq > u64::MAX - n {
            return LiveAction::Fail(AppError::Internal("sequence numbers exhausted".to_string()));
        }
        let ghost k = session.meet_id@;
        let ghost before = self.meets.map();
        let mut actor = match self.meets.remove(session.meet_id.as_str()) {
            Some(a) => a,
            None => {
                return LiveAction::Fail(AppError::MeetNotFound);
            },
        };
        let ghost a0 = actor;
        let from = actor.log_len();
        let r = actor.handle_update_at("anonymous".to_string(), session.priority, converted, now);
        self.meets.insert(session.meet_id.clone(), actor);
        proof {
            assert(self.meets.map() =~= before.insert(k, actor));
            let m = self.meets.map();
            assert forall|j: Seq<char>| #[trigger] m.contains_key(j) implies m[j].wf() && m[j].meet_id_view() == j by {
                if j != k {
                    assert(before.contains_key(j));
                }
            }
            assert(update_outcome(a0, actor, "anonymous"@, session.priority, batch_as_recorded(updates@), now, r));
        }
        match r {
            Ok(acks) => LiveAction::PersistAndSend {
                meet_id: session.meet_id,
                from,
                message: ServerToClient::UpdateAck { update_acks: acks },
            },
            Err(e) => {
                let mut text = "Failed to apply updates: ".to_string();
                let detail = e.message();
                push_str(&mut text, detail.as_str());
                LiveAction::Send(ServerToClient::MalformedMessage { err_msg: text })
            },
        }
    }

    /// Answers a pull under a session.
    fn client_pull(&mut self, session_token: String, last_server_seq: u64, now: u64) -> (action: LiveAction)
        requires
            old(self).wf(),
        ensures
            final(self).wf(),
            pull_outcome(*old(self), *final(self), session_token, last_server_seq, now, action),
    {
        let session = match self.sessions.get_session_at(session_token.as_str(), now) {
            Some(s) => s,
            None => {
                return LiveAction::Fail(AppError::Auth("Invalid session".to_string()));
            },
        };
        let updates: Vec<UpdateWithServerSeq> = match self.meets.get(session.meet_id.as_str()) {
            Some(a) => a.get_updates_since(last_server_seq),
            None => Vec::new(),
        };
        proof {
            if !old(self).meets.map().contains_key(session.meet_id@) {
                assert(log_view(updates@) =~= Seq::<crate::protocol::RecordView>::empty());
            }
        }
        LiveAction::Send(ServerToClient::ServerPull { last_server_seq, updates_relayed: updates })
    }

    /// Acknowledges a publication under a session.
    fn publish_meet(&mut self, session_token: String, return_email: String, now: u64) -> (action: LiveAction)
        requires
            old(self).wf(),
        ensures
            final(self).wf(),
            publish_outcome(*old(self), *final(self), session_token, return_email, now, action),
    {
        if validate_session_token(session_token.as_str()).is_err() || validate_email(return_email.as_str()).is_err() {
            return LiveAction::Send(
                ServerToClient::MalformedMessage { err_msg: "Invalid session or email".to_string() },
            );
        }
        if self.sessions.get_session_at(session_token.as_str(), now).is_none() {
            return LiveAction::Fail(AppError::Auth("Invalid session".to_string()));
        }
        LiveAction::Send(ServerToClient::PublishAck)
    }

    /// Decides what to do with a message of the live protocol at `now`.
    pub fn handle_client_message_at(&mut self, msg: ClientToServer, now: u64) -> (action: LiveAction)
        requires
            old(self).wf(),
            msg matches ClientToServer::CreateMeet { this_location_name, password, endpoints } ==> (create_fields_ok(
                this_location_name@,
                password@,
            ) ==> endpoints@.len() > 0),
        ensures
            final(self).wf(),
            live_outcome(*old(self), *final(self), msg, now, action),
    {
        match msg {
            ClientToServer::CreateMeet { this_location_name, password, endpoints } => {
                self.handle_create_meet(this_location_name, password, endpoints, now)
            },
            ClientToServer::JoinMeet { meet_id, password, location_name } => {
                self.join_meet(meet_id, password, location_name, now)
            },
            ClientToServer::UpdateInit { session_token, updates } => self.update_init(session_token, updates, now),
            ClientToServer::ClientPull { session_token, last_server_seq } => {
                self.client_pull(session_token, last_server_seq, now)
            },
            ClientToServer::PublishMeet { session_token, return_email, opl_csv } => {
                self.publish_meet(session_token, return_email, now)
            },
        }
    }

    /// Decides what to do with a message of the live protocol at the current time.
    pub fn handle_client_message(&mut self, msg: ClientToServer) -> (action: LiveAction)
        requires
            old(self).wf(),
            msg matches ClientToServer::CreateMeet { this_location_name, password, endpoints } ==> (create_fields_ok(
                this_location_name@,
                password@,
            ) ==> endpoints@.len() > 0),
        ensures
            final(self).wf(),
            exists|now: u64| #[trigger] live_outcome(*old(self), *final(self), msg, now, action),
    {
        let now = crate::clock::now_millis();
        self.handle_client_message_at(msg, now)
    }
    /// The text that refuses a weak password.
    fn weak_password_message() -> (m: String)
        ensures
            m@ == weak_password_text(),
    {
        let mut m = "Password must be at least ".to_string();
        let n = decimal_string(MIN_PASSWORD_LENGTH as u64);
        push_str(&mut m, n.as_str());
        push_str(&mut m, " characters and contain uppercase, lowercase, digit, and special character");
        m
    }

    /// The priority of the first endpoint named `location`, or 0.
    pub fn find_endpoint_priority(endpoints: &Vec<EndpointPriority>, location: &str) -> (p: u8)
        ensures
            p == endpoint_priority(endpoints@, location@),
    {
        let mut i: usize = 0;
        assert(endpoints@.skip(0) =~= endpoints@);
        while i < endpoints.len()
            invariant
                i <= endpoints@.len(),
                endpoint_priority(endpoints@.skip(i as int), location@) == endpoint_priority(endpoints@, location@),
            decreases endpoints@.len() - i,
        {
            proof {
                assert(endpoints@.skip(i as int).drop_first() =~= endpoints@.skip(i + 1));
                assert(endpoints@.skip(i as int)[0] == endpoints@[i as int]);
            }
            if crate::text::str_eq(endpoints[i].location_name.as_str(), location) {
                return endpoints[i].priority;
            }
            i = i + 1;
        }
        assert(endpoints@.skip(i as int).len() == 0);
        0
    }

    /// Creates a meet under stored-meet rules: the password must meet the
    /// default strength requirements.
    fn stored_create_meet(
        &mut self,
        this_location_name: String,
        password: String,
        endpoints: Vec<EndpointPriority>,
        now: u64,
    ) -> (action: LiveAction)
        requires
            old(self).wf(),
            meets_requirements(password@, default_requirements()) ==> endpoints@.len() > 0,
        ensures
            final(self).wf(),
            stored_create_outcome(*old(self), *final(self), this_location_name, password, endpoints, now, action),
    {
        let requirements = PasswordRequirements::default();
        assert(requirements == default_requirements());
        if !validate_password_strength(password.as_str(), &requirements) {
            return LiveAction::Send(ServerToClient::MalformedMessage { err_msg: LiveState::weak_password_message() });
        }
        self.start_meet(this_location_name, password, endpoints)
    }

    /// Joins a meet under stored-meet rules, given what storage holds of it.
    fn stored_join_meet(
        &mut self,
        meet_id: String,
        password: String,
        location_name: String,
        stored: Result<MeetInfo, AppError>,
        now: u64,
    ) -> (action: LiveAction)
        requires
            old(self).wf(),
        ensures
            final(self).wf(),
            stored_join_outcome(*old(self), *final(self), meet_id, password, location_name, stored, now, action),
    {
        let info = match stored {
            Ok(info) => info,
            Err(e) => {
                return LiveAction::Fail(e);
            },
        };
        if !verify_password(info.password_hash.as_str(), password.as_str()) {
            return LiveAction::Send(ServerToClient::MalformedMessage { err_msg: "Invalid password".to_string() });
        }
        let priority = LiveState::find_endpoint_priority(&info.endpoints, location_name.as_str());
        let token = generate_secure_token();
        let csrf = generate_secure_token();
        let ghost c = csrf;
        let session = self.sessions.create_session_at(meet_id, location_name, priority, token, csrf, now);
        assert(self.sessions@ == old(self).sessions@.insert(session.token@, fresh_entry(session, c, now)));
        LiveAction::Send(ServerToClient::MeetJoined { session_token: session.token })
    }

    /// Takes a batch of updates under a session, under stored-meet rules.
    fn stored_update_init(&mut self, session_token: String, updates: Vec<Update>, now: u64) -> (action: LiveAction)
        requires
            old(self).wf(),
        ensures
            final(self).wf(),
            stored_update_outcome(*old(self), *final(self), session_token, updates, now, action),
    {
        let session = match self.sessions.get_session_at(session_token.as_str(), now) {
            Some(s) => s,
            None => {
                return LiveAction::Fail(AppError::Auth("Invalid session".to_string()));
            },
        };
        let seq = match self.meets.get(session.meet_id.as_str()) {
            Some(a) => a.server_seq(),
            None => {
                return LiveAction::Fail(AppError::MeetNotFound);
            },
        };
        let n = updates.len() as u64;
        if seq > u64::MAX - n {
            return LiveAction::Fail(AppError::Internal("sequence numbers exhausted".to_string()));
        }
        let ghost k = session.meet_id@;
        let ghost before = self.meets.map();
        let mut actor = match self.meets.remove(session.meet_id.as_str()) {
            Some(a) => a,
            None => {
                return LiveAction::Fail(AppError::MeetNotFound);
            },
        };
        let ghost a0 = actor;
        let ghost us = updates_view(updates@);
        let from = actor.log_len();
        let r = actor.handle_update_at(session.location_name.clone(), session.priority, updates, now);
        self.meets.insert(session.meet_id.clone(), actor);
        proof {
            assert(self.meets.map() =~= before.insert(k, actor));
            let m = self.meets.map();
            assert forall|j: Seq<char>| #[trigger] m.contains_key(j) implies m[j].wf() && m[j].meet_id_view() == j by {
                if j != k {
                    assert(before.contains_key(j));
                }
            }
            assert(update_outcome(a0, actor, session.location_name@, session.priority, us, now, r));
        }
        match r {
            Ok(acks) => LiveAction::PersistAndSend {
                meet_id: session.meet_id,
                from,
                message: ServerToClient::UpdateAck { update_acks: acks },
            },
            Err(e) => LiveAction::Fail(e),
        }
    }

    /// Answers a pull under a session, under stored-meet rules.
    fn stored_client_pull(&mut self, session_token: String, last_server_seq: u64, now: u64) -> (action: LiveAction)
        requires
            old(self).wf(),
        ensures
            final(self).wf(),
            stored_pull_outcome(*old(self), *final(self), session_token, last_server_seq, now, action),
    {
        let session = match self.sessions.get_session_at(session_token.as_str(), now) {
            Some(s) => s,
            None => {
                return LiveAction::Fail(AppError::Auth("Invalid session".to_string()));
            },
        };
        match self.meets.get(session.meet_id.as_str()) {
            Some(a) => {
                let updates = a.get_updates_since(last_server_seq);
                LiveAction::Send(ServerToClient::ServerPull { last_server_seq, updates_relayed: updates })
            },
            None => LiveAction::Fail(AppError::MeetNotFound),
        }
    }

    /// Acknowledges a publication under a session, under stored-meet rules.
    fn stored_publish_meet(
        &mut self,
        session_token: String,
        return_email: String,
        opl_csv: String,
        now: u64,
    ) -> (action: LiveAction)
        requires
            old(self).wf(),
        ensures
            final(self).wf(),
            stored_publish_outcome(*old(self), *final(self), session_token, return_email, opl_csv, now, action),
    {
        let session = match self.sessions.get_session_at(session_token.as_str(), now) {
            Some(s) => s,
            None => {
                return LiveAction::Fail(AppError::Auth("Invalid session".to_string()));
            },
        };
        if self.meets.get(session.meet_id.as_str()).is_none() {
            return LiveAction::Fail(AppError::MeetNotFound);
        }
        LiveAction::StoreCsvAndSend {
            meet_id: session.meet_id,
            opl_csv,
            return_email,
            message: ServerToClient::PublishAck,
        }
    }

    /// Decides what to do with a message of the live protocol at `now` under
    /// stored-meet rules: a creation needs a strong password, a join is
    /// checked against what storage holds of the meet (`stored`, consulted
    /// for joins only), updates are recorded under the session's location,
    /// and a publication stores the results.
    pub fn handle_stored_meet_message_at(
        &mut self,
        msg: ClientToServer,
        stored: Result<MeetInfo, AppError>,
        now: u64,
    ) -> (action: LiveAction)
        requires
            old(self).wf(),
            msg matches ClientToServer::CreateMeet { password, endpoints, .. } ==> (meets_requirements(
                password@,
                default_requirements(),
            ) ==> endpoints@.len() > 0),
        ensures
            final(self).wf(),
            stored_outcome(*old(self), *final(self), msg, stored, now, action),
    {
        match msg {
            ClientToServer::CreateMeet { this_location_name, password, endpoints } => {
                self.stored_create_meet(this_location_name, password, endpoints, now)
            },
            ClientToServer::JoinMeet { meet_id, password, location_name } => {
                self.stored_join_meet(meet_id, password, location_name, stored, now)
            },
            ClientToServer::UpdateInit { session_token, updates } => self.stored_update_init(session_token, updates, now),
            ClientToServer::ClientPull { session_token, last_server_seq } => {
                self.stored_client_pull(session_token, last_server_seq, now)
            },
            ClientToServer::PublishMeet { session_token, return_email, opl_csv } => {
                self.stored_publish_meet(session_token, return_email, opl_csv, now)
            },
        }
    }

    /// Decides what to do with a message under stored-meet rules at the current time.
    pub fn handle_stored_meet_message(&mut self, msg: ClientToServer, stored: Result<MeetInfo, AppError>) -> (action:
        LiveAction)
        requires
            old(self).wf(),
            msg matches ClientToServer::CreateMeet { password, endpoints, .. } ==> (meets_requirements(
                password@,
                default_requirements(),
            ) ==> endpoints@.len() > 0),
        ensures
            final(self).wf(),
            exists|now: u64| #[trigger] stored_outcome(*old(self), *final(self), msg, stored, now, action),
    {
        let now = crate::clock::now_millis();
        self.handle_stored_meet_message_at(msg, stored, now)
    }
}

} // verus!
