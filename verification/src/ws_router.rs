//! The decisions of the WebSocket connection loop: which meet a connection
//! belongs to, when a message calls for a consistency check, and whether a
//! meet has been quiet long enough to ask its clients for recovery.
use crate::messages::ClientMessage;
use crate::protocol::ClientToServer;
use crate::text::push_str;
use vstd::prelude::*;

verus! {

/// Seconds of quiet after which a meet's clients are asked for recovery.
pub const INACTIVITY_LIMIT_SECS: u64 = 300;

/// The meet that a message of the tagged protocol names.
pub open spec fn meet_of(msg: ClientMessage) -> String {
    match msg {
        ClientMessage::CreateMeet { meet_id, .. } => meet_id,
        ClientMessage::JoinMeet { meet_id, .. } => meet_id,
        ClientMessage::UpdateInit { meet_id, .. } => meet_id,
        ClientMessage::ClientPull { meet_id, .. } => meet_id,
        ClientMessage::PublishMeet { meet_id, .. } => meet_id,
        ClientMessage::StateRecoveryResponse { meet_id, .. } => meet_id,
    }
}

/// The meet that a message of the tagged protocol names; the connection
/// belongs to it from then on.
pub fn connection_meet_id(msg: &ClientMessage) -> (id: String)
    ensures
        id == meet_of(*msg),
{
    match msg {
        ClientMessage::CreateMeet { meet_id, .. } => meet_id.clone(),
        ClientMessage::JoinMeet { meet_id, .. } => meet_id.clone(),
        ClientMessage::UpdateInit { meet_id, .. } => meet_id.clone(),
        ClientMessage::ClientPull { meet_id, .. } => meet_id.clone(),
        ClientMessage::PublishMeet { meet_id, .. } => meet_id.clone(),
        ClientMessage::StateRecoveryResponse { meet_id, .. } => meet_id.clone(),
    }
}

/// Joining a meet and pulling from it are when a meet's consistency is checked.
pub fn triggers_consistency_check(msg: &ClientMessage) -> (b: bool)
    ensures
        b == (*msg is JoinMeet || *msg is ClientPull),
{
    match msg {
        ClientMessage::JoinMeet { .. } | ClientMessage::ClientPull { .. } => true,
        _ => false,
    }
}

/// The meet that a message of the live protocol names, if it names one:
/// only a join does.
pub fn live_connection_meet_id(msg: &ClientToServer) -> (id: Option<String>)
    ensures
        match *msg {
            ClientToServer::JoinMeet { meet_id, .. } => id == Some(meet_id),
            _ => id is None,
        },
{
    match msg {
        ClientToServer::JoinMeet { meet_id, .. } => Some(meet_id.clone()),
        _ => None,
    }
}

/// The key under which a meet's last activity is kept.
pub fn activity_key(meet_id: &str) -> (k: String)
    ensures
        k@ == "meet:"@ + meet_id@ + "_last_activity"@,
{
    let mut k = "meet:".to_string();
    push_str(&mut k, meet_id);
    push_str(&mut k, "_last_activity");
    k
}

/// The consistency check of a meet at `now` (in seconds), given its last
/// recorded activity (none: the meet is first seen now): whether the meet
/// was quiet for more than `INACTIVITY_LIMIT_SECS`, and the activity time to
/// record, which is `now`.
pub fn consistency_step(last_activity: Option<u64>, now: u64) -> (r: (bool, u64))
    requires
        last_activity matches Some(l) ==> l <= now,
    ensures
        r.1 == now,
        r.0 == (last_activity matches Some(l) && now - l > INACTIVITY_LIMIT_SECS),
{
    let last = match last_activity {
        Some(l) => l,
        None => now,
    };
    (now - last > INACTIVITY_LIMIT_SECS, now)
}

} // verus!
