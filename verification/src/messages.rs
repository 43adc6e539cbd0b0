//! Messages of the meet WebSocket protocol in its tagged form, with the
//! session and client records that the server keeps.
use crate::text::is_ascii_digit;
use vstd::prelude::*;

verus! {

/// Messages sent from client to server.
#[derive(Debug, Clone)]
pub enum ClientMessage {
    CreateMeet { meet_id: String, password: String, location_name: String, priority: u8 },
    JoinMeet { meet_id: String, password: String, location_name: String, priority: u8 },
    UpdateInit { meet_id: String, session_token: String, updates: Vec<Update> },
    ClientPull { meet_id: String, session_token: String, last_server_seq: u64 },
    PublishMeet { meet_id: String, session_token: String, return_email: String, opl_csv: String },
    StateRecoveryResponse {
        meet_id: String,
        session_token: String,
        last_seq_num: u64,
        updates: Vec<Update>,
        priority: u8,
    },
}

/// Messages sent from server to client.
#[derive(Debug, Clone)]
pub enum ServerMessage {
    MeetCreated { meet_id: String, session_token: String },
    MeetJoined { meet_id: String, session_token: String },
    UpdateAck { meet_id: String, update_ids: Vec<String> },
    UpdateRelay { meet_id: String, updates: Vec<UpdateWithMetadata> },
    JoinRejected { reason: String },
    UpdateRejected { meet_id: String, updates_rejected: Vec<(String, String)> },
    ServerPull { meet_id: String, last_server_seq: u64, updates_relayed: Vec<UpdateWithMetadata> },
    PublishAck { meet_id: String },
    MalformedMessage { err_msg: String },
    UnknownMessageType { msg_type: String },
    InvalidSession { session_token: String },
    Error { code: String, message: String },
    StateRecoveryRequest { meet_id: String, last_known_seq: u64 },
    StateRecovered { meet_id: String, new_seq_num: u64, updates_recovered: usize },
}

/// An update of one location of the meet state; `value` is JSON text.
#[derive(Debug, Clone)]
pub struct Update {
    pub location: String,
    pub value: String,
    pub timestamp: i64,
}

/// An update with the client, sequence number and priority it came with.
#[derive(Debug, Clone)]
pub struct UpdateWithMetadata {
    pub update: Update,
    pub source_client: String,
    pub server_seq: u64,
    pub priority: u8,
}

/// A client's session in a meet.
#[derive(Debug, Clone)]
pub struct Session {
    pub token: String,
    pub meet_id: String,
    pub location_name: String,
    pub priority: u8,
}

/// A lowercase hexadecimal digit.
pub open spec fn is_lower_hex(c: char) -> bool {
    is_ascii_digit(c) || ('a' <= c && c <= 'f')
}

/// The hyphenated UUID form: 36 characters, hyphens at positions 8, 13, 18
/// and 23, lowercase hexadecimal digits elsewhere.
pub open spec fn uuid_hyphenated(s: Seq<char>) -> bool {
    &&& s.len() == 36
    &&& forall|i: int|
        0 <= i < 36 ==> if i == 8 || i == 13 || i == 18 || i == 23 {
            #[trigger] s[i] == '-'
        } else {
            is_lower_hex(s[i])
        }
}

/// A fresh random (version 4) UUID in its hyphenated form
/// (`uuid::Uuid::new_v4().to_string()`); which UUID comes out is left open.
#[verifier::external_body]
pub(crate) fn new_uuid_string() -> (s: String)
    ensures
        uuid_hyphenated(s@),
{
    uuid::Uuid::new_v4().to_string()
}

impl Session {
    /// A session for `meet_id` at `location_name` with a fresh random UUID token.
    pub fn new(meet_id: String, location_name: String, priority: u8) -> (s: Self)
        ensures
            s.meet_id == meet_id,
            s.location_name == location_name,
            s.priority == priority,
            uuid_hyphenated(s.token@),
    {
        Session { token: new_uuid_string(), meet_id, location_name, priority }
    }
}

/// A connected client and its priority.
#[derive(Debug, Clone)]
pub struct ClientInfo {
    pub session_token: String,
    pub location_name: String,
    pub priority: u8,
}

/// A meet, its password hash and its clients.
#[derive(Debug, Clone)]
pub struct MeetInfo {
    pub meet_id: String,
    pub password_hash: String,
    pub clients: Vec<ClientInfo>,
}

} // verus!
