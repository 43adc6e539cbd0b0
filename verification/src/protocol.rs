//! The client/server protocol of live meets: the messages exchanged over the
//! WebSocket and the records that the server keeps of each update.
//!
//! An update's value is carried as its compact JSON text (what
//! `serde_json::to_string` writes for the value).
use vstd::prelude::*;

verus! {

/// Messages sent from client to server.
#[derive(Debug, Clone)]
pub enum ClientToServer {
    /// Create a new meet; `endpoints` lists the locations with their conflict priorities.
    CreateMeet { this_location_name: String, password: String, endpoints: Vec<EndpointPriority> },
    /// Join an existing meet.
    JoinMeet { meet_id: String, password: String, location_name: String },
    /// Send updates to the server.
    UpdateInit { session_token: String, updates: Vec<Update> },
    /// Ask for the updates after `last_server_seq`.
    ClientPull { session_token: String, last_server_seq: u64 },
    /// Publish the meet's results.
    PublishMeet { session_token: String, return_email: String, opl_csv: String },
}

/// A location of a meet with its priority (a higher number wins conflicts).
#[derive(Debug, Clone)]
pub struct EndpointPriority {
    pub location_name: String,
    pub priority: u8,
}

/// A single state update sent by a client.
#[derive(Debug, Clone)]
pub struct Update {
    /// Key path of the update (e.g. `"lifter.1.name"`).
    pub update_key: String,
    /// New value for the key, as compact JSON text.
    pub update_value: String,
    /// Sequence number assigned by the client.
    pub local_seq_num: u64,
    /// Last server sequence number the client had seen.
    pub after_server_seq_num: u64,
}

/// An update as the server recorded it.
#[derive(Debug, Clone)]
pub struct UpdateWithServerSeq {
    pub update: Update,
    /// Sequence number assigned by the server.
    pub server_seq_num: u64,
    /// The client that sent the update.
    pub source_client_id: String,
    /// That client's priority.
    pub source_client_priority: u8,
}

/// The contents of an update, its texts as character sequences.
pub struct UpdateView {
    pub update_key: Seq<char>,
    pub update_value: Seq<char>,
    pub local_seq_num: u64,
    pub after_server_seq_num: u64,
}

impl View for Update {
    type V = UpdateView;

    open spec fn view(&self) -> UpdateView {
        UpdateView {
            update_key: self.update_key@,
            update_value: self.update_value@,
            local_seq_num: self.local_seq_num,
            after_server_seq_num: self.after_server_seq_num,
        }
    }
}

/// The contents of a recorded update.
pub struct RecordView {
    pub update: UpdateView,
    pub server_seq_num: u64,
    pub source_client_id: Seq<char>,
    pub source_client_priority: u8,
}

impl View for UpdateWithServerSeq {
    type V = RecordView;

    open spec fn view(&self) -> RecordView {
        RecordView {
            update: self.update@,
            server_seq_num: self.server_seq_num,
            source_client_id: self.source_client_id@,
            source_client_priority: self.source_client_priority,
        }
    }
}

/// A copy of an update.
pub fn copy_update(u: &Update) -> (r: Update)
    ensures
        r == *u,
{
    Update {
        update_key: u.update_key.clone(),
        update_value: u.update_value.clone(),
        local_seq_num: u.local_seq_num,
        after_server_seq_num: u.after_server_seq_num,
    }
}

/// A copy of a recorded update.
pub fn copy_record(r: &UpdateWithServerSeq) -> (c: UpdateWithServerSeq)
    ensures
        c == *r,
{
    UpdateWithServerSeq {
        update: copy_update(&r.update),
        server_seq_num: r.server_seq_num,
        source_client_id: r.source_client_id.clone(),
        source_client_priority: r.source_client_priority,
    }
}

/// Messages sent from server to client.
#[derive(Debug, Clone)]
pub enum ServerToClient {
    MeetCreated { meet_id: String, session_token: String },
    MeetJoined { session_token: String },
    JoinRejected { reason: String },
    /// `(local_seq, server_seq)` pairs.
    UpdateAck { update_acks: Vec<(u64, u64)> },
    UpdateRejected { updates_rejected: Vec<(u64, String)> },
    UpdateRelay { updates_relayed: Vec<UpdateWithServerSeq> },
    ServerPull { last_server_seq: u64, updates_relayed: Vec<UpdateWithServerSeq> },
    PublishAck,
    MalformedMessage { err_msg: String },
    UnknownMessageType { msg_type: String },
    InvalidSession { session_token: String },
}

/// What the server stores about a meet.
#[derive(Debug, Clone)]
pub struct MeetInfo {
    /// Hashed meet password.
    pub password_hash: String,
    pub endpoints: Vec<EndpointPriority>,
}

} // verus!
