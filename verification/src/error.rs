//! The server's error types, their HTTP status codes, error codes and texts.
use crate::text::{decimal, decimal_string, push_str};
use vstd::prelude::*;

verus! {

/// Application errors.
#[derive(Debug, Clone)]
pub enum AppError {
    Auth(String),
    Internal(String),
    NotFound(String),
    /// An I/O failure, with the failure's text.
    Io(String),
    /// A JSON failure, with the failure's text.
    Json(String),
    InvalidPassword,
    MeetNotFound,
    InvalidMeetId,
    RateLimitExceeded,
    AuthRateLimited,
    InvalidInput(String),
    NeedsRecovery { meet_id: String, last_known_seq: u64 },
}

/// The HTTP status of each error.
pub open spec fn app_status(e: AppError) -> u16 {
    match e {
        AppError::Auth(_) | AppError::InvalidPassword => 401,
        AppError::NotFound(_) | AppError::MeetNotFound => 404,
        AppError::InvalidMeetId | AppError::InvalidInput(_) => 400,
        AppError::RateLimitExceeded | AppError::AuthRateLimited => 429,
        AppError::NeedsRecovery { .. } => 409,
        _ => 500,
    }
}

/// The error code of each error.
pub open spec fn app_code(e: AppError) -> Seq<char> {
    match e {
        AppError::Auth(_) => "AUTH_001"@,
        AppError::Internal(_) => "INT_001"@,
        AppError::NotFound(_) => "NF_001"@,
        AppError::Io(_) => "IO_001"@,
        AppError::Json(_) => "JSON_001"@,
        AppError::InvalidPassword => "AUTH_002"@,
        AppError::MeetNotFound => "MEET_001"@,
        AppError::InvalidMeetId => "MEET_002"@,
        AppError::RateLimitExceeded => "RATE_001"@,
        AppError::AuthRateLimited => "AUTH_003"@,
        AppError::InvalidInput(_) => "VAL_001"@,
        AppError::NeedsRecovery { .. } => "RECOVERY_001"@,
    }
}

/// The production-safe message of each error; it never repeats the detail.
pub open spec fn app_sanitized(e: AppError) -> Seq<char> {
    match e {
        AppError::Auth(_) => "Authentication failed"@,
        AppError::InvalidPassword => "Authentication failed"@,
        AppError::AuthRateLimited => "Too many authentication attempts, please try again later"@,
        AppError::Internal(_) => "An internal server error occurred"@,
        AppError::Json(_) => "Invalid request format"@,
        AppError::Io(_) => "Internal server error"@,
        AppError::NotFound(_) => "Resource not found"@,
        AppError::MeetNotFound => "Resource not found"@,
        AppError::InvalidMeetId => "Invalid resource identifier"@,
        AppError::RateLimitExceeded => "Rate limit exceeded, please try again later"@,
        AppError::InvalidInput(_) => "Invalid input provided"@,
        AppError::NeedsRecovery { .. } => "Data synchronization required"@,
    }
}

/// The full display text of each error.
pub open spec fn app_text(e: AppError) -> Seq<char> {
    match e {
        AppError::Auth(m) => "Authentication error: "@ + m@,
        AppError::Internal(m) => "Internal error: "@ + m@,
        AppError::NotFound(m) => "Not found: "@ + m@,
        AppError::Io(m) => "IO error: "@ + m@,
        AppError::Json(m) => "JSON error: "@ + m@,
        AppError::InvalidPassword => "Invalid password"@,
        AppError::MeetNotFound => "Meet not found"@,
        AppError::InvalidMeetId => "Invalid meet ID"@,
        AppError::RateLimitExceeded => "Rate limit exceeded"@,
        AppError::AuthRateLimited => "Authentication rate limit exceeded"@,
        AppError::InvalidInput(m) => "Invalid input: "@ + m@,
        AppError::NeedsRecovery { meet_id, last_known_seq } => "State inconsistency detected for meet "@
            + meet_id@ + ", recovery needed (last_known_seq: "@ + decimal(last_known_seq as nat)
            + ")"@,
    }
}

fn with_detail(prefix: &str, detail: &String) -> (s: String)
    ensures
        s@ == prefix@ + detail@,
{
    let mut s = prefix.to_owned();
    push_str(&mut s, detail.as_str());
    s
}

impl AppError {
    /// The HTTP status code for this error.
    pub fn status_code(&self) -> (code: u16)
        ensures
            code == app_status(*self),
    {
        match self {
            AppError::Auth(_) | AppError::InvalidPassword => 401,
            AppError::NotFound(_) | AppError::MeetNotFound => 404,
            AppError::InvalidMeetId | AppError::InvalidInput(_) => 400,
            AppError::RateLimitExceeded | AppError::AuthRateLimited => 429,
            AppError::NeedsRecovery { .. } => 409,
            _ => 500,
        }
    }

    /// The error code for this error.
    pub fn error_code(&self) -> (code: &'static str)
        ensures
            code@ == app_code(*self),
    {
        match self {
            AppError::Auth(_) => "AUTH_001",
            AppError::Internal(_) => "INT_001",
            AppError::NotFound(_) => "NF_001",
            AppError::Io(_) => "IO_001",
            AppError::Json(_) => "JSON_001",
            AppError::InvalidPassword => "AUTH_002",
            AppError::MeetNotFound => "MEET_001",
            AppError::InvalidMeetId => "MEET_002",
            AppError::RateLimitExceeded => "RATE_001",
            AppError::AuthRateLimited => "AUTH_003",
            AppError::InvalidInput(_) => "VAL_001",
            AppError::NeedsRecovery { .. } => "RECOVERY_001",
        }
    }

    /// A message suitable for production use.
    pub fn sanitized_message(&self) -> (m: String)
        ensures
            m@ == app_sanitized(*self),
    {
        match self {
            AppError::Auth(_) => "Authentication failed".to_string(),
            AppError::InvalidPassword => "Authentication failed".to_string(),
            AppError::AuthRateLimited => "Too many authentication attempts, please try again later".to_string(),
            AppError::Internal(_) => "An internal server error occurred".to_string(),
            AppError::Json(_) => "Invalid request format".to_string(),
            AppError::Io(_) => "Internal server error".to_string(),
            AppError::NotFound(_) => "Resource not found".to_string(),
            AppError::MeetNotFound => "Resource not found".to_string(),
            AppError::InvalidMeetId => "Invalid resource identifier".to_string(),
            AppError::RateLimitExceeded => "Rate limit exceeded, please try again later".to_string(),
            AppError::InvalidInput(_) => "Invalid input provided".to_string(),
            AppError::NeedsRecovery { .. } => "Data synchronization required".to_string(),
        }
    }

    /// The full display text of this error.
    pub fn message(&self) -> (m: String)
        ensures
            m@ == app_text(*self),
    {
        match self {
            AppError::Auth(d) => with_detail("Authentication error: ", d),
            AppError::Internal(d) => with_detail("Internal error: ", d),
            AppError::NotFound(d) => with_detail("Not found: ", d),
            AppError::Io(d) => with_detail("IO error: ", d),
            AppError::Json(d) => with_detail("JSON error: ", d),
            AppError::InvalidPassword => "Invalid password".to_string(),
            AppError::MeetNotFound => "Meet not found".to_string(),
            AppError::InvalidMeetId => "Invalid meet ID".to_string(),
            AppError::RateLimitExceeded => "Rate limit exceeded".to_string(),
            AppError::AuthRateLimited => "Authentication rate limit exceeded".to_string(),
            AppError::InvalidInput(d) => with_detail("Invalid input: ", d),
            AppError::NeedsRecovery { meet_id, last_known_seq } => {
                let mut s = with_detail("State inconsistency detected for meet ", meet_id);
                push_str(&mut s, ", recovery needed (last_known_seq: ");
                let n = decimal_string(*last_known_seq);
                push_str(&mut s, n.as_str());
                push_str(&mut s, ")");
                s
            },
        }
    }
}

impl From<String> for AppError {
    fn from(msg: String) -> (e: Self) {
        AppError::Internal(msg)
    }
}

impl vstd::std_specs::convert::FromSpecImpl<String> for AppError {
    open spec fn obeys_from_spec() -> bool {
        true
    }

    open spec fn from_spec(msg: String) -> AppError {
        AppError::Internal(msg)
    }
}

/// The conversion of a string slice: an `Internal` error with the same text.
/// (A specification cannot build the `String`, so only the inherent
/// `internal_from_str` states the result.)
impl From<&str> for AppError {
    fn from(msg: &str) -> (e: Self) {
        AppError::internal_from_str(msg)
    }
}

impl vstd::std_specs::convert::FromSpecImpl<&str> for AppError {
    open spec fn obeys_from_spec() -> bool {
        false
    }

    open spec fn from_spec(msg: &str) -> AppError {
        arbitrary()
    }
}

impl AppError {
    /// An `Internal` error with the text of `msg`.
    pub fn internal_from_str(msg: &str) -> (e: Self)
        ensures
            e matches AppError::Internal(m) && m@ == msg@,
    {
        AppError::Internal(msg.to_owned())
    }
}

/// Errors of the simple server.
#[derive(Debug, Clone)]
pub enum ServerError {
    Auth(String),
    Internal(String),
    NotFound(String),
    Io(String),
    Json(String),
    InvalidPassword,
    MeetNotFound,
    InvalidMeetId,
}

/// The HTTP status of each simple-server error.
pub open spec fn server_status(e: ServerError) -> u16 {
    match e {
        ServerError::Auth(_) => 401,
        ServerError::Internal(_) => 500,
        ServerError::NotFound(_) => 404,
        ServerError::Io(_) => 500,
        ServerError::Json(_) => 500,
        ServerError::InvalidPassword => 400,
        ServerError::MeetNotFound => 404,
        ServerError::InvalidMeetId => 400,
    }
}

/// The display text of each simple-server error.
pub open spec fn server_text(e: ServerError) -> Seq<char> {
    match e {
        ServerError::Auth(m) => "Authentication error: "@ + m@,
        ServerError::Internal(m) => "Internal error: "@ + m@,
        ServerError::NotFound(m) => "Not found: "@ + m@,
        ServerError::Io(m) => "IO error: "@ + m@,
        ServerError::Json(m) => "JSON error: "@ + m@,
        ServerError::InvalidPassword => "Invalid password"@,
        ServerError::MeetNotFound => "Meet not found"@,
        ServerError::InvalidMeetId => "Invalid meet ID"@,
    }
}

impl ServerError {
    /// The HTTP status code for this error.
    pub fn status_code(&self) -> (code: u16)
        ensures
            code == server_status(*self),
    {
        match self {
            ServerError::Auth(_) => 401,
            ServerError::Internal(_) => 500,
            ServerError::NotFound(_) => 404,
            ServerError::Io(_) => 500,
            ServerError::Json(_) => 500,
            ServerError::InvalidPassword => 400,
            ServerError::MeetNotFound => 404,
            ServerError::InvalidMeetId => 400,
        }
    }

    /// The display text of this error.
    pub fn message(&self) -> (m: String)
        ensures
            m@ == server_text(*self),
    {
        match self {
            ServerError::Auth(d) => with_detail("Authentication error: ", d),
            ServerError::Internal(d) => with_detail("Internal error: ", d),
            ServerError::NotFound(d) => with_detail("Not found: ", d),
            ServerError::Io(d) => with_detail("IO error: ", d),
            ServerError::Json(d) => with_detail("JSON error: ", d),
            ServerError::InvalidPassword => "Invalid password".to_string(),
            ServerError::MeetNotFound => "Meet not found".to_string(),
            ServerError::InvalidMeetId => "Invalid meet ID".to_string(),
        }
    }
}

impl From<String> for ServerError {
    fn from(msg: String) -> (e: Self) {
        ServerError::Internal(msg)
    }
}

impl vstd::std_specs::convert::FromSpecImpl<String> for ServerError {
    open spec fn obeys_from_spec() -> bool {
        true
    }

    open spec fn from_spec(msg: String) -> ServerError {
        ServerError::Internal(msg)
    }
}

/// The conversion of a string slice: an `Internal` error with the same text.
/// (A specification cannot build the `String`, so only the inherent
/// `internal_from_str` states the result.)
impl From<&str> for ServerError {
    fn from(msg: &str) -> (e: Self) {
        ServerError::internal_from_str(msg)
    }
}

impl vstd::std_specs::convert::FromSpecImpl<&str> for ServerError {
    open spec fn obeys_from_spec() -> bool {
        false
    }

    open spec fn from_spec(msg: &str) -> ServerError {
        arbitrary()
    }
}

impl ServerError {
    /// An `Internal` error with the text of `msg`.
    pub fn internal_from_str(msg: &str) -> (e: Self)
        ensures
            e matches ServerError::Internal(m) && m@ == msg@,
    {
        ServerError::Internal(msg.to_owned())
    }
}

} // verus!
