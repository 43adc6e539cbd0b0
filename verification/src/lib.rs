//! Verified core of the OpenLifter live-meet server: input validation,
//! password rules, session and rate-limit bookkeeping, the meet state
//! machine and priority-based conflict resolution.

pub mod auth;
pub mod clock;
pub mod config;
pub mod conflict;
pub mod error;
pub mod json;
pub mod live;
pub mod meet;
pub mod meet_actor;
pub mod messages;
pub mod rate_limit;
pub mod shared_map;
pub mod protocol;
pub mod table;
pub mod text;
pub mod validation;
pub mod websocket;
pub mod ws_router;

use vstd::prelude::*;

verus! {
} // verus!
