//! Authentication: password rules and hashing, secure tokens, sessions and
//! authentication rate limiting.

pub mod password;
pub mod token_generator;
pub mod session;
pub mod rate_limit;
pub mod service;
pub mod session_store;
pub mod simple;
