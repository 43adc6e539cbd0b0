//! Server configuration: its structure, its defaults and the holder that
//! hands it out. Reading it from files and the environment is the caller's
//! work.
use crate::error::AppError;
use vstd::prelude::*;

verus! {

/// Server configuration.
#[derive(Debug, Clone)]
pub struct Settings {
    pub server: ServerSettings,
    pub storage: StorageSettings,
    pub rate_limit: RateLimitSettings,
}

/// Where the server listens.
#[derive(Debug, Clone)]
pub struct ServerSettings {
    pub host: String,
    pub port: u16,
}

/// Where the server keeps its files.
#[derive(Debug, Clone)]
pub struct StorageSettings {
    pub path: String,
}

/// Request rate limiting: at most `max_requests` per `window_secs` seconds.
#[derive(Debug, Clone, Copy, PartialEq, Eq, Structural)]
pub struct RateLimitSettings {
    pub window_secs: u64,
    pub max_requests: u32,
}

impl Settings {
    /// The rate-limit part of the settings.
    pub fn get_rate_limit_settings(&self) -> (r: &RateLimitSettings)
        ensures
            *r == self.rate_limit,
    {
        &self.rate_limit
    }
}

/// Holds the application's settings.
pub struct SettingsManager {
    settings: Settings,
}

impl SettingsManager {
    /// The settings held.
    pub closed spec fn settings(&self) -> Settings {
        self.settings
    }

    /// A manager holding `settings`.
    pub fn new(settings: Settings) -> (r: Result<Self, AppError>)
        ensures
            r matches Ok(m) && m.settings() == settings,
    {
        Ok(SettingsManager { settings })
    }

    /// The current settings.
    pub fn get(&self) -> (r: &Settings)
        ensures
            *r == self.settings(),
    {
        &self.settings
    }
}

/// The default port: 3000.
pub fn default_port() -> (p: u16)
    ensures
        p == 3000,
{
    3000
}

/// The default data directory: `server-storage`.
pub fn default_data_dir() -> (d: String)
    ensures
        d@ == "server-storage"@,
{
    "server-storage".to_string()
}

/// The default maximum number of connections: 1000.
pub fn default_max_connections() -> (n: usize)
    ensures
        n == 1000,
{
    1000
}

/// The default size of a connection's message buffer: 32.
pub fn default_message_buffer_size() -> (n: usize)
    ensures
        n == 32,
{
    32
}

/// The default session lifetime in days: 7.
pub fn default_session_expiry_days() -> (n: u64)
    ensures
        n == 7,
{
    7
}

/// The default minimum password length: 10.
pub fn default_min_password_length() -> (n: usize)
    ensures
        n == 10,
{
    10
}

/// The default log level: `info`.
pub fn default_log_level() -> (s: String)
    ensures
        s@ == "info"@,
{
    "info".to_string()
}

/// Metrics are enabled by default.
pub fn default_enable_metrics() -> (b: bool)
    ensures
        b,
{
    true
}

/// The default metrics port: 9090.
pub fn default_metrics_port() -> (p: u16)
    ensures
        p == 9090,
{
    9090
}

/// The default rate limit: 100 requests per 60 seconds.
pub fn default_rate_limit() -> (r: RateLimitSettings)
    ensures
        r.max_requests == 100,
        r.window_secs == 60,
{
    RateLimitSettings { max_requests: 100, window_secs: 60 }
}

impl Default for Settings {
    /// Listen on 127.0.0.1:8080, keep files under `server-storage`, and
    /// allow 100 requests per 60 seconds.
    fn default() -> (s: Self)
        ensures
            s.server.port == 8080,
            s.server.host@ == "127.0.0.1"@,
            s.storage.path@ == "server-storage"@,
            s.rate_limit.max_requests == 100,
            s.rate_limit.window_secs == 60,
    {
        Settings {
            server: ServerSettings { port: 8080, host: "127.0.0.1".to_string() },
            storage: StorageSettings { path: "server-storage".to_string() },
            rate_limit: default_rate_limit(),
        }
    }
}

} // verus!
