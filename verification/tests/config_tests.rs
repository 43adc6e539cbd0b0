use openlifter_backend::config::{
    default_data_dir, default_enable_metrics, default_log_level, default_max_connections,
    default_message_buffer_size, default_metrics_port, default_min_password_length, default_port,
    default_rate_limit, default_session_expiry_days, RateLimitSettings, ServerSettings, Settings,
    SettingsManager, StorageSettings,
};

fn create_test_config() -> Settings {
    Settings {
        server: ServerSettings { host: "127.0.0.1".to_string(), port: 3000 },
        storage: StorageSettings { path: default_data_dir() },
        rate_limit: default_rate_limit(),
    }
}

fn create_test_settings(host: &str, port: u16, path: &str, max_req: u32, window: u64) -> Settings {
    Settings {
        server: ServerSettings { host: host.to_string(), port },
        storage: StorageSettings { path: path.to_string() },
        rate_limit: RateLimitSettings { window_secs: window, max_requests: max_req },
    }
}

#[test]
fn test_default_config() {
    let config = create_test_config();
    assert_eq!(config.server.port, default_port());
    assert_eq!(config.storage.path, default_data_dir());
    assert_eq!(config.rate_limit, default_rate_limit());
}

#[test]
fn config_test_default_config() {
    let config = create_test_config();
    assert_eq!(config.server.port, default_port());
    assert_eq!(config.storage.path, default_data_dir());
    assert_eq!(config.rate_limit, default_rate_limit());
}

#[test]
fn test_settings_configurations() {
    let test_cases = [
        ("default", "127.0.0.1", 8080, "server-storage", 100, 60),
        ("custom", "0.0.0.0", 9000, "custom_data", 200, 120),
        ("minimal", "192.168.1.1", 8888, "test_data", 50, 30),
    ];
    for (name, host, port, path, max_req, window) in test_cases {
        let settings =
            if name == "default" { Settings::default() } else { create_test_settings(host, port, path, max_req, window) };
        assert_eq!(settings.server.host, host, "Host mismatch for {}", name);
        assert_eq!(settings.server.port, port, "Port mismatch for {}", name);
        assert_eq!(settings.storage.path, path.to_string(), "Path mismatch for {}", name);
        assert_eq!(settings.rate_limit.max_requests, max_req, "Max requests mismatch for {}", name);
        assert_eq!(settings.rate_limit.window_secs, window, "Window mismatch for {}", name);
    }
}

#[test]
fn config_test_settings_manager() {
    let settings = Settings::default();
    let manager = SettingsManager::new(settings.clone()).unwrap();
    let current = manager.get();
    assert_eq!(current.server.port, settings.server.port);
    assert_eq!(current.storage.path, settings.storage.path);
    assert_eq!(current.rate_limit.max_requests, settings.rate_limit.max_requests);
}

#[test]
fn test_rate_limit_settings() {
    let settings = Settings::default();
    let rate_limit = settings.get_rate_limit_settings();
    assert_eq!(rate_limit.max_requests, 100);
    assert_eq!(rate_limit.window_secs, 60);
}

#[test]
fn test_environment_override() {
    let mut custom_config = create_test_config();
    custom_config.server.port = 9000;
    custom_config.server.host = "custom_host".to_string();
    assert_eq!(custom_config.server.port, 9000);
    assert_eq!(custom_config.server.host, "custom_host");
}

#[test]
fn config_test_environment_override() {
    let mut custom_config = create_test_config();
    custom_config.server.port = 9000;
    custom_config.server.host = "custom_host".to_string();
    assert_eq!(custom_config.server.port, 9000);
    assert_eq!(custom_config.server.host, "custom_host");
}

#[test]
fn test_settings_manager_operations() {
    let settings = Settings::default();
    let manager = SettingsManager::new(settings.clone()).unwrap();
    let retrieved = manager.get();
    assert_eq!(retrieved.server.host, settings.server.host);
    let rate_limit = retrieved.get_rate_limit_settings();
    assert_eq!(rate_limit.max_requests, 100);
    assert_eq!(rate_limit.window_secs, 60);
}

#[test]
fn default_values() {
    assert_eq!(default_port(), 3000);
    assert_eq!(default_data_dir(), "server-storage");
    assert_eq!(default_max_connections(), 1000);
    assert_eq!(default_message_buffer_size(), 32);
    assert_eq!(default_session_expiry_days(), 7);
    assert_eq!(default_min_password_length(), 10);
    assert_eq!(default_log_level(), "info");
    assert!(default_enable_metrics());
    assert_eq!(default_metrics_port(), 9090);
    let s = Settings::default();
    assert_eq!(s.server.host, "127.0.0.1");
    assert_eq!(s.server.port, 8080);
    assert_eq!(s.storage.path, "server-storage");
}
