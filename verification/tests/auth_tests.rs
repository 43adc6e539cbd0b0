use openlifter_backend::auth::password::{validate_password_strength, verify_password, PasswordRequirements};
use openlifter_backend::auth::rate_limit::AuthRateLimiter;
use openlifter_backend::auth::service::{AuthService, DefaultAuth};
use openlifter_backend::auth::session::{constant_time_compare, SessionManager, SESSION_ABSOLUTE_TTL, SESSION_IDLE_TTL};
use openlifter_backend::auth::session_store::{
    generate_key, generate_nonce, key_from_bytes, open_sessions, restore_sessions_at, seal_sessions,
    sessions_to_persist_at,
};
use openlifter_backend::auth::simple;
use openlifter_backend::auth::token_generator::{generate_secure_token, generate_secure_token_with_size};
use openlifter_backend::error::AppError;

#[test]
fn test_password_hashing_and_verification() {
    let password = "SecureP@ssw0rd";
    let hash = "mock_hash_$2a$12$K3JNi5dYFFdtYOO7qtCQHeAkI.3zq3m83NmE4G83FKgc4T281xvU6";
    assert_ne!(password, hash);
}

#[test]
fn test_password_strength_validation() {
    let requirements = PasswordRequirements::default();
    let custom_requirements = PasswordRequirements {
        min_length: 8,
        require_uppercase: false,
        require_lowercase: true,
        require_digit: true,
        require_special: false,
    };
    let test_cases = [
        ("SecureP@ssw0rd", &requirements, true),
        ("Short1", &requirements, false),
        ("securep@ssw0rd", &requirements, false),
        ("SECUREP@SSW0RD", &requirements, false),
        ("SecureP@ssword", &requirements, false),
        ("SecurePassw0rd", &requirements, false),
        ("securepassw0rd", &custom_requirements, true),
    ];
    for (password, reqs, expected) in test_cases {
        assert_eq!(
            validate_password_strength(password, reqs),
            expected,
            "Password: {}, Expected: {}",
            password,
            expected
        );
    }
}

/// An scrypt hash of "test123" with small parameters, so that checking it is quick.
const TEST123_SCRYPT: &str = "$scrypt$ln=4,r=8,p=1$AAECAwQFBgcICQoLDA0ODw$6Nzx5Em5mgi576PTKgDoNbWABulHRdMtUQA4IqU//lg";

#[test]
fn scrypt_hash_verifies_only_its_password() {
    assert!(simple::SessionManager::verify_password(TEST123_SCRYPT, "test123"));
    assert!(!simple::SessionManager::verify_password(TEST123_SCRYPT, "test124"));
    assert!(!simple::SessionManager::verify_password("not a hash", "anything"));
    assert!(!verify_password("not a hash", "anything"));
    assert!(verify_password(TEST123_SCRYPT, "test123"));
    assert!(!verify_password(TEST123_SCRYPT, "test124"));
}

#[test]
fn test_token_generation() {
    let token1 = generate_secure_token();
    let token2 = generate_secure_token();
    assert_ne!(token1, token2);
    assert!(token1.len() >= 42);
    let small_token = generate_secure_token_with_size(16);
    let large_token = generate_secure_token_with_size(64);
    assert!(small_token.len() < token1.len());
    assert!(large_token.len() > token1.len());
}

#[test]
fn token_lengths_and_alphabet() {
    assert_eq!(generate_secure_token().len(), 43);
    assert_eq!(generate_secure_token_with_size(16).len(), 22);
    assert_eq!(generate_secure_token_with_size(0).len(), 0);
    let t = generate_secure_token_with_size(64);
    assert_eq!(t.len(), 86);
    assert!(t.chars().all(|c| c.is_ascii_alphanumeric() || c == '-' || c == '_'));
}

#[test]
fn test_session_create_validate() {
    let mut sm = SessionManager::new();
    let session = sm.create_session("test-meet".to_string(), "Test Location".to_string(), 5);
    assert!(sm.validate_session(&session.token));
    let retrieved = sm.get_session(&session.token).unwrap();
    assert_eq!(retrieved.meet_id, "test-meet");
    assert_eq!(retrieved.location_name, "Test Location");
    assert_eq!(retrieved.priority, 5);
}

#[test]
fn session_test_csrf_token() {
    let mut sm = SessionManager::new();
    let session = sm.create_session("test-meet".to_string(), "Test Location".to_string(), 5);
    let csrf_token = sm.get_csrf_token(&session.token).unwrap();
    assert!(sm.verify_csrf_token(&session.token, &csrf_token));
    assert!(!sm.verify_csrf_token(&session.token, "invalid-token"));
    assert!(!sm.verify_csrf_token("invalid-session", &csrf_token));
}

#[test]
fn test_session_expiry() {
    // The timeline of the original test, in milliseconds: absolute 300, idle 200.
    let mut sm = SessionManager::new_with_timeouts(300, 200);
    let t0 = 1_000_000;
    let session = sm.create_session_at(
        "test-meet".to_string(),
        "Test Location".to_string(),
        5,
        "token-one".to_string(),
        "csrf-one".to_string(),
        t0,
    );
    assert!(sm.validate_session_at(&session.token, t0));
    assert!(!sm.validate_session_at(&session.token, t0 + 220), "Session should expire after idle timeout");

    let t1 = t0 + 220;
    let session2 = sm.create_session_at(
        "test-meet2".to_string(),
        "Test Location".to_string(),
        5,
        "token-two".to_string(),
        "csrf-two".to_string(),
        t1,
    );
    assert!(sm.validate_session_at(&session2.token, t1));
    assert!(sm.validate_session_at(&session2.token, t1 + 100), "Session should be valid before idle timeout");
    assert!(!sm.validate_session_at(&session2.token, t1 + 320), "Session should expire after absolute timeout");
}

#[test]
fn session_test_session_rotation() {
    let mut sm = SessionManager::new();
    let session = sm.create_session("test-meet".to_string(), "Test Location".to_string(), 5);
    let old_token = session.token.clone();
    let new_token = sm.rotate_session(&old_token).unwrap();
    assert!(!sm.validate_session(&old_token));
    assert!(sm.validate_session(&new_token));
    let rotated_session = sm.get_session(&new_token).unwrap();
    assert_eq!(rotated_session.meet_id, "test-meet");
    assert_eq!(rotated_session.location_name, "Test Location");
    assert_eq!(rotated_session.priority, 5);
}

#[test]
fn test_constant_time_compare() {
    assert!(constant_time_compare("abc123", "abc123"));
    assert!(!constant_time_compare("abc", "abcd"));
    assert!(!constant_time_compare("abc123", "abc124"));
}

#[test]
fn session_defaults_and_removal() {
    assert_eq!(SESSION_ABSOLUTE_TTL, 24 * 60 * 60 * 1000);
    assert_eq!(SESSION_IDLE_TTL, 60 * 60 * 1000);
    let mut sm = SessionManager::new();
    let s = sm.create_session("m".to_string(), "L".to_string(), 1);
    assert_eq!(sm.active_session_count(), 1);
    sm.remove_session(&s.token);
    assert_eq!(sm.active_session_count(), 0);
    assert!(sm.get_session(&s.token).is_none());
    assert!(sm.rotate_session("missing").is_none());
    assert!(sm.get_csrf_token("missing").is_none());
}

#[test]
fn cleanup_removes_exactly_the_expired() {
    let mut sm = SessionManager::new_with_timeouts(1000, 100);
    let t = 50_000;
    sm.create_session_at("a".into(), "L".into(), 1, "fresh".into(), "c1".into(), t);
    sm.create_session_at("b".into(), "L".into(), 1, "idle".into(), "c2".into(), t - 150);
    sm.create_session_at("c".into(), "L".into(), 1, "old".into(), "c3".into(), t - 2000);
    assert_eq!(sm.cleanup_expired_sessions_at(t), 2);
    assert_eq!(sm.active_session_count(), 1);
    assert!(sm.validate_session_at("fresh", t));
    assert_eq!(sm.cleanup_expired_sessions_at(t), 0);
}

#[test]
fn csrf_and_rotation_with_explicit_times() {
    let mut sm = SessionManager::new_with_timeouts(1000, 100);
    sm.create_session_at("m".into(), "L".into(), 3, "tok".into(), "csrf".into(), 10);
    assert_eq!(sm.get_csrf_token_at("tok", 10), Some("csrf".to_string()));
    assert!(sm.verify_csrf_token_at("tok", "csrf", 50));
    assert!(!sm.verify_csrf_token_at("tok", "other", 50));
    assert!(!sm.verify_csrf_token_at("tok", "csrf", 500));
    let new = sm.rotate_session_at("tok", "tok2".into(), "csrf2".into(), 500).unwrap();
    assert_eq!(new, "tok2");
    assert!(!sm.validate_session_at("tok", 500));
    assert!(sm.verify_csrf_token_at("tok2", "csrf2", 550));
    // Rotation keeps the creation time: past the absolute lifetime the new token is refused too.
    assert!(!sm.validate_session_at("tok2", 1011));
}

#[test]
fn add_and_export_sessions() {
    let mut sm = SessionManager::new();
    let session = openlifter_backend::messages::Session {
        token: "restored".to_string(),
        meet_id: "m".to_string(),
        location_name: "L".to_string(),
        priority: 2,
    };
    sm.add_session_at("restored".to_string(), session, 500, 100, "csrf".to_string(), 10_000);
    let all = sm.get_all_sessions_at(10_200);
    let entries = all.entries();
    assert_eq!(entries.len(), 1);
    let (k, e) = &entries[0];
    assert_eq!(k, "restored");
    assert_eq!(e.created_at, 9_500);
    assert_eq!(e.last_active, 9_900);
    assert_eq!(e.created_at_duration, 700);
    assert_eq!(e.last_active_duration, 300);
}

#[test]
fn auth_rate_limiter_locks_out_after_max_attempts() {
    let mut rl = AuthRateLimiter::new(3, 1000);
    let ip = "10.0.0.1";
    assert!(rl.check_rate_limit_at(ip, 0));
    assert!(!rl.record_failed_attempt_at(ip, 0));
    assert!(!rl.record_failed_attempt_at(ip, 10));
    assert!(rl.record_failed_attempt_at(ip, 20));
    assert!(!rl.check_rate_limit_at(ip, 500));
    assert!(rl.check_rate_limit_at("10.0.0.2", 500));
    assert!(rl.check_rate_limit_at(ip, 1020));
    // After the lockout a failure starts a new count.
    assert!(!rl.record_failed_attempt_at(ip, 1100));
    rl.record_success(ip);
    assert!(rl.check_rate_limit_at(ip, 1100));
}

#[test]
fn auth_rate_limiter_cleanup() {
    let mut rl = AuthRateLimiter::new(2, 1000);
    rl.record_failed_attempt_at("a", 0);
    rl.record_failed_attempt_at("b", 0);
    rl.record_failed_attempt_at("b", 0);
    rl.cleanup_at(500);
    assert!(!rl.check_rate_limit_at("b", 500));
    rl.cleanup_at(2000);
    assert!(rl.check_rate_limit_at("b", 500));
    let mut d = AuthRateLimiter::default();
    for _ in 0..4 {
        assert!(!d.record_failed_attempt_at("x", 0));
    }
    assert!(d.record_failed_attempt_at("x", 0));
    assert!(!d.check_rate_limit_at("x", 299_999));
    assert!(d.check_rate_limit_at("x", 300_000));
}

#[test]
fn default_auth_service() {
    let mut auth = DefaultAuth::new(SessionManager::new());
    let token = auth.new_session("m".to_string(), "L".to_string(), 4);
    assert!(auth.validate_session(&token));
    assert_eq!(auth.get_session(&token).unwrap().priority, 4);
    assert!(auth.check_auth_rate_limit("1.2.3.4").is_ok());
    for _ in 0..5 {
        auth.record_failed_attempt("1.2.3.4");
    }
    assert!(matches!(auth.check_auth_rate_limit("1.2.3.4"), Err(AppError::AuthRateLimited)));
    auth.record_success("1.2.3.4");
    assert!(auth.check_auth_rate_limit("1.2.3.4").is_ok());
}

#[test]
fn sealed_sessions_open_and_restore() {
    let key = generate_key();
    let nonce = generate_nonce();
    assert_eq!(key.len(), 32);
    assert_eq!(nonce.len(), 12);
    let sealed = seal_sessions(&key, &nonce, b"session data").unwrap();
    assert_eq!(&sealed[..12], &nonce[..]);
    assert_ne!(&sealed[12..], b"session data");
    assert_eq!(open_sessions(&key, &sealed).unwrap(), b"session data".to_vec());
    let other = generate_key();
    assert!(matches!(open_sessions(&other, &sealed), Err(AppError::Internal(m)) if m == "Decryption failed"));
    assert!(matches!(open_sessions(&key, &[1, 2, 3]), Err(AppError::Internal(m)) if m == "Invalid session file"));
    assert!(matches!(key_from_bytes(vec![0u8; 31]), Err(AppError::Internal(m)) if m == "Invalid encryption key length"));
    assert!(key_from_bytes(vec![0u8; 32]).is_ok());

    let mut sm = SessionManager::new();
    sm.create_session_at("m".into(), "L".into(), 2, "tok".into(), "csrf".into(), 1_000);
    let persisted = sessions_to_persist_at(&sm, 1_500);
    let entries = persisted.entries().clone();
    assert_eq!(entries.len(), 1);
    assert_eq!(entries[0].1.created_at, 1_000);
    let mut restored = SessionManager::new();
    assert_eq!(restore_sessions_at(&mut restored, &entries, 2_000), 1);
    assert!(restored.validate_session_at("tok", 2_000));
    assert!(restored.verify_csrf_token_at("tok", "csrf", 2_000));
    let mut too_early = SessionManager::new();
    assert_eq!(restore_sessions_at(&mut too_early, &entries, 900), 0);
}

#[test]
fn test_session_management() {
    let mut sm = simple::SessionManager::new();
    let token = sm.new_session_at("test-meet".to_string(), "Test Location".to_string(), 1, 1_000);
    assert!(sm.validate_session_at(&token, 1_000));
    let session = sm.get(&token).unwrap();
    assert_eq!(session.meet_id, "test-meet");
    assert_eq!(session.location_name, "Test Location");
    assert_eq!(session.priority, 1);
    assert!(!sm.validate_session_at("invalid_token", 1_000));
    assert!(sm.get("invalid_token").is_none());
}

#[test]
fn test_session_expiration() {
    let mut sm = simple::SessionManager::new();
    let token = sm.new_session_at("test-meet".to_string(), "Test Location".to_string(), 1, 0);
    assert!(sm.validate_session_at(&token, simple::SESSION_LIFETIME - 1));
    assert!(!sm.validate_session_at(&token, simple::SESSION_LIFETIME));
    let live = sm.new_session("m".to_string(), "L".to_string(), 1);
    assert!(sm.validate_session(&live));
    assert_eq!(live.len(), 36);
}

#[test]
fn test_password_hashing() {
    assert!(simple::SessionManager::verify_password(TEST123_SCRYPT, "test123"));
    assert!(!simple::SessionManager::verify_password(TEST123_SCRYPT, "wrong_password"));
}
