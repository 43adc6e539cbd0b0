use openlifter_backend::auth::session::SessionManager;
use openlifter_backend::messages::{ClientMessage, ServerMessage, Update};
use openlifter_backend::protocol::ClientToServer;
use openlifter_backend::rate_limit::{check_rate_limit, RateLimiter};
use openlifter_backend::websocket::{HandlerStep, WebSocketHandler};
use openlifter_backend::ws_router::{
    activity_key, connection_meet_id, consistency_step, live_connection_meet_id, triggers_consistency_check,
};
use openlifter_backend::error::AppError;
use openlifter_backend::table::StrMap;

#[test]
fn test_register_client() {
    let mut handler = WebSocketHandler::new();
    assert!(!handler.unregister_client("test-meet"));
    handler.register_client("test-meet");
    assert!(handler.unregister_client("test-meet"));
    assert_eq!(handler.client_id().len(), 36);
}

#[test]
fn test_handle_create_meet() {
    let mut handler = WebSocketHandler::new();
    let mut auth = SessionManager::new();
    let msg = ClientMessage::CreateMeet {
        meet_id: "test-meet".to_string(),
        password: "Password123!".to_string(),
        location_name: "Test Location".to_string(),
        priority: 5,
    };
    match handler.handle_message(&mut auth, msg) {
        HandlerStep::Respond(ServerMessage::MeetCreated { meet_id, session_token }) => {
            assert_eq!(meet_id, "test-meet");
            assert!(!session_token.is_empty());
        },
        other => panic!("Expected MeetCreated, got {other:?}"),
    }
}

#[test]
fn test_handle_join_meet() {
    let mut handler = WebSocketHandler::new();
    let mut auth = SessionManager::new();
    let msg = ClientMessage::JoinMeet {
        meet_id: "test-meet".to_string(),
        password: "Password123!".to_string(),
        location_name: "Test Location".to_string(),
        priority: 5,
    };
    match handler.handle_message(&mut auth, msg) {
        HandlerStep::Respond(ServerMessage::MeetJoined { meet_id, session_token }) => {
            assert_eq!(meet_id, "test-meet");
            assert!(!session_token.is_empty());
        },
        other => panic!("Expected MeetJoined, got {other:?}"),
    }
}

#[test]
fn test_handle_update_init() {
    let mut handler = WebSocketHandler::new();
    let mut auth = SessionManager::new();
    let session = auth.create_session("test-meet".to_string(), "Test Location".to_string(), 10);
    let msg = ClientMessage::UpdateInit {
        meet_id: "test-meet".to_string(),
        session_token: session.token.clone(),
        updates: vec![Update { location: "item1.field".to_string(), value: "\"value\"".to_string(), timestamp: 12345 }],
    };
    match handler.handle_message(&mut auth, msg) {
        HandlerStep::Broadcast { meet_id, updates, response: ServerMessage::UpdateAck { meet_id: m, update_ids } } => {
            assert_eq!(meet_id, "test-meet");
            assert_eq!(m, "test-meet");
            assert_eq!(update_ids.len(), 1);
            assert_eq!(updates.len(), 1);
            assert_eq!(updates[0].priority, 10);
            assert_eq!(updates[0].server_seq, 0);
            assert_eq!(&updates[0].source_client, handler.client_id());
        },
        other => panic!("Expected UpdateAck, got {other:?}"),
    }
}

#[test]
fn test_handle_invalid_session() {
    let mut handler = WebSocketHandler::new();
    let mut auth = SessionManager::new();
    let msg = ClientMessage::ClientPull {
        meet_id: "test-meet".to_string(),
        session_token: "invalid-session".to_string(),
        last_server_seq: 0,
    };
    // Five waits of growing length, then the session is given up.
    let mut step = handler.handle_message(&mut auth, msg);
    for attempt in 1..=5u64 {
        match step {
            HandlerStep::Reconnect { delay_ms, retry } => {
                assert_eq!(delay_ms, 1000 * attempt);
                step = handler.handle_message(&mut auth, retry);
            },
            other => panic!("Expected Reconnect, got {other:?}"),
        }
    }
    match step {
        HandlerStep::Respond(ServerMessage::InvalidSession { session_token }) => assert_eq!(session_token, "invalid-session"),
        other => panic!("Expected InvalidSession, got {other:?}"),
    }
}

#[test]
fn test_handle_client_pull() {
    let mut handler = WebSocketHandler::new();
    let mut auth = SessionManager::new();
    let session = auth.create_session("test-meet".to_string(), "Test Location".to_string(), 1);
    let msg = ClientMessage::ClientPull { meet_id: "test-meet".to_string(), session_token: session.token, last_server_seq: 0 };
    match handler.handle_message(&mut auth, msg) {
        HandlerStep::Respond(ServerMessage::ServerPull { meet_id, last_server_seq, updates_relayed }) => {
            assert_eq!(meet_id, "test-meet");
            assert_eq!(last_server_seq, 0);
            assert!(updates_relayed.is_empty());
        },
        other => panic!("Expected ServerPull, got {other:?}"),
    }
}

#[test]
fn test_handle_publish_meet() {
    let mut handler = WebSocketHandler::new();
    let mut auth = SessionManager::new();
    let session = auth.create_session("test-meet".to_string(), "Test Location".to_string(), 1);
    let msg = ClientMessage::PublishMeet {
        meet_id: "test-meet".to_string(),
        session_token: session.token,
        return_email: "test@example.com".to_string(),
        opl_csv: "name,weight,squat".to_string(),
    };
    match handler.handle_message(&mut auth, msg) {
        HandlerStep::Respond(ServerMessage::PublishAck { meet_id }) => assert_eq!(meet_id, "test-meet"),
        other => panic!("Expected PublishAck, got {other:?}"),
    }
}

#[test]
fn resume_after_wait_reports_a_lost_session() {
    let mut handler = WebSocketHandler::new();
    let mut auth = SessionManager::new();
    let msg = ClientMessage::PublishMeet {
        meet_id: "m".to_string(),
        session_token: "gone".to_string(),
        return_email: "a@b.cd".to_string(),
        opl_csv: String::new(),
    };
    match handler.resume_after_wait(&mut auth, msg) {
        HandlerStep::Respond(ServerMessage::InvalidSession { session_token }) => assert_eq!(session_token, "gone"),
        other => panic!("unexpected {other:?}"),
    }
}

#[test]
fn request_rate_limiter_windows() {
    let mut rl = RateLimiter::new(60_000, 2);
    assert!(rl.check_rate_limit_at("ip", 0));
    assert!(rl.check_rate_limit_at("ip", 10));
    assert!(rl.check_rate_limit_at("ip", 20));
    assert!(!rl.check_rate_limit_at("ip", 30));
    assert!(rl.check_rate_limit_at("other", 20));
    assert!(rl.check_rate_limit_at("ip", 60_001));
    rl.clear_expired_at(200_000);
    assert!(rl.check_rate_limit_at("ip", 200_000));
    let mut strict = RateLimiter::new(60_000, 0);
    assert!(check_rate_limit(&mut strict, "ip").is_ok());
    assert!(matches!(check_rate_limit(&mut strict, "ip"), Err(AppError::RateLimitExceeded)));
}

#[test]
fn connection_decisions() {
    let join = ClientMessage::JoinMeet {
        meet_id: "m-1".to_string(),
        password: "p".to_string(),
        location_name: "L".to_string(),
        priority: 1,
    };
    assert_eq!(connection_meet_id(&join), "m-1");
    assert!(triggers_consistency_check(&join));
    let publish = ClientMessage::PublishMeet {
        meet_id: "m-2".to_string(),
        session_token: "t".to_string(),
        return_email: "e".to_string(),
        opl_csv: "c".to_string(),
    };
    assert!(!triggers_consistency_check(&publish));
    assert_eq!(activity_key("m-1"), "meet:m-1_last_activity");
    assert_eq!(consistency_step(None, 1000), (false, 1000));
    assert_eq!(consistency_step(Some(600), 1000), (true, 1000));
    assert_eq!(consistency_step(Some(700), 1000), (false, 1000));
    let live_join = ClientToServer::JoinMeet { meet_id: "x".to_string(), password: "p".to_string(), location_name: "L".to_string() };
    assert_eq!(live_connection_meet_id(&live_join), Some("x".to_string()));
    let live_pull = ClientToServer::ClientPull { session_token: "t".to_string(), last_server_seq: 0 };
    assert_eq!(live_connection_meet_id(&live_pull), None);
}

#[test]
fn string_map_operations() {
    let mut m: StrMap<u32> = StrMap::new();
    m.insert("a".to_string(), 1);
    m.insert("b".to_string(), 2);
    m.insert("a".to_string(), 3);
    assert_eq!(m.len(), 2);
    assert_eq!(m.get("a"), Some(&3));
    assert_eq!(m.remove("a"), Some(3));
    assert_eq!(m.get("a"), None);
    assert_eq!(m.remove("a"), None);
    assert_eq!(m.len(), 1);
}
