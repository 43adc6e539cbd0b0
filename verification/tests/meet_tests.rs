use argon2::password_hash::{PasswordHasher, SaltString};
use openlifter_backend::auth::session::SessionManager;
use openlifter_backend::conflict::resolve_conflicts;
use openlifter_backend::error::AppError;
use openlifter_backend::live::{generate_meet_id, LiveAction, LiveState};
use openlifter_backend::meet::MeetManager;
use openlifter_backend::meet_actor::MeetActor;
use openlifter_backend::messages::{Update as MessageUpdate, UpdateWithMetadata};
use openlifter_backend::protocol::{ClientToServer, EndpointPriority, MeetInfo, ServerToClient, Update};

fn update(key: &str, value: &str, local: u64, after: u64) -> Update {
    Update { update_key: key.to_string(), update_value: value.to_string(), local_seq_num: local, after_server_seq_num: after }
}

#[test]
fn test_handle_update() {
    let mut actor = MeetActor::new_at("test-meet".to_string(), 0);
    let result = actor.handle_update_at("client1".to_string(), 5, vec![update("test.key1", "\"value1\"", 1, 0)], 0).unwrap();
    assert_eq!(result.len(), 1);
    assert_eq!(result[0].0, 1);
    let updates_since_0 = actor.get_updates_since(0);
    assert_eq!(updates_since_0.len(), 1);
}

#[test]
fn test_get_updates_since() {
    let mut actor = MeetActor::new_at("test-meet".to_string(), 0);
    actor.handle_update_at("client1".to_string(), 1, vec![update("test.key1", "\"value1\"", 1, 0)], 0).unwrap();
    actor.handle_update_at("client1".to_string(), 1, vec![update("test.key2", "\"value2\"", 2, 1)], 0).unwrap();
    let updates_since_0 = actor.get_updates_since(0);
    assert_eq!(updates_since_0.len(), 2);
    let updates_since_1 = actor.get_updates_since(1);
    assert_eq!(updates_since_1.len(), 1);
    assert_eq!(updates_since_1[0].server_seq_num, 2);
}

#[test]
fn test_apply_update() {
    let mut actor = MeetActor::new_at("test-meet".to_string(), 0);
    actor.handle_update_at("client1".to_string(), 1, vec![update("plate.weight", "25", 1, 0)], 0).unwrap();
    let updates = actor.get_updates_since(0);
    assert_eq!(updates.len(), 1);
    assert_eq!(updates[0].update.update_key, "plate.weight");
    assert_eq!(updates[0].update.update_value, "25");
    let state = actor.get_state();
    assert_eq!(state.get("plate.weight"), Some(&"25".to_string()));
}

#[test]
fn test_sequence_gap_detection() {
    let mut actor = MeetActor::new_at("test-meet".to_string(), 0);
    let result1 = actor.handle_update_at("client1".to_string(), 1, vec![update("test.key1", "\"value1\"", 1, 0)], 0);
    assert!(result1.is_ok());
    let result3 = actor.handle_update_at("client1".to_string(), 1, vec![update("test.key3", "\"value3\"", 3, 1)], 0);
    match result3 {
        Err(AppError::NeedsRecovery { meet_id, last_known_seq }) => {
            assert_eq!(meet_id, "test-meet");
            assert_eq!(last_known_seq, 1);
        },
        other => panic!("Expected NeedsRecovery error, got {other:?}"),
    }
}

#[test]
fn recovery_is_asked_again_until_checked() {
    let mut actor = MeetActor::new_at("m".to_string(), 0);
    actor.handle_update_at("c".to_string(), 1, vec![update("k", "1", 1, 0)], 0).unwrap();
    assert!(actor.handle_update_at("c".to_string(), 1, vec![update("k", "2", 5, 1)], 0).is_err());
    // The gap stays reported once more, then updates are taken again.
    assert!(actor.handle_update_at("c".to_string(), 1, vec![update("k", "3", 2, 1)], 0).is_err());
    assert!(actor.handle_update_at("c".to_string(), 1, vec![update("k", "4", 3, 1)], 0).is_ok());
    // A gap inside a batch.
    assert!(actor.detect_sequence_gaps("d", &[update("a", "1", 1, 0), update("b", "1", 3, 0)]));
    assert!(!actor.detect_sequence_gaps("e", &[update("a", "1", 7, 0), update("b", "1", 8, 0)]));
    assert!(actor.needs_state_recovery_at(0));
    assert!(!actor.needs_state_recovery_at(0));
    assert!(actor.needs_state_recovery_at(300_001));
    assert!(!actor.needs_state_recovery_at(300_001));
}

#[test]
fn state_is_last_write_per_key() {
    let mut actor = MeetActor::new_at("m".to_string(), 0);
    actor
        .handle_update_at("c".to_string(), 1, vec![update("a", "1", 1, 0), update("b", "2", 2, 0), update("a", "3", 3, 0)], 0)
        .unwrap();
    let state = actor.get_state();
    assert_eq!(state.get("a"), Some(&"3".to_string()));
    assert_eq!(state.get("b"), Some(&"2".to_string()));
    assert_eq!(state.len(), 2);
    assert_eq!(actor.server_seq(), 3);
    assert_eq!(actor.log_len(), 3);
    assert_eq!(actor.record_at(2).server_seq_num, 3);
}

#[test]
fn state_recovery_orders_and_prioritises() {
    let mut actor = MeetActor::new_at("m".to_string(), 0);
    actor.handle_update_at("c".to_string(), 5, vec![update("known", "\"old\"", 1, 0)], 0).unwrap();
    let updates = vec![
        MessageUpdate { location: "late".to_string(), value: "{\"a\": 1}".to_string(), timestamp: 30 },
        MessageUpdate { location: "known".to_string(), value: "\"low\"".to_string(), timestamp: 10 },
        MessageUpdate { location: "early".to_string(), value: "not json".to_string(), timestamp: 5 },
    ];
    let (seq, applied) = actor.handle_state_recovery("r".to_string(), 5, updates);
    assert_eq!(applied, 2);
    assert_eq!(seq, 3);
    let log = actor.get_updates_since(1);
    assert_eq!(log[0].update.update_key, "early");
    assert_eq!(log[0].update.update_value, "null");
    assert_eq!(log[0].update.local_seq_num, 5);
    assert_eq!(log[1].update.update_key, "late");
    assert_eq!(log[1].update.update_value, "{\"a\":1}");
    // A higher priority overrides a known key.
    let (seq, applied) = actor.handle_state_recovery(
        "r".to_string(),
        9,
        vec![MessageUpdate { location: "known".to_string(), value: "\"new\"".to_string(), timestamp: 1 }],
    );
    assert_eq!((seq, applied), (4, 1));
    assert_eq!(actor.get_state().get("known"), Some(&"\"new\"".to_string()));
    assert_eq!(actor.handle_state_recovery("r".to_string(), 9, vec![]), (4, 0));
}

fn meta(location: &str, value: &str, timestamp: i64, client: &str, seq: u64, priority: u8) -> UpdateWithMetadata {
    UpdateWithMetadata {
        update: MessageUpdate { location: location.to_string(), value: value.to_string(), timestamp },
        source_client: client.to_string(),
        server_seq: seq,
        priority,
    }
}

#[test]
fn test_resolve_conflicts() {
    let update1 = meta("location1", "value1", 1000, "client1", 1, 5);
    let update2 = meta("location2", "value2", 2000, "client2", 2, 3);
    let resolved = resolve_conflicts(&[update1.clone(), update2.clone()]);
    assert_eq!(resolved.len(), 2);

    let conflicting_update1 = meta("same_location", "value_from_client1", 1000, "client1", 1, 5);
    let conflicting_update2 = meta("same_location", "value_from_client2", 2000, "client2", 2, 3);
    let resolved = resolve_conflicts(&[conflicting_update1.clone(), conflicting_update2.clone()]);
    assert_eq!(resolved.len(), 1);
    assert_eq!(resolved[0].priority, 5);
    assert_eq!(resolved[0].source_client, "client1");

    let mixed = vec![update1.clone(), conflicting_update1.clone(), conflicting_update2.clone()];
    let resolved = resolve_conflicts(&mixed);
    assert_eq!(resolved.len(), 2);
    let location1_update = resolved.iter().find(|u| u.update.location == "location1").unwrap();
    assert_eq!(location1_update.source_client, "client1");
    let same_location_update = resolved.iter().find(|u| u.update.location == "same_location").unwrap();
    assert_eq!(same_location_update.source_client, "client1");
    assert_eq!(same_location_update.priority, 5);
}

#[test]
fn resolution_keeps_the_later_of_equal_priorities() {
    let a = meta("x", "first", 1, "c1", 1, 4);
    let b = meta("x", "second", 2, "c2", 2, 4);
    let c = meta("y", "only", 3, "c3", 3, 1);
    let resolved = resolve_conflicts(&[a, c, b]);
    assert_eq!(resolved.len(), 2);
    assert_eq!(resolved[0].update.value, "second");
    assert_eq!(resolved[1].update.value, "only");
    assert!(resolve_conflicts(&[]).is_empty());
}

#[test]
fn meet_directory() {
    let mut meets = MeetManager::new();
    let m = meets.create_meet("meet-1".to_string(), "Nationals".to_string(), "owner".to_string());
    assert_eq!(m.id, "meet-1");
    let got = meets.get_meet("meet-1").unwrap();
    assert_eq!(got.name, "Nationals");
    assert_eq!(got.owner, "owner");
    assert!(meets.get_meet("meet-2").is_none());
    meets.delete_meet("meet-1");
    assert!(meets.get_meet("meet-1").is_none());
}

#[test]
fn generated_meet_ids_have_three_groups() {
    for _ in 0..20 {
        let id = generate_meet_id();
        let parts: Vec<&str> = id.split('-').collect();
        assert_eq!(parts.len(), 3);
        for p in parts {
            let n: u32 = p.parse().unwrap();
            assert!((100..1000).contains(&n));
        }
    }
}

#[test]
fn live_join_update_pull() {
    let mut live = LiveState::new(SessionManager::new());
    live.create_meet("123-456-789".to_string(), 1_000);
    assert!(live.get_meet("123-456-789").is_some());
    assert_eq!(live.get_all_meet_ids(), vec!["123-456-789".to_string()]);
    let join = ClientToServer::JoinMeet {
        meet_id: "123-456-789".to_string(),
        password: "Password123".to_string(),
        location_name: "Platform A".to_string(),
    };
    let token = match live.handle_client_message_at(join, 1_000) {
        LiveAction::Send(ServerToClient::MeetJoined { session_token }) => session_token,
        other => panic!("unexpected {other:?}"),
    };
    assert_eq!(live.sessions().active_session_count(), 1);

    let init = ClientToServer::UpdateInit {
        session_token: token.clone(),
        updates: vec![update("lifter.1.name", "\"Ann\"", 1, 0), update("lifter.1.total", "500", 2, 0)],
    };
    match live.handle_client_message_at(init, 1_500) {
        LiveAction::PersistAndSend { meet_id: m, from, message: ServerToClient::UpdateAck { update_acks } } => {
            assert_eq!(m, "123-456-789");
            assert_eq!(from, 0);
            assert_eq!(update_acks, vec![(1, 1), (2, 2)]);
        },
        other => panic!("unexpected {other:?}"),
    }
    let pull = ClientToServer::ClientPull { session_token: token.clone(), last_server_seq: 1 };
    match live.handle_client_message_at(pull, 1_600) {
        LiveAction::Send(ServerToClient::ServerPull { last_server_seq, updates_relayed }) => {
            assert_eq!(last_server_seq, 1);
            assert_eq!(updates_relayed.len(), 1);
            assert_eq!(updates_relayed[0].server_seq_num, 2);
            assert_eq!(updates_relayed[0].source_client_id, "anonymous");
            assert_eq!(updates_relayed[0].source_client_priority, 5);
        },
        other => panic!("unexpected {other:?}"),
    }
    let bad = ClientToServer::UpdateInit { session_token: token.clone(), updates: vec![update("", "1", 3, 0)] };
    match live.handle_client_message_at(bad, 1_700) {
        LiveAction::Send(ServerToClient::MalformedMessage { err_msg }) => assert_eq!(err_msg, "Invalid update data"),
        other => panic!("unexpected {other:?}"),
    }
    let gap = ClientToServer::UpdateInit { session_token: token.clone(), updates: vec![update("k", "1", 9, 0)] };
    match live.handle_client_message_at(gap, 1_800) {
        LiveAction::Send(ServerToClient::MalformedMessage { err_msg }) => {
            assert_eq!(
                err_msg,
                "Failed to apply updates: State inconsistency detected for meet 123-456-789, recovery needed (last_known_seq: 2)"
            );
        },
        other => panic!("unexpected {other:?}"),
    }
    // Past the idle timeout the session is refused.
    let late = ClientToServer::ClientPull { session_token: token.clone(), last_server_seq: 0 };
    assert!(matches!(live.handle_client_message_at(late, 1_800 + 3_600_001), LiveAction::Fail(AppError::Auth(_))));
    assert!(live.delete_meet("123-456-789"));
    assert!(!live.delete_meet("123-456-789"));
}

#[test]
fn live_rejections() {
    let mut live = LiveState::new(SessionManager::new());
    let weak = ClientToServer::CreateMeet {
        this_location_name: "Test Location".to_string(),
        password: "weak".to_string(),
        endpoints: vec![],
    };
    match live.handle_client_message_at(weak, 0) {
        LiveAction::Send(ServerToClient::MalformedMessage { err_msg }) => assert_eq!(err_msg, "Invalid meet parameters"),
        other => panic!("unexpected {other:?}"),
    }
    let join_bad = ClientToServer::JoinMeet {
        meet_id: "x".to_string(),
        password: "Password123".to_string(),
        location_name: "L".to_string(),
    };
    match live.handle_client_message_at(join_bad, 0) {
        LiveAction::Send(ServerToClient::MalformedMessage { err_msg }) => assert_eq!(err_msg, "Invalid meet credentials"),
        other => panic!("unexpected {other:?}"),
    }
    let join = ClientToServer::JoinMeet {
        meet_id: "123-456-789".to_string(),
        password: "Password123".to_string(),
        location_name: "Platform B".to_string(),
    };
    let token = match live.handle_client_message_at(join, 0) {
        LiveAction::Send(ServerToClient::MeetJoined { session_token }) => session_token,
        other => panic!("unexpected {other:?}"),
    };
    // The joined meet was never created.
    let init = ClientToServer::UpdateInit { session_token: token.clone(), updates: vec![] };
    assert!(matches!(live.handle_client_message_at(init, 1), LiveAction::Fail(AppError::MeetNotFound)));
    let pull = ClientToServer::ClientPull { session_token: token.clone(), last_server_seq: 0 };
    match live.handle_client_message_at(pull, 2) {
        LiveAction::Send(ServerToClient::ServerPull { updates_relayed, .. }) => assert!(updates_relayed.is_empty()),
        other => panic!("unexpected {other:?}"),
    }
    let nosession = ClientToServer::ClientPull { session_token: "missing".to_string(), last_server_seq: 0 };
    assert!(matches!(live.handle_client_message_at(nosession, 2), LiveAction::Fail(AppError::Auth(m)) if m == "Invalid session"));
    let publish = ClientToServer::PublishMeet {
        session_token: token.clone(),
        return_email: "test@example.com".to_string(),
        opl_csv: "a,b".to_string(),
    };
    match live.handle_client_message_at(publish, 3) {
        LiveAction::Send(ServerToClient::MalformedMessage { err_msg }) => assert_eq!(err_msg, "Invalid session or email"),
        other => panic!("unexpected {other:?}"),
    }
}

fn cheap_argon2_hash(password: &str) -> String {
    let salt = SaltString::from_b64("c29tZXNhbHQxMjM0").unwrap();
    let params = argon2::Params::new(8, 1, 1, None).unwrap();
    let hasher = argon2::Argon2::new(argon2::Algorithm::Argon2id, argon2::Version::V0x13, params);
    hasher.hash_password(password.as_bytes(), &salt).unwrap().to_string()
}

#[test]
fn endpoint_priority_is_first_match_or_zero() {
    let endpoints = vec![
        EndpointPriority { location_name: "A".to_string(), priority: 3 },
        EndpointPriority { location_name: "B".to_string(), priority: 7 },
        EndpointPriority { location_name: "B".to_string(), priority: 9 },
    ];
    assert_eq!(LiveState::find_endpoint_priority(&endpoints, "B"), 7);
    assert_eq!(LiveState::find_endpoint_priority(&endpoints, "A"), 3);
    assert_eq!(LiveState::find_endpoint_priority(&endpoints, "C"), 0);
    assert_eq!(LiveState::find_endpoint_priority(&vec![], "A"), 0);
}

#[test]
fn live_stored_meet_rules() {
    let mut live = LiveState::new(SessionManager::new());
    let weak = ClientToServer::CreateMeet {
        this_location_name: "Test Location".to_string(),
        password: "password123".to_string(),
        endpoints: vec![],
    };
    match live.handle_stored_meet_message_at(weak, Err(AppError::MeetNotFound), 0) {
        LiveAction::Send(ServerToClient::MalformedMessage { err_msg }) => assert_eq!(
            err_msg,
            "Password must be at least 10 characters and contain uppercase, lowercase, digit, and special character"
        ),
        other => panic!("unexpected {other:?}"),
    }
    let join = |password: &str| ClientToServer::JoinMeet {
        meet_id: "123-456-789".to_string(),
        password: password.to_string(),
        location_name: "Platform B".to_string(),
    };
    // A storage failure is passed on.
    assert!(matches!(
        live.handle_stored_meet_message_at(join("Password123!"), Err(AppError::MeetNotFound), 0),
        LiveAction::Fail(AppError::MeetNotFound)
    ));
    let info = MeetInfo {
        password_hash: cheap_argon2_hash("Password123!"),
        endpoints: vec![
            EndpointPriority { location_name: "Platform A".to_string(), priority: 1 },
            EndpointPriority { location_name: "Platform B".to_string(), priority: 4 },
        ],
    };
    match live.handle_stored_meet_message_at(join("Wrong123!pass"), Ok(info.clone()), 0) {
        LiveAction::Send(ServerToClient::MalformedMessage { err_msg }) => assert_eq!(err_msg, "Invalid password"),
        other => panic!("unexpected {other:?}"),
    }
    assert_eq!(live.sessions().active_session_count(), 0);
    let token = match live.handle_stored_meet_message_at(join("Password123!"), Ok(info), 0) {
        LiveAction::Send(ServerToClient::MeetJoined { session_token }) => session_token,
        other => panic!("unexpected {other:?}"),
    };
    assert_eq!(live.sessions().active_session_count(), 1);
    // The meet is not held in memory yet.
    let pull = ClientToServer::ClientPull { session_token: token.clone(), last_server_seq: 0 };
    assert!(matches!(
        live.handle_stored_meet_message_at(pull, Err(AppError::MeetNotFound), 1),
        LiveAction::Fail(AppError::MeetNotFound)
    ));
    live.create_meet("123-456-789".to_string(), 1);
    let init = ClientToServer::UpdateInit {
        session_token: token.clone(),
        updates: vec![update("lifter.1.name", "\"Bo\"", 1, 0)],
    };
    match live.handle_stored_meet_message_at(init, Err(AppError::MeetNotFound), 2) {
        LiveAction::PersistAndSend { meet_id, from, message: ServerToClient::UpdateAck { update_acks } } => {
            assert_eq!(meet_id, "123-456-789");
            assert_eq!(from, 0);
            assert_eq!(update_acks, vec![(1, 1)]);
        },
        other => panic!("unexpected {other:?}"),
    }
    let pull = ClientToServer::ClientPull { session_token: token.clone(), last_server_seq: 0 };
    match live.handle_stored_meet_message_at(pull, Err(AppError::MeetNotFound), 3) {
        LiveAction::Send(ServerToClient::ServerPull { updates_relayed, .. }) => {
            assert_eq!(updates_relayed.len(), 1);
            // Updates are recorded under the joining location and its endpoint priority.
            assert_eq!(updates_relayed[0].source_client_id, "Platform B");
            assert_eq!(updates_relayed[0].source_client_priority, 4);
        },
        other => panic!("unexpected {other:?}"),
    }
    let publish = ClientToServer::PublishMeet {
        session_token: token.clone(),
        return_email: "test@example.com".to_string(),
        opl_csv: "a,b".to_string(),
    };
    match live.handle_stored_meet_message_at(publish, Err(AppError::MeetNotFound), 4) {
        LiveAction::StoreCsvAndSend { meet_id, opl_csv, return_email, message: ServerToClient::PublishAck } => {
            assert_eq!(meet_id, "123-456-789");
            assert_eq!(opl_csv, "a,b");
            assert_eq!(return_email, "test@example.com");
        },
        other => panic!("unexpected {other:?}"),
    }
    let nosession = ClientToServer::ClientPull { session_token: "missing".to_string(), last_server_seq: 0 };
    assert!(matches!(
        live.handle_stored_meet_message_at(nosession, Err(AppError::MeetNotFound), 5),
        LiveAction::Fail(AppError::Auth(m)) if m == "Invalid session"
    ));
}

#[test]
fn test_meet_manager_create() {
    let mut manager = LiveState::new(SessionManager::new());
    let meet_id = "test-meet-id".to_string();
    manager.create_meet(meet_id.clone(), 0);
    assert!(manager.get_meet(&meet_id).is_some());
}

#[test]
fn test_meet_manager_get() {
    let mut manager = LiveState::new(SessionManager::new());
    let meet_id = "test-meet-id".to_string();
    manager.create_meet(meet_id.clone(), 0);
    let retrieved_handle = manager.get_meet(&meet_id);
    assert!(retrieved_handle.is_some());
}

#[test]
fn test_meet_manager_delete() {
    let mut manager = LiveState::new(SessionManager::new());
    let meet_id = "test-meet-id".to_string();
    manager.create_meet(meet_id.clone(), 0);
    assert!(manager.get_meet(&meet_id).is_some());
    let result = manager.delete_meet(&meet_id);
    assert!(result);
    assert!(manager.get_meet(&meet_id).is_none());
}

#[test]
fn test_meet_manager_delete_nonexistent() {
    let mut manager = LiveState::new(SessionManager::new());
    let result = manager.delete_meet("nonexistent-meet");
    assert!(!result);
}

#[test]
fn test_meet_manager_get_all_meet_ids() {
    let mut manager = LiveState::new(SessionManager::new());
    assert!(manager.get_all_meet_ids().is_empty());
    let meet_id1 = "test-meet-1".to_string();
    let meet_id2 = "test-meet-2".to_string();
    let meet_id3 = "test-meet-3".to_string();
    manager.create_meet(meet_id1.clone(), 0);
    manager.create_meet(meet_id2.clone(), 0);
    manager.create_meet(meet_id3.clone(), 0);
    let all_meets = manager.get_all_meet_ids();
    assert_eq!(all_meets.len(), 3);
    assert!(all_meets.contains(&meet_id1));
    assert!(all_meets.contains(&meet_id2));
    assert!(all_meets.contains(&meet_id3));
}

#[test]
fn test_create_meet_weak_password() {
    let mut live = LiveState::new(SessionManager::new());
    let msg = ClientToServer::CreateMeet {
        this_location_name: "Main Platform".to_string(),
        password: "short".to_string(),
        endpoints: vec![EndpointPriority { location_name: "Main Platform".to_string(), priority: 10 }],
    };
    let action = live.handle_client_message_at(msg, 0);
    assert!(matches!(action, LiveAction::Send(ServerToClient::MalformedMessage { .. })));
    assert!(live.get_all_meet_ids().is_empty());
}

#[test]
fn test_invalid_session_handling() {
    let mut live = LiveState::new(SessionManager::new());
    let update_msg = ClientToServer::UpdateInit {
        session_token: "invalid-session-token".to_string(),
        updates: vec![update("lifter.1.name", "\"Ann\"", 1, 0)],
    };
    assert!(matches!(live.handle_client_message_at(update_msg, 0), LiveAction::Fail(AppError::Auth(_))));
    let pull_msg = ClientToServer::ClientPull { session_token: "invalid-session-token".to_string(), last_server_seq: 0 };
    assert!(matches!(live.handle_client_message_at(pull_msg, 0), LiveAction::Fail(AppError::Auth(_))));
}

#[test]
fn acks_pair_local_and_server_numbers() {
    let mut actor = MeetActor::new_at("test-meet".to_string(), 0);
    let first = actor
        .handle_update_at("client1".to_string(), 1, vec![update("a", "1", 1, 0), update("b", "2", 2, 0)], 0)
        .unwrap();
    assert_eq!(first, vec![(1, 1), (2, 2)]);
    let second = actor.handle_update_at("client2".to_string(), 1, vec![update("c", "3", 7, 2)], 0).unwrap();
    assert_eq!(second, vec![(7, 3)]);
}

#[test]
fn stored_join_accepts_an_scrypt_hash() {
    let mut live = LiveState::new(SessionManager::new());
    // An scrypt hash of "test123" with small parameters.
    let info = MeetInfo {
        password_hash: "$scrypt$ln=4,r=8,p=1$AAECAwQFBgcICQoLDA0ODw$6Nzx5Em5mgi576PTKgDoNbWABulHRdMtUQA4IqU//lg".to_string(),
        endpoints: vec![EndpointPriority { location_name: "Platform A".to_string(), priority: 2 }],
    };
    let join = |password: &str| ClientToServer::JoinMeet {
        meet_id: "123-456-789".to_string(),
        password: password.to_string(),
        location_name: "Platform A".to_string(),
    };
    assert!(matches!(
        live.handle_stored_meet_message_at(join("test124"), Ok(info.clone()), 0),
        LiveAction::Send(ServerToClient::MalformedMessage { .. })
    ));
    assert!(matches!(
        live.handle_stored_meet_message_at(join("test123"), Ok(info), 0),
        LiveAction::Send(ServerToClient::MeetJoined { .. })
    ));
}

#[test]
fn a_stored_meet_is_opened_with_the_creators_session() {
    let mut live = LiveState::new(SessionManager::new());
    let reply = live.open_stored_meet_at("123-456-789".to_string(), "Main".to_string(), 7, 100);
    let token = match reply {
        ServerToClient::MeetCreated { meet_id, session_token } => {
            assert_eq!(meet_id, "123-456-789");
            session_token
        },
        other => panic!("unexpected {other:?}"),
    };
    assert!(live.get_meet("123-456-789").is_some());
    assert_eq!(live.sessions().active_session_count(), 1);
    let init = ClientToServer::UpdateInit { session_token: token, updates: vec![update("k", "1", 1, 0)] };
    match live.handle_client_message_at(init, 200) {
        LiveAction::PersistAndSend { meet_id, .. } => assert_eq!(meet_id, "123-456-789"),
        other => panic!("unexpected {other:?}"),
    }
}
