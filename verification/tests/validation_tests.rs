use openlifter_backend::messages::{ClientMessage, Update as MessageUpdate};
use openlifter_backend::protocol::{ClientToServer, EndpointPriority, Update};
use openlifter_backend::validation::message_rules;
use openlifter_backend::validation::middleware::{ValidationContext, ValidationMiddleware};
use openlifter_backend::validation::{
    is_meet_id_unique, register_meet_id, sanitize_string, validate_client_message, validate_email,
    validate_location_name, validate_meet_id, validate_password, validate_session_token, validate_update,
    MeetIdRegistry, ValidationError,
};
use openlifter_backend::messages::ServerMessage;

#[test]
fn test_validate_meet_id() {
    assert!(validate_meet_id("valid-meet-id").is_ok());
    assert!(validate_meet_id("meet123").is_ok());
    assert!(matches!(validate_meet_id(""), Err(ValidationError::InvalidMeetId(_))));
    assert!(matches!(validate_meet_id("ab"), Err(ValidationError::InvalidMeetId(_))));
    let long_id = "a".repeat(51);
    assert!(matches!(validate_meet_id(&long_id), Err(ValidationError::InvalidMeetId(_))));
    assert!(matches!(validate_meet_id("invalid@meet"), Err(ValidationError::InvalidMeetId(_))));
    assert!(matches!(validate_meet_id("meet_123"), Err(ValidationError::InvalidMeetId(_))));
}

#[test]
fn test_validate_password() {
    assert!(validate_password("Password123!").is_ok());
    assert!(validate_password("SecurePassword1").is_ok());
    assert!(matches!(validate_password("Short1"), Err(ValidationError::InvalidPassword(_))));
    assert!(matches!(validate_password("password123!"), Err(ValidationError::InvalidPassword(_))));
    assert!(matches!(validate_password("PASSWORD123!"), Err(ValidationError::InvalidPassword(_))));
    assert!(matches!(validate_password("PasswordABC!"), Err(ValidationError::InvalidPassword(_))));
}

#[test]
fn test_validate_location_name() {
    assert!(validate_location_name("Test Location").is_ok());
    assert!(validate_location_name("High School Gym #2").is_ok());
    assert!(matches!(validate_location_name(""), Err(ValidationError::InvalidLocationName(_))));
    let long_name = "a".repeat(101);
    assert!(matches!(validate_location_name(&long_name), Err(ValidationError::InvalidLocationName(_))));
    assert!(matches!(
        validate_location_name("<script>alert(1)</script>"),
        Err(ValidationError::InvalidLocationName(_))
    ));
}

#[test]
fn test_validate_session_token() {
    let valid_uuid = uuid::Uuid::new_v4().to_string();
    assert!(validate_session_token(&valid_uuid).is_ok());
    assert!(matches!(validate_session_token(""), Err(ValidationError::InvalidSessionToken(_))));
    assert!(matches!(validate_session_token("not-a-uuid"), Err(ValidationError::InvalidSessionToken(_))));
}

#[test]
fn test_validate_email() {
    assert!(validate_email("test@example.com").is_ok());
    assert!(validate_email("user.name+tag@example.co.uk").is_ok());
    assert!(matches!(validate_email("test.example.com"), Err(ValidationError::InvalidEmail(_))));
    assert!(matches!(validate_email("test@"), Err(ValidationError::InvalidEmail(_))));
    assert!(matches!(validate_email("test@example"), Err(ValidationError::InvalidEmail(_))));
}

#[test]
fn test_sanitize_string() {
    let input = "<script>alert('XSS')</script>";
    let sanitized = sanitize_string(input);
    assert_eq!(sanitized, "&lt;script&gt;alert(&#x27;XSS&#x27;)&lt;/script&gt;");
}

#[test]
fn test_validate_update() {
    let valid_update = MessageUpdate { location: "some.location".to_string(), value: "{}".to_string(), timestamp: 12345 };
    assert!(message_rules::validate_update(&valid_update).is_ok());
    let invalid_location = MessageUpdate { location: String::new(), value: "{}".to_string(), timestamp: 12345 };
    assert!(message_rules::validate_update(&invalid_location).is_err());
    let invalid_json =
        MessageUpdate { location: "some.location".to_string(), value: "{not valid json}".to_string(), timestamp: 12345 };
    assert!(message_rules::validate_update(&invalid_json).is_err());
    let invalid_timestamp = MessageUpdate { location: "some.location".to_string(), value: "{}".to_string(), timestamp: 0 };
    assert!(message_rules::validate_update(&invalid_timestamp).is_err());
}

#[test]
fn test_validate_client_message() {
    let registry = MeetIdRegistry::new();
    let valid_msg = ClientMessage::CreateMeet {
        meet_id: "valid-meet".to_string(),
        password: "Password123!".to_string(),
        location_name: "Valid Location".to_string(),
        priority: 5,
    };
    assert!(message_rules::validate_client_message(&valid_msg, &registry).is_ok());
}

#[test]
fn test_validations() {
    assert!(validate_meet_id("valid-meet-id").is_ok());
    assert!(validate_meet_id("").is_err());
    assert!(validate_meet_id("ab").is_err());
    assert!(validate_meet_id(&"a".repeat(51)).is_err());
    assert!(validate_meet_id("invalid@meet").is_err());

    assert!(validate_password("Password123").is_ok());
    assert!(validate_password("Short1").is_err());
    assert!(validate_password("password123").is_err());
    assert!(validate_password("PASSWORD123").is_err());

    assert!(validate_location_name("Test Location").is_ok());
    assert!(validate_location_name("").is_err());
    assert!(validate_location_name(&"a".repeat(101)).is_err());

    assert!(validate_email("test@example.com").is_ok());
    assert!(validate_email("test.example.com").is_err());

    let valid_uuid = uuid::Uuid::new_v4().to_string();
    assert!(validate_session_token(&valid_uuid).is_ok());
    assert!(validate_session_token("").is_err());

    let valid_update = Update {
        update_key: "some.location".to_string(),
        update_value: "{}".to_string(),
        local_seq_num: 1,
        after_server_seq_num: 0,
    };
    assert!(validate_update(&valid_update).is_ok());

    let valid_msg = ClientToServer::CreateMeet {
        this_location_name: "Valid Location".to_string(),
        password: "Password123".to_string(),
        endpoints: vec![],
    };
    assert!(validate_client_message(&valid_msg).is_ok());
}

#[test]
fn test_validation_middleware_valid_message() {
    let message = ClientToServer::CreateMeet {
        this_location_name: "Valid Location".to_string(),
        password: "ValidPassword123".to_string(),
        endpoints: vec![EndpointPriority { location_name: "Location1".to_string(), priority: 1 }],
    };
    let context = ValidationContext::default();
    let result = ValidationMiddleware::validate_message(&message, &context);
    assert!(result.is_ok());
}

#[test]
fn test_validation_middleware_invalid_message() {
    let message = ClientToServer::CreateMeet {
        this_location_name: "".to_string(),
        password: "short".to_string(),
        endpoints: vec![],
    };
    let context = ValidationContext::default();
    let result = ValidationMiddleware::validate_message(&message, &context);
    assert!(result.is_err());
    if let Err(ServerMessage::Error { code, message: _ }) = result {
        assert!(!code.is_empty());
    }
}

#[test]
fn test_validation_builder() {
    let result = ValidationMiddleware::builder()
        .meet_id("valid-meet-id")
        .and()
        .password("ValidPassword123")
        .and()
        .location_name("Valid Location")
        .and()
        .execute();
    assert!(result.is_ok());
}

#[test]
fn test_validation_builder_invalid() {
    let result = ValidationMiddleware::builder().meet_id("").and().execute();
    assert!(result.is_err());
}

#[test]
fn test_validate_field() {
    let result = ValidationMiddleware::validate_field(validate_meet_id("valid-meet"), "INVALID_MEET_ID");
    assert!(result.is_ok());
    let result = ValidationMiddleware::validate_field(validate_meet_id(""), "INVALID_MEET_ID");
    assert!(result.is_err());
}

#[test]
fn meet_id_registry_refuses_duplicates() {
    let mut registry = MeetIdRegistry::new();
    assert!(is_meet_id_unique(&registry, "meet-one"));
    register_meet_id(&mut registry, "meet-one");
    assert!(!is_meet_id_unique(&registry, "meet-one"));
    assert!(is_meet_id_unique(&registry, "meet-two"));
    let msg = ClientMessage::CreateMeet {
        meet_id: "meet-one".to_string(),
        password: "Password123!".to_string(),
        location_name: "Valid Location".to_string(),
        priority: 5,
    };
    assert!(matches!(
        message_rules::validate_client_message(&msg, &registry),
        Err(ValidationError::MeetIdExists(_))
    ));
}

#[test]
fn validation_error_messages_carry_their_detail() {
    let e = validate_meet_id("ab").unwrap_err();
    assert_eq!(e.message(), "Invalid meet ID: Meet ID must be at least 3 characters");
    let e = validate_email("test@").unwrap_err();
    assert!(e.message().starts_with("Invalid email:"));
}

#[test]
fn sanitized_text_has_no_markup() {
    let out = sanitize_string("a<b>&\"c\"/'d'");
    assert_eq!(out, "a&lt;b&gt;&amp;&quot;c&quot;/&#x27;d&#x27;");
    assert!(!out.contains('<') && !out.contains('>') && !out.contains('"') && !out.contains('\''));
}

#[test]
fn builder_checks_stop_at_the_first_refusal() {
    let calls = std::cell::Cell::new(0u32);
    let result = ValidationMiddleware::builder()
        .meet_id("")
        .and()
        .validate(|| {
            calls.set(calls.get() + 1);
            Ok(())
        })
        .execute();
    assert!(matches!(result, Err(ServerMessage::Error { ref code, .. }) if code == "INVALID_MEET_ID"));
    assert_eq!(calls.get(), 0);
    let result = ValidationMiddleware::builder()
        .validate(|| {
            calls.set(calls.get() + 1);
            Err(ValidationError::InvalidEmail("bad".to_string()))
        })
        .execute();
    assert!(result.is_err());
    assert_eq!(calls.get(), 1);
}
