use axum::http::StatusCode;
use openlifter_backend::error::{AppError, ServerError};
use openlifter_backend::websocket::error_message;
use openlifter_backend::messages::ServerMessage;

#[test]
fn test_error_status_codes() {
    let auth_error = ServerError::Auth("Invalid token".to_string());
    assert_eq!(auth_error.status_code(), StatusCode::UNAUTHORIZED.as_u16());
    let internal_error = ServerError::Internal("Database error".to_string());
    assert_eq!(internal_error.status_code(), StatusCode::INTERNAL_SERVER_ERROR.as_u16());
    let not_found_error = ServerError::NotFound("Resource not found".to_string());
    assert_eq!(not_found_error.status_code(), StatusCode::NOT_FOUND.as_u16());
    let io_error = ServerError::Io("IO error".to_string());
    assert_eq!(io_error.status_code(), StatusCode::INTERNAL_SERVER_ERROR.as_u16());
    let json_error = ServerError::Json("JSON error".to_string());
    assert_eq!(json_error.status_code(), StatusCode::INTERNAL_SERVER_ERROR.as_u16());
    assert_eq!(ServerError::InvalidPassword.status_code(), StatusCode::BAD_REQUEST.as_u16());
    assert_eq!(ServerError::MeetNotFound.status_code(), StatusCode::NOT_FOUND.as_u16());
    assert_eq!(ServerError::InvalidMeetId.status_code(), StatusCode::BAD_REQUEST.as_u16());
}

#[test]
fn test_error_from_string() {
    let error = ServerError::from("Test error".to_string());
    match error {
        ServerError::Internal(msg) => assert_eq!(msg, "Test error"),
        _ => panic!("Expected Internal error"),
    }
}

#[test]
fn test_error_from_str() {
    let error = ServerError::from("Test error");
    match error {
        ServerError::Internal(msg) => assert_eq!(msg, "Test error"),
        _ => panic!("Expected Internal error"),
    }
}

#[test]
fn test_app_error_display() {
    let auth_error = AppError::Auth("Invalid token".to_string());
    assert_eq!(auth_error.message(), "Authentication error: Invalid token");
    let io_error = AppError::Io("File not found".to_string());
    assert!(io_error.message().contains("IO error"));
    assert_eq!(AppError::RateLimitExceeded.message(), "Rate limit exceeded");
}

#[test]
fn test_app_error_status_codes() {
    assert_eq!(AppError::Auth("Invalid credentials".to_string()).status_code(), StatusCode::UNAUTHORIZED.as_u16());
    assert_eq!(AppError::Internal("test".to_string()).status_code(), StatusCode::INTERNAL_SERVER_ERROR.as_u16());
    assert_eq!(AppError::NotFound("test".to_string()).status_code(), StatusCode::NOT_FOUND.as_u16());
    assert_eq!(AppError::RateLimitExceeded.status_code(), StatusCode::TOO_MANY_REQUESTS.as_u16());
    let json_err = serde_json::from_str::<serde_json::Value>("invalid json").unwrap_err();
    assert_eq!(AppError::Json(json_err.to_string()).status_code(), StatusCode::INTERNAL_SERVER_ERROR.as_u16());
}

#[test]
fn test_app_error_error_codes() {
    assert_eq!(AppError::Auth("Invalid credentials".to_string()).error_code(), "AUTH_001");
    assert_eq!(AppError::Internal("test".to_string()).error_code(), "INT_001");
    assert_eq!(AppError::NotFound("test".to_string()).error_code(), "NF_001");
    assert_eq!(AppError::RateLimitExceeded.error_code(), "RATE_001");
    let json_err = serde_json::from_str::<serde_json::Value>("invalid json").unwrap_err();
    assert_eq!(AppError::Json(json_err.to_string()).error_code(), "JSON_001");
}

#[test]
fn test_error_from_impls() {
    let app_err: AppError = "String error".to_string().into();
    assert!(matches!(app_err, AppError::Internal(_)));
    let app_err: AppError = "Str error".into();
    assert!(matches!(app_err, AppError::Internal(_)));
}

#[test]
fn needs_recovery_text_and_status() {
    let e = AppError::NeedsRecovery { meet_id: "123-456-789".to_string(), last_known_seq: 7 };
    assert_eq!(e.status_code(), 409);
    assert_eq!(e.error_code(), "RECOVERY_001");
    assert_eq!(e.message(), "State inconsistency detected for meet 123-456-789, recovery needed (last_known_seq: 7)");
    assert_eq!(e.sanitized_message(), "Data synchronization required");
}

#[test]
fn sanitized_messages_hide_details() {
    let e = AppError::Auth("secret detail".to_string());
    assert!(!e.sanitized_message().contains("secret"));
    assert_eq!(e.sanitized_message(), "Authentication failed");
}

#[test]
fn errors_become_client_messages() {
    match error_message(AppError::Auth("bad token".to_string())) {
        ServerMessage::Error { code, message } => {
            assert_eq!(code, "AUTH_ERROR");
            assert_eq!(message, "bad token");
        },
        other => panic!("unexpected {other:?}"),
    }
    match error_message(AppError::InvalidInput("bad field".to_string())) {
        ServerMessage::Error { code, message } => {
            assert_eq!(code, "VALIDATION_ERROR");
            assert_eq!(message, "bad field");
        },
        other => panic!("unexpected {other:?}"),
    }
    match error_message(AppError::AuthRateLimited) {
        ServerMessage::Error { code, message } => {
            assert_eq!(code, "AUTH_RATE_LIMITED");
            assert_eq!(message, "Too many authentication attempts. Please try again later.");
        },
        other => panic!("unexpected {other:?}"),
    }
    match error_message(AppError::MeetNotFound) {
        ServerMessage::Error { code, message } => {
            assert_eq!(code, "INTERNAL_ERROR");
            assert_eq!(message, "An internal server error occurred");
        },
        other => panic!("unexpected {other:?}"),
    }
}
