use kosync_server::error::AppError;
use kosync_server::handlers::{
    annotations_answer, authorize, check_document, check_key_part, check_progress_upload,
    check_registration, extract_auth, progress_answer, registration_answer,
};
use kosync_server::models::{
    AuthResponse, CreateUserRequest, CreateUserResponse, UpdateAnnotationsResponse,
    UpdateProgressRequest, UpdateProgressResponse,
};

fn registration(username: &str, password: &str) -> CreateUserRequest {
    CreateUserRequest { username: username.to_string(), password: password.to_string() }
}

fn upload(document: &str, progress: &str, device: &str) -> UpdateProgressRequest {
    UpdateProgressRequest {
        document: document.to_string(),
        progress: progress.to_string(),
        percentage: 0.25f64.to_bits(),
        device: device.to_string(),
        device_id: None,
    }
}

fn reason(r: Result<(), AppError>) -> String {
    match r {
        Err(AppError::InvalidRequest(reason)) => reason,
        other => panic!("not a rejected request: {:?}", other),
    }
}

#[test]
fn key_parts_are_not_empty_and_hold_no_colon() {
    assert!(check_key_part("testuser"));
    assert!(check_key_part("a"));
    assert!(check_key_part("user name"));
    assert!(!check_key_part(""));
    assert!(!check_key_part(":"));
    assert!(!check_key_part("user:name"));
    assert!(!check_key_part(":user"));
    assert!(!check_key_part("user:"));
}

#[test]
fn extract_auth_wants_both_headers() {
    assert_eq!(extract_auth(Some("testuser"), Some("key")).unwrap(), ("testuser", "key"));
    assert!(matches!(extract_auth(None, Some("key")), Err(AppError::Unauthorized)));
    assert!(matches!(extract_auth(Some("testuser"), None), Err(AppError::Unauthorized)));
    assert!(matches!(extract_auth(None, None), Err(AppError::Unauthorized)));
}

#[test]
fn extract_auth_refuses_names_that_cannot_be_keys() {
    assert!(matches!(extract_auth(Some(""), Some("key")), Err(AppError::Unauthorized)));
    assert!(matches!(extract_auth(Some("user:name"), Some("key")), Err(AppError::Unauthorized)));
    assert!(matches!(extract_auth(Some("testuser"), Some("")), Err(AppError::Unauthorized)));
    // The key itself may hold a colon: it is never part of a store key.
    assert_eq!(extract_auth(Some("testuser"), Some("a:b")).unwrap(), ("testuser", "a:b"));
}

#[test]
fn authorize_goes_by_what_the_store_said() {
    assert_eq!(authorize("testuser", true).unwrap(), "testuser");
    assert!(matches!(authorize("testuser", false), Err(AppError::Unauthorized)));
}

#[test]
fn registration_is_checked_name_first() {
    assert!(check_registration(&registration("testuser", "somepass")).is_ok());
    assert_eq!(reason(check_registration(&registration("", "somepass"))), "invalid username");
    assert_eq!(
        reason(check_registration(&registration("user:name", "somepass"))),
        "invalid username"
    );
    assert_eq!(reason(check_registration(&registration("testuser", ""))), "invalid password");
    assert_eq!(reason(check_registration(&registration("", ""))), "invalid username");
}

#[test]
fn registration_answer_tells_created_from_taken() {
    let (status, body) = registration_answer(registration("testuser", "somepass"), true).unwrap();
    assert_eq!(status, 201);
    assert_eq!(body, CreateUserResponse { username: "testuser".to_string() });
    assert!(matches!(
        registration_answer(registration("testuser", "somepass"), false),
        Err(AppError::UserExists)
    ));
}

#[test]
fn documents_must_be_key_parts() {
    assert!(check_document("ffe18e5b355d104879c32680eacf4e17").is_ok());
    assert!(matches!(check_document(""), Err(AppError::DocumentMissing)));
    assert!(matches!(check_document("a:b"), Err(AppError::DocumentMissing)));
}

#[test]
fn progress_upload_is_checked_document_first() {
    assert!(check_progress_upload(&upload("doc", "page1", "Device1")).is_ok());
    assert!(matches!(
        check_progress_upload(&upload("", "page1", "Device1")),
        Err(AppError::DocumentMissing)
    ));
    assert!(matches!(
        check_progress_upload(&upload("a:b", "", "")),
        Err(AppError::DocumentMissing)
    ));
    assert_eq!(
        reason(check_progress_upload(&upload("doc", "", "Device1"))),
        "missing required fields"
    );
    assert_eq!(
        reason(check_progress_upload(&upload("doc", "page1", ""))),
        "missing required fields"
    );
}

#[test]
fn auth_answer_says_ok() {
    assert_eq!(AuthResponse::ok(), AuthResponse { authorized: "OK" });
}

#[test]
fn answers_to_uploads_name_what_was_stored() {
    assert_eq!(
        progress_answer(upload("doc", "page1", "Device1"), 1700000000),
        UpdateProgressResponse { document: "doc".to_string(), timestamp: 1700000000 }
    );
    assert_eq!(
        annotations_answer((3, 1700000001)),
        UpdateAnnotationsResponse { version: 3, timestamp: 1700000001 }
    );
}
