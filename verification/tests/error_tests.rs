use kosync_server::error::AppError;
use kosync_server::models::ErrorResponse;

fn storage_fault() -> redb::StorageError {
    redb::StorageError::Corrupted("bad page".to_string())
}

fn json_fault() -> serde_json::Error {
    serde_json::from_str::<serde_json::Value>("{").unwrap_err()
}

fn internal_faults() -> Vec<(AppError, String)> {
    vec![
        (
            AppError::from(redb::Error::Corrupted("bad page".to_string())),
            format!("Database error: {}", redb::Error::Corrupted("bad page".to_string())),
        ),
        (
            AppError::from(redb::DatabaseError::DatabaseAlreadyOpen),
            format!("Database error: {}", redb::DatabaseError::DatabaseAlreadyOpen),
        ),
        (
            AppError::from(redb::TransactionError::Storage(storage_fault())),
            format!(
                "Database transaction error: {}",
                redb::TransactionError::Storage(storage_fault())
            ),
        ),
        (
            AppError::from(redb::TableError::TableDoesNotExist("progress".to_string())),
            format!(
                "Database table error: {}",
                redb::TableError::TableDoesNotExist("progress".to_string())
            ),
        ),
        (AppError::from(storage_fault()), format!("Database storage error: {}", storage_fault())),
        (
            AppError::from(redb::CommitError::Storage(storage_fault())),
            format!("Database commit error: {}", redb::CommitError::Storage(storage_fault())),
        ),
        (AppError::from(json_fault()), format!("Serialization error: {}", json_fault())),
    ]
}

#[test]
fn faults_of_the_store_are_reported_as_internal() {
    let faults = internal_faults();
    assert_eq!(faults.len(), 7);
    for (fault, message) in faults {
        assert_eq!(fault.status_code(), 500);
        assert_eq!(fault.error_code(), 2000);
        assert_eq!(fault.message(), message);
        let (status, body) = fault.response_parts();
        assert_eq!(status, 500);
        assert_eq!(body, ErrorResponse { code: 2000, message });
    }
}

#[test]
fn each_outside_error_becomes_its_own_variant() {
    assert!(matches!(AppError::from(redb::Error::DatabaseAlreadyOpen), AppError::Database(_)));
    assert!(matches!(
        AppError::from(redb::DatabaseError::DatabaseAlreadyOpen),
        AppError::DatabaseError(_)
    ));
    assert!(matches!(
        AppError::from(redb::TransactionError::Storage(storage_fault())),
        AppError::Transaction(_)
    ));
    assert!(matches!(
        AppError::from(redb::TableError::TableDoesNotExist("users".to_string())),
        AppError::Table(_)
    ));
    assert!(matches!(AppError::from(storage_fault()), AppError::Storage(_)));
    assert!(matches!(
        AppError::from(redb::CommitError::Storage(storage_fault())),
        AppError::Commit(_)
    ));
    assert!(matches!(AppError::from(json_fault()), AppError::Serialization(_)));
}

#[test]
fn a_store_fault_message_carries_what_the_store_said() {
    let fault = AppError::from(redb::Error::Corrupted("bad page".to_string()));
    assert_eq!(fault.message(), "Database error: DB corrupted: bad page");
}

#[test]
fn failures_of_a_request_have_their_own_codes() {
    let cases = [
        (AppError::Unauthorized, 401, 2001, "Unauthorized"),
        (AppError::UserExists, 402, 2002, "User already exists"),
        (
            AppError::InvalidRequest("invalid username".to_string()),
            403,
            2003,
            "Invalid request: invalid username",
        ),
        (AppError::InvalidRequest(String::new()), 403, 2003, "Invalid request: "),
        (AppError::DocumentMissing, 403, 2004, "Document field missing"),
        (AppError::VersionConflict, 409, 2005, "Version conflict"),
    ];
    for (failure, status, code, message) in cases {
        assert_eq!(failure.status_code(), status);
        assert_eq!(failure.error_code(), code);
        assert_eq!(failure.message(), message);
        let (answered, body) = failure.response_parts();
        assert_eq!(answered, status);
        assert_eq!(body, ErrorResponse::new(code, message.to_string()));
    }
}

#[test]
fn error_response_holds_what_it_is_given() {
    let body = ErrorResponse::new(2005, "Version conflict".to_string());
    assert_eq!(body.code, 2005);
    assert_eq!(body.message, "Version conflict");
}
