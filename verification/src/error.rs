//! The failures of the engine and how each is reported to a client.

use vstd::prelude::*;
use vstd::std_specs::convert::FromSpecImpl;
use vstd::string::to_string_from_display_ensures;

use crate::models::ErrorResponse;

verus! {

/// `redb::Error`, carried through unopened.
#[verifier::external_type_specification]
#[verifier::external_body]
pub struct ExRedbError(redb::Error);

/// `redb::DatabaseError`, carried through unopened.
#[verifier::external_type_specification]
#[verifier::external_body]
pub struct ExRedbDatabaseError(redb::DatabaseError);

/// `redb::TransactionError`, carried through unopened.
#[verifier::external_type_specification]
#[verifier::external_body]
pub struct ExRedbTransactionError(redb::TransactionError);

/// `redb::TableError`, carried through unopened.
#[verifier::external_type_specification]
#[verifier::external_body]
pub struct ExRedbTableError(redb::TableError);

/// `redb::StorageError`, carried through unopened.
#[verifier::external_type_specification]
#[verifier::external_body]
pub struct ExRedbStorageError(redb::StorageError);

/// `redb::CommitError`, carried through unopened.
#[verifier::external_type_specification]
#[verifier::external_body]
pub struct ExRedbCommitError(redb::CommitError);

/// `serde_json::Error`, carried through unopened.
#[verifier::external_type_specification]
#[verifier::external_body]
pub struct ExJsonError(serde_json::Error);

/// Why a request failed: a fault of the store, a stored record that cannot
/// be read or written, or one of the ways in which the request itself can be
/// wrong. A version conflict is the one failure that a client is meant to
/// recover from, by reading the record again and repeating the upload.
#[derive(Debug)]
pub enum AppError {
    Database(redb::Error),
    DatabaseError(redb::DatabaseError),
    Transaction(redb::TransactionError),
    Table(redb::TableError),
    Storage(redb::StorageError),
    Commit(redb::CommitError),
    Serialization(serde_json::Error),
    Unauthorized,
    UserExists,
    InvalidRequest(String),
    DocumentMissing,
    VersionConflict,
}

impl From<redb::Error> for AppError {
    fn from(e: redb::Error) -> (r: Self) {
        AppError::Database(e)
    }
}

impl FromSpecImpl<redb::Error> for AppError {
    open spec fn obeys_from_spec() -> bool {
        true
    }

    open spec fn from_spec(e: redb::Error) -> Self {
        AppError::Database(e)
    }
}

impl From<redb::DatabaseError> for AppError {
    fn from(e: redb::DatabaseError) -> (r: Self) {
        AppError::DatabaseError(e)
    }
}

impl FromSpecImpl<redb::DatabaseError> for AppError {
    open spec fn obeys_from_spec() -> bool {
        true
    }

    open spec fn from_spec(e: redb::DatabaseError) -> Self {
        AppError::DatabaseError(e)
    }
}

impl From<redb::TransactionError> for AppError {
    fn from(e: redb::TransactionError) -> (r: Self) {
        AppError::Transaction(e)
    }
}

impl FromSpecImpl<redb::TransactionError> for AppError {
    open spec fn obeys_from_spec() -> bool {
        true
    }

    open spec fn from_spec(e: redb::TransactionError) -> Self {
        AppError::Transaction(e)
    }
}

impl From<redb::TableError> for AppError {
    fn from(e: redb::TableError) -> (r: Self) {
        AppError::Table(e)
    }
}

impl FromSpecImpl<redb::TableError> for AppError {
    open spec fn obeys_from_spec() -> bool {
        true
    }

    open spec fn from_spec(e: redb::TableError) -> Self {
        AppError::Table(e)
    }
}

impl From<redb::StorageError> for AppError {
    fn from(e: redb::StorageError) -> (r: Self) {
        AppError::Storage(e)
    }
}

impl FromSpecImpl<redb::StorageError> for AppError {
    open spec fn obeys_from_spec() -> bool {
        true
    }

    open spec fn from_spec(e: redb::StorageError) -> Self {
        AppError::Storage(e)
    }
}

impl From<redb::CommitError> for AppError {
    fn from(e: redb::CommitError) -> (r: Self) {
        AppError::Commit(e)
    }
}

impl FromSpecImpl<redb::CommitError> for AppError {
    open spec fn obeys_from_spec() -> bool {
        true
    }

    open spec fn from_spec(e: redb::CommitError) -> Self {
        AppError::Commit(e)
    }
}

impl From<serde_json::Error> for AppError {
    fn from(e: serde_json::Error) -> (r: Self) {
        AppError::Serialization(e)
    }
}

impl FromSpecImpl<serde_json::Error> for AppError {
    open spec fn obeys_from_spec() -> bool {
        true
    }

    open spec fn from_spec(e: serde_json::Error) -> Self {
        AppError::Serialization(e)
    }
}

impl AppError {
    /// Whether the failure lies in the store or in a stored record rather
    /// than in the request.
    pub open spec fn is_internal(self) -> bool {
        self is Database || self is DatabaseError || self is Transaction || self is Table
            || self is Storage || self is Commit || self is Serialization
    }

    /// The HTTP status that reports the failure.
    pub open spec fn status(self) -> u16 {
        match self {
            AppError::Unauthorized => 401,
            AppError::UserExists => 402,
            AppError::InvalidRequest(_) => 403,
            AppError::DocumentMissing => 403,
            AppError::VersionConflict => 409,
            _ => 500,
        }
    }

    /// The code that the body of the answer carries.
    pub open spec fn code(self) -> u32 {
        match self {
            AppError::Unauthorized => 2001,
            AppError::UserExists => 2002,
            AppError::InvalidRequest(_) => 2003,
            AppError::DocumentMissing => 2004,
            AppError::VersionConflict => 2005,
            _ => 2000,
        }
    }

    /// The HTTP status that reports the failure.
    pub fn status_code(&self) -> (status: u16)
        ensures
            status == self.status(),
    {
        match self {
            AppError::Unauthorized => 401,
            AppError::UserExists => 402,
            AppError::InvalidRequest(_) => 403,
            AppError::DocumentMissing => 403,
            AppError::VersionConflict => 409,
            _ => 500,
        }
    }

    /// The code that the body of the answer carries: 2000 for every failure
    /// of the store or of a stored record, a code of its own for each way a
    /// request can fail.
    pub fn error_code(&self) -> (code: u32)
        ensures
            code == self.code(),
    {
        match self {
            AppError::Database(_)
            | AppError::DatabaseError(_)
            | AppError::Transaction(_)
            | AppError::Table(_)
            | AppError::Storage(_)
            | AppError::Commit(_)
            | AppError::Serialization(_) => 2000,
            AppError::Unauthorized => 2001,
            AppError::UserExists => 2002,
            AppError::InvalidRequest(_) => 2003,
            AppError::DocumentMissing => 2004,
            AppError::VersionConflict => 2005,
        }
    }

    /// How the message of the failure begins; for a failure without a
    /// detail this is the whole message.
    pub open spec fn headline(self) -> Seq<char> {
        match self {
            AppError::Database(_) => "Database error: "@,
            AppError::DatabaseError(_) => "Database error: "@,
            AppError::Transaction(_) => "Database transaction error: "@,
            AppError::Table(_) => "Database table error: "@,
            AppError::Storage(_) => "Database storage error: "@,
            AppError::Commit(_) => "Database commit error: "@,
            AppError::Serialization(_) => "Serialization error: "@,
            AppError::InvalidRequest(_) => "Invalid request: "@,
            AppError::Unauthorized => "Unauthorized"@,
            AppError::UserExists => "User already exists"@,
            AppError::DocumentMissing => "Document field missing"@,
            AppError::VersionConflict => "Version conflict"@,
        }
    }

    /// Whether `detail` is what follows the headline: for a failure of the
    /// store or of a stored record what the carried error displays, for a
    /// rejected request the reason it carries, else nothing.
    pub open spec fn has_detail(self, detail: Seq<char>) -> bool {
        match self {
            AppError::Database(e) => exists|shown: String|
                shown@ == detail && to_string_from_display_ensures::<redb::Error>(
                    &e,
                    shown,
                ),
            AppError::DatabaseError(e) => exists|shown: String|
                shown@ == detail && to_string_from_display_ensures::<redb::DatabaseError>(
                    &e,
                    shown,
                ),
            AppError::Transaction(e) => exists|shown: String|
                shown@ == detail && to_string_from_display_ensures::<redb::TransactionError>(
                    &e,
                    shown,
                ),
            AppError::Table(e) => exists|shown: String|
                shown@ == detail && to_string_from_display_ensures::<redb::TableError>(
                    &e,
                    shown,
                ),
            AppError::Storage(e) => exists|shown: String|
                shown@ == detail && to_string_from_display_ensures::<redb::StorageError>(
                    &e,
                    shown,
                ),
            AppError::Commit(e) => exists|shown: String|
                shown@ == detail && to_string_from_display_ensures::<redb::CommitError>(
                    &e,
                    shown,
                ),
            AppError::Serialization(e) => exists|shown: String|
                shown@ == detail && to_string_from_display_ensures::<serde_json::Error>(
                    &e,
                    shown,
                ),
            AppError::InvalidRequest(reason) => detail == reason@,
            _ => detail == Seq::<char>::empty(),
        }
    }

    fn headline_text(&self) -> (t: &'static str)
        ensures
            t@ == self.headline(),
    {
        match self {
            AppError::Database(_) => "Database error: ",
            AppError::DatabaseError(_) => "Database error: ",
            AppError::Transaction(_) => "Database transaction error: ",
            AppError::Table(_) => "Database table error: ",
            AppError::Storage(_) => "Database storage error: ",
            AppError::Commit(_) => "Database commit error: ",
            AppError::Serialization(_) => "Serialization error: ",
            AppError::InvalidRequest(_) => "Invalid request: ",
            AppError::Unauthorized => "Unauthorized",
            AppError::UserExists => "User already exists",
            AppError::DocumentMissing => "Document field missing",
            AppError::VersionConflict => "Version conflict",
        }
    }

    fn detail_text(&self) -> (t: String)
        ensures
            self.has_detail(t@),
    {
        match self {
            AppError::Database(e) => e.to_string(),
            AppError::DatabaseError(e) => e.to_string(),
            AppError::Transaction(e) => e.to_string(),
            AppError::Table(e) => e.to_string(),
            AppError::Storage(e) => e.to_string(),
            AppError::Commit(e) => e.to_string(),
            AppError::Serialization(e) => e.to_string(),
            AppError::InvalidRequest(reason) => reason.clone(),
            _ => String::new(),
        }
    }

    /// The message that the body of the answer carries: the headline, then
    /// the detail.
    pub fn message(&self) -> (m: String)
        ensures
            exists|detail: Seq<char>| #[trigger]
                self.has_detail(detail) && m@ == self.headline() + detail,
            !self.is_internal() && !(self is InvalidRequest) ==> m@ == self.headline(),
            self matches AppError::InvalidRequest(reason) ==> m@ == self.headline() + reason@,
    {
        let detail = self.detail_text();
        let m = String::from_str(self.headline_text()).concat(detail.as_str());
        proof {
            if !self.is_internal() && !(self is InvalidRequest) {
                assert(m@ =~= self.headline());
            }
        }
        m
    }

    /// The status and the body that report the failure.
    pub fn response_parts(&self) -> (r: (u16, ErrorResponse))
        ensures
            r.0 == self.status(),
            r.1.code == self.code(),
            exists|detail: Seq<char>| #[trigger]
                self.has_detail(detail) && r.1.message@ == self.headline() + detail,
    {
        (self.status_code(), ErrorResponse::new(self.error_code(), self.message()))
    }
}

} // verus!
