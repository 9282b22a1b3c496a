//! What is decided about a request before the store is asked, and about the
//! answer once the store has spoken.
//!
//! User and document names become parts of store keys, so neither may be
//! empty or hold the colon that separates the two.

use vstd::prelude::*;
use vstd::string::StringExecFns;

use crate::error::AppError;
use crate::models::{
    CreateUserRequest, CreateUserResponse, UpdateAnnotationsResponse, UpdateProgressRequest,
    UpdateProgressResponse,
};
use crate::text::contains_char;

verus! {

/// Whether `name` can be a part of a store key: not empty, and without a
/// colon.
pub open spec fn is_key_part(name: Seq<char>) -> bool {
    name.len() > 0 && !name.contains(':')
}

/// Whether `name` can be a part of a store key.
pub fn check_key_part(name: &str) -> (ok: bool)
    ensures
        ok == is_key_part(name@),
{
    !name.is_empty() && !contains_char(name, ':')
}

/// Whether the two credential headers name a user and a key that can be
/// looked up: the user a key part, the key not empty.
pub open spec fn is_credentials(user: Option<Seq<char>>, key: Option<Seq<char>>) -> bool {
    &&& user matches Some(name)
    &&& is_key_part(name)
    &&& key matches Some(secret)
    &&& secret.len() > 0
}

/// The user and the key that a request presents, from the values of its two
/// credential headers (`None` for one that is missing or is not text).
pub fn extract_auth<'a>(user: Option<&'a str>, key: Option<&'a str>) -> (r: Result<
    (&'a str, &'a str),
    AppError,
>)
    ensures
        match r {
            Ok((name, secret)) => {
                &&& is_credentials(user.deep_view(), key.deep_view())
                &&& user == Some(name)
                &&& key == Some(secret)
            },
            Err(e) => e is Unauthorized && !is_credentials(user.deep_view(), key.deep_view()),
        },
{
    match (user, key) {
        (Some(name), Some(secret)) => {
            if check_key_part(name) && !secret.is_empty() {
                Ok((name, secret))
            } else {
                Err(AppError::Unauthorized)
            }
        },
        _ => Err(AppError::Unauthorized),
    }
}

/// The user a request acts for, once the store has said whether the key it
/// presented is that user's.
pub fn authorize(user: &str, verified: bool) -> (r: Result<String, AppError>)
    ensures
        match r {
            Ok(name) => verified && name@ == user@,
            Err(e) => !verified && e is Unauthorized,
        },
{
    if verified {
        Ok(String::from_str(user))
    } else {
        Err(AppError::Unauthorized)
    }
}

/// Checks a registration before the store is asked: the name must be a key
/// part and the password must not be empty. The name is judged first.
pub fn check_registration(req: &CreateUserRequest) -> (r: Result<(), AppError>)
    ensures
        match r {
            Ok(_) => is_key_part(req.username@) && req.password@.len() > 0,
            Err(e) => {
                &&& e matches AppError::InvalidRequest(reason)
                &&& if !is_key_part(req.username@) {
                    reason@ == "invalid username"@
                } else {
                    req.password@.len() == 0 && reason@ == "invalid password"@
                }
            },
        },
{
    if !check_key_part(req.username.as_str()) {
        return Err(AppError::InvalidRequest(String::from_str("invalid username")));
    }
    if req.password.as_str().is_empty() {
        return Err(AppError::InvalidRequest(String::from_str("invalid password")));
    }
    Ok(())
}

/// The answer to a registration, once the store has said whether the user
/// was created: status 201 with the name, or the failure that the name is
/// taken.
pub fn registration_answer(req: CreateUserRequest, created: bool) -> (r: Result<
    (u16, CreateUserResponse),
    AppError,
>)
    ensures
        match r {
            Ok((status, body)) => created && status == 201 && body.username == req.username,
            Err(e) => !created && e is UserExists,
        },
{
    if created {
        Ok((201, CreateUserResponse { username: req.username }))
    } else {
        Err(AppError::UserExists)
    }
}

/// Checks the document that a request names: it must be a key part.
pub fn check_document(document: &str) -> (r: Result<(), AppError>)
    ensures
        match r {
            Ok(_) => is_key_part(document@),
            Err(e) => !is_key_part(document@) && e is DocumentMissing,
        },
{
    if check_key_part(document) {
        Ok(())
    } else {
        Err(AppError::DocumentMissing)
    }
}

/// Checks an upload of a reading position: the document must be a key part,
/// and neither the position nor the device may be empty. The document is
/// judged first.
pub fn check_progress_upload(req: &UpdateProgressRequest) -> (r: Result<(), AppError>)
    ensures
        match r {
            Ok(_) => {
                &&& is_key_part(req.document@)
                &&& req.progress@.len() > 0
                &&& req.device@.len() > 0
            },
            Err(e) => if !is_key_part(req.document@) {
                e is DocumentMissing
            } else {
                &&& req.progress@.len() == 0 || req.device@.len() == 0
                &&& e matches AppError::InvalidRequest(reason)
                &&& reason@ == "missing required fields"@
            },
        },
{
    if !check_key_part(req.document.as_str()) {
        return Err(AppError::DocumentMissing);
    }
    if req.progress.as_str().is_empty() || req.device.as_str().is_empty() {
        return Err(AppError::InvalidRequest(String::from_str("missing required fields")));
    }
    Ok(())
}

/// The answer to an upload of a reading position that was stored at
/// `timestamp`: the document and the time.
pub fn progress_answer(req: UpdateProgressRequest, timestamp: i64) -> (body: UpdateProgressResponse)
    ensures
        body.document == req.document,
        body.timestamp == timestamp,
{
    UpdateProgressResponse { document: req.document, timestamp }
}

/// The answer to an accepted upload of annotations: the version that the
/// record now has and the time of the upload.
pub fn annotations_answer(stored: (u64, i64)) -> (body: UpdateAnnotationsResponse)
    ensures
        body.version == stored.0,
        body.timestamp == stored.1,
{
    UpdateAnnotationsResponse { version: stored.0, timestamp: stored.1 }
}

} // verus!
