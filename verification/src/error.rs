//! The error type of the cache server and how each error is answered.

use vstd::prelude::*;
use crate::text::owned;

verus! {

/// Errors of the cache server. Errors that come from the database or the
/// file system carry their message as text.
#[derive(Debug, Clone, PartialEq, Eq)]
pub enum AppError {
    Database(String),
    DatabaseConnection(String),
    NotFound(String),
    Unauthorized,
    BadRequest(String),
    Internal(String),
    Io(String),
    Crypto(String),
    Config(String),
    LockNotFound,
    Multipart(String),
}

/// The HTTP status and message with which an error is answered. Internal
/// failures are answered with a fixed message; the others carry their own.
pub open spec fn error_response_spec(e: AppError) -> (u16, Seq<char>) {
    match e {
        AppError::NotFound(msg) => (404, msg@),
        AppError::Unauthorized => (401, "Unauthorized"@),
        AppError::BadRequest(msg) => (400, msg@),
        AppError::LockNotFound => (404, "Lock not found or expired"@),
        AppError::Database(_) => (500, "Database error"@),
        AppError::DatabaseConnection(_) => (500, "Database connection error"@),
        AppError::Io(_) => (500, "IO error"@),
        AppError::Crypto(_) => (500, "Crypto error"@),
        AppError::Config(_) => (500, "Config error"@),
        AppError::Internal(msg) => (500, msg@),
        AppError::Multipart(msg) => (400, msg@),
    }
}

/// The standard reason phrase of the statuses this server answers with.
pub open spec fn status_reason_spec(code: u16) -> Seq<char> {
    if code == 400 {
        "Bad Request"@
    } else if code == 401 {
        "Unauthorized"@
    } else if code == 403 {
        "Forbidden"@
    } else if code == 404 {
        "Not Found"@
    } else if code == 500 {
        "Internal Server Error"@
    } else if code == 503 {
        "Service Unavailable"@
    } else {
        "Error"@
    }
}

/// The reason phrase for `code`.
pub fn status_reason(code: u16) -> (r: String)
    ensures
        r@ == status_reason_spec(code),
{
    if code == 400 {
        owned("Bad Request")
    } else if code == 401 {
        owned("Unauthorized")
    } else if code == 403 {
        owned("Forbidden")
    } else if code == 404 {
        owned("Not Found")
    } else if code == 500 {
        owned("Internal Server Error")
    } else if code == 503 {
        owned("Service Unavailable")
    } else {
        owned("Error")
    }
}

/// The JSON error body: the status's reason phrase and the message.
pub struct ErrorResponse {
    pub error: String,
    pub message: Option<String>,
}

impl AppError {
    /// The status and message with which this error is answered.
    pub fn status_and_message(&self) -> (r: (u16, String))
        ensures
            r.0 == error_response_spec(*self).0,
            r.1@ == error_response_spec(*self).1,
    {
        match self {
            AppError::NotFound(msg) => (404, msg.clone()),
            AppError::Unauthorized => (401, owned("Unauthorized")),
            AppError::BadRequest(msg) => (400, msg.clone()),
            AppError::LockNotFound => (404, owned("Lock not found or expired")),
            AppError::Database(_) => (500, owned("Database error")),
            AppError::DatabaseConnection(_) => (500, owned("Database connection error")),
            AppError::Io(_) => (500, owned("IO error")),
            AppError::Crypto(_) => (500, owned("Crypto error")),
            AppError::Config(_) => (500, owned("Config error")),
            AppError::Internal(msg) => (500, msg.clone()),
            AppError::Multipart(msg) => (400, msg.clone()),
        }
    }

    /// The response to this error: its status and the JSON body.
    pub fn respond(&self) -> (r: (u16, ErrorResponse))
        ensures
            r.0 == error_response_spec(*self).0,
            r.1.error@ == status_reason_spec(r.0),
            r.1.message matches Some(m) && m@ == error_response_spec(*self).1,
    {
        let (status, message) = self.status_and_message();
        (status, ErrorResponse { error: status_reason(status), message: Some(message) })
    }
}

} // verus!
