//! The Nest server's error type, its HTTP status codes and its JSON envelope
//! texts.
use vstd::prelude::*;

use crate::text::concat;

verus! {

broadcast use vstd::string::group_string_axioms;

/// The single error type surfaced by the server.
///
/// Each variant maps to a stable HTTP status code and a machine-readable
/// `code`. Database and migration failures carry the text of the underlying
/// driver error.
#[derive(Debug)]
pub enum AppError {
    Config(String),
    NotFound,
    Validation(String),
    Unauthorized,
    Forbidden,
    RateLimited,
    Conflict(String),
    Database(String),
    Migration(String),
    Internal(String),
}

/// HTTP status code of each error.
pub open spec fn status_of(e: AppError) -> u16 {
    match e {
        AppError::NotFound => 404,
        AppError::Validation(_) => 400,
        AppError::Unauthorized => 401,
        AppError::Forbidden => 403,
        AppError::RateLimited => 429,
        AppError::Conflict(_) => 409,
        AppError::Config(_) | AppError::Database(_) | AppError::Migration(_) | AppError::Internal(
            _,
        ) => 500,
    }
}

/// Stable machine-readable code of each error.
pub open spec fn code_of(e: AppError) -> Seq<char> {
    match e {
        AppError::Config(_) => "config_error"@,
        AppError::NotFound => "not_found"@,
        AppError::Validation(_) => "validation_error"@,
        AppError::Unauthorized => "unauthorized"@,
        AppError::Forbidden => "forbidden"@,
        AppError::RateLimited => "rate_limited"@,
        AppError::Conflict(_) => "conflict"@,
        AppError::Database(_) | AppError::Migration(_) => "database_error"@,
        AppError::Internal(_) => "internal_error"@,
    }
}

/// Full description of each error (its display text).
pub open spec fn message_of(e: AppError) -> Seq<char> {
    match e {
        AppError::Config(m) => "configuration error: "@ + m@,
        AppError::NotFound => "resource not found"@,
        AppError::Validation(m) => "invalid request: "@ + m@,
        AppError::Unauthorized => "unauthorized"@,
        AppError::Forbidden => "forbidden"@,
        AppError::RateLimited => "rate limit exceeded"@,
        AppError::Conflict(m) => "conflict: "@ + m@,
        AppError::Database(m) => m@,
        AppError::Migration(m) => m@,
        AppError::Internal(m) => "internal error: "@ + m@,
    }
}

/// Message safe to send to a client: every server-side failure gets the
/// same generic text, so no internal detail leaks.
pub open spec fn client_message_of(e: AppError) -> Seq<char> {
    match e {
        AppError::Config(_) | AppError::Database(_) | AppError::Migration(_)
        | AppError::Internal(_) => "an internal error occurred"@,
        _ => message_of(e),
    }
}

impl AppError {
    /// HTTP status code for this error.
    pub fn status(&self) -> (s: u16)
        ensures
            s == status_of(*self),
    {
        match self {
            AppError::NotFound => 404,
            AppError::Validation(_) => 400,
            AppError::Unauthorized => 401,
            AppError::Forbidden => 403,
            AppError::RateLimited => 429,
            AppError::Conflict(_) => 409,
            AppError::Config(_) | AppError::Database(_) | AppError::Migration(_)
            | AppError::Internal(_) => 500,
        }
    }

    /// Stable, machine-readable error code.
    pub fn code(&self) -> (c: &'static str)
        ensures
            c@ == code_of(*self),
    {
        match self {
            AppError::Config(_) => "config_error",
            AppError::NotFound => "not_found",
            AppError::Validation(_) => "validation_error",
            AppError::Unauthorized => "unauthorized",
            AppError::Forbidden => "forbidden",
            AppError::RateLimited => "rate_limited",
            AppError::Conflict(_) => "conflict",
            AppError::Database(_) | AppError::Migration(_) => "database_error",
            AppError::Internal(_) => "internal_error",
        }
    }

    /// Full description of the error.
    pub fn message(&self) -> (m: String)
        ensures
            m@ == message_of(*self),
    {
        match self {
            AppError::Config(m) => concat("configuration error: ", m.as_str()),
            AppError::NotFound => "resource not found".to_string(),
            AppError::Validation(m) => concat("invalid request: ", m.as_str()),
            AppError::Unauthorized => "unauthorized".to_string(),
            AppError::Forbidden => "forbidden".to_string(),
            AppError::RateLimited => "rate limit exceeded".to_string(),
            AppError::Conflict(m) => concat("conflict: ", m.as_str()),
            AppError::Database(m) => m.clone(),
            AppError::Migration(m) => m.clone(),
            AppError::Internal(m) => concat("internal error: ", m.as_str()),
        }
    }

    /// Client-safe message: internal details are replaced by a generic text.
    pub fn client_message(&self) -> (m: String)
        ensures
            m@ == client_message_of(*self),
    {
        match self {
            AppError::Config(_) | AppError::Database(_) | AppError::Migration(_)
            | AppError::Internal(_) => "an internal error occurred".to_string(),
            _ => self.message(),
        }
    }

    /// Whether the status is a server-side (5xx) failure.
    pub fn is_server_error(&self) -> (b: bool)
        ensures
            b == (status_of(*self) >= 500),
    {
        self.status() >= 500
    }
}

/// A client never sees the detail of a server-side failure.
pub proof fn lemma_server_errors_hide_details(e: AppError)
    ensures
        status_of(e) >= 500 ==> client_message_of(e) == "an internal error occurred"@,
        status_of(e) < 500 ==> client_message_of(e) == message_of(e),
{
}

} // verus!
