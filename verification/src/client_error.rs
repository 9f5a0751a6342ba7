//! The Bird client's error type, its stable codes, and the messages shown to
//! the user.
use vstd::prelude::*;

use crate::text::{concat, nat_digits, u64_text};

verus! {

broadcast use vstd::string::group_string_axioms;

/// The single error type of the Bird client. Errors of outside libraries
/// (network, serialization, file system, secure storage, zip archives)
/// carry their text.
#[derive(Debug)]
pub enum BirdError {
    Validation(String),
    Network(String),
    Api(String),
    Serde(String),
    Io(String),
    Config(String),
    SecureStorage(String),
    Nest { status: u16, message: String },
    NotAuthenticated,
    NotRegistered,
    GameNotFound(String),
    SavePathNotFound(String),
    Sync(String),
    Archive(String),
    Internal(String),
}

/// Full description of each error (its display text).
pub open spec fn bird_message_of(e: BirdError) -> Seq<char> {
    match e {
        BirdError::Validation(m) => "invalid request: "@ + m@,
        BirdError::Network(m) => "network request failed: "@ + m@,
        BirdError::Api(m) => "invalid response from Nest: "@ + m@,
        BirdError::Serde(m) => "serialization error: "@ + m@,
        BirdError::Io(m) => "io error: "@ + m@,
        BirdError::Config(m) => "configuration error: "@ + m@,
        BirdError::SecureStorage(m) => "secure storage error: "@ + m@,
        BirdError::Nest { status, message } => "Nest returned error "@ + nat_digits(
            status as nat,
        ) + ": "@ + message@,
        BirdError::NotAuthenticated => "not authenticated"@,
        BirdError::NotRegistered => "this device has not been registered as a Bird yet"@,
        BirdError::GameNotFound(id) => "game not found: "@ + id@,
        BirdError::SavePathNotFound(p) => "save path does not exist: "@ + p@,
        BirdError::Sync(m) => "sync failed: "@ + m@,
        BirdError::Archive(m) => "archive error: "@ + m@,
        BirdError::Internal(m) => "internal error: "@ + m@,
    }
}

/// Message that is safe to display in the UI.
pub open spec fn user_message_of(e: BirdError) -> Seq<char> {
    match e {
        BirdError::Validation(m) => m@,
        BirdError::Nest { message, .. } => message@,
        BirdError::NotAuthenticated => "Please sign in first."@,
        BirdError::NotRegistered => "Please register this device first."@,
        BirdError::SavePathNotFound(_) => "The save folder for this game was not found."@,
        BirdError::GameNotFound(id) => "Unknown game: "@ + id@,
        _ => bird_message_of(e),
    }
}

/// Stable code for the frontend to branch on.
pub open spec fn bird_code_of(e: BirdError) -> Seq<char> {
    match e {
        BirdError::Validation(_) => "validation_error"@,
        BirdError::Network(_) => "network_error"@,
        BirdError::Api(_) => "api_error"@,
        BirdError::Serde(_) => "serde_error"@,
        BirdError::Io(_) => "io_error"@,
        BirdError::Config(_) => "config_error"@,
        BirdError::SecureStorage(_) => "secure_storage_error"@,
        BirdError::Nest { .. } => "nest_error"@,
        BirdError::NotAuthenticated => "not_authenticated"@,
        BirdError::NotRegistered => "not_registered"@,
        BirdError::GameNotFound(_) => "game_not_found"@,
        BirdError::SavePathNotFound(_) => "save_path_not_found"@,
        BirdError::Sync(_) => "sync_error"@,
        BirdError::Archive(_) => "archive_error"@,
        BirdError::Internal(_) => "internal_error"@,
    }
}

impl BirdError {
    /// Full description of the error.
    pub fn message(&self) -> (m: String)
        ensures
            m@ == bird_message_of(*self),
    {
        match self {
            BirdError::Validation(m) => concat("invalid request: ", m.as_str()),
            BirdError::Network(m) => concat("network request failed: ", m.as_str()),
            BirdError::Api(m) => concat("invalid response from Nest: ", m.as_str()),
            BirdError::Serde(m) => concat("serialization error: ", m.as_str()),
            BirdError::Io(m) => concat("io error: ", m.as_str()),
            BirdError::Config(m) => concat("configuration error: ", m.as_str()),
            BirdError::SecureStorage(m) => concat("secure storage error: ", m.as_str()),
            BirdError::Nest { status, message } => {
                let mut s = "Nest returned error ".to_string();
                s.append(u64_text(*status as u64).as_str());
                s.append(": ");
                s.append(message.as_str());
                s
            },
            BirdError::NotAuthenticated => "not authenticated".to_string(),
            BirdError::NotRegistered => "this device has not been registered as a Bird yet".to_string(),
            BirdError::GameNotFound(id) => concat("game not found: ", id.as_str()),
            BirdError::SavePathNotFound(p) => concat("save path does not exist: ", p.as_str()),
            BirdError::Sync(m) => concat("sync failed: ", m.as_str()),
            BirdError::Archive(m) => concat("archive error: ", m.as_str()),
            BirdError::Internal(m) => concat("internal error: ", m.as_str()),
        }
    }

    /// A user-facing message that is safe to display in the UI.
    pub fn user_message(&self) -> (m: String)
        ensures
            m@ == user_message_of(*self),
    {
        match self {
            BirdError::Validation(msg) => msg.clone(),
            BirdError::Nest { message, .. } => message.clone(),
            BirdError::NotAuthenticated => "Please sign in first.".to_string(),
            BirdError::NotRegistered => "Please register this device first.".to_string(),
            BirdError::SavePathNotFound(_) => {
                "The save folder for this game was not found.".to_string()
            },
            BirdError::GameNotFound(id) => concat("Unknown game: ", id.as_str()),
            _ => self.message(),
        }
    }

    /// Stable error code for the frontend to branch on.
    pub fn code(&self) -> (c: &'static str)
        ensures
            c@ == bird_code_of(*self),
    {
        match self {
            BirdError::Validation(_) => "validation_error",
            BirdError::Network(_) => "network_error",
            BirdError::Api(_) => "api_error",
            BirdError::Serde(_) => "serde_error",
            BirdError::Io(_) => "io_error",
            BirdError::Config(_) => "config_error",
            BirdError::SecureStorage(_) => "secure_storage_error",
            BirdError::Nest { .. } => "nest_error",
            BirdError::NotAuthenticated => "not_authenticated",
            BirdError::NotRegistered => "not_registered",
            BirdError::GameNotFound(_) => "game_not_found",
            BirdError::SavePathNotFound(_) => "save_path_not_found",
            BirdError::Sync(_) => "sync_error",
            BirdError::Archive(_) => "archive_error",
            BirdError::Internal(_) => "internal_error",
        }
    }
}

} // verus!
