//! Verified core of the Nest save-backup system: the server's sync
//! coordination, token and archive rules, and the Bird client's decisions.

pub mod domain;
pub mod text;
pub mod ids;
pub mod digest;
pub mod error;
pub mod archive;
pub mod api;
pub mod clock;
pub mod coordination;
pub mod auth;
pub mod rate_limit;
pub mod client_error;
pub mod flight;
pub mod process;
pub mod agent;
pub mod forage;
pub mod server_config;
pub mod accounts;
pub mod client_config;
pub mod nest_client;
pub mod rows;
