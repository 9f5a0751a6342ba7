//! Request/response shapes shared by the Nest server and the Bird client.
use vstd::prelude::*;

use crate::domain::{Bird, Clutch, Egg, Flock, Platform, SyncStatus};

verus! {

/// `POST /api/flock/register`
#[derive(Debug)]
pub struct RegisterFlockRequest {
    pub username: String,
    pub password: String,
}

/// `POST /api/flock/login`
#[derive(Debug)]
pub struct LoginRequest {
    pub username: String,
    pub password: String,
}

/// Response returned by both register and login.
#[derive(Debug)]
pub struct AuthResponse {
    pub token: String,
    pub flock: Flock,
}

/// `POST /api/birds`
#[derive(Debug)]
pub struct RegisterBirdRequest {
    pub name: String,
    pub platform: String,
}

/// Response returned when registering a Bird.
#[derive(Debug)]
pub struct RegisterBirdResponse {
    pub bird: Bird,
    pub token: String,
}

/// `GET /api/clutches` item.
#[derive(Debug)]
pub struct ClutchSummary {
    pub clutch: Clutch,
    pub status: SyncStatus,
    pub egg_count: i64,
    pub latest_egg: Option<Egg>,
}

/// `POST /api/clutches/{game_id}/compare`
#[derive(Debug)]
pub struct CompareRequest {
    pub local_hash: String,
    pub local_modified_at: i64,
    pub bird_id: Option<u128>,
}

/// Result of comparing the Bird's local save to the Nest's latest Egg.
#[derive(Debug, Clone, Copy, PartialEq, Eq, Structural)]
pub enum CompareOutcome {
    /// Local save matches the latest Egg in the Nest.
    Identical,
    /// The Nest has a newer Egg; the Bird should pull it.
    Pull,
    /// The Bird's local save is newer; it should push after the play session.
    Push,
    /// Both sides have diverged since the last common ancestor.
    Conflict,
    /// This Clutch has no Eggs yet.
    NoEggs,
}

/// `POST /api/clutches/{game_id}/compare` response.
#[derive(Debug)]
pub struct CompareResponse {
    pub outcome: CompareOutcome,
    pub status: SyncStatus,
    pub clutch_id: u128,
    pub latest_egg: Option<Egg>,
    pub last_synced_egg: Option<Egg>,
}

/// Resolution chosen for a Chilly Egg conflict.
#[derive(Debug, Clone, Copy, PartialEq, Eq, Structural)]
pub enum Resolution {
    /// Keep the Nest's Egg.
    Nest,
    /// Keep the Bird's local save.
    Local,
}

/// `POST /api/clutches/{game_id}/resolve`
#[derive(Debug)]
pub struct ResolveRequest {
    pub resolution: Resolution,
    /// Required when `resolution` is `Local`.
    pub local_hash: Option<String>,
    /// Required when `resolution` is `Local`.
    pub local_modified_at: Option<i64>,
    /// Optional specific Egg to keep when `resolution` is `Nest` (defaults to latest).
    pub egg_id: Option<u128>,
    pub bird_id: Option<u128>,
}

/// `POST /api/clutches/{game_id}/resolve` response.
#[derive(Debug)]
pub struct ResolveResponse {
    pub status: SyncStatus,
    pub baseline_egg: Option<Egg>,
}

/// A game discovered by the Bird's foraging engine.
#[derive(Debug)]
pub struct DiscoveredGame {
    pub game_id: String,
    pub title: String,
    pub save_path: Option<String>,
    pub exists: bool,
    pub local_hash: Option<String>,
    /// Unix timestamp of the newest file in the save directory.
    pub local_modified_at: Option<i64>,
    pub status: SyncStatus,
}

/// Save-path templates known for one platform.
#[derive(Debug)]
pub struct PlatformPaths {
    pub platform: Platform,
    pub templates: Vec<String>,
}

/// Platform-agnostic description of a known/verified game entry: for each
/// platform, the relative path templates evaluated against the user's
/// home/profile directories.
#[derive(Debug)]
pub struct GameEntry {
    pub game_id: String,
    pub title: String,
    pub save_paths: Vec<PlatformPaths>,
}

} // verus!
