//! Core domain models (aggregates) shared by the Nest server and the Bird client.
//!
//! Glossary:
//! - **Flock** — a user account.
//! - **Bird** — a registered client device.
//! - **Egg** — a single zipped save-file snapshot.
//! - **Clutch** — the rolling collection of Eggs for one game.
//!
//! Identifiers are UUIDs held as their 128-bit value; timestamps are Unix
//! seconds.
use vstd::prelude::*;

use crate::text::{ascii_lower, concat, str_eq, to_ascii_lower};

verus! {

broadcast use vstd::string::group_string_axioms;

/// Default number of Eggs retained per Clutch before the oldest are pruned
/// (the "Brood Limit").
pub const DEFAULT_BROOD_LIMIT: i64 = 10;

/// The operating system / device class a Bird runs on.
#[derive(Debug, Clone, Copy, PartialEq, Eq, Hash, Structural)]
pub enum Platform {
    Windows,
    Linux,
    MacOs,
    Other,
}

/// Stable persisted spelling of a platform.
pub open spec fn platform_text(p: Platform) -> Seq<char> {
    match p {
        Platform::Windows => "windows"@,
        Platform::Linux => "linux"@,
        Platform::MacOs => "macos"@,
        Platform::Other => "other"@,
    }
}

/// Lenient reading of a platform name: case-insensitive, with the aliases
/// `steamos`, `mac` and `osx`; anything unknown reads as `Other`.
pub open spec fn platform_from_text(s: Seq<char>) -> Platform {
    let l = ascii_lower(s);
    if l == "windows"@ {
        Platform::Windows
    } else if l == "linux"@ || l == "steamos"@ {
        Platform::Linux
    } else if l == "macos"@ || l == "mac"@ || l == "osx"@ {
        Platform::MacOs
    } else {
        Platform::Other
    }
}

impl Platform {
    /// Stable string representation used for persistence.
    pub fn as_str(&self) -> (s: &'static str)
        ensures
            s@ == platform_text(*self),
    {
        match self {
            Platform::Windows => "windows",
            Platform::Linux => "linux",
            Platform::MacOs => "macos",
            Platform::Other => "other",
        }
    }

    /// Reads a platform name leniently (the parse used for stored rows).
    pub fn from_name(s: &str) -> (p: Platform)
        ensures
            p == platform_from_text(s@),
    {
        proof {
            reveal_strlit("windows");
            reveal_strlit("linux");
            reveal_strlit("steamos");
            reveal_strlit("macos");
            reveal_strlit("mac");
            reveal_strlit("osx");
        }
        let l = to_ascii_lower(s);
        let l = l.as_str();
        if str_eq(l, "windows") {
            Platform::Windows
        } else if str_eq(l, "linux") || str_eq(l, "steamos") {
            Platform::Linux
        } else if str_eq(l, "macos") || str_eq(l, "mac") || str_eq(l, "osx") {
            Platform::MacOs
        } else {
            Platform::Other
        }
    }
}

impl std::str::FromStr for Platform {
    type Err = ();

    fn from_str(s: &str) -> (r: Result<Self, Self::Err>)
        ensures
            r == Ok::<Platform, ()>(platform_from_text(s@)),
    {
        Ok(Platform::from_name(s))
    }
}

/// Reading back the persisted spelling of a platform gives the platform.
pub proof fn lemma_platform_text_roundtrip(p: Platform)
    ensures
        platform_from_text(platform_text(p)) == p,
{
    reveal_strlit("windows");
    reveal_strlit("linux");
    reveal_strlit("steamos");
    reveal_strlit("macos");
    reveal_strlit("mac");
    reveal_strlit("osx");
    reveal_strlit("other");
    let t = platform_text(p);
    assert(ascii_lower(t) =~= t);
    assert("windows"@.len() == 7 && "linux"@.len() == 5 && "steamos"@.len() == 7);
    assert("macos"@.len() == 5 && "mac"@.len() == 3 && "osx"@.len() == 3);
    assert("other"@.len() == 5);
    match p {
        Platform::Windows => {},
        Platform::Linux => {
            assert("linux"@[0] != "windows"@[0]);
        },
        Platform::MacOs => {
            assert("macos"@[0] != "windows"@[0]);
            assert("macos"@[0] != "linux"@[0]);
            assert("macos"@[0] != "steamos"@[0]);
        },
        Platform::Other => {
            assert("other"@[0] != "windows"@[0]);
            assert("other"@[0] != "linux"@[0]);
            assert("other"@[0] != "steamos"@[0]);
            assert("other"@[0] != "macos"@[0]);
        },
    }
}

/// Sync status of a Clutch, mirroring the "Cozy UI" indicators.
#[derive(Debug, Clone, Copy, PartialEq, Eq, Structural)]
pub enum SyncStatus {
    /// Synced with the Nest.
    SafeInNest,
    /// A sync is in progress.
    Flying,
    /// A save conflict was detected.
    ChillyEgg,
}

/// Stable persisted spelling of a sync status.
pub open spec fn sync_status_text(s: SyncStatus) -> Seq<char> {
    match s {
        SyncStatus::SafeInNest => "safe_in_nest"@,
        SyncStatus::Flying => "flying"@,
        SyncStatus::ChillyEgg => "chilly_egg"@,
    }
}

/// Strict reading of a persisted sync status.
pub open spec fn sync_status_from_text(s: Seq<char>) -> Option<SyncStatus> {
    if s == "safe_in_nest"@ {
        Some(SyncStatus::SafeInNest)
    } else if s == "flying"@ {
        Some(SyncStatus::Flying)
    } else if s == "chilly_egg"@ {
        Some(SyncStatus::ChillyEgg)
    } else {
        None
    }
}

impl SyncStatus {
    pub fn as_str(&self) -> (s: &'static str)
        ensures
            s@ == sync_status_text(*self),
    {
        match self {
            SyncStatus::SafeInNest => "safe_in_nest",
            SyncStatus::Flying => "flying",
            SyncStatus::ChillyEgg => "chilly_egg",
        }
    }

    /// Reads a persisted status; unknown text is an error naming it.
    pub fn from_name(s: &str) -> (r: Result<SyncStatus, String>)
        ensures
            r matches Ok(v) ==> sync_status_from_text(s@) == Some(v),
            r matches Err(m) ==> sync_status_from_text(s@) is None && m@
                == "unknown sync status: "@ + s@,
    {
        if str_eq(s, "safe_in_nest") {
            Ok(SyncStatus::SafeInNest)
        } else if str_eq(s, "flying") {
            Ok(SyncStatus::Flying)
        } else if str_eq(s, "chilly_egg") {
            Ok(SyncStatus::ChillyEgg)
        } else {
            Err(concat("unknown sync status: ", s))
        }
    }
}

impl std::str::FromStr for SyncStatus {
    type Err = String;

    fn from_str(s: &str) -> (r: Result<Self, Self::Err>)
        ensures
            r matches Ok(v) ==> sync_status_from_text(s@) == Some(v),
            r matches Err(m) ==> sync_status_from_text(s@) is None && m@
                == "unknown sync status: "@ + s@,
    {
        SyncStatus::from_name(s)
    }
}

/// Reading back the persisted spelling of a status gives the status.
pub proof fn lemma_sync_status_text_roundtrip(s: SyncStatus)
    ensures
        sync_status_from_text(sync_status_text(s)) == Some(s),
{
    reveal_strlit("safe_in_nest");
    reveal_strlit("flying");
    reveal_strlit("chilly_egg");
    assert("safe_in_nest"@.len() == 12 && "flying"@.len() == 6 && "chilly_egg"@.len() == 10);
}

/// A user account.
#[derive(Debug)]
pub struct Flock {
    pub id: u128,
    pub username: String,
    pub created_at: i64,
}

/// A registered client device belonging to a Flock.
#[derive(Debug)]
pub struct Bird {
    pub id: u128,
    pub flock_id: u128,
    pub name: String,
    pub platform: Platform,
    pub last_seen: Option<i64>,
    pub created_at: i64,
}

/// The rolling collection of Eggs tracked for a single game.
#[derive(Debug)]
pub struct Clutch {
    pub id: u128,
    pub flock_id: u128,
    pub game_id: String,
    pub brood_limit: i64,
    pub created_at: i64,
}

/// A single zipped save-file snapshot within a Clutch.
#[derive(Debug)]
pub struct Egg {
    pub id: u128,
    pub clutch_id: u128,
    pub source_bird_id: Option<u128>,
    pub file_hash: String,
    pub size_bytes: i64,
    pub file_path: String,
    pub created_at: i64,
}

impl Clone for Flock {
    fn clone(&self) -> (r: Self)
        ensures
            r == *self,
    {
        Flock { id: self.id, username: self.username.clone(), created_at: self.created_at }
    }
}

impl Clone for Bird {
    fn clone(&self) -> (r: Self)
        ensures
            r == *self,
    {
        Bird {
            id: self.id,
            flock_id: self.flock_id,
            name: self.name.clone(),
            platform: self.platform,
            last_seen: self.last_seen,
            created_at: self.created_at,
        }
    }
}

impl Clone for Clutch {
    fn clone(&self) -> (r: Self)
        ensures
            r == *self,
    {
        Clutch {
            id: self.id,
            flock_id: self.flock_id,
            game_id: self.game_id.clone(),
            brood_limit: self.brood_limit,
            created_at: self.created_at,
        }
    }
}

impl Clone for Egg {
    fn clone(&self) -> (r: Self)
        ensures
            r == *self,
    {
        Egg {
            id: self.id,
            clutch_id: self.clutch_id,
            source_bird_id: self.source_bird_id,
            file_hash: self.file_hash.clone(),
            size_bytes: self.size_bytes,
            file_path: self.file_path.clone(),
            created_at: self.created_at,
        }
    }
}

} // verus!
