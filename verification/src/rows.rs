//! Stored rows and the domain values they hold.
//!
//! The database keeps identifiers as UUID text and timestamps as Unix
//! seconds. Reading a row back checks both; a value that does not read is an
//! internal error naming it.
use vstd::prelude::*;

use crate::clock::{check_unix_timestamp, timestamp_error_text, MAX_TIMESTAMP, MIN_TIMESTAMP};
use crate::coordination::SyncState;
use crate::domain::{platform_from_text, sync_status_text, Bird, Clutch, Egg, Flock, Platform, SyncStatus};
use crate::error::AppError;
use crate::ids::{parse_uuid_text, uuid_error_text, uuid_parse};
use crate::text::{concat, i64_text, int_text};

verus! {

broadcast use vstd::string::group_string_axioms;

/// Raw row of the `flocks` table.
#[derive(Debug)]
pub struct FlockRow {
    pub id: String,
    pub username: String,
    pub password_hash: String,
    pub created_at: i64,
}

/// Raw row of the `birds` table.
#[derive(Debug)]
pub struct BirdRow {
    pub id: String,
    pub flock_id: String,
    pub name: String,
    pub platform: String,
    pub last_seen: Option<i64>,
    pub created_at: i64,
}

/// Raw row of the `clutches` table.
#[derive(Debug)]
pub struct ClutchRow {
    pub id: String,
    pub flock_id: String,
    pub game_id: String,
    pub brood_limit: i64,
    pub created_at: i64,
}

/// Raw row of the `eggs` table.
#[derive(Debug)]
pub struct EggRow {
    pub id: String,
    pub clutch_id: String,
    pub source_bird_id: Option<String>,
    pub file_hash: String,
    pub size_bytes: i64,
    pub file_path: String,
    pub created_at: i64,
}

/// Raw row of the `bird_clutch_sync` table.
#[derive(Debug)]
pub struct SyncRow {
    pub bird_id: String,
    pub clutch_id: String,
    pub last_egg_id: Option<String>,
    pub last_synced_hash: Option<String>,
    pub last_synced_at: Option<i64>,
    pub status: String,
    pub created_at: i64,
    pub updated_at: i64,
}

/// The message for a stored UUID that does not read.
pub open spec fn uuid_failure(s: Seq<char>) -> Seq<char> {
    "invalid stored uuid "@ + s + ": "@ + uuid_error_text(s)
}

/// The message for a stored timestamp that does not read.
pub open spec fn time_failure(secs: i64) -> Seq<char> {
    "invalid stored timestamp "@ + int_text(secs as int) + ": "@ + timestamp_error_text(secs)
}

/// Whether a timestamp is inside the range every build of the time crate
/// reads.
pub open spec fn in_time_range(secs: i64) -> bool {
    MIN_TIMESTAMP <= secs <= MAX_TIMESTAMP
}

/// Whether an optional stored UUID reads.
pub open spec fn opt_uuid_reads(s: Option<String>) -> bool {
    match s {
        Some(t) => uuid_parse(t@) is Some,
        None => true,
    }
}

/// The value of an optional stored UUID that reads.
pub open spec fn opt_uuid_value(s: Option<String>) -> Option<u128> {
    match s {
        Some(t) => uuid_parse(t@),
        None => None,
    }
}

/// Whether an optional timestamp is in range.
pub open spec fn opt_in_time_range(t: Option<i64>) -> bool {
    match t {
        Some(x) => in_time_range(x),
        None => true,
    }
}

/// A UUID read from its stored text.
pub fn stored_uuid(s: &str) -> (r: Result<u128, AppError>)
    ensures
        match uuid_parse(s@) {
            Some(id) => r == Ok::<u128, AppError>(id),
            None => r matches Err(AppError::Internal(m)) && m@ == uuid_failure(s@),
        },
{
    match parse_uuid_text(s) {
        Ok(id) => Ok(id),
        Err(e) => {
            let mut m = concat("invalid stored uuid ", s);
            m.append(": ");
            m.append(e.as_str());
            Err(AppError::Internal(m))
        },
    }
}

fn stored_opt_uuid(s: &Option<String>) -> (r: Result<Option<u128>, AppError>)
    ensures
        opt_uuid_reads(*s) ==> r == Ok::<Option<u128>, AppError>(opt_uuid_value(*s)),
        !opt_uuid_reads(*s) ==> (r matches Err(AppError::Internal(m)) && m@ == uuid_failure(
            s.unwrap()@,
        )),
{
    match s {
        Some(t) => match stored_uuid(t.as_str()) {
            Ok(id) => Ok(Some(id)),
            Err(e) => Err(e),
        },
        None => Ok(None),
    }
}

/// A timestamp read from its stored seconds.
pub fn stored_time(secs: i64) -> (r: Result<i64, AppError>)
    ensures
        r matches Ok(v) ==> v == secs,
        in_time_range(secs) ==> r is Ok,
        r matches Err(e) ==> e matches AppError::Internal(m) && m@ == time_failure(secs),
{
    match check_unix_timestamp(secs) {
        Ok(()) => Ok(secs),
        Err(e) => {
            let mut m = concat("invalid stored timestamp ", i64_text(secs).as_str());
            m.append(": ");
            m.append(e.as_str());
            Err(AppError::Internal(m))
        },
    }
}

fn stored_opt_time(t: Option<i64>) -> (r: Result<Option<i64>, AppError>)
    ensures
        r matches Ok(v) ==> v == t,
        opt_in_time_range(t) ==> r is Ok,
        r matches Err(e) ==> t is Some,
        r matches Err(e) ==> (e matches AppError::Internal(m) && m@ == time_failure(t.unwrap())),
{
    match t {
        Some(x) => match stored_time(x) {
            Ok(v) => Ok(Some(v)),
            Err(e) => Err(e),
        },
        None => Ok(None),
    }
}

/// A Flock from its row. The password hash stays out of the Flock.
pub fn flock_from_row(row: FlockRow) -> (r: Result<Flock, AppError>)
    ensures
        uuid_parse(row.id@) is None ==> (r matches Err(AppError::Internal(m)) && m@ == uuid_failure(
            row.id@,
        )),
        uuid_parse(row.id@) is Some && in_time_range(row.created_at) ==> r is Ok,
        r matches Ok(f) ==> Some(f.id) == uuid_parse(row.id@) && f.username == row.username
            && f.created_at == row.created_at,
        r matches Err(e) ==> e matches AppError::Internal(m) && (m@ == uuid_failure(row.id@)
            || m@ == time_failure(row.created_at)),
{
    let id = match stored_uuid(row.id.as_str()) {
        Ok(v) => v,
        Err(e) => {
            return Err(e);
        },
    };
    let created_at = match stored_time(row.created_at) {
        Ok(v) => v,
        Err(e) => {
            return Err(e);
        },
    };
    Ok(Flock { id, username: row.username, created_at })
}

/// A Bird from its row; an unknown platform reads as `Other`.
pub fn bird_from_row(row: BirdRow) -> (r: Result<Bird, AppError>)
    ensures
        uuid_parse(row.id@) is None ==> (r matches Err(AppError::Internal(m)) && m@ == uuid_failure(
            row.id@,
        )),
        uuid_parse(row.id@) is Some && uuid_parse(row.flock_id@) is None ==> (r matches Err(
            AppError::Internal(m),
        ) && m@ == uuid_failure(row.flock_id@)),
        uuid_parse(row.id@) is Some && uuid_parse(row.flock_id@) is Some && opt_in_time_range(
            row.last_seen,
        ) && in_time_range(row.created_at) ==> r is Ok,
        r matches Ok(b) ==> Some(b.id) == uuid_parse(row.id@) && Some(b.flock_id) == uuid_parse(
            row.flock_id@,
        ) && b.name == row.name && b.platform == platform_from_text(row.platform@) && b.last_seen
            == row.last_seen && b.created_at == row.created_at,
        r matches Err(e) ==> e is Internal,
{
    let id = match stored_uuid(row.id.as_str()) {
        Ok(v) => v,
        Err(e) => {
            return Err(e);
        },
    };
    let flock_id = match stored_uuid(row.flock_id.as_str()) {
        Ok(v) => v,
        Err(e) => {
            return Err(e);
        },
    };
    let platform = Platform::from_name(row.platform.as_str());
    let last_seen = match stored_opt_time(row.last_seen) {
        Ok(v) => v,
        Err(e) => {
            return Err(e);
        },
    };
    let created_at = match stored_time(row.created_at) {
        Ok(v) => v,
        Err(e) => {
            return Err(e);
        },
    };
    Ok(Bird { id, flock_id, name: row.name, platform, last_seen, created_at })
}

/// A Clutch from its row.
pub fn clutch_from_row(row: ClutchRow) -> (r: Result<Clutch, AppError>)
    ensures
        uuid_parse(row.id@) is None ==> (r matches Err(AppError::Internal(m)) && m@ == uuid_failure(
            row.id@,
        )),
        uuid_parse(row.id@) is Some && uuid_parse(row.flock_id@) is None ==> (r matches Err(
            AppError::Internal(m),
        ) && m@ == uuid_failure(row.flock_id@)),
        uuid_parse(row.id@) is Some && uuid_parse(row.flock_id@) is Some && in_time_range(
            row.created_at,
        ) ==> r is Ok,
        r matches Ok(c) ==> Some(c.id) == uuid_parse(row.id@) && Some(c.flock_id) == uuid_parse(
            row.flock_id@,
        ) && c.game_id == row.game_id && c.brood_limit == row.brood_limit && c.created_at
            == row.created_at,
        r matches Err(e) ==> e is Internal,
{
    let id = match stored_uuid(row.id.as_str()) {
        Ok(v) => v,
        Err(e) => {
            return Err(e);
        },
    };
    let flock_id = match stored_uuid(row.flock_id.as_str()) {
        Ok(v) => v,
        Err(e) => {
            return Err(e);
        },
    };
    let created_at = match stored_time(row.created_at) {
        Ok(v) => v,
        Err(e) => {
            return Err(e);
        },
    };
    Ok(Clutch { id, flock_id, game_id: row.game_id, brood_limit: row.brood_limit, created_at })
}

/// An Egg from its row. The source Bird is read first, then the ids.
pub fn egg_from_row(row: EggRow) -> (r: Result<Egg, AppError>)
    ensures
        !opt_uuid_reads(row.source_bird_id) ==> (r matches Err(AppError::Internal(m)) && m@
            == uuid_failure(row.source_bird_id.unwrap()@)),
        opt_uuid_reads(row.source_bird_id) && uuid_parse(row.id@) is None ==> (r matches Err(
            AppError::Internal(m),
        ) && m@ == uuid_failure(row.id@)),
        opt_uuid_reads(row.source_bird_id) && uuid_parse(row.id@) is Some && uuid_parse(
            row.clutch_id@,
        ) is None ==> (r matches Err(AppError::Internal(m)) && m@ == uuid_failure(row.clutch_id@)),
        opt_uuid_reads(row.source_bird_id) && uuid_parse(row.id@) is Some && uuid_parse(
            row.clutch_id@,
        ) is Some && in_time_range(row.created_at) ==> r is Ok,
        r matches Ok(g) ==> Some(g.id) == uuid_parse(row.id@) && Some(g.clutch_id) == uuid_parse(
            row.clutch_id@,
        ) && g.source_bird_id == opt_uuid_value(row.source_bird_id) && g.file_hash
            == row.file_hash && g.size_bytes == row.size_bytes && g.file_path == row.file_path
            && g.created_at == row.created_at,
        r matches Err(e) ==> e is Internal,
{
    let source_bird_id = match stored_opt_uuid(&row.source_bird_id) {
        Ok(v) => v,
        Err(e) => {
            return Err(e);
        },
    };
    let id = match stored_uuid(row.id.as_str()) {
        Ok(v) => v,
        Err(e) => {
            return Err(e);
        },
    };
    let clutch_id = match stored_uuid(row.clutch_id.as_str()) {
        Ok(v) => v,
        Err(e) => {
            return Err(e);
        },
    };
    let created_at = match stored_time(row.created_at) {
        Ok(v) => v,
        Err(e) => {
            return Err(e);
        },
    };
    Ok(
        Egg {
            id,
            clutch_id,
            source_bird_id,
            file_hash: row.file_hash,
            size_bytes: row.size_bytes,
            file_path: row.file_path,
            created_at,
        },
    )
}

/// Whether a stored status text names a status.
pub open spec fn status_reads(t: Seq<char>) -> bool {
    t == sync_status_text(SyncStatus::SafeInNest) || t == sync_status_text(SyncStatus::Flying) || t
        == sync_status_text(SyncStatus::ChillyEgg)
}

/// A sync record from its row; a status text that names no status is an
/// internal error.
pub fn sync_state_from_row(row: SyncRow) -> (r: Result<SyncState, AppError>)
    ensures
        uuid_parse(row.bird_id@) is Some && uuid_parse(row.clutch_id@) is Some && opt_uuid_reads(
            row.last_egg_id,
        ) && opt_in_time_range(row.last_synced_at) && status_reads(row.status@) && in_time_range(
            row.created_at,
        ) && in_time_range(row.updated_at) ==> r is Ok,
        uuid_parse(row.bird_id@) is None ==> (r matches Err(AppError::Internal(m)) && m@
            == uuid_failure(row.bird_id@)),
        r matches Ok(s) ==> Some(s.bird_id) == uuid_parse(row.bird_id@) && Some(s.clutch_id)
            == uuid_parse(row.clutch_id@) && s.last_egg_id == opt_uuid_value(row.last_egg_id)
            && s.last_synced_hash == row.last_synced_hash && s.last_synced_at == row.last_synced_at
            && sync_status_text(s.status) == row.status@ && s.created_at == row.created_at
            && s.updated_at == row.updated_at,
        uuid_parse(row.bird_id@) is Some && uuid_parse(row.clutch_id@) is Some && opt_uuid_reads(
            row.last_egg_id,
        ) && opt_in_time_range(row.last_synced_at) && !status_reads(row.status@) ==> (r matches Err(
            AppError::Internal(m),
        ) && m@ == "invalid stored sync status: "@ + ("unknown sync status: "@
            + row.status@)),
        r matches Err(e) ==> e is Internal,
{
    let bird_id = match stored_uuid(row.bird_id.as_str()) {
        Ok(v) => v,
        Err(e) => {
            return Err(e);
        },
    };
    let clutch_id = match stored_uuid(row.clutch_id.as_str()) {
        Ok(v) => v,
        Err(e) => {
            return Err(e);
        },
    };
    let last_egg_id = match stored_opt_uuid(&row.last_egg_id) {
        Ok(v) => v,
        Err(e) => {
            return Err(e);
        },
    };
    let last_synced_at = match stored_opt_time(row.last_synced_at) {
        Ok(v) => v,
        Err(e) => {
            return Err(e);
        },
    };
    let status = match SyncStatus::from_name(row.status.as_str()) {
        Ok(s) => s,
        Err(e) => {
            return Err(AppError::Internal(concat("invalid stored sync status: ", e.as_str())));
        },
    };
    let created_at = match stored_time(row.created_at) {
        Ok(v) => v,
        Err(e) => {
            return Err(e);
        },
    };
    let updated_at = match stored_time(row.updated_at) {
        Ok(v) => v,
        Err(e) => {
            return Err(e);
        },
    };
    Ok(
        SyncState {
            bird_id,
            clutch_id,
            last_egg_id,
            last_synced_hash: row.last_synced_hash,
            last_synced_at,
            status,
            created_at,
            updated_at,
        },
    )
}

} // verus!
