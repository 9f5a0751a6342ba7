//! Server-side sync coordination ("The Flight Home"): comparing a Bird's local
//! save with the Nest's latest Egg, deciding what the per-Bird baseline
//! becomes, resolving Chilly Egg conflicts, and summarising Clutch status.
use vstd::prelude::*;

use crate::api::{CompareOutcome, CompareRequest, CompareResponse, ResolveRequest, ResolveResponse,
    Resolution};
use crate::clock::{check_unix_timestamp, timestamp_error_text, MAX_TIMESTAMP, MIN_TIMESTAMP};
use crate::domain::{sync_status_text, Egg, SyncStatus};
use crate::error::AppError;
use crate::text::{concat, str_eq};

verus! {

broadcast use vstd::string::group_string_axioms;

/// The persisted sync baseline for a single `(Bird, Clutch)` pair: the last
/// state known to be common to both sides.
#[derive(Debug)]
pub struct SyncState {
    pub bird_id: u128,
    pub clutch_id: u128,
    /// The last Egg known to be identical on both sides, if any.
    pub last_egg_id: Option<u128>,
    /// Hash of the last known common state.
    pub last_synced_hash: Option<String>,
    /// Timestamp of the last known common state.
    pub last_synced_at: Option<i64>,
    /// Current sync status for this Bird/Clutch pair.
    pub status: SyncStatus,
    pub created_at: i64,
    pub updated_at: i64,
}

/// The status that goes with each comparison outcome.
pub open spec fn outcome_status(o: CompareOutcome) -> SyncStatus {
    match o {
        CompareOutcome::Identical | CompareOutcome::NoEggs => SyncStatus::SafeInNest,
        CompareOutcome::Pull | CompareOutcome::Push => SyncStatus::Flying,
        CompareOutcome::Conflict => SyncStatus::ChillyEgg,
    }
}

/// How a local save relates to the Nest's latest Egg.
///
/// Equal hashes are identical. With a recorded baseline, each side has
/// changed when its hash differs from the baseline's: both changed is a
/// conflict, only the Nest changed is a pull, only the Bird changed is a push.
/// Without a baseline the newer timestamp wins, and equal timestamps with
/// different contents are a conflict.
pub open spec fn classify_spec(
    local_hash: Seq<char>,
    local_modified_at: int,
    latest_hash: Seq<char>,
    latest_created_at: int,
    baseline_hash: Option<Seq<char>>,
) -> CompareOutcome {
    if local_hash == latest_hash {
        CompareOutcome::Identical
    } else {
        match baseline_hash {
            Some(base) => {
                let remote_changed = latest_hash != base;
                let local_changed = local_hash != base;
                if remote_changed && local_changed {
                    CompareOutcome::Conflict
                } else if remote_changed {
                    CompareOutcome::Pull
                } else if local_changed {
                    CompareOutcome::Push
                } else {
                    CompareOutcome::Identical
                }
            },
            None => {
                if local_modified_at > latest_created_at {
                    CompareOutcome::Push
                } else if local_modified_at < latest_created_at {
                    CompareOutcome::Pull
                } else {
                    CompareOutcome::Conflict
                }
            },
        }
    }
}

/// The status of a compare follows what the Bird has to do: it is safe in
/// the Nest exactly when the local save is the Nest's latest Egg; a Bird
/// that must pull the Nest's Egg or push its own save is flying; a conflict
/// is a chilly egg. No Bird whose save differs from the Nest's latest Egg is
/// ever reported safe. When only the Nest moved on from the baseline (or,
/// with no baseline, the Egg is newer) the Bird pulls; when only the Bird
/// did (or its save is newer) it pushes; equal times without a baseline are
/// a conflict.
pub proof fn lemma_status_tracks_outcome(
    local_hash: Seq<char>,
    local_modified_at: int,
    latest_hash: Seq<char>,
    latest_created_at: int,
    baseline: Option<Seq<char>>,
)
    ensures
        ({
            let o = classify_spec(local_hash, local_modified_at, latest_hash, latest_created_at, baseline);
            &&& (outcome_status(o) == SyncStatus::SafeInNest <==> local_hash == latest_hash)
            &&& (o == CompareOutcome::Pull ==> outcome_status(o) == SyncStatus::Flying)
            &&& (o == CompareOutcome::Push ==> outcome_status(o) == SyncStatus::Flying)
            &&& (o == CompareOutcome::Conflict ==> outcome_status(o) == SyncStatus::ChillyEgg)
            &&& (local_hash != latest_hash && baseline == Some(local_hash) ==> o == CompareOutcome::Pull)
            &&& (local_hash != latest_hash && baseline is None && local_modified_at < latest_created_at
                ==> o == CompareOutcome::Pull)
            &&& (local_hash != latest_hash && baseline == Some(latest_hash) ==> o == CompareOutcome::Push)
            &&& (local_hash != latest_hash && baseline is None && local_modified_at > latest_created_at
                ==> o == CompareOutcome::Push)
            &&& (local_hash != latest_hash && baseline is None && local_modified_at == latest_created_at
                ==> o == CompareOutcome::Conflict)
            &&& (local_hash == latest_hash ==> o == CompareOutcome::Identical)
        }),
        outcome_status(CompareOutcome::NoEggs) == SyncStatus::SafeInNest,
{
}

/// The baseline hash recorded in an optional sync state.
pub open spec fn baseline_hash_of(sync: Option<&SyncState>) -> Option<Seq<char>> {
    match sync {
        Some(s) => match s.last_synced_hash {
            Some(h) => Some(h@),
            None => None,
        },
        None => None,
    }
}

/// Classifies a Bird's local save against the Nest's latest Egg.
pub fn classify(req: &CompareRequest, latest: &Egg, sync: Option<&SyncState>) -> (r: (
    CompareOutcome,
    SyncStatus,
))
    ensures
        r.0 == classify_spec(
            req.local_hash@,
            req.local_modified_at as int,
            latest.file_hash@,
            latest.created_at as int,
            baseline_hash_of(sync),
        ),
        r.1 == outcome_status(r.0),
        r.1 == SyncStatus::SafeInNest <==> req.local_hash@ == latest.file_hash@,
        r.0 == CompareOutcome::Pull || r.0 == CompareOutcome::Push ==> r.1 == SyncStatus::Flying,
        r.0 == CompareOutcome::Conflict ==> r.1 == SyncStatus::ChillyEgg,
{
    proof {
        lemma_status_tracks_outcome(
            req.local_hash@,
            req.local_modified_at as int,
            latest.file_hash@,
            latest.created_at as int,
            baseline_hash_of(sync),
        );
    }
    if str_eq(req.local_hash.as_str(), latest.file_hash.as_str()) {
        return (CompareOutcome::Identical, SyncStatus::SafeInNest);
    }
    let base: Option<&String> = match sync {
        Some(s) => match &s.last_synced_hash {
            Some(h) => Some(h),
            None => None,
        },
        None => None,
    };
    match base {
        Some(b) => {
            let remote_changed = !str_eq(latest.file_hash.as_str(), b.as_str());
            let local_changed = !str_eq(req.local_hash.as_str(), b.as_str());
            if remote_changed && local_changed {
                (CompareOutcome::Conflict, SyncStatus::ChillyEgg)
            } else if remote_changed {
                (CompareOutcome::Pull, SyncStatus::Flying)
            } else if local_changed {
                (CompareOutcome::Push, SyncStatus::Flying)
            } else {
                (CompareOutcome::Identical, SyncStatus::SafeInNest)
            }
        },
        None => {
            if req.local_modified_at > latest.created_at {
                (CompareOutcome::Push, SyncStatus::Flying)
            } else if req.local_modified_at < latest.created_at {
                (CompareOutcome::Pull, SyncStatus::Flying)
            } else {
                (CompareOutcome::Conflict, SyncStatus::ChillyEgg)
            }
        },
    }
}

/// What a comparison writes to the `(Bird, Clutch)` sync record.
#[derive(Debug)]
pub enum BaselineWrite {
    /// The baseline becomes the latest Egg, and the pair is safe.
    SyncToLatest,
    /// Only the status changes; the baseline stays what it was.
    Status(SyncStatus),
}

/// The status a write leaves in the sync record.
pub open spec fn written_status(w: BaselineWrite) -> SyncStatus {
    match w {
        BaselineWrite::SyncToLatest => SyncStatus::SafeInNest,
        BaselineWrite::Status(s) => s,
    }
}

/// The baseline hash a write leaves behind, given the one before it and the
/// latest Egg's hash.
pub open spec fn baseline_after(
    before: Option<Seq<char>>,
    w: BaselineWrite,
    latest_hash: Seq<char>,
) -> Option<Seq<char>> {
    match w {
        BaselineWrite::SyncToLatest => Some(latest_hash),
        BaselineWrite::Status(_) => before,
    }
}

/// The decision of a pre-launch comparison: what to report and what to store.
#[derive(Debug)]
pub struct ComparePlan {
    pub outcome: CompareOutcome,
    pub status: SyncStatus,
    pub write: BaselineWrite,
}

/// Decides a comparison against the latest Egg, given the pair's stored sync
/// state. The baseline only ever becomes a state known to be common to both
/// sides: the latest Egg when the local save matches it. Every other outcome
/// records the status alone, so a save that has not been uploaded yet never
/// becomes the baseline.
pub fn plan_compare(req: &CompareRequest, latest: &Egg, sync: Option<&SyncState>) -> (r:
    ComparePlan)
    ensures
        ({
            let o = classify_spec(
                req.local_hash@,
                req.local_modified_at as int,
                latest.file_hash@,
                latest.created_at as int,
                baseline_hash_of(sync),
            );
            &&& r.outcome == o
            &&& r.status == outcome_status(o)
            &&& (o == CompareOutcome::Identical ==> r.write is SyncToLatest)
            &&& (o != CompareOutcome::Identical ==> r.write == BaselineWrite::Status(
                outcome_status(o),
            ))
        }),
        r.status == SyncStatus::SafeInNest <==> req.local_hash@ == latest.file_hash@,
        r.outcome == CompareOutcome::Pull || r.outcome == CompareOutcome::Push ==> r.status
            == SyncStatus::Flying && r.write == BaselineWrite::Status(SyncStatus::Flying),
        r.outcome == CompareOutcome::Conflict ==> r.status == SyncStatus::ChillyEgg && r.write
            == BaselineWrite::Status(SyncStatus::ChillyEgg),
{
    let (outcome, status) = classify(req, latest, sync);
    match outcome {
        CompareOutcome::Identical => ComparePlan {
            outcome,
            status,
            write: BaselineWrite::SyncToLatest,
        },
        _ => ComparePlan { outcome, status, write: BaselineWrite::Status(status) },
    }
}

/// A comparison is stable: when neither side changes, comparing again after
/// storing what the first comparison wrote gives the same outcome.
pub proof fn lemma_compare_is_stable(
    local_hash: Seq<char>,
    local_modified_at: int,
    latest_hash: Seq<char>,
    latest_created_at: int,
    baseline: Option<Seq<char>>,
    w: BaselineWrite,
)
    requires
        ({
            let o = classify_spec(
                local_hash,
                local_modified_at,
                latest_hash,
                latest_created_at,
                baseline,
            );
            &&& (o == CompareOutcome::Identical ==> w is SyncToLatest)
            &&& (o != CompareOutcome::Identical ==> w == BaselineWrite::Status(outcome_status(o)))
        }),
    ensures
        classify_spec(
            local_hash,
            local_modified_at,
            latest_hash,
            latest_created_at,
            baseline_after(baseline, w, latest_hash),
        ) == classify_spec(local_hash, local_modified_at, latest_hash, latest_created_at, baseline),
{
}

/// What a sync record holds once a Bird is known to be in step with an Egg
/// (after it uploads or downloads that Egg, or keeps the Nest's version).
#[derive(Debug)]
pub struct EggBaseline {
    pub last_egg_id: Option<u128>,
    pub last_synced_hash: String,
    pub last_synced_at: i64,
    pub status: SyncStatus,
}

/// The baseline that records `egg` as the common state, safe in the Nest.
pub fn egg_baseline(egg: &Egg) -> (b: EggBaseline)
    ensures
        b.last_egg_id == Some(egg.id),
        b.last_synced_hash@ == egg.file_hash@,
        b.last_synced_at == egg.created_at,
        b.status == SyncStatus::SafeInNest,
{
    EggBaseline {
        last_egg_id: Some(egg.id),
        last_synced_hash: egg.file_hash.clone(),
        last_synced_at: egg.created_at,
        status: SyncStatus::SafeInNest,
    }
}

/// After a Bird uploads an Egg, which becomes the latest and its baseline,
/// comparing the same save again is Identical, and comparing a save changed
/// since is a Push, never a conflict.
pub proof fn lemma_upload_then_compare(
    egg_hash: Seq<char>,
    egg_created_at: int,
    local_hash: Seq<char>,
    local_modified_at: int,
)
    ensures
        local_hash == egg_hash ==> classify_spec(
            local_hash,
            local_modified_at,
            egg_hash,
            egg_created_at,
            Some(egg_hash),
        ) == CompareOutcome::Identical,
        local_hash != egg_hash ==> classify_spec(
            local_hash,
            local_modified_at,
            egg_hash,
            egg_created_at,
            Some(egg_hash),
        ) == CompareOutcome::Push,
{
}

/// The response for a game whose Clutch holds no Egg (or does not exist,
/// reported with the nil id).
pub fn no_eggs_response(clutch_id: u128) -> (r: CompareResponse)
    ensures
        r.outcome == CompareOutcome::NoEggs,
        r.status == SyncStatus::SafeInNest,
        r.clutch_id == clutch_id,
        r.latest_egg is None,
        r.last_synced_egg is None,
{
    CompareResponse {
        outcome: CompareOutcome::NoEggs,
        status: SyncStatus::SafeInNest,
        clutch_id,
        latest_egg: None,
        last_synced_egg: None,
    }
}

/// The Egg id whose row the response reports as the last synced Egg.
pub fn last_synced_egg_id(sync: Option<&SyncState>) -> (r: Option<u128>)
    ensures
        r == (match sync {
            Some(s) => s.last_egg_id,
            None => None,
        }),
{
    match sync {
        Some(s) => s.last_egg_id,
        None => None,
    }
}

/// Identical hashes never conflict; a side whose hash still equals the
/// baseline is never the side that changed; and a conflict is exactly both
/// sides having changed since the baseline.
pub proof fn lemma_conflict_iff_both_changed(
    local_hash: Seq<char>,
    local_modified_at: int,
    latest_hash: Seq<char>,
    latest_created_at: int,
    base: Seq<char>,
)
    ensures
        ({
            let o = classify_spec(
                local_hash,
                local_modified_at,
                latest_hash,
                latest_created_at,
                Some(base),
            );
            &&& (o == CompareOutcome::Conflict <==> (local_hash != latest_hash && local_hash
                != base && latest_hash != base))
            &&& (o == CompareOutcome::Pull <==> (local_hash == base && latest_hash != base))
            &&& (o == CompareOutcome::Push <==> (latest_hash == base && local_hash != base))
            &&& (o == CompareOutcome::Identical <==> (local_hash == latest_hash))
        }),
{
}

// ---------------------------------------------------------------------------
// Conflict resolution
// ---------------------------------------------------------------------------

/// The state a resolution makes the new baseline.
#[derive(Debug)]
pub enum ResolvePlan {
    /// Keep the Nest's Egg: the given one, or the latest when none is given.
    KeepNest { egg_id: Option<u128> },
    /// Keep the Bird's local save. The Nest's latest Egg becomes the
    /// baseline, so that the local save, which differs from it, is pushed at
    /// the next comparison; with no Egg yet the local save itself is recorded.
    KeepLocal { egg_id: Option<u128>, hash: String, at: i64 },
}

/// The baseline a Local resolution records: the latest Egg when there is
/// one, else the local save.
pub open spec fn kept_local_baseline(
    local_hash: Seq<char>,
    local_at: i64,
    latest: Option<&Egg>,
) -> (Option<u128>, Seq<char>, i64) {
    match latest {
        Some(e) => (Some(e.id), e.file_hash@, e.created_at),
        None => (None, local_hash, local_at),
    }
}

/// Decides a conflict resolution from the request and the Clutch's latest
/// Egg.
pub fn plan_resolve(req: &ResolveRequest, latest: Option<&Egg>) -> (r: Result<ResolvePlan, AppError>)
    ensures
        req.resolution == Resolution::Nest ==> (r matches Ok(ResolvePlan::KeepNest { egg_id })
            && egg_id == req.egg_id),
        req.resolution == Resolution::Local && req.local_hash is None ==> (r matches Err(
            AppError::Validation(m),
        ) && m@ == "local_hash is required for local resolution"@),
        req.resolution == Resolution::Local && req.local_hash is Some
            && req.local_modified_at is None ==> (r matches Err(AppError::Validation(m)) && m@
            == "local_modified_at is required for local resolution"@),
        req.resolution == Resolution::Local && req.local_hash is Some
            && req.local_modified_at is Some && MIN_TIMESTAMP <= req.local_modified_at->0
            <= MAX_TIMESTAMP ==> r is Ok,
        r matches Ok(p) ==> (p is KeepLocal <==> req.resolution == Resolution::Local),
        r matches Ok(ResolvePlan::KeepLocal { egg_id, hash, at }) ==> (req.local_hash is Some
            && req.local_modified_at is Some && kept_local_baseline(
            req.local_hash->0@,
            req.local_modified_at->0,
            latest,
        ) == (egg_id, hash@, at)),
        r matches Err(e) ==> req.resolution == Resolution::Local && e is Validation,
        req.resolution == Resolution::Local && req.local_hash is Some
            && req.local_modified_at is Some && r is Err ==> (r matches Err(AppError::Validation(m))
            && m@ == "invalid local_modified_at: "@ + timestamp_error_text(req.local_modified_at->0)),
{
    match req.resolution {
        Resolution::Nest => Ok(ResolvePlan::KeepNest { egg_id: req.egg_id }),
        Resolution::Local => {
            let hash = match &req.local_hash {
                Some(h) => h.clone(),
                None => {
                    return Err(
                        AppError::Validation(
                            "local_hash is required for local resolution".to_string(),
                        ),
                    );
                },
            };
            let at = match req.local_modified_at {
                Some(t) => t,
                None => {
                    return Err(
                        AppError::Validation(
                            "local_modified_at is required for local resolution".to_string(),
                        ),
                    );
                },
            };
            match check_unix_timestamp(at) {
                Ok(()) => match latest {
                    Some(e) => Ok(
                        ResolvePlan::KeepLocal {
                            egg_id: Some(e.id),
                            hash: e.file_hash.clone(),
                            at: e.created_at,
                        },
                    ),
                    None => Ok(ResolvePlan::KeepLocal { egg_id: None, hash, at }),
                },
                Err(e) => Err(
                    AppError::Validation(concat("invalid local_modified_at: ", e.as_str())),
                ),
            }
        },
    }
}

/// A local save kept by a Local resolution is pushed at the next comparison
/// while neither side has changed: the baseline is then the latest Egg, which
/// the local save differs from.
pub proof fn lemma_kept_local_is_pushed(
    local_hash: Seq<char>,
    local_modified_at: int,
    latest_hash: Seq<char>,
    latest_created_at: int,
)
    requires
        local_hash != latest_hash,
    ensures
        classify_spec(
            local_hash,
            local_modified_at,
            latest_hash,
            latest_created_at,
            Some(latest_hash),
        ) == CompareOutcome::Push,
{
}

/// Every resolution leaves the pair safe in the Nest, reporting the Egg kept
/// when the Nest's version wins.
pub fn resolved_response(kept: Option<Egg>) -> (r: ResolveResponse)
    ensures
        r.status == SyncStatus::SafeInNest,
        r.baseline_egg == kept,
{
    ResolveResponse { status: SyncStatus::SafeInNest, baseline_egg: kept }
}

// ---------------------------------------------------------------------------
// Acting Bird and Clutch status
// ---------------------------------------------------------------------------

/// Determine which Bird is performing a sync action: the one the request
/// names, else the token's Bird; with neither the action is forbidden.
pub fn resolve_bird_id(auth_bird_id: Option<u128>, request_bird_id: Option<u128>) -> (r: Result<
    u128,
    AppError,
>)
    ensures
        request_bird_id matches Some(id) ==> r == Ok::<u128, AppError>(id),
        request_bird_id is None && auth_bird_id is Some ==> r == Ok::<u128, AppError>(
            auth_bird_id->0,
        ),
        request_bird_id is None && auth_bird_id is None ==> r matches Err(AppError::Forbidden),
{
    if let Some(id) = request_bird_id {
        return Ok(id);
    }
    match auth_bird_id {
        Some(id) => Ok(id),
        None => Err(AppError::Forbidden),
    }
}

/// A Bird's status for a Clutch, `SafeInNest` when no record exists.
pub fn status_for_bird(sync: Option<&SyncState>) -> (s: SyncStatus)
    ensures
        s == (match sync {
            Some(st) => st.status,
            None => SyncStatus::SafeInNest,
        }),
{
    match sync {
        Some(st) => st.status,
        None => SyncStatus::SafeInNest,
    }
}

proof fn lemma_push_contains(s: Seq<Seq<char>>, v: Seq<char>, x: Seq<char>)
    ensures
        s.push(v).contains(x) <==> (s.contains(x) || v == x),
{
    if s.contains(x) {
        let k = choose|k: int| 0 <= k < s.len() && s[k] == x;
        assert(s.push(v)[k] == x);
    }
    if v == x {
        assert(s.push(v)[s.len() as int] == x);
    }
    if s.push(v).contains(x) {
        let k = choose|k: int| 0 <= k < s.push(v).len() && s.push(v)[k] == x;
        if k < s.len() {
            assert(s[k] == x);
        }
    }
}

/// Severity of a status: the worse, the higher.
pub open spec fn severity(s: SyncStatus) -> int {
    match s {
        SyncStatus::SafeInNest => 0,
        SyncStatus::Flying => 1,
        SyncStatus::ChillyEgg => 2,
    }
}

/// The status across every Bird of a Flock for a Clutch, from the stored
/// status texts: the worst wins (`chilly_egg` > `flying` > `safe_in_nest`);
/// unknown texts count for nothing.
pub open spec fn aggregate_spec(stored: Seq<Seq<char>>) -> SyncStatus {
    if stored.contains(sync_status_text(SyncStatus::ChillyEgg)) {
        SyncStatus::ChillyEgg
    } else if stored.contains(sync_status_text(SyncStatus::Flying)) {
        SyncStatus::Flying
    } else {
        SyncStatus::SafeInNest
    }
}

pub fn aggregate_status(stored: &Vec<String>) -> (s: SyncStatus)
    ensures
        s == aggregate_spec(stored@.map_values(|t: String| t@)),
        forall|k: int|
            #![trigger stored@[k]]
            0 <= k < stored@.len() && (stored@[k]@ == sync_status_text(SyncStatus::Flying)
                || stored@[k]@ == sync_status_text(SyncStatus::ChillyEgg)
                || stored@[k]@ == sync_status_text(SyncStatus::SafeInNest)) ==> severity(s)
                >= severity(
                if stored@[k]@ == sync_status_text(SyncStatus::ChillyEgg) {
                    SyncStatus::ChillyEgg
                } else if stored@[k]@ == sync_status_text(SyncStatus::Flying) {
                    SyncStatus::Flying
                } else {
                    SyncStatus::SafeInNest
                },
            ),
{
    let ghost views = stored@.map_values(|t: String| t@);
    let mut chilly = false;
    let mut flying = false;
    let mut i: usize = 0;
    while i < stored.len()
        invariant
            i <= stored.len(),
            views == stored@.map_values(|t: String| t@),
            chilly == views.take(i as int).contains(sync_status_text(SyncStatus::ChillyEgg)),
            flying == views.take(i as int).contains(sync_status_text(SyncStatus::Flying)),
        decreases stored.len() - i,
    {
        let t = stored[i].as_str();
        assert(views.take(i + 1) =~= views.take(i as int).push(views[i as int]));
        assert(views[i as int] == t@);
        proof {
            lemma_push_contains(
                views.take(i as int),
                views[i as int],
                sync_status_text(SyncStatus::ChillyEgg),
            );
            lemma_push_contains(
                views.take(i as int),
                views[i as int],
                sync_status_text(SyncStatus::Flying),
            );
        }
        if str_eq(t, "chilly_egg") {
            chilly = true;
        }
        if str_eq(t, "flying") {
            flying = true;
        }
        i = i + 1;
    }
    assert(views.take(stored.len() as int) =~= views);
    proof {
        assert forall|k: int|
            #![trigger stored@[k]]
            0 <= k < stored@.len() implies views[k] == stored@[k]@ by {}
    }
    if chilly {
        SyncStatus::ChillyEgg
    } else if flying {
        SyncStatus::Flying
    } else {
        SyncStatus::SafeInNest
    }
}

} // verus!
