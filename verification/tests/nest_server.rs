use nest::accounts::{parse_platform, require_free_username, validate_bird_name, validate_password, validate_username, HealthResponse};
use nest::api::{CompareOutcome, CompareRequest, Resolution, ResolveRequest};
use nest::archive::{
    check_upload_hash, parse_source_bird_id, require_upload_file, relative_egg_path, require_source_bird, sanitize_game_id,
    select_pruned, validate_game_id,
};
use nest::auth::{
    bearer_token, check_claims, check_login, claims_payload, create_token, create_token_at, hash_password,
    verify_password, verify_token, TokenClaims,
};
use nest::coordination::{
    aggregate_status, classify, plan_compare, plan_resolve, resolve_bird_id, status_for_bird,
    BaselineWrite, ResolvePlan, SyncState,
};
use nest::digest::{hash_bytes, hash_to_hex};
use nest::domain::{Egg, Platform, SyncStatus, DEFAULT_BROOD_LIMIT};
use nest::error::AppError;
use nest::ids::parse_uuid;
use nest::rate_limit::{RateLimiter, DEFAULT_MAX_REQUESTS, DEFAULT_WINDOW_NANOS};
use nest::server_config::{Config, EnvValues};
use nest::rows::{bird_from_row, egg_from_row, flock_from_row, sync_state_from_row, BirdRow, EggRow, FlockRow, SyncRow};
use nest::archive::{attachment_header, lay_field, multipart_failure, LayField};

fn egg(id: u128, hash: &str, created_at: i64) -> Egg {
    Egg {
        id,
        clutch_id: 1,
        source_bird_id: Some(2),
        file_hash: hash.to_string(),
        size_bytes: 10,
        file_path: format!("flocks/x/g/egg_{id}.zip"),
        created_at,
    }
}

fn sync_state(last_hash: Option<&str>) -> SyncState {
    SyncState {
        bird_id: 2,
        clutch_id: 1,
        last_egg_id: Some(9),
        last_synced_hash: last_hash.map(|h| h.to_string()),
        last_synced_at: Some(100),
        status: SyncStatus::SafeInNest,
        created_at: 0,
        updated_at: 0,
    }
}

fn compare_req(hash: &str, at: i64) -> CompareRequest {
    CompareRequest { local_hash: hash.to_string(), local_modified_at: at, bird_id: None }
}

fn empty_env() -> EnvValues {
    EnvValues {
        bind_addr: None,
        data_dir: None,
        db_path: None,
        brood_limit: None,
        token_secret: None,
        token_expiry_seconds: None,
        log_level: None,
    }
}

// ---------------------------------------------------------------------------
// Domain
// ---------------------------------------------------------------------------

#[test]
fn domain_strings_roundtrip() {
    for p in [Platform::Windows, Platform::Linux, Platform::MacOs, Platform::Other] {
        assert_eq!(Platform::from_name(p.as_str()), p);
    }
    assert_eq!(Platform::from_name("SteamOS"), Platform::Linux);
    assert_eq!(Platform::from_name("osx"), Platform::MacOs);
    assert_eq!(Platform::from_name("amiga"), Platform::Other);
    for s in [SyncStatus::SafeInNest, SyncStatus::Flying, SyncStatus::ChillyEgg] {
        assert_eq!(SyncStatus::from_name(s.as_str()).unwrap(), s);
    }
    assert_eq!(SyncStatus::from_name("lost").unwrap_err(), "unknown sync status: lost");
    assert_eq!(DEFAULT_BROOD_LIMIT, 10);
}

#[test]
fn uuid_text_roundtrip() {
    let id = 0x0123_4567_89ab_cdef_0123_4567_89ab_cdefu128;
    let text = nest::archive::relative_clutch_dir(id, "g");
    assert_eq!(text, "flocks/01234567-89ab-cdef-0123-456789abcdef/g");
    let text = "01234567-89ab-cdef-0123-456789abcdef";
    assert_eq!(parse_uuid(text), Some(id));
    assert_eq!(parse_uuid("not-a-uuid"), None);
}

#[test]
fn hex_and_sha256() {
    assert_eq!(hash_to_hex(&[0x00, 0xab, 0x10]), "00ab10");
    assert_eq!(hash_bytes(b"abc"), "ba7816bf8f01cfea414140de5dae2223b00361a396177a9cb410ff61f20015ad");
}

// ---------------------------------------------------------------------------
// Errors
// ---------------------------------------------------------------------------

#[test]
fn app_error_status_codes_and_messages() {
    assert_eq!(AppError::NotFound.status(), 404);
    assert_eq!(AppError::RateLimited.status(), 429);
    assert_eq!(AppError::Conflict("x".to_string()).code(), "conflict");
    assert_eq!(AppError::Validation("bad".to_string()).message(), "invalid request: bad");
    let e = AppError::Internal("secret detail".to_string());
    assert_eq!(e.status(), 500);
    assert!(e.is_server_error());
    assert_eq!(e.client_message(), "an internal error occurred");
    assert_eq!(AppError::Database("disk".to_string()).code(), "database_error");
}

#[test]
fn config_errors_hide_their_detail_from_clients() {
    let e = AppError::Config("NEST_TOKEN_SECRET leaked".to_string());
    assert_eq!(e.status(), 500);
    assert_eq!(e.code(), "config_error");
    assert_eq!(e.message(), "configuration error: NEST_TOKEN_SECRET leaked");
    assert_eq!(e.client_message(), "an internal error occurred");
    assert_eq!(AppError::Conflict("c".to_string()).client_message(), "conflict: c");
}

// ---------------------------------------------------------------------------
// Game ids and archive paths
// ---------------------------------------------------------------------------

#[test]
fn game_id_validation() {
    assert!(validate_game_id("stardew-valley").is_ok());
    for bad in ["", "..", ".", "a/b", "a\\b", "a\0b"] {
        assert!(matches!(validate_game_id(bad), Err(AppError::Validation(_))), "{bad:?}");
    }
    assert!(validate_game_id(&"x".repeat(129)).is_err());
    assert!(validate_game_id(&"x".repeat(128)).is_ok());
}

#[test]
fn sanitized_game_ids() {
    assert_eq!(sanitize_game_id("Stardew Valley!!"), "Stardew_Valley");
    assert_eq!(sanitize_game_id("__a__b__"), "a__b");
    assert_eq!(sanitize_game_id("???"), "unknown");
    assert_eq!(sanitize_game_id(" .."), "unknown");
    assert_eq!(sanitize_game_id("..."), "...");
    assert_eq!(sanitize_game_id("_._"), "unknown");
    assert_eq!(sanitize_game_id("?.."), "unknown");
    assert_eq!(sanitize_game_id("v1.2"), "v1.2");
    let long = "a".repeat(70);
    assert_eq!(sanitize_game_id(&long), "a".repeat(64));
    let cut = format!("{}_y", "x".repeat(63));
    assert_eq!(sanitize_game_id(&cut), "x".repeat(63));
}

#[test]
fn relative_egg_path_format() {
    let p = relative_egg_path(1, "Stardew Valley", 2, 1_700_000_000);
    assert_eq!(
        p,
        "flocks/00000000-0000-0000-0000-000000000001/Stardew_Valley/egg_1700000000_00000000-0000-0000-0000-000000000002.zip"
    );
}

#[test]
fn upload_checks() {
    assert!(check_upload_hash("abc", Some("  abc ")).is_ok());
    match check_upload_hash("abc", Some("abd")) {
        Err(AppError::Validation(m)) => assert_eq!(m, "file hash does not match payload"),
        other => panic!("unexpected {other:?}"),
    }
    match check_upload_hash("abc", None) {
        Err(AppError::Validation(m)) => assert_eq!(m, "missing file_hash field"),
        other => panic!("unexpected {other:?}"),
    }
    assert!(matches!(require_source_bird(None), Err(AppError::Forbidden)));
    assert_eq!(require_source_bird(Some(5)).unwrap(), 5);
    assert_eq!(parse_source_bird_id("00000000-0000-0000-0000-000000000005").unwrap(), 5);
    assert!(matches!(parse_source_bird_id("five"), Err(AppError::Validation(_))));
}

#[test]
fn brood_limit_prunes_oldest() {
    let eggs: Vec<Egg> = (0..12u128).map(|i| egg(i, "h", i as i64)).collect();
    let pruned = select_pruned(&eggs, 10).unwrap();
    assert_eq!(pruned.iter().map(|e| e.id).collect::<Vec<_>>(), vec![0, 1]);
    assert!(select_pruned(&eggs, 12).unwrap().is_empty());
    match select_pruned(&eggs, 0) {
        Err(AppError::Validation(m)) => assert_eq!(m, "brood_limit must be at least 1"),
        other => panic!("unexpected {other:?}"),
    }
}

// ---------------------------------------------------------------------------
// Sync coordination
// ---------------------------------------------------------------------------

#[test]
fn compare_identical_hashes() {
    let latest = egg(3, "h1", 200);
    let (o, s) = classify(&compare_req("h1", 0), &latest, None);
    assert_eq!((o, s), (CompareOutcome::Identical, SyncStatus::SafeInNest));
}

#[test]
fn compare_against_baseline() {
    let latest = egg(3, "remote", 200);
    let base = sync_state(Some("base"));
    assert_eq!(classify(&compare_req("local", 0), &latest, Some(&base)).0, CompareOutcome::Conflict);
    assert_eq!(classify(&compare_req("base", 0), &latest, Some(&base)).0, CompareOutcome::Pull);
    let same_remote = sync_state(Some("remote2"));
    let latest2 = egg(3, "remote2", 200);
    assert_eq!(classify(&compare_req("local", 0), &latest2, Some(&same_remote)).0, CompareOutcome::Push);
}

#[test]
fn compare_without_baseline_uses_timestamps() {
    let latest = egg(3, "remote", 200);
    assert_eq!(classify(&compare_req("local", 300), &latest, None).0, CompareOutcome::Push);
    assert_eq!(classify(&compare_req("local", 100), &latest, None).0, CompareOutcome::Pull);
    let (o, s) = classify(&compare_req("local", 200), &latest, None);
    assert_eq!((o, s), (CompareOutcome::Conflict, SyncStatus::ChillyEgg));
}

#[test]
fn compare_plans_what_to_store() {
    let latest = egg(3, "remote", 200);
    let p = plan_compare(&compare_req("local", 300), &latest, None);
    assert_eq!(p.outcome, CompareOutcome::Push);
    assert!(matches!(p.write, BaselineWrite::Status(SyncStatus::Flying)));
    let p = plan_compare(&compare_req("remote", 0), &latest, None);
    assert!(matches!(p.write, BaselineWrite::SyncToLatest));
    let base = sync_state(Some("base"));
    let p = plan_compare(&compare_req("local", 0), &latest, Some(&base));
    assert!(matches!(p.write, BaselineWrite::Status(SyncStatus::ChillyEgg)));
    let p = plan_compare(&compare_req("local", i64::MAX), &latest, None);
    assert_eq!(p.outcome, CompareOutcome::Push);
}

#[test]
fn push_without_baseline_stays_a_push() {
    let latest = egg(3, "remote", 200);
    let first = plan_compare(&compare_req("local", 300), &latest, None);
    // Nothing but the status is written, so the pair still has no baseline.
    assert!(matches!(first.write, BaselineWrite::Status(_)));
    let second = plan_compare(&compare_req("local", 300), &latest, None);
    assert_eq!(second.outcome, first.outcome);
    assert_eq!(second.outcome, CompareOutcome::Push);
}

#[test]
fn resolve_plans() {
    let latest = egg(3, "remote", 200);
    let req = ResolveRequest { resolution: Resolution::Nest, local_hash: None, local_modified_at: None, egg_id: Some(4), bird_id: None };
    assert!(matches!(plan_resolve(&req, Some(&latest)), Ok(ResolvePlan::KeepNest { egg_id: Some(4) })));
    let req = ResolveRequest { resolution: Resolution::Local, local_hash: None, local_modified_at: Some(1), egg_id: None, bird_id: None };
    match plan_resolve(&req, Some(&latest)) {
        Err(AppError::Validation(m)) => assert_eq!(m, "local_hash is required for local resolution"),
        other => panic!("unexpected {other:?}"),
    }
    let req = ResolveRequest { resolution: Resolution::Local, local_hash: Some("h".to_string()), local_modified_at: None, egg_id: None, bird_id: None };
    match plan_resolve(&req, Some(&latest)) {
        Err(AppError::Validation(m)) => assert_eq!(m, "local_modified_at is required for local resolution"),
        other => panic!("unexpected {other:?}"),
    }
    let req = ResolveRequest { resolution: Resolution::Local, local_hash: Some("h".to_string()), local_modified_at: Some(5), egg_id: None, bird_id: None };
    assert!(matches!(plan_resolve(&req, None), Ok(ResolvePlan::KeepLocal { egg_id: None, at: 5, .. })));
    match plan_resolve(&req, Some(&latest)) {
        Ok(ResolvePlan::KeepLocal { egg_id, hash, at }) => {
            assert_eq!((egg_id, hash.as_str(), at), (Some(3), "remote", 200));
        }
        other => panic!("unexpected {other:?}"),
    }
    let req = ResolveRequest { resolution: Resolution::Local, local_hash: Some("h".to_string()), local_modified_at: Some(i64::MAX), egg_id: None, bird_id: None };
    assert!(matches!(plan_resolve(&req, Some(&latest)), Err(AppError::Validation(_))));
}

#[test]
fn kept_local_save_is_pushed_next() {
    let latest = egg(3, "remote", 200);
    let req = ResolveRequest { resolution: Resolution::Local, local_hash: Some("local".to_string()), local_modified_at: Some(100), egg_id: None, bird_id: None };
    let base = match plan_resolve(&req, Some(&latest)) {
        Ok(ResolvePlan::KeepLocal { hash, .. }) => sync_state(Some(&hash)),
        other => panic!("unexpected {other:?}"),
    };
    let p = plan_compare(&compare_req("local", 100), &latest, Some(&base));
    assert_eq!(p.outcome, CompareOutcome::Push);
}

#[test]
fn bird_id_and_statuses() {
    assert_eq!(resolve_bird_id(Some(1), Some(2)).unwrap(), 2);
    assert_eq!(resolve_bird_id(Some(1), None).unwrap(), 1);
    assert!(matches!(resolve_bird_id(None, None), Err(AppError::Forbidden)));
    assert_eq!(status_for_bird(None), SyncStatus::SafeInNest);
    let mut s = sync_state(None);
    s.status = SyncStatus::Flying;
    assert_eq!(status_for_bird(Some(&s)), SyncStatus::Flying);
    let stored = vec!["safe_in_nest".to_string(), "chilly_egg".to_string(), "flying".to_string()];
    assert_eq!(aggregate_status(&stored), SyncStatus::ChillyEgg);
    assert_eq!(aggregate_status(&vec!["flying".to_string()]), SyncStatus::Flying);
    assert_eq!(aggregate_status(&vec![]), SyncStatus::SafeInNest);
}

// ---------------------------------------------------------------------------
// Authentication
// ---------------------------------------------------------------------------

#[test]
fn rate_limit_blocks_sixth_request_in_window() {
    let mut rl = RateLimiter::new(DEFAULT_WINDOW_NANOS, DEFAULT_MAX_REQUESTS);
    for i in 0..5u64 {
        assert!(rl.check(1, i).is_ok());
    }
    assert!(matches!(rl.check(1, 6), Err(AppError::RateLimited)));
    assert!(rl.check(2, 6).is_ok());
    assert!(rl.check(1, DEFAULT_WINDOW_NANOS + 10).is_ok());
}

#[test]
fn token_roundtrip_and_tampering() {
    let token = create_token_at(1, Some(2), "secret", 60, 1000).unwrap();
    let payload = verify_token(&token, "secret").unwrap();
    assert_eq!(payload, claims_payload(1, Some(2), 1060, 1000));
    assert_eq!(
        String::from_utf8(payload).unwrap(),
        "{\"sub\":\"00000000-0000-0000-0000-000000000001\",\"bid\":\"00000000-0000-0000-0000-000000000002\",\"exp\":1060,\"iat\":1000}"
    );
    assert!(matches!(verify_token(&token, "other"), Err(AppError::Unauthorized)));
    assert!(matches!(verify_token("a.b", "secret"), Err(AppError::Unauthorized)));
    let mut forged = token.clone();
    forged.push('x');
    assert!(verify_token(&forged, "secret").is_err());
    assert!(create_token(1, None, "secret", 60).is_ok());
}

#[test]
fn claims_checks() {
    let claims = TokenClaims { sub: "00000000-0000-0000-0000-000000000001".to_string(), bid: None, exp: 100, iat: 0 };
    let a = check_claims(&claims, 100).unwrap();
    assert_eq!((a.flock_id, a.bird_id), (1, None));
    assert!(matches!(check_claims(&claims, 101), Err(AppError::Unauthorized)));
    let bad = TokenClaims { sub: "nope".to_string(), bid: None, exp: 100, iat: 0 };
    assert!(check_claims(&bad, 0).is_err());
    assert_eq!(bearer_token("Bearer abc").as_deref(), Some("abc"));
    assert_eq!(bearer_token("Basic abc"), None);
}

#[test]
fn password_hash_and_verify() {
    let h = hash_password("correct-horse-battery-staple").unwrap();
    assert!(verify_password("correct-horse-battery-staple", &h).unwrap());
    assert!(!verify_password("wrong-password", &h).unwrap());
    assert!(verify_password("x", "not a hash").is_err());
    assert!(h.starts_with("$argon2id$"));
    for unusable in ["not a hash", ""] {
        match verify_password("x", unusable) {
            Err(AppError::Internal(m)) => assert!(m.starts_with("invalid stored password hash: "), "{m}"),
            other => panic!("unexpected {other:?}"),
        }
    }
}

#[test]
fn account_validation() {
    assert!(validate_username("valley").is_ok());
    assert!(validate_username("rl_user-1").is_ok());
    for bad in ["", "has space", "ünïcode", &"a".repeat(33)] {
        match validate_username(bad) {
            Err(AppError::Validation(m)) => assert_eq!(
                m,
                "username must be 1-32 ASCII alphanumeric, underscore, or hyphen characters"
            ),
            other => panic!("unexpected {other:?}"),
        }
    }
    assert!(validate_password("correct-horse-battery-staple").is_ok());
    assert!(validate_password("short").is_err());
    assert!(validate_password(&"p".repeat(129)).is_err());
    assert_eq!(validate_bird_name("  Main Desktop ").unwrap(), "Main Desktop");
    match validate_bird_name("   ") {
        Err(AppError::Validation(m)) => assert_eq!(m, "name must be 1-64 characters"),
        other => panic!("unexpected {other:?}"),
    }
    assert!(validate_bird_name(&"n".repeat(65)).is_err());
    assert_eq!(parse_platform(" Windows ").unwrap(), Platform::Windows);
    assert_eq!(parse_platform("steamos").unwrap(), Platform::Linux);
    assert_eq!(parse_platform("other").unwrap(), Platform::Other);
    match parse_platform("amiga") {
        Err(AppError::Validation(m)) => assert_eq!(m, "platform must be windows, linux, steamos, macos, or other"),
        other => panic!("unexpected {other:?}"),
    }
    match require_free_username(true) {
        Err(AppError::Conflict(m)) => assert_eq!(m, "username already taken"),
        other => panic!("unexpected {other:?}"),
    }
    assert!(require_free_username(false).is_ok());
}

#[test]
fn health_answer() {
    let h = HealthResponse::healthy("0.1.0");
    assert_eq!((h.status, h.service, h.version, h.database), ("ok", "nest", "0.1.0", "ok"));
}

// ---------------------------------------------------------------------------
// Configuration
// ---------------------------------------------------------------------------

#[test]
fn config_defaults() {
    let c = Config::from_env(&empty_env(), "data/nest.sqlite", None).unwrap();
    assert_eq!(c.bind_addr, "0.0.0.0:8140");
    assert_eq!(c.data_dir, "data");
    assert_eq!(c.db_path, "data/nest.sqlite");
    assert_eq!(c.default_brood_limit, 10);
    assert_eq!(c.token_secret, "dev-insecure-secret-change-me");
    assert_eq!(c.token_expiry_seconds, 604_800);
    assert_eq!(c.log_level, "info");
    assert_eq!(c.database_url(), "sqlite://data/nest.sqlite?mode=rwc");
}

#[test]
fn config_overrides_and_errors() {
    let mut env = empty_env();
    env.brood_limit = Some(" 3 ".to_string());
    env.db_path = Some("C:\\nest\\db.sqlite".to_string());
    env.log_level = Some("   ".to_string());
    let c = Config::from_env(&env, "unused", None).unwrap();
    assert_eq!(c.default_brood_limit, 3);
    assert_eq!(c.log_level, "info");
    assert_eq!(c.database_url(), "sqlite://C:/nest/db.sqlite?mode=rwc");
    env.brood_limit = Some("0".to_string());
    match Config::from_env(&env, "unused", None) {
        Err(AppError::Config(m)) => assert_eq!(m, "NEST_BROOD_LIMIT must be >= 1"),
        other => panic!("unexpected {:?}", other.map(|c| c.bind_addr)),
    }
    env.brood_limit = Some("ten".to_string());
    match Config::from_env(&env, "unused", None) {
        Err(AppError::Config(m)) => assert_eq!(m, "invalid NEST_BROOD_LIMIT: invalid digit found in string"),
        other => panic!("unexpected {:?}", other.map(|c| c.bind_addr)),
    }
    env.brood_limit = None;
    env.token_expiry_seconds = Some("-1".to_string());
    match Config::from_env(&env, "unused", None) {
        Err(AppError::Config(m)) => {
            assert_eq!(m, "invalid NEST_TOKEN_EXPIRY_SECONDS: invalid digit found in string")
        }
        other => panic!("unexpected {:?}", other.map(|c| c.bind_addr)),
    }
    // The bind address is checked before anything else.
    env.bind_addr = Some("not an address".to_string());
    match Config::from_env(&env, "unused", Some("invalid socket address syntax")) {
        Err(AppError::Config(m)) => assert_eq!(m, "invalid NEST_BIND_ADDR: invalid socket address syntax"),
        other => panic!("unexpected {:?}", other.map(|c| c.bind_addr)),
    }
}

#[test]
fn config_log_text_redacts_the_secret() {
    let mut env = empty_env();
    env.token_secret = Some("hunter2-hunter2".to_string());
    let c = Config::from_env(&env, "data/nest.sqlite", None).unwrap();
    let t = c.redacted();
    assert_eq!(
        t,
        "Config { bind_addr: 0.0.0.0:8140, data_dir: \"data\", db_path: \"data/nest.sqlite\", \
         default_brood_limit: 10, token_secret: \"<redacted>\", token_expiry_seconds: 604800, \
         log_level: \"info\" }"
    );
    assert!(!t.contains("hunter2"));
    let mut env = empty_env();
    env.db_path = Some("C:\\nest\\db \"x\".sqlite".to_string());
    let c = Config::from_env(&env, "unused", None).unwrap();
    assert!(c.redacted().contains(&format!("db_path: {:?}, ", "C:\\nest\\db \"x\".sqlite")));
}

// ---------------------------------------------------------------------------
// Stored rows and upload forms
// ---------------------------------------------------------------------------

#[test]
fn rows_read_back_into_domain_values() {
    let id = "00000000-0000-0000-0000-00000000000a";
    let f = flock_from_row(FlockRow { id: id.to_string(), username: "valley".to_string(), password_hash: "h".to_string(), created_at: 5 }).unwrap();
    assert_eq!((f.id, f.username.as_str(), f.created_at), (10, "valley", 5));
    let b = bird_from_row(BirdRow { id: id.to_string(), flock_id: id.to_string(), name: "Deck".to_string(), platform: "steamos".to_string(), last_seen: None, created_at: 1 }).unwrap();
    assert_eq!(b.platform, Platform::Linux);
    match flock_from_row(FlockRow { id: "bad".to_string(), username: "u".to_string(), password_hash: "h".to_string(), created_at: 0 }) {
        Err(AppError::Internal(m)) => assert!(m.starts_with("invalid stored uuid bad: ")),
        other => panic!("unexpected {other:?}"),
    }
    match flock_from_row(FlockRow { id: id.to_string(), username: "u".to_string(), password_hash: "h".to_string(), created_at: i64::MAX }) {
        Err(AppError::Internal(m)) => assert!(m.starts_with("invalid stored timestamp 9223372036854775807: ")),
        other => panic!("unexpected {other:?}"),
    }
    let e = egg_from_row(EggRow { id: id.to_string(), clutch_id: id.to_string(), source_bird_id: None, file_hash: "h".to_string(), size_bytes: 3, file_path: "p".to_string(), created_at: 7 }).unwrap();
    assert_eq!((e.id, e.source_bird_id, e.size_bytes), (10, None, 3));
    let s = SyncRow { bird_id: id.to_string(), clutch_id: id.to_string(), last_egg_id: None, last_synced_hash: Some("x".to_string()), last_synced_at: Some(3), status: "flying".to_string(), created_at: 1, updated_at: 2 };
    assert_eq!(sync_state_from_row(s).unwrap().status, SyncStatus::Flying);
    let s = SyncRow { bird_id: id.to_string(), clutch_id: id.to_string(), last_egg_id: None, last_synced_hash: None, last_synced_at: None, status: "lost".to_string(), created_at: 1, updated_at: 2 };
    match sync_state_from_row(s) {
        Err(AppError::Internal(m)) => assert_eq!(m, "invalid stored sync status: unknown sync status: lost"),
        other => panic!("unexpected {other:?}"),
    }
}

#[test]
fn upload_form_fields_and_download_header() {
    assert_eq!(lay_field(Some("file")), LayField::File);
    assert_eq!(lay_field(Some("file_hash")), LayField::FileHash);
    assert_eq!(lay_field(Some("source_bird_id")), LayField::SourceBirdId);
    assert_eq!(lay_field(Some("extra")), LayField::Other);
    assert_eq!(lay_field(None), LayField::Other);
    assert_eq!(attachment_header(Some("egg_1.zip")), "attachment; filename=\"egg_1.zip\"");
    assert_eq!(attachment_header(None), "attachment; filename=\"egg.zip\"");
    match multipart_failure("boom") {
        AppError::Validation(m) => assert_eq!(m, "multipart error: boom"),
        other => panic!("unexpected {other:?}"),
    }
}

#[test]
fn upload_keeps_the_new_egg_within_the_limit() {
    let mut eggs: Vec<Egg> = (1..=3).map(|i| egg(i, &format!("h{i}"), i as i64)).collect();
    eggs.push(egg(4, "new", 4));
    let pruned = select_pruned(&eggs, 3).unwrap();
    assert_eq!(pruned.iter().map(|e| e.id).collect::<Vec<_>>(), vec![1]);
    let kept: Vec<u128> = eggs.iter().map(|e| e.id).filter(|id| !pruned.iter().any(|p| p.id == *id)).collect();
    assert_eq!(kept, vec![2, 3, 4]);
}

#[test]
fn upload_records_the_uploaders_baseline() {
    let laid = egg(7, "laid-hash", 500);
    let b = nest::coordination::egg_baseline(&laid);
    assert_eq!(b.last_egg_id, Some(7));
    assert_eq!(b.last_synced_hash, "laid-hash");
    assert_eq!(b.last_synced_at, 500);
    assert_eq!(b.status, SyncStatus::SafeInNest);
    let base = sync_state(Some(&b.last_synced_hash));
    assert_eq!(plan_compare(&compare_req("laid-hash", 1), &laid, Some(&base)).outcome, CompareOutcome::Identical);
    assert_eq!(plan_compare(&compare_req("edited", 1), &laid, Some(&base)).outcome, CompareOutcome::Push);
}

#[test]
fn login_decision_hides_which_part_failed() {
    let h = hash_password("s3cret-password").unwrap();
    assert_eq!(check_login("s3cret-password", Some((7u32, h.clone()))).unwrap(), 7);
    assert!(matches!(check_login("wrong", Some((7u32, h))), Err(AppError::Unauthorized)));
    assert!(matches!(check_login::<u32>("s3cret-password", None), Err(AppError::Unauthorized)));
    assert!(matches!(check_login("x", Some((7u32, "garbage".to_string()))), Err(AppError::Internal(_))));
}

#[test]
fn an_upload_needs_its_file() {
    assert_eq!(require_upload_file(Some(vec![1, 2])).unwrap(), vec![1, 2]);
    match require_upload_file(None) {
        Err(AppError::Internal(m)) => assert_eq!(m, "missing file field"),
        other => panic!("unexpected {other:?}"),
    }
}
