use nest::agent::{AgentEvent, AgentState, POST_EXIT_DELAY_MILLIS};
use nest::api::{CompareOutcome, Resolution};
use nest::client_config::{default_bird_name, default_nest_url, default_platform, status_response, AppConfig, ConfigStore};
use nest::client_error::BirdError;
use nest::domain::Platform;
use nest::flight::{
    require_bird_id, require_save_path, resolution_hatch, FlightPhase, FlightState, GameSyncStatus,
    PostExitAction, PreLaunchAction, StatusBoard,
};
use nest::forage::{
    built_in_verified_games, current_platform, discovered, find_verified, manifest_is_stale,
    pick_save_path, resolve_candidates, resolve_template, save_digest, watch_names, SaveFile,
    TemplateDirs, VerifiedGame,
};
use nest::nest_client::{
    bearer_header, check_answer, compare_path, hatch_path, lay_url, nest_error_message,
    parse_resolution, trim_base_url, ErrorPayload,
};
use nest::process::{ProcessEntry, ProcessTable};
use nest::flight::{after_retry, queue_entry_name, retry_candidate, QueueStep, QueuedUpload};
use nest::forage::{backup_name, zip_entry_name};

fn entry(pid: u32, name: &str, exe: Option<&str>) -> ProcessEntry {
    // File name and stem as the platform reports them.
    let file = |p: &str| std::path::Path::new(p).file_name().map(|s| s.to_string_lossy().into_owned());
    let stem = |p: &str| std::path::Path::new(p).file_stem().map(|s| s.to_string_lossy().into_owned());
    ProcessEntry {
        pid,
        name_file: file(name),
        name_stem: stem(name),
        exe: exe.map(|e| e.to_string()),
        exe_file: exe.and_then(file),
        exe_stem: exe.and_then(stem),
    }
}

fn no_dirs(windows: bool) -> TemplateDirs {
    TemplateDirs {
        windows,
        home: None,
        app_data: None,
        local_app_data: None,
        local_low: None,
        documents: None,
        public: None,
        xdg_data: None,
        xdg_config: None,
    }
}

// ---------------------------------------------------------------------------
// Foraging
// ---------------------------------------------------------------------------

#[test]
fn verified_subset_populated() {
    let games = built_in_verified_games();
    assert!(!games.is_empty());
    assert!(games.iter().any(|g| g.game_id == "stardew-valley"));
}

#[test]
fn current_platform_is_windows_on_windows() {
    assert_eq!(current_platform("windows"), Platform::Windows);
}

#[test]
fn current_platform_reads_os_names() {
    assert_eq!(current_platform("windows"), Platform::Windows);
    assert_eq!(current_platform("linux"), Platform::Linux);
    assert_eq!(current_platform("macos"), Platform::MacOs);
    assert_eq!(current_platform("freebsd"), Platform::Other);
}

#[test]
fn hash_and_mtime_computes_stable_hash() {
    let files = vec![
        SaveFile { rel_path: "a.txt".to_string(), contents: b"hello".to_vec(), modified: Some(1_700_000_000) },
        SaveFile { rel_path: "b.txt".to_string(), contents: b"world".to_vec(), modified: Some(1_700_000_100) },
    ];
    let (hash, mtime) = save_digest(&files);
    assert!(!hash.is_empty());
    assert!(mtime > 0);
    let (hash2, _) = save_digest(&files);
    assert_eq!(hash, hash2);
}

#[test]
fn save_digest_hashes_paths_and_contents() {
    let files = vec![SaveFile { rel_path: "a".to_string(), contents: b"b".to_vec(), modified: None }];
    let (hash, mtime) = save_digest(&files);
    // SHA-256 of the bytes "a\0b\0".
    assert_eq!(hash, "8fb20ef63ced4145fc2e983ffe597d1dcff39154c3bf21f0fa9dde6a0c50fdc9");
    assert_eq!(hash.len(), 64);
    assert_eq!(mtime, 0);
    let renamed = vec![SaveFile { rel_path: "b".to_string(), contents: b"b".to_vec(), modified: None }];
    assert_ne!(save_digest(&renamed).0, hash);
    let newest = vec![
        SaveFile { rel_path: "x".to_string(), contents: vec![], modified: Some(30) },
        SaveFile { rel_path: "y".to_string(), contents: vec![], modified: Some(10) },
        SaveFile { rel_path: "z".to_string(), contents: vec![], modified: None },
    ];
    assert_eq!(save_digest(&newest).1, 30);
}

#[test]
fn built_in_games_have_exact_templates() {
    let games = built_in_verified_games();
    assert_eq!(games.len(), 5);
    let ids: Vec<&str> = games.iter().map(|g| g.game_id.as_str()).collect();
    assert_eq!(ids, vec!["stardew-valley", "hollow-knight", "celeste", "hades", "terraria"]);
    assert_eq!(games[0].save_paths.templates(Platform::Windows), &vec!["<winAppData>/StardewValley/Saves".to_string()]);
    assert!(games[1].save_paths.templates(Platform::MacOs).is_empty());
    assert!(games[2].save_paths.templates(Platform::Other).is_empty());
}

#[test]
fn with_path_appends_per_platform() {
    let g = VerifiedGame::new("g", "G")
        .with_path(Platform::Linux, "a")
        .with_path(Platform::Linux, "b")
        .with_path(Platform::Windows, "c");
    assert_eq!(g.save_paths.templates(Platform::Linux), &vec!["a".to_string(), "b".to_string()]);
    assert_eq!(g.save_paths.templates(Platform::Windows), &vec!["c".to_string()]);
    assert!(g.save_paths.templates(Platform::MacOs).is_empty());
}

#[test]
fn find_verified_reports_unknown_games() {
    let games = built_in_verified_games();
    assert_eq!(find_verified(&games, "celeste").unwrap(), 2);
    match find_verified(&games, "zelda") {
        Err(BirdError::GameNotFound(id)) => assert_eq!(id, "zelda"),
        other => panic!("unexpected {other:?}"),
    }
}

#[test]
fn watch_names_prefers_given_names() {
    let games = built_in_verified_games();
    let names = watch_names(&games, "celeste", vec!["Celeste.exe".to_string()]).unwrap();
    assert_eq!(names, vec!["Celeste.exe".to_string()]);
    match watch_names(&games, "celeste", vec![]) {
        Err(BirdError::Validation(m)) => assert_eq!(m, "no process names known for celeste"),
        other => panic!("unexpected {other:?}"),
    }
    assert!(matches!(watch_names(&games, "zelda", vec![]), Err(BirdError::GameNotFound(_))));
}

#[test]
fn resolve_template_fills_home_on_linux() {
    let mut dirs = no_dirs(false);
    dirs.home = Some("/home/val".to_string());
    dirs.xdg_data = Some("/home/val/.local/share".to_string());
    assert_eq!(
        resolve_template("<home>/.config/StardewValley/Saves", &dirs).unwrap(),
        "/home/val/.config/StardewValley/Saves"
    );
    assert_eq!(resolve_template("<xdgData>/Terraria", &dirs).unwrap(), "/home/val/.local/share/Terraria");
    // Windows placeholders are left alone elsewhere.
    assert_eq!(resolve_template("<winAppData>/Celeste", &dirs).unwrap(), "<winAppData>/Celeste");
}

#[test]
fn resolve_template_uses_backslashes_on_windows() {
    let mut dirs = no_dirs(true);
    dirs.app_data = Some("C:\\Users\\V\\AppData\\Roaming".to_string());
    dirs.local_app_data = Some("C:\\Users\\V\\AppData\\Local".to_string());
    dirs.local_low = Some("C:\\Users\\V\\AppData\\LocalLow".to_string());
    assert_eq!(
        resolve_template("<winAppData>/StardewValley/Saves", &dirs).unwrap(),
        "C:\\Users\\V\\AppData\\Roaming\\StardewValley\\Saves"
    );
    assert_eq!(
        resolve_template("<winLocalAppData>Low/Team Cherry/Hollow Knight", &dirs).unwrap(),
        "C:\\Users\\V\\AppData\\LocalLow\\Team Cherry\\Hollow Knight"
    );
    assert_eq!(resolve_template("<winLocalLow>/X", &dirs).unwrap(), "C:\\Users\\V\\AppData\\LocalLow\\X");
}

#[test]
fn resolve_template_rejects_install_root() {
    match resolve_template("<root>/saves", &no_dirs(false)) {
        Err(BirdError::Internal(m)) => {
            assert_eq!(m, "<root> placeholder requires game install detection (Phase 12)")
        }
        other => panic!("unexpected {other:?}"),
    }
}

#[test]
fn pick_save_path_takes_first_existing_or_first_failure() {
    let dirs = no_dirs(false);
    let templates = vec!["/a".to_string(), "/b".to_string(), "<root>/c".to_string()];
    let c = resolve_candidates(&templates, &dirs);
    assert_eq!(pick_save_path(c, &vec![false, true, false]).unwrap(), Some("/b".to_string()));
    let c = resolve_candidates(&templates, &dirs);
    assert!(matches!(pick_save_path(c, &vec![false, false, false]), Err(BirdError::Internal(_))));
    let c = resolve_candidates(&vec!["/a".to_string()], &dirs);
    assert_eq!(pick_save_path(c, &vec![false]).unwrap(), None);
}

#[test]
fn discovered_reports_digest() {
    let games = built_in_verified_games();
    let d = discovered(&games[2], Some("/s".to_string()), Some(("abc".to_string(), 5)));
    assert_eq!(d.game_id, "celeste");
    assert_eq!(d.title, "Celeste");
    assert!(d.exists);
    assert_eq!(d.local_hash.as_deref(), Some("abc"));
    assert_eq!(d.local_modified_at, Some(5));
    let d = discovered(&games[2], None, None);
    assert!(!d.exists && d.local_hash.is_none() && d.save_path.is_none());
}

#[test]
fn manifest_staleness() {
    assert!(manifest_is_stale(false, 0));
    assert!(!manifest_is_stale(true, 86_399));
    assert!(manifest_is_stale(true, 86_400));
    assert!(!manifest_is_stale(true, u64::MAX));
}

// ---------------------------------------------------------------------------
// Process matching and the agent
// ---------------------------------------------------------------------------

#[test]
fn case_insensitive_match_with_exe_extension() {
    let backend = ProcessTable {
        processes: vec![entry(1234, "Stardew Valley.exe", Some("C:/games/Stardew Valley.exe"))],
    };
    assert!(backend.find_by_name(&["stardew valley".to_string()]).is_some());
    assert!(backend.find_by_name(&["Stardew Valley.exe".to_string()]).is_some());
}

#[test]
fn find_by_name_reports_first_match() {
    let table = ProcessTable {
        processes: vec![
            entry(1, "bash", None),
            entry(7, "Celeste.exe", Some("C:/g/Celeste.exe")),
            entry(9, "celeste", None),
        ],
    };
    let info = table.find_by_name(&["CELESTE.EXE".to_string()]).unwrap();
    assert_eq!(info.pid, 7);
    assert_eq!(info.name, "Celeste.exe");
    assert_eq!(info.exe.as_deref(), Some("C:/g/Celeste.exe"));
    assert!(table.find_by_name(&["hades".to_string()]).is_none());
    assert!(table.is_running(9));
    assert!(!table.is_running(2));
}

fn summary(events: &[AgentEvent]) -> Vec<(String, String, u32)> {
    events
        .iter()
        .map(|e| match e {
            AgentEvent::Launched { game_id, pid } => ("launched".to_string(), game_id.clone(), *pid),
            AgentEvent::Running { game_id, pid } => ("running".to_string(), game_id.clone(), *pid),
            AgentEvent::Exited { game_id, pid } => ("exited".to_string(), game_id.clone(), *pid),
        })
        .collect()
}

#[test]
fn agent_reports_launch_running_and_delayed_exit() {
    let mut agent = AgentState::new();
    agent.track("celeste".to_string(), vec!["Celeste.exe".to_string()]);
    let running = ProcessTable { processes: vec![entry(42, "Celeste.exe", None)] };
    let gone = ProcessTable { processes: vec![] };

    let ev = agent.scan(&running, 0);
    assert_eq!(summary(&ev), vec![("launched".to_string(), "celeste".to_string(), 42)]);
    let ev = agent.scan(&running, 2000);
    assert_eq!(summary(&ev), vec![("running".to_string(), "celeste".to_string(), 42)]);
    // The process vanishes: nothing is reported until the delay is over, and
    // the game is not launched again while it waits.
    let ev = agent.scan(&gone, 4000);
    assert!(ev.is_empty());
    let ev = agent.scan(&running, 4000 + POST_EXIT_DELAY_MILLIS - 1);
    assert!(ev.is_empty());
    let ev = agent.scan(&gone, 4000 + POST_EXIT_DELAY_MILLIS);
    assert_eq!(summary(&ev), vec![("exited".to_string(), "celeste".to_string(), 42)]);
    // The exit is reported once; a later start is a new launch.
    let ev = agent.scan(&gone, 6000 + POST_EXIT_DELAY_MILLIS);
    assert!(ev.is_empty());
    let ev = agent.scan(&running, 8000 + POST_EXIT_DELAY_MILLIS);
    assert_eq!(summary(&ev), vec![("launched".to_string(), "celeste".to_string(), 42)]);
}

#[test]
fn agent_track_replaces_and_untrack_forgets() {
    let mut agent = AgentState::new();
    agent.track("a".to_string(), vec!["x".to_string()]);
    agent.track("b".to_string(), vec!["y".to_string()]);
    agent.track("a".to_string(), vec!["z".to_string()]);
    let w = agent.watched();
    assert_eq!(w.len(), 2);
    assert!(w.contains(&("a".to_string(), vec!["z".to_string()])));
    agent.untrack("a");
    assert_eq!(agent.watched(), vec![("b".to_string(), vec!["y".to_string()])]);
    let table = ProcessTable { processes: vec![entry(5, "z", None)] };
    assert!(agent.scan(&table, 0).is_empty());
}

// ---------------------------------------------------------------------------
// Flight Home
// ---------------------------------------------------------------------------

#[test]
fn flight_state_strings() {
    assert_eq!(FlightState::Idle.as_str(), "idle");
    assert_eq!(FlightState::Flying.as_str(), "flying");
    assert_eq!(FlightState::ChillyEgg.as_str(), "chilly_egg");
    assert_eq!(FlightState::Error.as_str(), "error");
}

#[test]
fn game_sync_status_for_game_and_default() {
    let s = GameSyncStatus::for_game("hades", FlightState::Flying, "Game launched");
    assert_eq!(s.game_id, "hades");
    assert_eq!(s.state, FlightState::Flying);
    assert_eq!(s.message, "Game launched");
    assert!(s.local_hash.is_none() && s.local_modified_at.is_none());
    let d = GameSyncStatus::default();
    assert_eq!(d.state, FlightState::Idle);
    assert!(d.game_id.is_empty() && d.message.is_empty());
}

#[test]
fn status_reads_last_write() {
    let mut board = StatusBoard::new();
    let s = board.status("celeste");
    assert_eq!((s.state, s.message.as_str()), (FlightState::Idle, "Not watched"));
    board.set_status("celeste", FlightState::Flying, "one".to_string());
    board.set_status("hades", FlightState::Error, "two".to_string());
    board.set_status("celeste", FlightState::Idle, "three".to_string());
    let s = board.status("celeste");
    assert_eq!((s.state, s.message.as_str()), (FlightState::Idle, "three"));
    let s = board.status("hades");
    assert_eq!((s.state, s.message.as_str()), (FlightState::Error, "two"));
    board.remove("celeste");
    assert_eq!(board.status("celeste").message, "Not watched");
    assert_eq!(board.status("hades").message, "two");
}

#[test]
fn watched_games_join_statuses() {
    let mut board = StatusBoard::new();
    board.watching("celeste");
    let w = board.watched_games(vec![
        ("celeste".to_string(), vec!["Celeste.exe".to_string()]),
        ("hades".to_string(), vec!["Hades.exe".to_string()]),
    ]);
    assert_eq!(w.len(), 2);
    assert_eq!(w[0].message, "Watching for game launch");
    assert_eq!(w[0].process_names, vec!["Celeste.exe".to_string()]);
    assert_eq!((w[1].state, w[1].message.as_str()), (FlightState::Idle, ""));
}

#[test]
fn pre_launch_decisions() {
    let mut board = StatusBoard::new();
    board.begin_pre_launch("g");
    assert_eq!(board.status("g").message, "Comparing local save with the Nest...");
    assert_eq!(board.pre_launch_locate("g", Some("/s".to_string()), true).unwrap(), "/s");
    match board.pre_launch_locate("g", Some("/s".to_string()), false) {
        Err(BirdError::SavePathNotFound(p)) => assert_eq!(p, "/s"),
        other => panic!("unexpected {other:?}"),
    }
    assert_eq!(board.status("g").message, "Save path not found: /s");
    assert!(matches!(board.pre_launch_locate("g", None, false), Err(BirdError::GameNotFound(_))));
    assert_eq!(board.status("g").state, FlightState::Error);

    assert!(matches!(board.pre_launch_compared("g", CompareOutcome::Identical, None), Ok(PreLaunchAction::Ready)));
    assert_eq!(board.status("g").message, "Save is already safe in the Nest");
    assert!(matches!(board.pre_launch_compared("g", CompareOutcome::Pull, Some(7)), Ok(PreLaunchAction::Hatch { egg_id: 7 })));
    board.pre_launch_hatched("g");
    assert_eq!(board.status("g").message, "Hatched the latest Egg before launch");
    match board.pre_launch_compared("g", CompareOutcome::Pull, None) {
        Err(BirdError::Sync(m)) => assert_eq!(m, "no Egg to hatch"),
        other => panic!("unexpected {other:?}"),
    }
    assert!(matches!(board.pre_launch_compared("g", CompareOutcome::NoEggs, None), Ok(PreLaunchAction::Ready)));
    assert_eq!(board.status("g").state, FlightState::Flying);
    assert!(matches!(board.pre_launch_compared("g", CompareOutcome::Conflict, None), Ok(PreLaunchAction::AnnounceConflict)));
    assert_eq!(board.status("g").state, FlightState::ChillyEgg);
    let r = board.conflict_result("g").unwrap();
    assert_eq!(r.outcome.as_deref(), Some("conflict"));
    assert_eq!(r.message, "Chilly Egg: both the local save and the Nest have changed");
}

#[test]
fn post_exit_decisions() {
    let mut board = StatusBoard::new();
    board.begin_post_exit("g");
    assert_eq!(board.status("g").message, "Game exited; preparing to lay an Egg...");
    match board.post_exit_locate("g", None, false) {
        Err(BirdError::SavePathNotFound(p)) => assert_eq!(p, "save path for g"),
        other => panic!("unexpected {other:?}"),
    }
    assert!(board.post_exit_locate("g", Some("/s".to_string()), false).is_err());
    assert_eq!(board.status("g").message, "Save path missing after exit");
    match board.post_exit_compared("g", CompareOutcome::Identical, None) {
        Ok(PostExitAction::Finish(r)) => {
            assert_eq!(r.outcome.as_deref(), Some("identical"));
            assert_eq!(r.message, "No changes to upload");
        }
        other => panic!("unexpected {other:?}"),
    }
    assert!(matches!(board.post_exit_compared("g", CompareOutcome::Push, None), Ok(PostExitAction::Lay)));
    assert!(matches!(board.post_exit_compared("g", CompareOutcome::Conflict, None), Ok(PostExitAction::AnnounceConflict(_))));
    let r = board.post_exit_hatched("g");
    assert_eq!(r.outcome.as_deref(), Some("pull"));
    let r = board.post_exit_laid("g");
    assert_eq!((r.state, r.message.as_str()), (FlightState::Idle, "Laid a fresh Egg in the Nest"));
    let r = board.post_exit_queued("g", &BirdError::NotAuthenticated);
    assert_eq!(r.message, "Upload failed; queued for retry: not authenticated");
    assert_eq!(board.status("g").state, FlightState::Error);
    board.phase_failed("g", FlightPhase::PostExit, &BirdError::NotRegistered);
    assert_eq!(
        board.status("g").message,
        "Post-exit sync failed: this device has not been registered as a Bird yet"
    );
}

#[test]
fn resolution_and_restore() {
    let mut board = StatusBoard::new();
    assert_eq!(resolution_hatch(Resolution::Nest, Some(3)).unwrap(), Some(3));
    assert_eq!(resolution_hatch(Resolution::Local, Some(3)).unwrap(), None);
    assert!(matches!(resolution_hatch(Resolution::Nest, None), Err(BirdError::Sync(_))));
    let r = board.resolution_applied("g", Resolution::Nest);
    assert_eq!(r.message, "Conflict resolved: Nest");
    assert_eq!(board.status("g").message, "Pulled the Nest's Egg; ready to play");
    let r = board.resolution_applied("g", Resolution::Local);
    assert_eq!(r.message, "Conflict resolved: Local");
    assert_eq!(board.status("g").message, "Kept the local save");
    let r = board.restored("g");
    assert_eq!(r.outcome.as_deref(), Some("restore"));
    assert!(matches!(require_bird_id(None), Err(BirdError::NotRegistered)));
    assert_eq!(require_bird_id(Some(4)).unwrap(), 4);
    assert_eq!(require_save_path("g", Some("/x".to_string())).unwrap(), "/x");
}

// ---------------------------------------------------------------------------
// Errors, config and the Nest client
// ---------------------------------------------------------------------------

#[test]
fn bird_error_codes_and_messages() {
    let e = BirdError::Nest { status: 409, message: "username already taken".to_string() };
    assert_eq!(e.code(), "nest_error");
    assert_eq!(e.message(), "Nest returned error 409: username already taken");
    assert_eq!(e.user_message(), "username already taken");
    let e = BirdError::GameNotFound("zelda".to_string());
    assert_eq!(e.user_message(), "Unknown game: zelda");
    let p = ErrorPayload::of(&BirdError::NotAuthenticated);
    assert_eq!(p.code, "not_authenticated");
    assert_eq!(p.message, "Please sign in first.");
    let p = ErrorPayload::of(&BirdError::Io("disk full".to_string()));
    assert_eq!(p.message, "io error: disk full");
}

#[test]
fn config_defaults_and_transitions() {
    assert_eq!(default_nest_url(), "http://127.0.0.1:8140");
    assert_eq!(default_platform("linux"), "linux");
    assert_eq!(default_platform("freebsd"), "other");
    assert_eq!(default_bird_name(Some(String::new())), "Unknown Bird");
    assert_eq!(default_bird_name(Some("deck".to_string())), "deck");
    let c = AppConfig::first_run(None, "windows");
    assert_eq!(c.platform, "windows");
    let c = c.signed_in("val".to_string(), None).registered(7, "Deck".to_string());
    assert_eq!(c.flock_username.as_deref(), Some("val"));
    assert_eq!(c.bird_id, Some(7));
    let s = status_response(c, true);
    assert_eq!(s.bird_id.as_deref(), Some("00000000-0000-0000-0000-000000000007"));
    assert!(s.authenticated);
    let c = AppConfig::first_run(None, "linux").signed_in("val".to_string(), Some(1)).signed_out();
    assert!(c.flock_username.is_none() && c.bird_id.is_none());
    assert_eq!(ConfigStore::new("/tmp/config.json".to_string()).path(), "/tmp/config.json");
}

#[test]
fn nest_error_bodies() {
    assert_eq!(nest_error_message(r#"{"error":{"code":"conflict","message":"taken"}}"#), "taken");
    assert_eq!(nest_error_message(r#"{"message":"legacy"}"#), "legacy");
    assert_eq!(nest_error_message("plain text"), "plain text");
    assert!(check_answer(204, "").is_ok());
    match check_answer(401, r#"{"error":{"message":"unauthorized"}}"#) {
        Err(BirdError::Nest { status, message }) => {
            assert_eq!(status, 401);
            assert_eq!(message, "unauthorized");
        }
        other => panic!("unexpected {other:?}"),
    }
}

#[test]
fn client_paths_and_headers() {
    assert_eq!(trim_base_url("http://nest:8140//"), "http://nest:8140");
    assert_eq!(trim_base_url("http://nest"), "http://nest");
    assert_eq!(bearer_header("abc"), "Bearer abc");
    assert_eq!(compare_path("hades"), "/api/clutches/hades/compare");
    assert_eq!(hatch_path("hades", 1), "/api/clutches/hades/hatch/00000000-0000-0000-0000-000000000001");
    assert_eq!(lay_url("http://n", "hades"), "http://n/api/clutches/hades/lay");
    assert_eq!(parse_resolution("nest").unwrap(), Resolution::Nest);
    assert_eq!(parse_resolution("local").unwrap(), Resolution::Local);
    match parse_resolution("Nest") {
        Err(BirdError::Validation(m)) => assert_eq!(m, "resolution must be 'nest' or 'local'"),
        other => panic!("unexpected {other:?}"),
    }
}

#[test]
fn egg_file_names_and_retry_queue() {
    assert_eq!(zip_entry_name("nested\\b.txt"), "nested/b.txt");
    assert_eq!(backup_name(Some("Saves"), 1700), "Saves.nest-bak-1700");
    assert_eq!(backup_name(None, 0), "save.nest-bak-0");
    assert_eq!(queue_entry_name("hades", 1), "hades-00000000-0000-0000-0000-000000000001");
    let up = || Some(QueuedUpload { game_id: "g".to_string(), source_bird_id: 1, file_hash: "h".to_string() });
    assert!(retry_candidate(true, true, true, up()).is_some());
    assert!(retry_candidate(true, false, true, up()).is_none());
    assert!(retry_candidate(false, true, true, up()).is_none());
    assert!(retry_candidate(true, true, true, None).is_none());
}

#[test]
fn matching_ignores_case_and_exe_extension() {
    let table = ProcessTable { processes: vec![entry(3, "HADES.EXE", None)] };
    assert_eq!(table.find_by_name(&["hades".to_string()]).unwrap().pid, 3);
    assert_eq!(table.find_by_name(&["Hades.exe".to_string()]).unwrap().pid, 3);
}

#[test]
fn package_files_hashes_the_archive() {
    let files = vec![
        SaveFile { rel_path: "a.txt".to_string(), contents: b"hello".to_vec(), modified: None },
        SaveFile { rel_path: "nested\\b.txt".to_string(), contents: b"world".to_vec(), modified: None },
    ];
    let (bytes, hash) = nest::forage::package_files(&files).unwrap();
    assert!(!bytes.is_empty());
    assert_eq!(&bytes[..2], b"PK");
    assert_eq!(hash, nest::digest::hash_bytes(&bytes));
    assert_eq!(hash.len(), 64);
}

#[test]
fn package_and_unpack_roundtrip() {
    let files = vec![
        SaveFile { rel_path: "a.txt".to_string(), contents: b"hello".to_vec(), modified: None },
        SaveFile { rel_path: "nested/b.txt".to_string(), contents: b"world".to_vec(), modified: None },
    ];
    let (bytes, hash) = nest::forage::package_files(&files).unwrap();
    assert!(!bytes.is_empty());
    assert!(!hash.is_empty());
    let entries = nest::forage::unpack_egg(&bytes).unwrap();
    assert_eq!(
        entries,
        vec![
            ("a.txt".to_string(), false, b"hello".to_vec()),
            ("nested/b.txt".to_string(), false, b"world".to_vec()),
        ]
    );
}

#[test]
fn packaging_is_deterministic() {
    let files = vec![SaveFile { rel_path: "s.dat".to_string(), contents: vec![1, 2, 3], modified: None }];
    let (a, ha) = nest::forage::package_files(&files).unwrap();
    let (b, hb) = nest::forage::package_files(&files).unwrap();
    assert_eq!(a, b);
    assert_eq!(ha, hb);
}

#[test]
fn unpack_rejects_escaping_names() {
    for bad in ["../evil.txt", "a/../../evil.txt", "/etc/evil", "ok/../b.txt", "..\\evil.txt"] {
        let files = vec![
            SaveFile { rel_path: "fine.txt".to_string(), contents: b"x".to_vec(), modified: None },
            SaveFile { rel_path: bad.to_string(), contents: b"y".to_vec(), modified: None },
        ];
        let (bytes, _) = match nest::forage::package_files(&files) {
            Ok(p) => p,
            Err(_) => continue,
        };
        match nest::forage::unpack_egg(&bytes) {
            Err(nest::client_error::BirdError::Archive(m)) => {
                assert!(m.starts_with("invalid path in archive: "), "{bad}: {m}");
            }
            other => panic!("{bad}: unexpected {other:?}"),
        }
    }
    let files = vec![SaveFile { rel_path: "a..b/c.txt".to_string(), contents: b"z".to_vec(), modified: None }];
    let (bytes, _) = nest::forage::package_files(&files).unwrap();
    assert_eq!(nest::forage::unpack_egg(&bytes).unwrap()[0].0, "a..b/c.txt");
}

#[test]
fn unpack_rejects_bytes_that_are_not_a_zip() {
    assert!(matches!(
        nest::forage::unpack_egg(b"not a zip"),
        Err(nest::client_error::BirdError::Archive(_))
    ));
}

#[test]
fn retried_uploads_leave_the_queue_only_on_success() {
    assert_eq!(after_retry(&Ok::<u32, BirdError>(1)), QueueStep::Remove);
    assert_eq!(after_retry(&Err::<u32, BirdError>(BirdError::Network("down".to_string()))), QueueStep::Keep);
}
