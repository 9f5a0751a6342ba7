//! Flight Home: the Bird-side sync lifecycle.
//!
//! The engine keeps one status per game on a [`StatusBoard`]. Each phase of
//! the lifecycle (pre-launch compare, post-exit lay, conflict resolution,
//! restore) is a method that takes what the outside world reported (the
//! located save folder, the Nest's compare answer, whether an upload went
//! through), records the resulting status, and says what to do next. The
//! caller performs the network and file work in between.
use vstd::prelude::*;

use crate::api::{CompareOutcome, Resolution};
use crate::client_error::{bird_message_of, BirdError};
use crate::ids::{uuid_text, uuid_to_string};
use crate::text::{concat, str_eq};

verus! {

broadcast use vstd::string::group_string_axioms;

/// Current high-level state of a tracked game.
#[derive(Debug, Clone, Copy, PartialEq, Eq, Structural)]
pub enum FlightState {
    Idle,
    Flying,
    ChillyEgg,
    Error,
}

/// The wire spelling of a flight state.
pub open spec fn flight_state_text(s: FlightState) -> Seq<char> {
    match s {
        FlightState::Idle => "idle"@,
        FlightState::Flying => "flying"@,
        FlightState::ChillyEgg => "chilly_egg"@,
        FlightState::Error => "error"@,
    }
}

impl FlightState {
    pub fn as_str(&self) -> (s: &'static str)
        ensures
            s@ == flight_state_text(*self),
    {
        match self {
            FlightState::Idle => "idle",
            FlightState::Flying => "flying",
            FlightState::ChillyEgg => "chilly_egg",
            FlightState::Error => "error",
        }
    }
}

/// Per-game sync status returned to the frontend.
#[derive(Debug)]
pub struct GameSyncStatus {
    pub game_id: String,
    pub state: FlightState,
    pub message: String,
    pub local_hash: Option<String>,
    pub local_modified_at: Option<i64>,
}

impl Default for GameSyncStatus {
    fn default() -> (r: Self)
        ensures
            r.game_id@ == Seq::<char>::empty(),
            r.state == FlightState::Idle,
            r.message@ == Seq::<char>::empty(),
            r.local_hash is None,
            r.local_modified_at is None,
    {
        GameSyncStatus {
            game_id: String::new(),
            state: FlightState::Idle,
            message: String::new(),
            local_hash: None,
            local_modified_at: None,
        }
    }
}

impl Clone for GameSyncStatus {
    fn clone(&self) -> (r: Self)
        ensures
            r == *self,
    {
        GameSyncStatus {
            game_id: self.game_id.clone(),
            state: self.state,
            message: self.message.clone(),
            local_hash: match &self.local_hash {
                Some(h) => Some(h.clone()),
                None => None,
            },
            local_modified_at: self.local_modified_at,
        }
    }
}

impl GameSyncStatus {
    /// A status for `game_id` with no local save details.
    pub fn for_game(game_id: &str, state: FlightState, message: &str) -> (r: Self)
        ensures
            r.game_id@ == game_id@,
            r.state == state,
            r.message@ == message@,
            r.local_hash is None,
            r.local_modified_at is None,
    {
        GameSyncStatus {
            game_id: game_id.to_string(),
            state,
            message: message.to_string(),
            local_hash: None,
            local_modified_at: None,
        }
    }
}

/// Result of a manual sync attempt.
#[derive(Debug)]
pub struct SyncResult {
    pub game_id: String,
    pub outcome: Option<String>,
    pub state: FlightState,
    pub message: String,
}

/// A game currently watched by the Feather Agent.
#[derive(Debug)]
pub struct WatchedGame {
    pub game_id: String,
    pub process_names: Vec<String>,
    pub state: FlightState,
    pub message: String,
}

/// A `SyncResult` with the given parts, as plain values.
pub open spec fn result_is(
    r: SyncResult,
    game_id: Seq<char>,
    outcome: Seq<char>,
    state: FlightState,
    message: Seq<char>,
) -> bool {
    &&& r.game_id@ == game_id
    &&& r.outcome matches Some(o) && o@ == outcome
    &&& r.state == state
    &&& r.message@ == message
}

fn sync_result(game_id: &str, outcome: &str, state: FlightState, message: &str) -> (r: SyncResult)
    ensures
        result_is(r, game_id@, outcome@, state, message@),
{
    SyncResult {
        game_id: game_id.to_string(),
        outcome: Some(outcome.to_string()),
        state,
        message: message.to_string(),
    }
}

/// What the status board answers for `game_id`: its recorded state and
/// message, or "Not watched" while idle when nothing is recorded.
pub open spec fn status_of(board: Map<Seq<char>, (FlightState, Seq<char>)>, game_id: Seq<char>) -> (
    FlightState,
    Seq<char>,
) {
    if board.contains_key(game_id) {
        board[game_id]
    } else {
        (FlightState::Idle, "Not watched"@)
    }
}

/// The debug spelling of a resolution, as shown in messages.
pub open spec fn resolution_text(r: Resolution) -> Seq<char> {
    match r {
        Resolution::Nest => "Nest"@,
        Resolution::Local => "Local"@,
    }
}

/// The error for a game whose save folder could not be resolved at all.
pub open spec fn no_save_path_error(game_id: Seq<char>) -> Seq<char> {
    "save path for "@ + game_id
}

/// How a watched game appears next to the board: its id and process names,
/// with its recorded status, or idle with an empty message.
pub open spec fn shows_watched(
    board: Map<Seq<char>, (FlightState, Seq<char>)>,
    watched: (String, Vec<String>),
    w: WatchedGame,
) -> bool {
    let g = watched.0@;
    &&& w.game_id@ == g
    &&& w.process_names@ == watched.1@
    &&& if board.contains_key(g) {
        (w.state, w.message@) == board[g]
    } else {
        w.state == FlightState::Idle && w.message@ == Seq::<char>::empty()
    }
}

/// The sync statuses of all games, keyed by game id.
pub struct StatusBoard {
    entries: Vec<(String, FlightState, String)>,
}

/// What the pre-launch phase does once the Nest has answered.
#[derive(Debug)]
pub enum PreLaunchAction {
    /// Nothing more to do before launch.
    Ready,
    /// Download this Egg and replace the save folder with it, then report
    /// it with `pre_launch_hatched`.
    Hatch { egg_id: u128 },
    /// Tell the frontend about the conflict.
    AnnounceConflict,
}

/// What the post-exit phase does once the Nest has answered.
#[derive(Debug)]
pub enum PostExitAction {
    /// The phase is over with this result.
    Finish(SyncResult),
    /// The phase is over with this result; tell the frontend about the conflict.
    AnnounceConflict(SyncResult),
    /// Download this Egg and replace the save folder with it, then report
    /// it with `post_exit_hatched`.
    Hatch { egg_id: u128 },
    /// Package the save folder and lay it as a new Egg.
    Lay,
}

/// Which phase an agent event started.
#[derive(Debug, Clone, Copy, PartialEq, Eq, Structural)]
pub enum FlightPhase {
    PreLaunch,
    PostExit,
}

impl StatusBoard {
    /// The board as a map from game id to state and message.
    pub closed spec fn view(&self) -> Map<Seq<char>, (FlightState, Seq<char>)> {
        Map::new(
            |g: Seq<char>| exists|i: int| 0 <= i < self.entries@.len() && #[trigger] self.entries@[i].0@ == g,
            |g: Seq<char>| {
                let i = choose|i: int| 0 <= i < self.entries@.len() && #[trigger] self.entries@[i].0@ == g;
                (self.entries@[i].1, self.entries@[i].2@)
            },
        )
    }

    /// Each game has at most one entry.
    pub closed spec fn wf(&self) -> bool {
        forall|i: int, j: int|
            0 <= i < j < self.entries@.len() ==> self.entries@[i].0@ != self.entries@[j].0@
    }

    proof fn lemma_entry(&self, i: int)
        requires
            self.wf(),
            0 <= i < self.entries@.len(),
        ensures
            self.view().contains_key(self.entries@[i].0@),
            self.view()[self.entries@[i].0@] == (self.entries@[i].1, self.entries@[i].2@),
    {
        let g = self.entries@[i].0@;
        assert(self.view().dom().contains(g));
        let j = choose|j: int| 0 <= j < self.entries@.len() && #[trigger] self.entries@[j].0@ == g;
        assert(i == j);
    }

    pub fn new() -> (b: Self)
        ensures
            b.wf(),
            b.view() == Map::<Seq<char>, (FlightState, Seq<char>)>::empty(),
    {
        let b = StatusBoard { entries: Vec::new() };
        assert(b.view() =~= Map::<Seq<char>, (FlightState, Seq<char>)>::empty());
        b
    }

    /// Index of `game_id`'s entry, if any.
    fn find(&self, game_id: &str) -> (r: Option<usize>)
        requires
            self.wf(),
        ensures
            match r {
                Some(i) => i < self.entries@.len() && self.entries@[i as int].0@ == game_id@,
                None => forall|i: int|
                    0 <= i < self.entries@.len() ==> self.entries@[i].0@ != game_id@,
            },
            r is None <==> !self.view().contains_key(game_id@),
    {
        let mut i: usize = 0;
        while i < self.entries.len()
            invariant
                self.wf(),
                i <= self.entries@.len(),
                forall|j: int| 0 <= j < i ==> self.entries@[j].0@ != game_id@,
            decreases self.entries@.len() - i,
        {
            if str_eq(self.entries[i].0.as_str(), game_id) {
                proof {
                    self.lemma_entry(i as int);
                }
                return Some(i);
            }
            i = i + 1;
        }
        None
    }

    /// Record `state` and `message` for `game_id`.
    pub fn set_status(&mut self, game_id: &str, state: FlightState, message: String)
        requires
            old(self).wf(),
        ensures
            final(self).wf(),
            final(self).view() == old(self).view().insert(game_id@, (state, message@)),
    {
        let ghost before = *self;
        let ghost msg = message@;
        let found = self.find(game_id);
        match found {
            Some(i) => {
                self.entries.set(i, (game_id.to_string(), state, message));
            },
            None => {
                self.entries.push((game_id.to_string(), state, message));
            },
        }
        proof {
            let after = *self;
            let k: int = match found {
                Some(i) => i as int,
                None => before.entries@.len() as int,
            };
            assert forall|i: int, j: int|
                0 <= i < j < after.entries@.len() implies after.entries@[i].0@
                != after.entries@[j].0@ by {
                if i != k {
                    assert(after.entries@[i] == before.entries@[i]);
                }
                if j != k {
                    assert(after.entries@[j] == before.entries@[j]);
                }
            }
            let expect = before.view().insert(game_id@, (state, msg));
            assert forall|g: Seq<char>| #[trigger] after.view().contains_key(g) <==> expect.contains_key(g) by {
                if after.view().contains_key(g) {
                    let j = choose|j: int| 0 <= j < after.entries@.len() && #[trigger] after.entries@[j].0@ == g;
                    if j != k {
                        assert(after.entries@[j] == before.entries@[j]);
                        before.lemma_entry(j);
                    }
                }
                if expect.contains_key(g) && g != game_id@ {
                    let j = choose|j: int| 0 <= j < before.entries@.len() && #[trigger] before.entries@[j].0@ == g;
                    assert(j != k);
                    assert(after.entries@[j] == before.entries@[j]);
                    after.lemma_entry(j);
                }
                if g == game_id@ {
                    after.lemma_entry(k);
                }
            }
            assert forall|g: Seq<char>| #[trigger] after.view().contains_key(g) implies after.view()[g] == expect[g] by {
                if g == game_id@ {
                    after.lemma_entry(k);
                } else {
                    let j = choose|j: int| 0 <= j < after.entries@.len() && #[trigger] after.entries@[j].0@ == g;
                    assert(j != k);
                    assert(after.entries@[j] == before.entries@[j]);
                    after.lemma_entry(j);
                    before.lemma_entry(j);
                }
            }
            assert(after.view() =~= expect);
        }
    }

    /// Forget `game_id`'s status.
    pub fn remove(&mut self, game_id: &str)
        requires
            old(self).wf(),
        ensures
            final(self).wf(),
            final(self).view() == old(self).view().remove(game_id@),
    {
        let ghost before = *self;
        let found = self.find(game_id);
        if let Some(i) = found {
            let _ = self.entries.remove(i);
            proof {
                let after = *self;
                let k = i as int;
                assert forall|j: int| 0 <= j < after.entries@.len() implies #[trigger] after.entries@[j]
                    == before.entries@[if j < k { j } else { j + 1 }] by {}
                assert forall|a: int, b: int|
                    0 <= a < b < after.entries@.len() implies after.entries@[a].0@
                    != after.entries@[b].0@ by {
                    let a2 = if a < k { a } else { a + 1 };
                    let b2 = if b < k { b } else { b + 1 };
                    assert(after.entries@[a] == before.entries@[a2]);
                    assert(after.entries@[b] == before.entries@[b2]);
                }
                let expect = before.view().remove(game_id@);
                assert forall|g: Seq<char>| #[trigger] after.view().contains_key(g) <==> expect.contains_key(g) by {
                    if after.view().contains_key(g) {
                        let j = choose|j: int| 0 <= j < after.entries@.len() && #[trigger] after.entries@[j].0@ == g;
                        let j2 = if j < k { j } else { j + 1 };
                        assert(after.entries@[j] == before.entries@[j2]);
                        before.lemma_entry(j2);
                        assert(j2 != k);
                    }
                    if expect.contains_key(g) {
                        let j = choose|j: int| 0 <= j < before.entries@.len() && #[trigger] before.entries@[j].0@ == g;
                        assert(j != k);
                        let j1 = if j < k { j } else { j - 1 };
                        assert(after.entries@[j1] == before.entries@[j]);
                        after.lemma_entry(j1);
                    }
                }
                assert forall|g: Seq<char>| #[trigger] after.view().contains_key(g) implies after.view()[g] == expect[g] by {
                    let j = choose|j: int| 0 <= j < after.entries@.len() && #[trigger] after.entries@[j].0@ == g;
                    let j2 = if j < k { j } else { j + 1 };
                    assert(after.entries@[j] == before.entries@[j2]);
                    after.lemma_entry(j);
                    before.lemma_entry(j2);
                }
                assert(after.view() =~= expect);
            }
        } else {
            assert(before.view().remove(game_id@) =~= before.view());
        }
    }

    /// The recorded state and message of `game_id`, if any.
    pub fn lookup(&self, game_id: &str) -> (r: Option<(FlightState, String)>)
        requires
            self.wf(),
        ensures
            match r {
                Some((s, m)) => self.view().contains_key(game_id@) && self.view()[game_id@] == (s, m@),
                None => !self.view().contains_key(game_id@),
            },
    {
        match self.find(game_id) {
            Some(i) => {
                proof {
                    self.lemma_entry(i as int);
                }
                Some((self.entries[i].1, self.entries[i].2.clone()))
            },
            None => None,
        }
    }

    /// The status shown for `game_id`; "Not watched" when nothing is recorded.
    pub fn status(&self, game_id: &str) -> (r: GameSyncStatus)
        requires
            self.wf(),
        ensures
            r.game_id@ == game_id@,
            (r.state, r.message@) == status_of(self.view(), game_id@),
            r.local_hash is None,
            r.local_modified_at is None,
    {
        match self.lookup(game_id) {
            Some((state, message)) => GameSyncStatus::for_game(game_id, state, message.as_str()),
            None => GameSyncStatus::for_game(game_id, FlightState::Idle, "Not watched"),
        }
    }

    /// The watched games with their statuses; a game with nothing recorded
    /// shows as idle with an empty message.
    pub fn watched_games(&self, watched: Vec<(String, Vec<String>)>) -> (r: Vec<WatchedGame>)
        requires
            self.wf(),
        ensures
            r@.len() == watched@.len(),
            forall|i: int|
                0 <= i < r@.len() ==> shows_watched(self.view(), watched@[i], #[trigger] r@[i]),
    {
        let mut out: Vec<WatchedGame> = Vec::new();
        let ghost w = watched@;
        let mut rest = watched;
        let n = rest.len();
        let mut k: usize = 0;
        while k < n
            invariant
                self.wf(),
                n == w.len(),
                k <= n,
                rest@ == w.skip(k as int),
                out@.len() == k,
                forall|i: int| 0 <= i < k ==> shows_watched(self.view(), w[i], #[trigger] out@[i]),
            decreases n - k,
        {
            let entry = rest.remove(0);
            assert(entry == w[k as int]);
            assert(w.skip(k + 1) =~= w.skip(k as int).remove(0));
            let (game_id, process_names) = entry;
            let (state, message) = match self.lookup(game_id.as_str()) {
                Some((s, m)) => (s, m),
                None => (FlightState::Idle, String::new()),
            };
            out.push(WatchedGame { game_id, process_names, state, message });
            assert(shows_watched(self.view(), w[k as int], out@[k as int]));
            k = k + 1;
        }
        out
    }

    // -----------------------------------------------------------------------
    // Watching
    // -----------------------------------------------------------------------

    /// A game has just been put under watch.
    pub fn watching(&mut self, game_id: &str)
        requires
            old(self).wf(),
        ensures
            final(self).wf(),
            final(self).view() == old(self).view().insert(
                game_id@,
                (FlightState::Idle, "Watching for game launch"@),
            ),
    {
        self.set_status(game_id, FlightState::Idle, "Watching for game launch".to_string());
    }

    // -----------------------------------------------------------------------
    // Pre-launch ("Leaving the Branch")
    // -----------------------------------------------------------------------

    /// The pre-launch compare begins.
    pub fn begin_pre_launch(&mut self, game_id: &str)
        requires
            old(self).wf(),
        ensures
            final(self).wf(),
            final(self).view() == old(self).view().insert(
                game_id@,
                (FlightState::Flying, "Comparing local save with the Nest..."@),
            ),
    {
        self.set_status(
            game_id,
            FlightState::Flying,
            "Comparing local save with the Nest...".to_string(),
        );
    }

    /// Check the located save folder before launch: it must be known and
    /// exist on disk. A failure is recorded on the board.
    pub fn pre_launch_locate(&mut self, game_id: &str, save_path: Option<String>, exists: bool) -> (r:
        Result<String, BirdError>)
        requires
            old(self).wf(),
        ensures
            final(self).wf(),
            match save_path {
                Some(p) if exists => r matches Ok(q) && q@ == p@ && final(self).view() == old(self).view(),
                Some(p) => r matches Err(BirdError::SavePathNotFound(q)) && q@ == p@ && final(self).view() == old(self).view().insert(
                    game_id@,
                    (FlightState::Error, "Save path not found: "@ + p@),
                ),
                None => r matches Err(BirdError::GameNotFound(g)) && g@ == game_id@ && final(self).view() == old(self).view().insert(
                    game_id@,
                    (FlightState::Error, "No save path for this game"@),
                ),
            },
    {
        match save_path {
            Some(p) => {
                if exists {
                    Ok(p)
                } else {
                    self.set_status(
                        game_id,
                        FlightState::Error,
                        concat("Save path not found: ", p.as_str()),
                    );
                    Err(BirdError::SavePathNotFound(p))
                }
            },
            None => {
                self.set_status(
                    game_id,
                    FlightState::Error,
                    "No save path for this game".to_string(),
                );
                Err(BirdError::GameNotFound(game_id.to_string()))
            },
        }
    }

    /// Act on the Nest's compare answer before launch. `latest_egg` is the
    /// id of the Nest's latest Egg, if it named one.
    pub fn pre_launch_compared(
        &mut self,
        game_id: &str,
        outcome: CompareOutcome,
        latest_egg: Option<u128>,
    ) -> (r: Result<PreLaunchAction, BirdError>)
        requires
            old(self).wf(),
        ensures
            final(self).wf(),
            match outcome {
                CompareOutcome::Identical => r matches Ok(PreLaunchAction::Ready) && final(self).view() == old(self).view().insert(
                    game_id@,
                    (FlightState::Idle, "Save is already safe in the Nest"@),
                ),
                CompareOutcome::Pull => match latest_egg {
                    Some(id) => r matches Ok(PreLaunchAction::Hatch { egg_id }) && egg_id == id
                        && final(self).view() == old(self).view(),
                    None => r matches Err(BirdError::Sync(m)) && m@ == "no Egg to hatch"@ && final(self).view() == old(self).view().insert(
                        game_id@,
                        (FlightState::Error, "Pull requested but no Egg found"@),
                    ),
                },
                CompareOutcome::Push | CompareOutcome::NoEggs => r matches Ok(PreLaunchAction::Ready)
                    && final(self).view() == old(self).view().insert(
                    game_id@,
                    (FlightState::Flying, "Local save is newer; will lay an Egg after exit"@),
                ),
                CompareOutcome::Conflict => r matches Ok(PreLaunchAction::AnnounceConflict) && final(self).view() == old(self).view().insert(
                    game_id@,
                    (
                        FlightState::ChillyEgg,
                        "Chilly Egg: both the local save and the Nest have changed"@,
                    ),
                ),
            },
    {
        match outcome {
            CompareOutcome::Identical => {
                self.set_status(
                    game_id,
                    FlightState::Idle,
                    "Save is already safe in the Nest".to_string(),
                );
                Ok(PreLaunchAction::Ready)
            },
            CompareOutcome::Pull => match latest_egg {
                Some(id) => Ok(PreLaunchAction::Hatch { egg_id: id }),
                None => {
                    self.set_status(
                        game_id,
                        FlightState::Error,
                        "Pull requested but no Egg found".to_string(),
                    );
                    Err(BirdError::Sync("no Egg to hatch".to_string()))
                },
            },
            CompareOutcome::Push | CompareOutcome::NoEggs => {
                self.set_status(
                    game_id,
                    FlightState::Flying,
                    "Local save is newer; will lay an Egg after exit".to_string(),
                );
                Ok(PreLaunchAction::Ready)
            },
            CompareOutcome::Conflict => {
                self.set_status(
                    game_id,
                    FlightState::ChillyEgg,
                    "Chilly Egg: both the local save and the Nest have changed".to_string(),
                );
                Ok(PreLaunchAction::AnnounceConflict)
            },
        }
    }

    /// The Nest's latest Egg replaced the save folder before launch.
    pub fn pre_launch_hatched(&mut self, game_id: &str)
        requires
            old(self).wf(),
        ensures
            final(self).wf(),
            final(self).view() == old(self).view().insert(
                game_id@,
                (FlightState::Idle, "Hatched the latest Egg before launch"@),
            ),
    {
        self.set_status(
            game_id,
            FlightState::Idle,
            "Hatched the latest Egg before launch".to_string(),
        );
    }

    // -----------------------------------------------------------------------
    // Post-exit ("Laying a New Egg")
    // -----------------------------------------------------------------------

    /// The post-exit phase begins.
    pub fn begin_post_exit(&mut self, game_id: &str)
        requires
            old(self).wf(),
        ensures
            final(self).wf(),
            final(self).view() == old(self).view().insert(
                game_id@,
                (FlightState::Flying, "Game exited; preparing to lay an Egg..."@),
            ),
    {
        self.set_status(
            game_id,
            FlightState::Flying,
            "Game exited; preparing to lay an Egg...".to_string(),
        );
    }

    /// Check the located save folder after exit. An unknown folder fails
    /// without a status; a vanished one is recorded on the board.
    pub fn post_exit_locate(&mut self, game_id: &str, save_path: Option<String>, exists: bool) -> (r:
        Result<String, BirdError>)
        requires
            old(self).wf(),
        ensures
            final(self).wf(),
            match save_path {
                Some(p) if exists => r matches Ok(q) && q@ == p@ && final(self).view() == old(self).view(),
                Some(p) => r matches Err(BirdError::SavePathNotFound(q)) && q@ == p@ && final(self).view() == old(self).view().insert(
                    game_id@,
                    (FlightState::Error, "Save path missing after exit"@),
                ),
                None => r matches Err(BirdError::SavePathNotFound(q)) && q@ == no_save_path_error(
                    game_id@,
                ) && final(self).view() == old(self).view(),
            },
    {
        match require_save_path(game_id, save_path) {
            Err(e) => Err(e),
            Ok(p) => {
                if exists {
                    Ok(p)
                } else {
                    self.set_status(
                        game_id,
                        FlightState::Error,
                        "Save path missing after exit".to_string(),
                    );
                    Err(BirdError::SavePathNotFound(p))
                }
            },
        }
    }

    /// Act on the Nest's compare answer after exit.
    pub fn post_exit_compared(
        &mut self,
        game_id: &str,
        outcome: CompareOutcome,
        latest_egg: Option<u128>,
    ) -> (r: Result<PostExitAction, BirdError>)
        requires
            old(self).wf(),
        ensures
            final(self).wf(),
            match outcome {
                CompareOutcome::Identical => r matches Ok(PostExitAction::Finish(res)) && result_is(
                    res,
                    game_id@,
                    "identical"@,
                    FlightState::Idle,
                    "No changes to upload"@,
                ) && final(self).view() == old(self).view().insert(
                    game_id@,
                    (FlightState::Idle, "No changes to upload"@),
                ),
                CompareOutcome::Pull => match latest_egg {
                    Some(id) => r matches Ok(PostExitAction::Hatch { egg_id }) && egg_id == id
                        && final(self).view() == old(self).view(),
                    None => r matches Err(BirdError::Sync(m)) && m@ == "no Egg to hatch"@ && final(self).view() == old(self).view().insert(
                        game_id@,
                        (FlightState::Error, "Pull requested but no Egg found"@),
                    ),
                },
                CompareOutcome::Conflict => r matches Ok(PostExitAction::AnnounceConflict(res))
                    && result_is(
                    res,
                    game_id@,
                    "conflict"@,
                    FlightState::ChillyEgg,
                    "Chilly Egg: conflict detected after exit"@,
                ) && final(self).view() == old(self).view().insert(
                    game_id@,
                    (FlightState::ChillyEgg, "Chilly Egg: conflict detected after exit"@),
                ),
                CompareOutcome::Push | CompareOutcome::NoEggs => r matches Ok(PostExitAction::Lay)
                    && final(self).view() == old(self).view(),
            },
    {
        match outcome {
            CompareOutcome::Identical => {
                self.set_status(game_id, FlightState::Idle, "No changes to upload".to_string());
                Ok(
                    PostExitAction::Finish(
                        sync_result(game_id, "identical", FlightState::Idle, "No changes to upload"),
                    ),
                )
            },
            CompareOutcome::Pull => match latest_egg {
                Some(id) => Ok(PostExitAction::Hatch { egg_id: id }),
                None => {
                    self.set_status(
                        game_id,
                        FlightState::Error,
                        "Pull requested but no Egg found".to_string(),
                    );
                    Err(BirdError::Sync("no Egg to hatch".to_string()))
                },
            },
            CompareOutcome::Conflict => {
                self.set_status(
                    game_id,
                    FlightState::ChillyEgg,
                    "Chilly Egg: conflict detected after exit".to_string(),
                );
                Ok(
                    PostExitAction::AnnounceConflict(
                        sync_result(
                            game_id,
                            "conflict",
                            FlightState::ChillyEgg,
                            "Chilly Egg: conflict detected after exit",
                        ),
                    ),
                )
            },
            CompareOutcome::Push | CompareOutcome::NoEggs => Ok(PostExitAction::Lay),
        }
    }

    /// The Nest's newer Egg replaced the save folder after exit.
    pub fn post_exit_hatched(&mut self, game_id: &str) -> (r: SyncResult)
        requires
            old(self).wf(),
        ensures
            final(self).wf(),
            final(self).view() == old(self).view().insert(
                game_id@,
                (FlightState::Idle, "Pulled newer Egg from the Nest"@),
            ),
            result_is(r, game_id@, "pull"@, FlightState::Idle, "Pulled newer Egg from the Nest"@),
    {
        self.set_status(game_id, FlightState::Idle, "Pulled newer Egg from the Nest".to_string());
        sync_result(game_id, "pull", FlightState::Idle, "Pulled newer Egg from the Nest")
    }

    /// The new Egg was laid in the Nest.
    pub fn post_exit_laid(&mut self, game_id: &str) -> (r: SyncResult)
        requires
            old(self).wf(),
        ensures
            final(self).wf(),
            final(self).view() == old(self).view().insert(
                game_id@,
                (FlightState::Idle, "Laid a fresh Egg in the Nest"@),
            ),
            result_is(r, game_id@, "lay"@, FlightState::Idle, "Laid a fresh Egg in the Nest"@),
    {
        self.set_status(game_id, FlightState::Idle, "Laid a fresh Egg in the Nest".to_string());
        sync_result(game_id, "lay", FlightState::Idle, "Laid a fresh Egg in the Nest")
    }

    /// The upload failed with `err` and was put in the retry queue.
    pub fn post_exit_queued(&mut self, game_id: &str, err: &BirdError) -> (r: SyncResult)
        requires
            old(self).wf(),
        ensures
            final(self).wf(),
            final(self).view() == old(self).view().insert(
                game_id@,
                (FlightState::Error, "Upload failed; queued for retry: "@ + bird_message_of(*err)),
            ),
            result_is(
                r,
                game_id@,
                "queued"@,
                FlightState::Error,
                "Upload failed; queued for retry: "@ + bird_message_of(*err),
            ),
    {
        let message = concat("Upload failed; queued for retry: ", err.message().as_str());
        let r = sync_result(game_id, "queued", FlightState::Error, message.as_str());
        self.set_status(game_id, FlightState::Error, message);
        r
    }

    /// After a pre-launch compare, the result a one-shot sync stops with when
    /// the game is in conflict; `None` when the sync goes on to the post-exit
    /// phase.
    pub fn conflict_result(&self, game_id: &str) -> (r: Option<SyncResult>)
        requires
            self.wf(),
        ensures
            r is Some <==> status_of(self.view(), game_id@).0 == FlightState::ChillyEgg,
            r matches Some(res) ==> result_is(
                res,
                game_id@,
                "conflict"@,
                FlightState::ChillyEgg,
                status_of(self.view(), game_id@).1,
            ),
    {
        let status = self.status(game_id);
        if status.state == FlightState::ChillyEgg {
            Some(sync_result(game_id, "conflict", status.state, status.message.as_str()))
        } else {
            None
        }
    }

    // -----------------------------------------------------------------------
    // Conflict resolution and restore
    // -----------------------------------------------------------------------

    /// The chosen version of a conflict is in place.
    pub fn resolution_applied(&mut self, game_id: &str, resolution: Resolution) -> (r: SyncResult)
        requires
            old(self).wf(),
        ensures
            final(self).wf(),
            final(self).view() == old(self).view().insert(
                game_id@,
                (
                    FlightState::Idle,
                    match resolution {
                        Resolution::Nest => "Pulled the Nest's Egg; ready to play"@,
                        Resolution::Local => "Kept the local save"@,
                    },
                ),
            ),
            result_is(
                r,
                game_id@,
                "resolved"@,
                FlightState::Idle,
                "Conflict resolved: "@ + resolution_text(resolution),
            ),
    {
        let label = match resolution {
            Resolution::Nest => {
                self.set_status(
                    game_id,
                    FlightState::Idle,
                    "Pulled the Nest's Egg; ready to play".to_string(),
                );
                "Conflict resolved: Nest"
            },
            Resolution::Local => {
                self.set_status(game_id, FlightState::Idle, "Kept the local save".to_string());
                "Conflict resolved: Local"
            },
        };
        proof {
            reveal_strlit("Conflict resolved: Nest");
            reveal_strlit("Conflict resolved: Local");
            reveal_strlit("Conflict resolved: ");
            reveal_strlit("Nest");
            reveal_strlit("Local");
            assert("Conflict resolved: Nest"@ =~= "Conflict resolved: "@ + "Nest"@);
            assert("Conflict resolved: Local"@ =~= "Conflict resolved: "@ + "Local"@);
        }
        sync_result(game_id, "resolved", FlightState::Idle, label)
    }

    /// A chosen Egg replaced the save folder.
    pub fn restored(&mut self, game_id: &str) -> (r: SyncResult)
        requires
            old(self).wf(),
        ensures
            final(self).wf(),
            final(self).view() == old(self).view().insert(
                game_id@,
                (FlightState::Idle, "Restored the selected Egg"@),
            ),
            result_is(r, game_id@, "restore"@, FlightState::Idle, "Restored the selected Egg"@),
    {
        self.set_status(game_id, FlightState::Idle, "Restored the selected Egg".to_string());
        sync_result(game_id, "restore", FlightState::Idle, "Restored the selected Egg")
    }

    /// A phase started by an agent event failed with `err`.
    pub fn phase_failed(&mut self, game_id: &str, phase: FlightPhase, err: &BirdError)
        requires
            old(self).wf(),
        ensures
            final(self).wf(),
            final(self).view() == old(self).view().insert(
                game_id@,
                (
                    FlightState::Error,
                    match phase {
                        FlightPhase::PreLaunch => "Pre-launch sync failed: "@,
                        FlightPhase::PostExit => "Post-exit sync failed: "@,
                    } + bird_message_of(*err),
                ),
            ),
    {
        let prefix = match phase {
            FlightPhase::PreLaunch => "Pre-launch sync failed: ",
            FlightPhase::PostExit => "Post-exit sync failed: ",
        };
        self.set_status(game_id, FlightState::Error, concat(prefix, err.message().as_str()));
    }
}

/// A status read right after a write shows what was written; a write for one
/// game leaves every other game's status as it was; a game whose status was
/// removed reads as idle and "Not watched".
pub proof fn lemma_status_reads_last_write(
    board: Map<Seq<char>, (FlightState, Seq<char>)>,
    game_id: Seq<char>,
    other: Seq<char>,
    state: FlightState,
    message: Seq<char>,
)
    ensures
        status_of(board.insert(game_id, (state, message)), game_id) == (state, message),
        other != game_id ==> status_of(board.insert(game_id, (state, message)), other)
            == status_of(board, other),
        status_of(board.remove(game_id), game_id) == (FlightState::Idle, "Not watched"@),
        other != game_id ==> status_of(board.remove(game_id), other) == status_of(board, other),
{
}

/// The save folder of a game, or the error for one that has none.
pub fn require_save_path(game_id: &str, save_path: Option<String>) -> (r: Result<String, BirdError>)
    ensures
        match save_path {
            Some(p) => r matches Ok(q) && q@ == p@,
            None => r matches Err(BirdError::SavePathNotFound(q)) && q@ == no_save_path_error(
                game_id@,
            ),
        },
{
    match save_path {
        Some(p) => Ok(p),
        None => Err(BirdError::SavePathNotFound(concat("save path for ", game_id))),
    }
}

/// The Egg to download for a conflict resolution: the baseline Egg when the
/// Nest's version is kept (an error if the Nest named none), nothing when
/// the local save is kept.
pub fn resolution_hatch(resolution: Resolution, baseline_egg: Option<u128>) -> (r: Result<
    Option<u128>,
    BirdError,
>)
    ensures
        match resolution {
            Resolution::Nest => match baseline_egg {
                Some(id) => r == Ok::<Option<u128>, BirdError>(Some(id)),
                None => r matches Err(BirdError::Sync(m)) && m@
                    == "Nest resolution returned no baseline Egg"@,
            },
            Resolution::Local => r == Ok::<Option<u128>, BirdError>(None),
        },
{
    match resolution {
        Resolution::Nest => match baseline_egg {
            Some(id) => Ok(Some(id)),
            None => Err(BirdError::Sync("Nest resolution returned no baseline Egg".to_string())),
        },
        Resolution::Local => Ok(None),
    }
}

/// The registered Bird id needed to lay an Egg.
pub fn require_bird_id(bird_id: Option<u128>) -> (r: Result<u128, BirdError>)
    ensures
        match bird_id {
            Some(id) => r == Ok::<u128, BirdError>(id),
            None => r matches Err(BirdError::NotRegistered),
        },
{
    match bird_id {
        Some(id) => Ok(id),
        None => Err(BirdError::NotRegistered),
    }
}

// ---------------------------------------------------------------------------
// Upload retry queue
// ---------------------------------------------------------------------------

/// Folder of the retry queue inside the client's configuration folder.
pub const UPLOAD_QUEUE_DIR: &'static str = "upload-queue";

/// File describing a queued upload.
pub const UPLOAD_META_FILE: &'static str = "meta.json";

/// File holding a queued upload's Egg.
pub const UPLOAD_ZIP_FILE: &'static str = "egg.zip";

/// Seconds between two passes over the retry queue.
pub const QUEUE_RETRY_INTERVAL_SECS: u64 = 30;

/// An upload waiting in the retry queue.
#[derive(Debug)]
pub struct QueuedUpload {
    pub game_id: String,
    pub source_bird_id: u128,
    pub file_hash: String,
}

/// The folder name of a queued upload: the game id, `-`, and the entry's id.
pub fn queue_entry_name(game_id: &str, entry_id: u128) -> (n: String)
    ensures
        n@ == game_id@ + "-"@ + uuid_text(entry_id),
{
    let mut n = concat(game_id, "-");
    n.append(uuid_to_string(entry_id).as_str());
    n
}

/// The upload a queue entry holds, when it can be retried: the entry is a
/// folder with both files, and its description reads.
pub fn retry_candidate(
    is_dir: bool,
    has_meta: bool,
    has_zip: bool,
    meta: Option<QueuedUpload>,
) -> (r: Option<QueuedUpload>)
    ensures
        r is Some <==> (is_dir && has_meta && has_zip && meta is Some),
        r is Some ==> r == meta,
{
    if is_dir && has_meta && has_zip {
        meta
    } else {
        None
    }
}

/// What becomes of a queue entry after a retried upload.
#[derive(Debug, Clone, Copy, PartialEq, Eq, Structural)]
pub enum QueueStep {
    /// The Nest took the Egg: the entry is removed.
    Remove,
    /// The upload failed: the entry stays for the next retry.
    Keep,
}

/// A queued upload leaves the queue exactly when the retry succeeded.
pub fn after_retry<T>(outcome: &Result<T, BirdError>) -> (s: QueueStep)
    ensures
        s == QueueStep::Remove <==> outcome is Ok,
{
    match outcome {
        Ok(_) => QueueStep::Remove,
        Err(_) => QueueStep::Keep,
    }
}

} // verus!
