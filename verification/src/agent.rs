//! Feather Agent: watches for tracked games starting and stopping.
//!
//! The agent's state is the list of watched games with their process names,
//! the running sessions, and the sessions that stopped and wait out a short
//! delay before they are reported as exited. Each periodic scan takes a
//! snapshot of the process list and the current moment (milliseconds on a
//! monotonic clock) and returns the lifecycle events to send.
use vstd::prelude::*;

use crate::process::{found_pid, pid_listed, texts, ProcessEntry, ProcessTable};
use crate::text::str_eq;

verus! {

broadcast use vstd::string::group_string_axioms;

/// Delay between a process disappearing and its game being reported exited.
pub const POST_EXIT_DELAY_MILLIS: u64 = 5000;

/// Interval between two scans of the process list.
pub const SCAN_INTERVAL_MILLIS: u64 = 2000;

/// Interval of the agent's idle tick.
pub const MONITOR_INTERVAL_MILLIS: u64 = 500;

/// Lifecycle events emitted by the Feather Agent.
#[derive(Debug)]
pub enum AgentEvent {
    /// A tracked game process has been detected.
    Launched { game_id: String, pid: u32 },
    /// A tracked game process is still running.
    Running { game_id: String, pid: u32 },
    /// A tracked game process has exited and the post-exit delay elapsed.
    Exited { game_id: String, pid: u32 },
}

/// The kind of an agent event.
#[derive(Debug, Clone, Copy, PartialEq, Eq, Structural)]
pub enum Sighting {
    Launched,
    Running,
    Exited,
}

/// An event as its kind, game id and process id.
pub open spec fn event_view(e: AgentEvent) -> (Sighting, Seq<char>, u32) {
    match e {
        AgentEvent::Launched { game_id, pid } => (Sighting::Launched, game_id@, pid),
        AgentEvent::Running { game_id, pid } => (Sighting::Running, game_id@, pid),
        AgentEvent::Exited { game_id, pid } => (Sighting::Exited, game_id@, pid),
    }
}

pub open spec fn events_view(v: Seq<AgentEvent>) -> Seq<(Sighting, Seq<char>, u32)> {
    v.map_values(|e: AgentEvent| event_view(e))
}

/// A session whose process stopped, waiting until `deadline` to be reported.
#[derive(Debug)]
pub struct ExitingSession {
    pub game_id: String,
    pub pid: u32,
    pub deadline: u64,
}

pub open spec fn exiting_view(v: Seq<ExitingSession>) -> Seq<(Seq<char>, u32, u64)> {
    v.map_values(|s: ExitingSession| (s.game_id@, s.pid, s.deadline))
}

pub open spec fn active_view(v: Seq<(String, u32)>) -> Seq<(Seq<char>, u32)> {
    v.map_values(|a: (String, u32)| (a.0@, a.1))
}

pub open spec fn watched_view(v: Seq<(String, Vec<String>)>) -> Seq<(Seq<char>, Seq<Seq<char>>)> {
    v.map_values(|w: (String, Vec<String>)| (w.0@, texts(w.1@)))
}

/// Exited events for the waiting sessions whose deadline has come.
pub open spec fn due_exits(ex: Seq<(Seq<char>, u32, u64)>, now: u64) -> Seq<
    (Sighting, Seq<char>, u32),
>
    decreases ex.len(),
{
    if ex.len() == 0 {
        Seq::empty()
    } else {
        let prev = due_exits(ex.drop_last(), now);
        let s = ex.last();
        if s.2 <= now {
            prev.push((Sighting::Exited, s.0, s.1))
        } else {
            prev
        }
    }
}

/// The waiting sessions whose deadline has not come yet, in order.
pub open spec fn pending_exits(ex: Seq<(Seq<char>, u32, u64)>, now: u64) -> Seq<
    (Seq<char>, u32, u64),
>
    decreases ex.len(),
{
    if ex.len() == 0 {
        Seq::empty()
    } else {
        let prev = pending_exits(ex.drop_last(), now);
        let s = ex.last();
        if s.2 <= now {
            prev
        } else {
            prev.push(s)
        }
    }
}

/// Running sessions checked against the process list: a Running event and
/// a kept session for each live process, a waiting session with the given
/// deadline for each vanished one.
pub open spec fn sweep(act: Seq<(Seq<char>, u32)>, procs: Seq<ProcessEntry>, deadline: u64) -> (
    Seq<(Sighting, Seq<char>, u32)>,
    Seq<(Seq<char>, u32)>,
    Seq<(Seq<char>, u32, u64)>,
)
    decreases act.len(),
{
    if act.len() == 0 {
        (Seq::empty(), Seq::empty(), Seq::empty())
    } else {
        let (ev, keep, gone) = sweep(act.drop_last(), procs, deadline);
        let a = act.last();
        if pid_listed(procs, a.1) {
            (ev.push((Sighting::Running, a.0, a.1)), keep.push(a), gone)
        } else {
            (ev, keep, gone.push((a.0, a.1, deadline)))
        }
    }
}

pub open spec fn has_active(s: Seq<(Seq<char>, u32)>, g: Seq<char>) -> bool {
    exists|i: int| 0 <= i < s.len() && #[trigger] s[i].0 == g
}

pub open spec fn has_exiting(s: Seq<(Seq<char>, u32, u64)>, g: Seq<char>) -> bool {
    exists|i: int| 0 <= i < s.len() && #[trigger] s[i].0 == g
}

/// Watched games that are neither running nor waiting, looked up in the
/// process list in order: a Launched event and a new session for each one
/// found.
pub open spec fn launches(
    ws: Seq<(Seq<char>, Seq<Seq<char>>)>,
    still: Seq<(Seq<char>, u32)>,
    exiting: Seq<(Seq<char>, u32, u64)>,
    procs: Seq<ProcessEntry>,
) -> (Seq<(Sighting, Seq<char>, u32)>, Seq<(Seq<char>, u32)>)
    decreases ws.len(),
{
    if ws.len() == 0 {
        (Seq::empty(), still)
    } else {
        let (ev, st) = launches(ws.drop_last(), still, exiting, procs);
        let w = ws.last();
        if has_active(st, w.0) || has_exiting(exiting, w.0) {
            (ev, st)
        } else {
            match found_pid(procs, w.1) {
                Some(pid) => (ev.push((Sighting::Launched, w.0, pid)), st.push((w.0, pid))),
                None => (ev, st),
            }
        }
    }
}

/// Removes every entry for `g`.
pub open spec fn without_watch(ws: Seq<(Seq<char>, Seq<Seq<char>>)>, g: Seq<char>) -> Seq<
    (Seq<char>, Seq<Seq<char>>),
>
    decreases ws.len(),
{
    if ws.len() == 0 {
        ws
    } else {
        let prev = without_watch(ws.drop_last(), g);
        if ws.last().0 == g {
            prev
        } else {
            prev.push(ws.last())
        }
    }
}

pub open spec fn without_active(s: Seq<(Seq<char>, u32)>, g: Seq<char>) -> Seq<(Seq<char>, u32)>
    decreases s.len(),
{
    if s.len() == 0 {
        s
    } else {
        let prev = without_active(s.drop_last(), g);
        if s.last().0 == g {
            prev
        } else {
            prev.push(s.last())
        }
    }
}

/// The outcome of one scan: the events to send, the running sessions, and
/// the sessions waiting to be reported.
pub open spec fn scan_outcome(
    watched: Seq<(Seq<char>, Seq<Seq<char>>)>,
    active: Seq<(Seq<char>, u32)>,
    exiting: Seq<(Seq<char>, u32, u64)>,
    procs: Seq<ProcessEntry>,
    now: u64,
) -> (Seq<(Sighting, Seq<char>, u32)>, Seq<(Seq<char>, u32)>, Seq<(Seq<char>, u32, u64)>) {
    let sw = sweep(active, procs, (now + POST_EXIT_DELAY_MILLIS) as u64);
    let waiting = pending_exits(exiting, now) + sw.2;
    let la = launches(watched, sw.1, waiting, procs);
    (due_exits(exiting, now) + sw.0 + la.0, la.1, waiting)
}

proof fn lemma_events_push(v: Seq<AgentEvent>, e: AgentEvent)
    ensures
        events_view(v.push(e)) == events_view(v).push(event_view(e)),
{
    assert(events_view(v.push(e)) =~= events_view(v).push(event_view(e)));
}

proof fn lemma_events_append(a: Seq<AgentEvent>, b: Seq<AgentEvent>)
    ensures
        events_view(a + b) == events_view(a) + events_view(b),
{
    assert(events_view(a + b) =~= events_view(a) + events_view(b));
}

proof fn lemma_exiting_push(v: Seq<ExitingSession>, e: ExitingSession)
    ensures
        exiting_view(v.push(e)) == exiting_view(v).push((e.game_id@, e.pid, e.deadline)),
{
    assert(exiting_view(v.push(e)) =~= exiting_view(v).push((e.game_id@, e.pid, e.deadline)));
}

proof fn lemma_exiting_append(a: Seq<ExitingSession>, b: Seq<ExitingSession>)
    ensures
        exiting_view(a + b) == exiting_view(a) + exiting_view(b),
{
    assert(exiting_view(a + b) =~= exiting_view(a) + exiting_view(b));
}

proof fn lemma_active_push(v: Seq<(String, u32)>, a: (String, u32))
    ensures
        active_view(v.push(a)) == active_view(v).push((a.0@, a.1)),
{
    assert(active_view(v.push(a)) =~= active_view(v).push((a.0@, a.1)));
}

proof fn lemma_watched_push(v: Seq<(String, Vec<String>)>, w: (String, Vec<String>))
    ensures
        watched_view(v.push(w)) == watched_view(v).push((w.0@, texts(w.1@))),
{
    assert(watched_view(v.push(w)) =~= watched_view(v).push((w.0@, texts(w.1@))));
}

/// A scan reports a game as launched only when it has no running session
/// kept by the scan and no session waiting to be reported; the sessions kept
/// by the scan all remain running after it.
pub proof fn lemma_no_relaunch(
    ws: Seq<(Seq<char>, Seq<Seq<char>>)>,
    still: Seq<(Seq<char>, u32)>,
    exiting: Seq<(Seq<char>, u32, u64)>,
    procs: Seq<ProcessEntry>,
)
    ensures
        ({
            let (ev, st) = launches(ws, still, exiting, procs);
            &&& st.len() >= still.len()
            &&& st.take(still.len() as int) == still
            &&& forall|i: int|
                0 <= i < ev.len() ==> (#[trigger] ev[i]).0 == Sighting::Launched && !has_active(
                    still,
                    ev[i].1,
                ) && !has_exiting(exiting, ev[i].1)
        }),
    decreases ws.len(),
{
    if ws.len() > 0 {
        lemma_no_relaunch(ws.drop_last(), still, exiting, procs);
        let (ev0, st0) = launches(ws.drop_last(), still, exiting, procs);
        let w = ws.last();
        if !(has_active(st0, w.0) || has_exiting(exiting, w.0)) {
            if let Some(pid) = found_pid(procs, w.1) {
                let st = st0.push((w.0, pid));
                assert(st.take(still.len() as int) =~= st0.take(still.len() as int));
                if has_active(still, w.0) {
                    let j = choose|j: int| 0 <= j < still.len() && #[trigger] still[j].0 == w.0;
                    assert(st0[j] == still[j]);
                    assert(has_active(st0, w.0));
                }
            }
        }
    }
}

/// Whether `e` reports one of the waiting sessions of `ex` whose deadline
/// has come at `now`.
pub open spec fn reports_due_session(ex: Seq<(Seq<char>, u32, u64)>, now: u64, e: (
    Sighting,
    Seq<char>,
    u32,
)) -> bool {
    exists|j: int| 0 <= j < ex.len() && ex[j].2 <= now && e == (Sighting::Exited, ex[j].0, ex[j].1)
}

/// Every Exited event of a scan is for a waiting session whose deadline has
/// come; every waiting session is either reported or kept, and those kept
/// are not due yet.
pub proof fn lemma_exits_only_when_due(ex: Seq<(Seq<char>, u32, u64)>, now: u64)
    ensures
        forall|i: int|
            0 <= i < due_exits(ex, now).len() ==> reports_due_session(
                ex,
                now,
                #[trigger] due_exits(ex, now)[i],
            ),
        due_exits(ex, now).len() + pending_exits(ex, now).len() == ex.len(),
        forall|i: int|
            0 <= i < pending_exits(ex, now).len() ==> (#[trigger] pending_exits(ex, now)[i]).2 > now,
    decreases ex.len(),
{
    if ex.len() > 0 {
        let prev = ex.drop_last();
        lemma_exits_only_when_due(prev, now);
        let d = due_exits(ex, now);
        let dp = due_exits(prev, now);
        assert forall|i: int| 0 <= i < d.len() implies reports_due_session(ex, now, #[trigger] d[i]) by {
            if i < dp.len() {
                assert(d[i] == dp[i]);
                assert(reports_due_session(prev, now, dp[i]));
                let j = choose|j: int|
                    0 <= j < prev.len() && prev[j].2 <= now && dp[i] == (
                        Sighting::Exited,
                        prev[j].0,
                        prev[j].1,
                    );
                assert(ex[j] == prev[j]);
            } else {
                let j = ex.len() - 1;
                assert(ex.last().2 <= now);
                assert(d[i] == (Sighting::Exited, ex[j].0, ex[j].1));
            }
        }
    }
}

/// Whether `(g, pid)` is a running session of `act`.
pub open spec fn session_in(act: Seq<(Seq<char>, u32)>, g: Seq<char>, pid: u32) -> bool {
    exists|j: int| 0 <= j < act.len() && #[trigger] act[j] == (g, pid)
}

/// Whether `(g, pid)` is a waiting session of `ex`.
pub open spec fn waiting_in(ex: Seq<(Seq<char>, u32, u64)>, g: Seq<char>, pid: u32) -> bool {
    exists|j: int| 0 <= j < ex.len() && #[trigger] ex[j].0 == g && ex[j].1 == pid
}

proof fn lemma_sweep_from_active(act: Seq<(Seq<char>, u32)>, procs: Seq<ProcessEntry>, d: u64)
    ensures
        ({
            let (ev, keep, gone) = sweep(act, procs, d);
            &&& forall|i: int|
                0 <= i < ev.len() ==> (#[trigger] ev[i]).0 == Sighting::Running && session_in(
                    act,
                    ev[i].1,
                    ev[i].2,
                )
            &&& forall|i: int|
                0 <= i < keep.len() ==> session_in(act, (#[trigger] keep[i]).0, keep[i].1)
                    && pid_listed(procs, keep[i].1)
            &&& forall|i: int|
                0 <= i < gone.len() ==> session_in(act, (#[trigger] gone[i]).0, gone[i].1)
                    && gone[i].2 == d && !pid_listed(procs, gone[i].1)
            &&& forall|j: int|
                0 <= j < act.len() ==> (exists|i: int| 0 <= i < keep.len() && keep[i] == #[trigger] act[j])
                    || (exists|i: int| 0 <= i < gone.len() && gone[i] == (act[j].0, act[j].1, d))
        }),
    decreases act.len(),
{
    if act.len() > 0 {
        let prev = act.drop_last();
        lemma_sweep_from_active(prev, procs, d);
        let (ev, keep, gone) = sweep(act, procs, d);
        let (ev0, keep0, gone0) = sweep(prev, procs, d);
        let a = act.last();
        let n = act.len() - 1;
        assert(act[n] == (a.0, a.1));
        assert forall|g: Seq<char>, p: u32| session_in(prev, g, p) implies session_in(act, g, p) by {
            let j = choose|j: int| 0 <= j < prev.len() && #[trigger] prev[j] == (g, p);
            assert(act[j] == (g, p));
        }
        assert forall|i: int| 0 <= i < ev.len() implies (#[trigger] ev[i]).0 == Sighting::Running
            && session_in(act, ev[i].1, ev[i].2) by {
            if i < ev0.len() {
                assert(ev[i] == ev0[i]);
            }
        }
        assert forall|i: int| 0 <= i < keep.len() implies session_in(act, (#[trigger] keep[i]).0, keep[i].1)
            && pid_listed(procs, keep[i].1) by {
            if i < keep0.len() {
                assert(keep[i] == keep0[i]);
            }
        }
        assert forall|i: int| 0 <= i < gone.len() implies session_in(act, (#[trigger] gone[i]).0, gone[i].1)
            && gone[i].2 == d && !pid_listed(procs, gone[i].1) by {
            if i < gone0.len() {
                assert(gone[i] == gone0[i]);
            }
        }
        assert forall|j: int| 0 <= j < act.len() implies (exists|i: int|
            0 <= i < keep.len() && keep[i] == #[trigger] act[j]) || (exists|i: int|
            0 <= i < gone.len() && gone[i] == (act[j].0, act[j].1, d)) by {
            if j < prev.len() {
                assert(act[j] == prev[j]);
                if exists|i: int| 0 <= i < keep0.len() && keep0[i] == prev[j] {
                    let i = choose|i: int| 0 <= i < keep0.len() && keep0[i] == prev[j];
                    assert(keep[i] == keep0[i]);
                } else {
                    let i = choose|i: int|
                        0 <= i < gone0.len() && gone0[i] == (prev[j].0, prev[j].1, d);
                    assert(gone[i] == gone0[i]);
                }
            } else {
                if pid_listed(procs, a.1) {
                    assert(keep[keep0.len() as int] == act[j]);
                } else {
                    assert(gone[gone0.len() as int] == (act[j].0, act[j].1, d));
                }
            }
        }
    }
}

proof fn lemma_launches_extend(
    ws: Seq<(Seq<char>, Seq<Seq<char>>)>,
    still: Seq<(Seq<char>, u32)>,
    exiting: Seq<(Seq<char>, u32, u64)>,
    procs: Seq<ProcessEntry>,
)
    ensures
        ({
            let (ev, st) = launches(ws, still, exiting, procs);
            &&& st.len() == still.len() + ev.len()
            &&& forall|k: int| 0 <= k < still.len() ==> #[trigger] st[k] == still[k]
            &&& forall|k: int|
                0 <= k < ev.len() ==> st[still.len() + k] == ((#[trigger] ev[k]).1, ev[k].2)
                    && ev[k].0 == Sighting::Launched
        }),
    decreases ws.len(),
{
    if ws.len() > 0 {
        lemma_launches_extend(ws.drop_last(), still, exiting, procs);
    }
}

proof fn lemma_pending_from(ex: Seq<(Seq<char>, u32, u64)>, now: u64)
    ensures
        forall|i: int|
            0 <= i < pending_exits(ex, now).len() ==> exists|j: int|
                0 <= j < ex.len() && ex[j] == #[trigger] pending_exits(ex, now)[i],
        forall|i: int|
            0 <= i < pending_exits(ex, now).len() ==> waiting_in(
                ex,
                (#[trigger] pending_exits(ex, now)[i]).0,
                pending_exits(ex, now)[i].1,
            ),
    decreases ex.len(),
{
    if ex.len() > 0 {
        let prev = ex.drop_last();
        lemma_pending_from(prev, now);
        let p = pending_exits(ex, now);
        let p0 = pending_exits(prev, now);
        let n = ex.len() - 1;
        assert forall|i: int| 0 <= i < p.len() implies exists|j: int|
            0 <= j < ex.len() && ex[j] == #[trigger] p[i] by {
            if i < p0.len() {
                assert(p[i] == p0[i]);
                let j = choose|j: int| 0 <= j < prev.len() && prev[j] == p0[i];
                assert(ex[j] == prev[j]);
            } else {
                assert(ex[n] == p[i]);
            }
        }
        assert forall|i: int| 0 <= i < p.len() implies waiting_in(ex, (#[trigger] p[i]).0, p[i].1) by {
            let j = choose|j: int| 0 <= j < ex.len() && ex[j] == p[i];
            assert(ex[j].0 == p[i].0 && ex[j].1 == p[i].1);
        }
    }
}

/// Every waiting session not yet due stays waiting.
proof fn lemma_pending_keeps(ex: Seq<(Seq<char>, u32, u64)>, now: u64)
    ensures
        forall|j: int|
            0 <= j < ex.len() && (#[trigger] ex[j]).2 > now ==> exists|i: int|
                0 <= i < pending_exits(ex, now).len() && pending_exits(ex, now)[i] == ex[j],
    decreases ex.len(),
{
    if ex.len() > 0 {
        let prev = ex.drop_last();
        lemma_pending_keeps(prev, now);
        let p = pending_exits(ex, now);
        let p0 = pending_exits(prev, now);
        let n = ex.len() - 1;
        assert forall|j: int| 0 <= j < ex.len() && (#[trigger] ex[j]).2 > now implies exists|i: int|
            0 <= i < p.len() && p[i] == ex[j] by {
            if j < n {
                assert(ex[j] == prev[j]);
                let i = choose|i: int| 0 <= i < p0.len() && p0[i] == prev[j];
                assert(p[i] == p0[i]);
            } else {
                assert(p[p0.len() as int] == ex[j]);
            }
        }
    }
}

/// Every waiting session that is due is reported Exited.
proof fn lemma_due_reported(ex: Seq<(Seq<char>, u32, u64)>, now: u64)
    ensures
        forall|j: int|
            0 <= j < ex.len() && (#[trigger] ex[j]).2 <= now ==> exists|i: int|
                0 <= i < due_exits(ex, now).len() && due_exits(ex, now)[i] == (
                    Sighting::Exited,
                    ex[j].0,
                    ex[j].1,
                ),
    decreases ex.len(),
{
    if ex.len() > 0 {
        let prev = ex.drop_last();
        lemma_due_reported(prev, now);
        let dd = due_exits(ex, now);
        let d0 = due_exits(prev, now);
        let n = ex.len() - 1;
        assert forall|j: int| 0 <= j < ex.len() && (#[trigger] ex[j]).2 <= now implies exists|i: int|
            0 <= i < dd.len() && dd[i] == (Sighting::Exited, ex[j].0, ex[j].1) by {
            if j < n {
                assert(ex[j] == prev[j]);
                let i = choose|i: int|
                    0 <= i < d0.len() && d0[i] == (Sighting::Exited, prev[j].0, prev[j].1);
                assert(dd[i] == d0[i]);
            } else {
                assert(dd[d0.len() as int] == (Sighting::Exited, ex[j].0, ex[j].1));
            }
        }
    }
}

/// The order of a session's events: a session enters the agent's state
/// only through a Launched event of the scan that finds it; a scan reports
/// Running only for a session that was running before it, and Exited only
/// for one that was waiting (and due); a session waits only after it ran.
/// So across scans each session is reported Launched, then Running, then
/// Exited.
pub proof fn lemma_session_events_in_order(
    watched: Seq<(Seq<char>, Seq<Seq<char>>)>,
    active: Seq<(Seq<char>, u32)>,
    exiting: Seq<(Seq<char>, u32, u64)>,
    procs: Seq<ProcessEntry>,
    now: u64,
)
    ensures
        ({
            let (ev, act2, ex2) = scan_outcome(watched, active, exiting, procs, now);
            &&& forall|i: int|
                0 <= i < ev.len() && (#[trigger] ev[i]).0 == Sighting::Running ==> session_in(
                    active,
                    ev[i].1,
                    ev[i].2,
                )
            &&& forall|i: int|
                0 <= i < ev.len() && (#[trigger] ev[i]).0 == Sighting::Exited ==> waiting_in(
                    exiting,
                    ev[i].1,
                    ev[i].2,
                )
            &&& forall|k: int|
                0 <= k < act2.len() ==> session_in(active, (#[trigger] act2[k]).0, act2[k].1)
                    || exists|i: int|
                    0 <= i < ev.len() && ev[i] == (Sighting::Launched, act2[k].0, act2[k].1)
            &&& forall|k: int|
                0 <= k < ex2.len() ==> waiting_in(exiting, (#[trigger] ex2[k]).0, ex2[k].1)
                    || session_in(active, ex2[k].0, ex2[k].1)
        }),
{
    let d = (now + POST_EXIT_DELAY_MILLIS) as u64;
    let sw = sweep(active, procs, d);
    let waiting = pending_exits(exiting, now) + sw.2;
    let la = launches(watched, sw.1, waiting, procs);
    let due = due_exits(exiting, now);
    let ev = due + sw.0 + la.0;
    lemma_sweep_from_active(active, procs, d);
    lemma_launches_extend(watched, sw.1, waiting, procs);
    lemma_pending_from(exiting, now);
    lemma_exits_only_when_due(exiting, now);
    let pe = pending_exits(exiting, now);
    assert forall|i: int| 0 <= i < ev.len() && (#[trigger] ev[i]).0 == Sighting::Running implies session_in(
        active,
        ev[i].1,
        ev[i].2,
    ) by {
        if i < due.len() {
            assert(ev[i] == due[i]);
            assert(reports_due_session(exiting, now, due[i]));
        } else if i < due.len() + sw.0.len() {
            assert(ev[i] == sw.0[i - due.len()]);
        } else {
            assert(ev[i] == la.0[i - due.len() - sw.0.len()]);
        }
    }
    assert forall|i: int| 0 <= i < ev.len() && (#[trigger] ev[i]).0 == Sighting::Exited implies waiting_in(
        exiting,
        ev[i].1,
        ev[i].2,
    ) by {
        if i < due.len() {
            assert(ev[i] == due[i]);
            assert(reports_due_session(exiting, now, due[i]));
            let j = choose|j: int|
                0 <= j < exiting.len() && exiting[j].2 <= now && due[i] == (
                    Sighting::Exited,
                    exiting[j].0,
                    exiting[j].1,
                );
            assert(exiting[j].0 == ev[i].1);
        } else if i < due.len() + sw.0.len() {
            assert(ev[i] == sw.0[i - due.len()]);
        } else {
            assert(ev[i] == la.0[i - due.len() - sw.0.len()]);
        }
    }
    assert forall|k: int| 0 <= k < la.1.len() implies session_in(active, (#[trigger] la.1[k]).0, la.1[k].1)
        || exists|i: int| 0 <= i < ev.len() && ev[i] == (Sighting::Launched, la.1[k].0, la.1[k].1) by {
        if k < sw.1.len() {
            assert(la.1[k] == sw.1[k]);
        } else {
            let m = k - sw.1.len();
            assert(la.1[sw.1.len() + m] == (la.0[m].1, la.0[m].2));
            let i = due.len() + sw.0.len() + m;
            assert(ev[i] == la.0[m]);
        }
    }
    assert forall|k: int| 0 <= k < waiting.len() implies waiting_in(exiting, (#[trigger] waiting[k]).0, waiting[k].1)
        || session_in(active, waiting[k].0, waiting[k].1) by {
        if k < pe.len() {
            assert(waiting[k] == pe[k]);
        } else {
            assert(waiting[k] == sw.2[k - pe.len()]);
        }
    }
}

/// Whether some session of game `g` is running in `act`.
pub open spec fn game_active(act: Seq<(Seq<char>, u32)>, g: Seq<char>) -> bool {
    exists|j: int| 0 <= j < act.len() && #[trigger] act[j].0 == g
}

/// Whether some session of game `g` is waiting in `ex`.
pub open spec fn game_waiting(ex: Seq<(Seq<char>, u32, u64)>, g: Seq<char>) -> bool {
    exists|j: int| 0 <= j < ex.len() && #[trigger] ex[j].0 == g
}

/// Whether the events report an exit of game `g`.
pub open spec fn exited_in(ev: Seq<(Sighting, Seq<char>, u32)>, g: Seq<char>) -> bool {
    exists|i: int| 0 <= i < ev.len() && (#[trigger] ev[i]).0 == Sighting::Exited && ev[i].1 == g
}

/// What one scan carries over: a running game stays running or starts
/// waiting; a waiting game keeps waiting or is reported Exited; a game is
/// launched only when none of its sessions is running and each waiting one
/// is reported Exited by the same scan (before the launch); and a waiting
/// session either waited already or is a running one that the scan found
/// gone, due `POST_EXIT_DELAY_MILLIS` after `now`.
proof fn lemma_scan_carries(
    watched: Seq<(Seq<char>, Seq<Seq<char>>)>,
    active: Seq<(Seq<char>, u32)>,
    exiting: Seq<(Seq<char>, u32, u64)>,
    procs: Seq<ProcessEntry>,
    now: u64,
)
    requires
        now <= u64::MAX - POST_EXIT_DELAY_MILLIS,
    ensures
        ({
            let (ev, act2, ex2) = scan_outcome(watched, active, exiting, procs, now);
            &&& forall|j: int|
                0 <= j < active.len() ==> game_active(act2, (#[trigger] active[j]).0)
                    || game_waiting(ex2, active[j].0)
            &&& forall|j: int|
                0 <= j < exiting.len() ==> game_waiting(ex2, (#[trigger] exiting[j]).0)
                    || exited_in(ev, exiting[j].0)
            &&& forall|i: int|
                0 <= i < ev.len() && (#[trigger] ev[i]).0 == Sighting::Launched ==> !game_active(
                    active,
                    ev[i].1,
                ) && (game_waiting(exiting, ev[i].1) ==> exited_in(ev, ev[i].1))
            &&& forall|i: int|
                0 <= i < ev.len() && (#[trigger] ev[i]).0 == Sighting::Launched ==> game_active(
                    act2,
                    ev[i].1,
                )
            &&& forall|k: int|
                0 <= k < ex2.len() ==> (exists|j: int| 0 <= j < exiting.len() && exiting[j] == #[trigger] ex2[k])
                    || (ex2[k].2 == now + POST_EXIT_DELAY_MILLIS && session_in(active, ex2[k].0, ex2[k].1)
                    && !pid_listed(procs, ex2[k].1))
        }),
{
    let d = (now + POST_EXIT_DELAY_MILLIS) as u64;
    let sw = sweep(active, procs, d);
    let pe = pending_exits(exiting, now);
    let waiting = pe + sw.2;
    let la = launches(watched, sw.1, waiting, procs);
    let due = due_exits(exiting, now);
    let ev = due + sw.0 + la.0;
    lemma_sweep_from_active(active, procs, d);
    lemma_launches_extend(watched, sw.1, waiting, procs);
    lemma_no_relaunch(watched, sw.1, waiting, procs);
    lemma_pending_from(exiting, now);
    lemma_pending_keeps(exiting, now);
    lemma_due_reported(exiting, now);
    lemma_exits_only_when_due(exiting, now);
    assert forall|j: int| 0 <= j < active.len() implies game_active(la.1, (#[trigger] active[j]).0)
        || game_waiting(waiting, active[j].0) by {
        if exists|i: int| 0 <= i < sw.1.len() && sw.1[i] == active[j] {
            let i = choose|i: int| 0 <= i < sw.1.len() && sw.1[i] == active[j];
            assert(la.1[i] == sw.1[i]);
        } else {
            let i = choose|i: int| 0 <= i < sw.2.len() && sw.2[i] == (active[j].0, active[j].1, d);
            assert(waiting[pe.len() + i] == sw.2[i]);
        }
    }
    assert forall|j: int| 0 <= j < exiting.len() implies game_waiting(waiting, (#[trigger] exiting[j]).0)
        || exited_in(ev, exiting[j].0) by {
        if exiting[j].2 > now {
            let i = choose|i: int| 0 <= i < pe.len() && pe[i] == exiting[j];
            assert(waiting[i] == pe[i]);
        } else {
            let i = choose|i: int| 0 <= i < due.len() && due[i] == (Sighting::Exited, exiting[j].0, exiting[j].1);
            assert(ev[i] == due[i]);
        }
    }
    assert forall|i: int| 0 <= i < ev.len() && (#[trigger] ev[i]).0 == Sighting::Launched implies !game_active(
        active,
        ev[i].1,
    ) && (game_waiting(exiting, ev[i].1) ==> exited_in(ev, ev[i].1)) && game_active(la.1, ev[i].1) by {
        if i < due.len() {
            assert(ev[i] == due[i]);
            assert(reports_due_session(exiting, now, due[i]));
        } else if i < due.len() + sw.0.len() {
            assert(ev[i] == sw.0[i - due.len()]);
        } else {
            let m = i - due.len() - sw.0.len();
            assert(ev[i] == la.0[m]);
            let g = ev[i].1;
            assert(!has_active(sw.1, g) && !has_exiting(waiting, g));
            assert(la.1[sw.1.len() + m] == (la.0[m].1, la.0[m].2));
            assert(la.1[sw.1.len() + m].0 == g);
            assert(game_active(la.1, g));
            if game_active(active, g) {
                let j = choose|j: int| 0 <= j < active.len() && #[trigger] active[j].0 == g;
                if exists|i2: int| 0 <= i2 < sw.1.len() && sw.1[i2] == active[j] {
                    let i2 = choose|i2: int| 0 <= i2 < sw.1.len() && sw.1[i2] == active[j];
                    assert(sw.1[i2].0 == g);
                    assert(has_active(sw.1, g));
                } else {
                    let i2 = choose|i2: int|
                        0 <= i2 < sw.2.len() && sw.2[i2] == (active[j].0, active[j].1, d);
                    assert(waiting[pe.len() + i2] == sw.2[i2]);
                    assert(waiting[pe.len() + i2].0 == g);
                    assert(has_exiting(waiting, g));
                }
            }
            if game_waiting(exiting, g) {
                let j = choose|j: int| 0 <= j < exiting.len() && #[trigger] exiting[j].0 == g;
                if exiting[j].2 > now {
                    let i2 = choose|i2: int| 0 <= i2 < pe.len() && pe[i2] == exiting[j];
                    assert(waiting[i2] == pe[i2]);
                    assert(waiting[i2].0 == g);
                    assert(has_exiting(waiting, g));
                } else {
                    let i2 = choose|i2: int|
                        0 <= i2 < due.len() && due[i2] == (Sighting::Exited, exiting[j].0, exiting[j].1);
                    assert(ev[i2] == due[i2]);
                    assert(ev[i2].0 == Sighting::Exited && ev[i2].1 == g);
                    assert(exited_in(ev, g));
                }
            }
        }
    }
    assert forall|k: int| 0 <= k < waiting.len() implies (exists|j: int|
        0 <= j < exiting.len() && exiting[j] == #[trigger] waiting[k]) || (waiting[k].2
        == now + POST_EXIT_DELAY_MILLIS && session_in(active, waiting[k].0, waiting[k].1)
        && !pid_listed(procs, waiting[k].1)) by {
        if k < pe.len() {
            assert(waiting[k] == pe[k]);
        } else {
            assert(waiting[k] == sw.2[k - pe.len()]);
        }
    }
}

/// No two running sessions are of the same game.
pub open spec fn distinct_running(s: Seq<(Seq<char>, u32)>) -> bool {
    forall|i: int, j: int| #![trigger s[i], s[j]] 0 <= i < j < s.len() ==> s[i].0 != s[j].0
}

/// No two waiting sessions are of the same game.
pub open spec fn distinct_waiting(s: Seq<(Seq<char>, u32, u64)>) -> bool {
    forall|i: int, j: int| #![trigger s[i], s[j]] 0 <= i < j < s.len() ==> s[i].0 != s[j].0
}

/// No game both runs and waits.
pub open spec fn apart(a: Seq<(Seq<char>, u32)>, e: Seq<(Seq<char>, u32, u64)>) -> bool {
    forall|i: int, j: int| #![trigger a[i], e[j]] 0 <= i < a.len() && 0 <= j < e.len() ==> a[i].0 != e[j].0
}

/// Each game has at most one session, running or waiting.
pub open spec fn one_session_per_game(a: Seq<(Seq<char>, u32)>, e: Seq<(Seq<char>, u32, u64)>) -> bool {
    distinct_running(a) && distinct_waiting(e) && apart(a, e)
}

proof fn lemma_sweep_unique(act: Seq<(Seq<char>, u32)>, procs: Seq<ProcessEntry>, d: u64)
    requires
        distinct_running(act),
    ensures
        ({
            let (ev, keep, gone) = sweep(act, procs, d);
            distinct_running(keep) && distinct_waiting(gone) && apart(keep, gone)
        }),
    decreases act.len(),
{
    if act.len() > 0 {
        let prev = act.drop_last();
        assert forall|i: int, j: int| #![trigger prev[i], prev[j]] 0 <= i < j < prev.len() implies prev[i].0 != prev[j].0 by {
            assert(prev[i] == act[i] && prev[j] == act[j]);
        }
        lemma_sweep_unique(prev, procs, d);
        lemma_sweep_from_active(prev, procs, d);
        let (ev0, keep0, gone0) = sweep(prev, procs, d);
        let (ev, keep, gone) = sweep(act, procs, d);
        let a = act.last();
        let n = act.len() - 1;
        assert forall|g: Seq<char>, p: u32| session_in(prev, g, p) implies g != a.0 by {
            let j = choose|j: int| 0 <= j < prev.len() && #[trigger] prev[j] == (g, p);
            assert(act[j] == prev[j]);
            assert(act[j].0 != act[n].0);
        }
        assert forall|i: int| 0 <= i < keep0.len() implies (#[trigger] keep0[i]).0 != a.0 by {
            assert(session_in(prev, keep0[i].0, keep0[i].1));
        }
        assert forall|i: int| 0 <= i < gone0.len() implies (#[trigger] gone0[i]).0 != a.0 by {
            assert(session_in(prev, gone0[i].0, gone0[i].1));
        }
        if pid_listed(procs, a.1) {
            assert(keep == keep0.push(a));
            assert forall|i: int, j: int| #![trigger keep[i], keep[j]] 0 <= i < j < keep.len() implies keep[i].0 != keep[j].0 by {
                if j == keep0.len() {
                    assert(keep[i] == keep0[i]);
                } else {
                    assert(keep[i] == keep0[i] && keep[j] == keep0[j]);
                }
            }
            assert forall|i: int, j: int| #![trigger keep[i], gone[j]] 0 <= i < keep.len() && 0 <= j < gone.len() implies keep[i].0 != gone[j].0 by {
                assert(gone[j] == gone0[j]);
                if i < keep0.len() {
                    assert(keep[i] == keep0[i]);
                }
            }
        } else {
            assert(gone == gone0.push((a.0, a.1, d)));
            assert forall|i: int, j: int| #![trigger gone[i], gone[j]] 0 <= i < j < gone.len() implies gone[i].0 != gone[j].0 by {
                if j == gone0.len() {
                    assert(gone[i] == gone0[i]);
                } else {
                    assert(gone[i] == gone0[i] && gone[j] == gone0[j]);
                }
            }
            assert forall|i: int, j: int| #![trigger keep[i], gone[j]] 0 <= i < keep.len() && 0 <= j < gone.len() implies keep[i].0 != gone[j].0 by {
                assert(keep[i] == keep0[i]);
                if j < gone0.len() {
                    assert(gone[j] == gone0[j]);
                }
            }
        }
    }
}

proof fn lemma_pending_unique(ex: Seq<(Seq<char>, u32, u64)>, now: u64)
    requires
        distinct_waiting(ex),
    ensures
        distinct_waiting(pending_exits(ex, now)),
    decreases ex.len(),
{
    if ex.len() > 0 {
        let prev = ex.drop_last();
        assert forall|i: int, j: int| #![trigger prev[i], prev[j]] 0 <= i < j < prev.len() implies prev[i].0 != prev[j].0 by {
            assert(prev[i] == ex[i] && prev[j] == ex[j]);
        }
        lemma_pending_unique(prev, now);
        lemma_pending_from(prev, now);
        let p0 = pending_exits(prev, now);
        let p = pending_exits(ex, now);
        let n = ex.len() - 1;
        if ex[n].2 > now {
            assert(p == p0.push(ex[n]));
            assert forall|i: int, j: int| #![trigger p[i], p[j]] 0 <= i < j < p.len() implies p[i].0 != p[j].0 by {
                if j == p0.len() {
                    assert(p[i] == p0[i]);
                    let k = choose|k: int| 0 <= k < prev.len() && prev[k] == #[trigger] p0[i];
                    assert(ex[k] == prev[k]);
                    assert(ex[k].0 != ex[n].0);
                } else {
                    assert(p[i] == p0[i] && p[j] == p0[j]);
                }
            }
        }
    }
}

proof fn lemma_launches_unique(
    ws: Seq<(Seq<char>, Seq<Seq<char>>)>,
    still: Seq<(Seq<char>, u32)>,
    waiting: Seq<(Seq<char>, u32, u64)>,
    procs: Seq<ProcessEntry>,
)
    requires
        distinct_running(still),
        apart(still, waiting),
    ensures
        distinct_running(launches(ws, still, waiting, procs).1),
        apart(launches(ws, still, waiting, procs).1, waiting),
    decreases ws.len(),
{
    if ws.len() > 0 {
        lemma_launches_unique(ws.drop_last(), still, waiting, procs);
        let (ev0, st0) = launches(ws.drop_last(), still, waiting, procs);
        let w = ws.last();
        if !(has_active(st0, w.0) || has_exiting(waiting, w.0)) {
            if let Some(pid) = found_pid(procs, w.1) {
                let st = st0.push((w.0, pid));
                assert forall|i: int, j: int| #![trigger st[i], st[j]] 0 <= i < j < st.len() implies st[i].0 != st[j].0 by {
                    if j == st0.len() {
                        assert(st[i] == st0[i]);
                        if st0[i].0 == w.0 {
                            assert(has_active(st0, w.0));
                        }
                    } else {
                        assert(st[i] == st0[i] && st[j] == st0[j]);
                    }
                }
                assert forall|i: int, j: int| #![trigger st[i], waiting[j]] 0 <= i < st.len() && 0 <= j < waiting.len() implies st[i].0 != waiting[j].0 by {
                    if i == st0.len() {
                        if waiting[j].0 == w.0 {
                            assert(has_exiting(waiting, w.0));
                        }
                    } else {
                        assert(st[i] == st0[i]);
                    }
                }
            }
        }
    }
}

/// A scan keeps each game to at most one session, running or waiting.
proof fn lemma_scan_unique(
    watched: Seq<(Seq<char>, Seq<Seq<char>>)>,
    active: Seq<(Seq<char>, u32)>,
    exiting: Seq<(Seq<char>, u32, u64)>,
    procs: Seq<ProcessEntry>,
    now: u64,
)
    requires
        one_session_per_game(active, exiting),
    ensures
        ({
            let (ev, act2, ex2) = scan_outcome(watched, active, exiting, procs, now);
            one_session_per_game(act2, ex2)
        }),
{
    let d = (now + POST_EXIT_DELAY_MILLIS) as u64;
    let sw = sweep(active, procs, d);
    let pe = pending_exits(exiting, now);
    let waiting = pe + sw.2;
    lemma_sweep_unique(active, procs, d);
    lemma_sweep_from_active(active, procs, d);
    lemma_pending_unique(exiting, now);
    lemma_pending_from(exiting, now);
    assert forall|i: int, j: int| #![trigger waiting[i], waiting[j]] 0 <= i < j < waiting.len() implies waiting[i].0 != waiting[j].0 by {
        if j < pe.len() {
            assert(waiting[i] == pe[i] && waiting[j] == pe[j]);
        } else if i >= pe.len() {
            assert(waiting[i] == sw.2[i - pe.len()] && waiting[j] == sw.2[j - pe.len()]);
        } else {
            assert(waiting[i] == pe[i] && waiting[j] == sw.2[j - pe.len()]);
            let k = choose|k: int| 0 <= k < exiting.len() && exiting[k] == #[trigger] pe[i];
            let g = sw.2[j - pe.len()];
            assert(session_in(active, g.0, g.1));
            let a = choose|a: int| 0 <= a < active.len() && #[trigger] active[a] == (g.0, g.1);
            assert(active[a].0 != exiting[k].0);
        }
    }
    assert forall|i: int, j: int| #![trigger sw.1[i], waiting[j]] 0 <= i < sw.1.len() && 0 <= j < waiting.len() implies sw.1[i].0 != waiting[j].0 by {
        if j < pe.len() {
            assert(waiting[j] == pe[j]);
            let k = choose|k: int| 0 <= k < exiting.len() && exiting[k] == #[trigger] pe[j];
            assert(session_in(active, sw.1[i].0, sw.1[i].1));
            let a = choose|a: int| 0 <= a < active.len() && #[trigger] active[a] == (sw.1[i].0, sw.1[i].1);
            assert(active[a].0 != exiting[k].0);
        } else {
            assert(waiting[j] == sw.2[j - pe.len()]);
        }
    }
    lemma_launches_unique(watched, sw.1, waiting, procs);
}

// ---------------------------------------------------------------------------
// Runs of scans
// ---------------------------------------------------------------------------

/// The running and waiting sessions after the first `n` scans of a run that
/// starts with none, watches `watched` throughout, and sees process list
/// `tables[i]` at time `times[i]` in scan `i`.
pub open spec fn run_state(
    watched: Seq<(Seq<char>, Seq<Seq<char>>)>,
    tables: Seq<Seq<ProcessEntry>>,
    times: Seq<u64>,
    n: nat,
) -> (Seq<(Seq<char>, u32)>, Seq<(Seq<char>, u32, u64)>)
    decreases n,
{
    if n == 0 {
        (Seq::empty(), Seq::empty())
    } else {
        let s = run_state(watched, tables, times, (n - 1) as nat);
        let o = scan_outcome(watched, s.0, s.1, tables[n - 1], times[n - 1]);
        (o.1, o.2)
    }
}

/// The events of scan `n` of such a run.
pub open spec fn run_events(
    watched: Seq<(Seq<char>, Seq<Seq<char>>)>,
    tables: Seq<Seq<ProcessEntry>>,
    times: Seq<u64>,
    n: nat,
) -> Seq<(Sighting, Seq<char>, u32)> {
    let s = run_state(watched, tables, times, n);
    scan_outcome(watched, s.0, s.1, tables[n as int], times[n as int]).0
}

/// A run's scan times leave room for the post-exit delay, as each scan asks.
pub open spec fn run_times_ok(tables: Seq<Seq<ProcessEntry>>, times: Seq<u64>) -> bool {
    &&& tables.len() == times.len()
    &&& forall|i: int| 0 <= i < times.len() ==> #[trigger] times[i] <= u64::MAX - POST_EXIT_DELAY_MILLIS
}

/// Whether some scan before scan `n` reported session `(g, pid)` Launched.
pub open spec fn launched_before(
    watched: Seq<(Seq<char>, Seq<Seq<char>>)>,
    tables: Seq<Seq<ProcessEntry>>,
    times: Seq<u64>,
    n: nat,
    g: Seq<char>,
    pid: u32,
) -> bool {
    exists|m: nat, k: int|
        m < n && 0 <= k < run_events(watched, tables, times, m).len() && #[trigger] run_events(
            watched,
            tables,
            times,
            m,
        )[k] == (Sighting::Launched, g, pid)
}

proof fn lemma_run_invariant(
    watched: Seq<(Seq<char>, Seq<Seq<char>>)>,
    tables: Seq<Seq<ProcessEntry>>,
    times: Seq<u64>,
    n: nat,
)
    requires
        run_times_ok(tables, times),
        n <= tables.len(),
    ensures
        ({
            let s = run_state(watched, tables, times, n);
            &&& forall|j: int|
                0 <= j < s.0.len() ==> launched_before(
                    watched,
                    tables,
                    times,
                    n,
                    (#[trigger] s.0[j]).0,
                    s.0[j].1,
                )
            &&& forall|j: int|
                0 <= j < s.1.len() ==> launched_before(
                    watched,
                    tables,
                    times,
                    n,
                    (#[trigger] s.1[j]).0,
                    s.1[j].1,
                )
            &&& forall|j: int|
                0 <= j < s.1.len() ==> exists|m: nat|
                    m < n && (#[trigger] s.1[j]).2 == times[m as int] + POST_EXIT_DELAY_MILLIS
                        && session_in(run_state(watched, tables, times, m).0, s.1[j].0, s.1[j].1)
                        && !pid_listed(tables[m as int], s.1[j].1)
        }),
    decreases n,
{
    if n > 0 {
        let p = (n - 1) as nat;
        lemma_run_invariant(watched, tables, times, p);
        let s0 = run_state(watched, tables, times, p);
        let s = run_state(watched, tables, times, n);
        let ev = run_events(watched, tables, times, p);
        assert(times[p as int] <= u64::MAX - POST_EXIT_DELAY_MILLIS);
        lemma_session_events_in_order(watched, s0.0, s0.1, tables[p as int], times[p as int]);
        lemma_scan_carries(watched, s0.0, s0.1, tables[p as int], times[p as int]);
        assert forall|g: Seq<char>, pid: u32|
            launched_before(watched, tables, times, p, g, pid) implies launched_before(
            watched,
            tables,
            times,
            n,
            g,
            pid,
        ) by {
            let (m, k) = choose|m: nat, k: int|
                m < p && 0 <= k < run_events(watched, tables, times, m).len() && #[trigger] run_events(
                    watched,
                    tables,
                    times,
                    m,
                )[k] == (Sighting::Launched, g, pid);
            assert(run_events(watched, tables, times, m)[k] == (Sighting::Launched, g, pid));
        }
        assert forall|g: Seq<char>, pid: u32| session_in(s0.0, g, pid) implies launched_before(
            watched,
            tables,
            times,
            n,
            g,
            pid,
        ) by {
            let j = choose|j: int| 0 <= j < s0.0.len() && #[trigger] s0.0[j] == (g, pid);
            assert(launched_before(watched, tables, times, p, s0.0[j].0, s0.0[j].1));
        }
        assert forall|g: Seq<char>, pid: u32| waiting_in(s0.1, g, pid) implies launched_before(
            watched,
            tables,
            times,
            n,
            g,
            pid,
        ) by {
            let j = choose|j: int| 0 <= j < s0.1.len() && #[trigger] s0.1[j].0 == g && s0.1[j].1 == pid;
            assert(launched_before(watched, tables, times, p, s0.1[j].0, s0.1[j].1));
        }
        assert forall|j: int| 0 <= j < s.0.len() implies launched_before(
            watched,
            tables,
            times,
            n,
            (#[trigger] s.0[j]).0,
            s.0[j].1,
        ) by {
            if !session_in(s0.0, s.0[j].0, s.0[j].1) {
                let i = choose|i: int|
                    0 <= i < ev.len() && ev[i] == (Sighting::Launched, s.0[j].0, s.0[j].1);
                assert(run_events(watched, tables, times, p)[i] == (
                    Sighting::Launched,
                    s.0[j].0,
                    s.0[j].1,
                ));
            }
        }
        assert forall|j: int| 0 <= j < s.1.len() implies launched_before(
            watched,
            tables,
            times,
            n,
            (#[trigger] s.1[j]).0,
            s.1[j].1,
        ) by {
            if !waiting_in(s0.1, s.1[j].0, s.1[j].1) {
                assert(session_in(s0.0, s.1[j].0, s.1[j].1));
            }
        }
        assert forall|j: int| 0 <= j < s.1.len() implies exists|m: nat|
            m < n && (#[trigger] s.1[j]).2 == times[m as int] + POST_EXIT_DELAY_MILLIS
                && session_in(run_state(watched, tables, times, m).0, s.1[j].0, s.1[j].1)
                && !pid_listed(tables[m as int], s.1[j].1) by {
            if exists|j0: int| 0 <= j0 < s0.1.len() && s0.1[j0] == #[trigger] s.1[j] {
                let j0 = choose|j0: int| 0 <= j0 < s0.1.len() && s0.1[j0] == s.1[j];
                let m = choose|m: nat|
                    m < p && (#[trigger] s0.1[j0]).2 == times[m as int] + POST_EXIT_DELAY_MILLIS
                        && session_in(run_state(watched, tables, times, m).0, s0.1[j0].0, s0.1[j0].1)
                        && !pid_listed(tables[m as int], s0.1[j0].1);
                assert(m < n);
            } else {
                assert(s.1[j].2 == times[p as int] + POST_EXIT_DELAY_MILLIS);
            }
        }
    }
}

/// In a run that starts with no session, every Running and Exited event is
/// for a session that an earlier scan reported Launched.
pub proof fn lemma_run_reports_follow_launch(
    watched: Seq<(Seq<char>, Seq<Seq<char>>)>,
    tables: Seq<Seq<ProcessEntry>>,
    times: Seq<u64>,
    n: nat,
    i: int,
)
    requires
        run_times_ok(tables, times),
        n < tables.len(),
        0 <= i < run_events(watched, tables, times, n).len(),
        run_events(watched, tables, times, n)[i].0 != Sighting::Launched,
    ensures
        launched_before(
            watched,
            tables,
            times,
            n,
            run_events(watched, tables, times, n)[i].1,
            run_events(watched, tables, times, n)[i].2,
        ),
{
    lemma_run_invariant(watched, tables, times, n);
    let s = run_state(watched, tables, times, n);
    let ev = run_events(watched, tables, times, n);
    lemma_session_events_in_order(watched, s.0, s.1, tables[n as int], times[n as int]);
    if ev[i].0 == Sighting::Running {
        let j = choose|j: int| 0 <= j < s.0.len() && #[trigger] s.0[j] == (ev[i].1, ev[i].2);
        assert(launched_before(watched, tables, times, n, s.0[j].0, s.0[j].1));
    } else {
        let j = choose|j: int| 0 <= j < s.1.len() && #[trigger] s.1[j].0 == ev[i].1 && s.1[j].1 == ev[i].2;
        assert(launched_before(watched, tables, times, n, s.1[j].0, s.1[j].1));
    }
}

/// In such a run, an Exited event comes no earlier than
/// `POST_EXIT_DELAY_MILLIS` after an earlier scan that found the session
/// gone: a scan in which it was running and its process was not listed.
pub proof fn lemma_run_exit_waits(
    watched: Seq<(Seq<char>, Seq<Seq<char>>)>,
    tables: Seq<Seq<ProcessEntry>>,
    times: Seq<u64>,
    n: nat,
    i: int,
)
    requires
        run_times_ok(tables, times),
        n < tables.len(),
        0 <= i < run_events(watched, tables, times, n).len(),
        run_events(watched, tables, times, n)[i].0 == Sighting::Exited,
    ensures
        exists|m: nat|
            m < n && times[m as int] + POST_EXIT_DELAY_MILLIS <= times[n as int] && session_in(
                #[trigger] run_state(watched, tables, times, m).0,
                run_events(watched, tables, times, n)[i].1,
                run_events(watched, tables, times, n)[i].2,
            ) && !pid_listed(tables[m as int], run_events(watched, tables, times, n)[i].2),
{
    lemma_run_invariant(watched, tables, times, n);
    let s = run_state(watched, tables, times, n);
    let ev = run_events(watched, tables, times, n);
    let now = times[n as int];
    let d = (now + POST_EXIT_DELAY_MILLIS) as u64;
    let sw = sweep(s.0, tables[n as int], d);
    let due = due_exits(s.1, now);
    let la = launches(watched, sw.1, pending_exits(s.1, now) + sw.2, tables[n as int]);
    assert(ev == due + sw.0 + la.0);
    lemma_sweep_from_active(s.0, tables[n as int], d);
    lemma_launches_extend(watched, sw.1, pending_exits(s.1, now) + sw.2, tables[n as int]);
    lemma_exits_only_when_due(s.1, now);
    if i < due.len() {
        assert(ev[i] == due[i]);
        assert(reports_due_session(s.1, now, due[i]));
        let j = choose|j: int|
            0 <= j < s.1.len() && s.1[j].2 <= now && due[i] == (Sighting::Exited, s.1[j].0, s.1[j].1);
        let m = choose|m: nat|
            m < n && (#[trigger] s.1[j]).2 == times[m as int] + POST_EXIT_DELAY_MILLIS
                && session_in(run_state(watched, tables, times, m).0, s.1[j].0, s.1[j].1)
                && !pid_listed(tables[m as int], s.1[j].1);
        assert(times[m as int] + POST_EXIT_DELAY_MILLIS <= now);
    } else if i < due.len() + sw.0.len() {
        assert(ev[i] == sw.0[i - due.len()]);
    } else {
        assert(ev[i] == la.0[i - due.len() - sw.0.len()]);
    }
}

/// After a launch of game `g` in scan `m`, `g` stays running or waiting
/// until a scan reports it Exited.
proof fn lemma_run_game_present(
    watched: Seq<(Seq<char>, Seq<Seq<char>>)>,
    tables: Seq<Seq<ProcessEntry>>,
    times: Seq<u64>,
    m: nat,
    k: int,
    j: nat,
)
    requires
        run_times_ok(tables, times),
        m < j <= tables.len(),
        0 <= k < run_events(watched, tables, times, m).len(),
        run_events(watched, tables, times, m)[k].0 == Sighting::Launched,
    ensures
        ({
            let g = run_events(watched, tables, times, m)[k].1;
            let s = run_state(watched, tables, times, j);
            game_active(s.0, g) || game_waiting(s.1, g) || exists|t: nat|
                m <= t < j && exited_in(#[trigger] run_events(watched, tables, times, t), g)
        }),
    decreases j,
{
    let g = run_events(watched, tables, times, m)[k].1;
    let p = (j - 1) as nat;
    let s0 = run_state(watched, tables, times, p);
    assert(times[p as int] <= u64::MAX - POST_EXIT_DELAY_MILLIS);
    lemma_scan_carries(watched, s0.0, s0.1, tables[p as int], times[p as int]);
    let s = run_state(watched, tables, times, j);
    let ev = run_events(watched, tables, times, p);
    if j == m + 1 {
        assert(ev[k].0 == Sighting::Launched);
    } else {
        lemma_run_game_present(watched, tables, times, m, k, p);
        if game_active(s0.0, g) {
            let a = choose|a: int| 0 <= a < s0.0.len() && #[trigger] s0.0[a].0 == g;
            assert(game_active(s.0, s0.0[a].0) || game_waiting(s.1, s0.0[a].0));
        } else if game_waiting(s0.1, g) {
            let a = choose|a: int| 0 <= a < s0.1.len() && #[trigger] s0.1[a].0 == g;
            assert(game_waiting(s.1, s0.1[a].0) || exited_in(ev, s0.1[a].0));
            if exited_in(ev, g) {
                assert(m <= p < j);
            }
        } else {
            let t = choose|t: nat|
                m <= t < p && exited_in(#[trigger] run_events(watched, tables, times, t), g);
            assert(m <= t < j);
        }
    }
}

/// In such a run a game is not launched twice without an exit between: if
/// scans `m < n` both report game `g` Launched, some scan from `m` to `n`
/// reports `g` Exited (within scan `n`, exits come before launches).
pub proof fn lemma_run_no_second_launch(
    watched: Seq<(Seq<char>, Seq<Seq<char>>)>,
    tables: Seq<Seq<ProcessEntry>>,
    times: Seq<u64>,
    m: nat,
    k: int,
    n: nat,
    i: int,
)
    requires
        run_times_ok(tables, times),
        m < n < tables.len(),
        0 <= k < run_events(watched, tables, times, m).len(),
        run_events(watched, tables, times, m)[k].0 == Sighting::Launched,
        0 <= i < run_events(watched, tables, times, n).len(),
        run_events(watched, tables, times, n)[i].0 == Sighting::Launched,
        run_events(watched, tables, times, n)[i].1 == run_events(watched, tables, times, m)[k].1,
    ensures
        exists|t: nat|
            m <= t <= n && exited_in(
                #[trigger] run_events(watched, tables, times, t),
                run_events(watched, tables, times, m)[k].1,
            ),
{
    let g = run_events(watched, tables, times, m)[k].1;
    lemma_run_game_present(watched, tables, times, m, k, n);
    let s = run_state(watched, tables, times, n);
    assert(times[n as int] <= u64::MAX - POST_EXIT_DELAY_MILLIS);
    lemma_scan_carries(watched, s.0, s.1, tables[n as int], times[n as int]);
    let ev = run_events(watched, tables, times, n);
    assert(ev[i].0 == Sighting::Launched);
    if game_waiting(s.1, g) {
        assert(exited_in(ev, g));
    } else if !game_active(s.0, g) {
        let t = choose|t: nat| m <= t < n && exited_in(#[trigger] run_events(watched, tables, times, t), g);
        assert(m <= t <= n);
    }
}

proof fn lemma_due_unique(ex: Seq<(Seq<char>, u32, u64)>, now: u64)
    requires
        distinct_waiting(ex),
    ensures
        forall|i: int, j: int|
            #![trigger due_exits(ex, now)[i], due_exits(ex, now)[j]]
            0 <= i < j < due_exits(ex, now).len() ==> due_exits(ex, now)[i].1 != due_exits(ex, now)[j].1,
    decreases ex.len(),
{
    if ex.len() > 0 {
        let prev = ex.drop_last();
        assert forall|i: int, j: int| #![trigger prev[i], prev[j]] 0 <= i < j < prev.len() implies prev[i].0 != prev[j].0 by {
            assert(prev[i] == ex[i] && prev[j] == ex[j]);
        }
        lemma_due_unique(prev, now);
        lemma_exits_only_when_due(prev, now);
        let d0 = due_exits(prev, now);
        let d = due_exits(ex, now);
        let n = ex.len() - 1;
        assert forall|i: int, j: int| #![trigger d[i], d[j]] 0 <= i < j < d.len() implies d[i].1 != d[j].1 by {
            if j == d0.len() {
                assert(d[i] == d0[i]);
                assert(reports_due_session(prev, now, d0[i]));
                let k = choose|k: int|
                    0 <= k < prev.len() && prev[k].2 <= now && d0[i] == (Sighting::Exited, prev[k].0, prev[k].1);
                assert(ex[k] == prev[k]);
                assert(ex[k].0 != ex[n].0);
            } else {
                assert(d[i] == d0[i] && d[j] == d0[j]);
            }
        }
    }
}

proof fn lemma_run_unique(
    watched: Seq<(Seq<char>, Seq<Seq<char>>)>,
    tables: Seq<Seq<ProcessEntry>>,
    times: Seq<u64>,
    n: nat,
)
    requires
        n <= tables.len(),
    ensures
        one_session_per_game(
            run_state(watched, tables, times, n).0,
            run_state(watched, tables, times, n).1,
        ),
    decreases n,
{
    if n > 0 {
        let p = (n - 1) as nat;
        lemma_run_unique(watched, tables, times, p);
        let s0 = run_state(watched, tables, times, p);
        lemma_scan_unique(watched, s0.0, s0.1, tables[p as int], times[p as int]);
    }
}

/// Whether game `g` has a session, running or waiting, in state `s`.
pub open spec fn game_present(
    s: (Seq<(Seq<char>, u32)>, Seq<(Seq<char>, u32, u64)>),
    g: Seq<char>,
) -> bool {
    game_active(s.0, g) || game_waiting(s.1, g)
}

/// Whether the events report a launch of game `g`.
pub open spec fn launched_in(ev: Seq<(Sighting, Seq<char>, u32)>, g: Seq<char>) -> bool {
    exists|i: int| 0 <= i < ev.len() && (#[trigger] ev[i]).0 == Sighting::Launched && ev[i].1 == g
}

/// A scan that reports `g` Exited reports no other exit of `g`, and leaves
/// `g` without a session unless it also launches `g`.
proof fn lemma_run_after_exit(
    watched: Seq<(Seq<char>, Seq<Seq<char>>)>,
    tables: Seq<Seq<ProcessEntry>>,
    times: Seq<u64>,
    t: nat,
    i: int,
)
    requires
        run_times_ok(tables, times),
        t < tables.len(),
        0 <= i < run_events(watched, tables, times, t).len(),
        run_events(watched, tables, times, t)[i].0 == Sighting::Exited,
    ensures
        ({
            let ev = run_events(watched, tables, times, t);
            let g = ev[i].1;
            &&& forall|i2: int|
                0 <= i2 < ev.len() && i2 != i && (#[trigger] ev[i2]).0 == Sighting::Exited ==> ev[i2].1 != g
            &&& !game_present(run_state(watched, tables, times, t + 1), g) || launched_in(ev, g)
        }),
{
    lemma_run_unique(watched, tables, times, t);
    let s = run_state(watched, tables, times, t);
    let now = times[t as int];
    let procs = tables[t as int];
    let d = (now + POST_EXIT_DELAY_MILLIS) as u64;
    let sw = sweep(s.0, procs, d);
    let pe = pending_exits(s.1, now);
    let waiting = pe + sw.2;
    let la = launches(watched, sw.1, waiting, procs);
    let due = due_exits(s.1, now);
    let ev = run_events(watched, tables, times, t);
    assert(ev == due + sw.0 + la.0);
    let g = ev[i].1;
    lemma_sweep_from_active(s.0, procs, d);
    lemma_launches_extend(watched, sw.1, waiting, procs);
    lemma_pending_from(s.1, now);
    lemma_exits_only_when_due(s.1, now);
    lemma_due_unique(s.1, now);
    // The exit comes from the waiting part of the state.
    assert(i < due.len()) by {
        if i >= due.len() && i < due.len() + sw.0.len() {
            assert(ev[i] == sw.0[i - due.len()]);
        } else if i >= due.len() {
            assert(ev[i] == la.0[i - due.len() - sw.0.len()]);
        }
    }
    assert(ev[i] == due[i]);
    assert(reports_due_session(s.1, now, due[i]));
    let j = choose|j: int| 0 <= j < s.1.len() && s.1[j].2 <= now && due[i] == (Sighting::Exited, s.1[j].0, s.1[j].1);
    assert forall|i2: int| 0 <= i2 < ev.len() && i2 != i && (#[trigger] ev[i2]).0 == Sighting::Exited implies ev[i2].1 != g by {
        if i2 < due.len() {
            assert(ev[i2] == due[i2]);
            if i2 < i {
                assert(due[i2].1 != due[i].1);
            } else {
                assert(due[i].1 != due[i2].1);
            }
        } else if i2 < due.len() + sw.0.len() {
            assert(ev[i2] == sw.0[i2 - due.len()]);
        } else {
            assert(ev[i2] == la.0[i2 - due.len() - sw.0.len()]);
        }
    }
    // No running session of g, and no other waiting one.
    assert(!game_active(s.0, g)) by {
        if game_active(s.0, g) {
            let a = choose|a: int| 0 <= a < s.0.len() && #[trigger] s.0[a].0 == g;
            assert(s.0[a].0 != s.1[j].0);
        }
    }
    let s2 = run_state(watched, tables, times, t + 1);
    assert(s2.0 == la.1 && s2.1 == waiting);
    if !launched_in(ev, g) {
        assert(!game_active(la.1, g)) by {
            if game_active(la.1, g) {
                let a = choose|a: int| 0 <= a < la.1.len() && #[trigger] la.1[a].0 == g;
                if a < sw.1.len() {
                    assert(la.1[a] == sw.1[a]);
                    assert(session_in(s.0, sw.1[a].0, sw.1[a].1));
                    let b = choose|b: int| 0 <= b < s.0.len() && #[trigger] s.0[b] == (sw.1[a].0, sw.1[a].1);
                    assert(s.0[b].0 == g);
                } else {
                    let m = a - sw.1.len();
                    assert(la.1[sw.1.len() + m] == (la.0[m].1, la.0[m].2));
                    let k = due.len() + sw.0.len() + m;
                    assert(ev[k] == la.0[m]);
                    assert(ev[k].0 == Sighting::Launched && ev[k].1 == g);
                }
            }
        }
        assert(!game_waiting(waiting, g)) by {
            if game_waiting(waiting, g) {
                let a = choose|a: int| 0 <= a < waiting.len() && #[trigger] waiting[a].0 == g;
                if a < pe.len() {
                    assert(waiting[a] == pe[a]);
                    let k = choose|k: int| 0 <= k < s.1.len() && s.1[k] == #[trigger] pe[a];
                    assert(pe[a].2 > now);
                    if k != j {
                        if k < j {
                            assert(s.1[k].0 != s.1[j].0);
                        } else {
                            assert(s.1[j].0 != s.1[k].0);
                        }
                    }
                } else {
                    assert(waiting[a] == sw.2[a - pe.len()]);
                    let e = sw.2[a - pe.len()];
                    assert(session_in(s.0, e.0, e.1));
                    let b = choose|b: int| 0 <= b < s.0.len() && #[trigger] s.0[b] == (e.0, e.1);
                    assert(s.0[b].0 == g);
                }
            }
        }
    }
}

/// A game without a session gets one only through a launch.
proof fn lemma_run_absent_stays(
    watched: Seq<(Seq<char>, Seq<Seq<char>>)>,
    tables: Seq<Seq<ProcessEntry>>,
    times: Seq<u64>,
    t: nat,
    g: Seq<char>,
)
    requires
        run_times_ok(tables, times),
        t < tables.len(),
        !game_present(run_state(watched, tables, times, t), g),
        !launched_in(run_events(watched, tables, times, t), g),
    ensures
        !game_present(run_state(watched, tables, times, t + 1), g),
{
    let s = run_state(watched, tables, times, t);
    let ev = run_events(watched, tables, times, t);
    lemma_session_events_in_order(watched, s.0, s.1, tables[t as int], times[t as int]);
    let s2 = run_state(watched, tables, times, t + 1);
    if game_active(s2.0, g) {
        let a = choose|a: int| 0 <= a < s2.0.len() && #[trigger] s2.0[a].0 == g;
        if session_in(s.0, s2.0[a].0, s2.0[a].1) {
            let b = choose|b: int| 0 <= b < s.0.len() && #[trigger] s.0[b] == (s2.0[a].0, s2.0[a].1);
            assert(s.0[b].0 == g);
        } else {
            let k = choose|k: int| 0 <= k < ev.len() && ev[k] == (Sighting::Launched, s2.0[a].0, s2.0[a].1);
            assert(ev[k].0 == Sighting::Launched && ev[k].1 == g);
        }
    }
    if game_waiting(s2.1, g) {
        let a = choose|a: int| 0 <= a < s2.1.len() && #[trigger] s2.1[a].0 == g;
        if waiting_in(s.1, s2.1[a].0, s2.1[a].1) {
            let b = choose|b: int| 0 <= b < s.1.len() && #[trigger] s.1[b].0 == s2.1[a].0 && s.1[b].1 == s2.1[a].1;
            assert(s.1[b].0 == g);
        } else {
            let b = choose|b: int| 0 <= b < s.0.len() && #[trigger] s.0[b] == (s2.1[a].0, s2.1[a].1);
            assert(s.0[b].0 == g);
        }
    }
}

proof fn lemma_run_absent_until(
    watched: Seq<(Seq<char>, Seq<Seq<char>>)>,
    tables: Seq<Seq<ProcessEntry>>,
    times: Seq<u64>,
    from: nat,
    to: nat,
    g: Seq<char>,
)
    requires
        run_times_ok(tables, times),
        from <= to <= tables.len(),
        !game_present(run_state(watched, tables, times, from), g),
        forall|u: nat| from <= u < to ==> !launched_in(#[trigger] run_events(watched, tables, times, u), g),
    ensures
        !game_present(run_state(watched, tables, times, to), g),
    decreases to - from,
{
    if from < to {
        let p = (to - 1) as nat;
        lemma_run_absent_until(watched, tables, times, from, p, g);
        assert(!launched_in(run_events(watched, tables, times, p), g));
        lemma_run_absent_stays(watched, tables, times, p, g);
    }
}

/// In a run that starts with no session, a game is reported Exited once per
/// launch: between two Exited events for game `g` (in the order the events
/// are sent) some scan reports `g` Launched.
pub proof fn lemma_run_one_exit_per_launch(
    watched: Seq<(Seq<char>, Seq<Seq<char>>)>,
    tables: Seq<Seq<ProcessEntry>>,
    times: Seq<u64>,
    t1: nat,
    i1: int,
    t2: nat,
    i2: int,
)
    requires
        run_times_ok(tables, times),
        t1 <= t2 < tables.len(),
        0 <= i1 < run_events(watched, tables, times, t1).len(),
        0 <= i2 < run_events(watched, tables, times, t2).len(),
        t1 < t2 || i1 < i2,
        run_events(watched, tables, times, t1)[i1].0 == Sighting::Exited,
        run_events(watched, tables, times, t2)[i2].0 == Sighting::Exited,
        run_events(watched, tables, times, t2)[i2].1 == run_events(watched, tables, times, t1)[i1].1,
    ensures
        exists|u: nat|
            t1 <= u < t2 && launched_in(
                #[trigger] run_events(watched, tables, times, u),
                run_events(watched, tables, times, t1)[i1].1,
            ),
{
    let g = run_events(watched, tables, times, t1)[i1].1;
    lemma_run_after_exit(watched, tables, times, t1, i1);
    if t1 == t2 {
        assert(run_events(watched, tables, times, t1)[i2].1 != g);
    } else if !launched_in(run_events(watched, tables, times, t1), g) {
        if !(exists|u: nat| t1 <= u < t2 && launched_in(#[trigger] run_events(watched, tables, times, u), g)) {
            assert forall|u: nat| t1 + 1 <= u < t2 implies !launched_in(
                #[trigger] run_events(watched, tables, times, u),
                g,
            ) by {}
            lemma_run_absent_until(watched, tables, times, t1 + 1, t2, g);
            let s = run_state(watched, tables, times, t2);
            lemma_session_events_in_order(watched, s.0, s.1, tables[t2 as int], times[t2 as int]);
            let ev = run_events(watched, tables, times, t2);
            let j = choose|j: int| 0 <= j < s.1.len() && #[trigger] s.1[j].0 == ev[i2].1 && s.1[j].1 == ev[i2].2;
            assert(game_waiting(s.1, g));
        }
    }
}

/// A session found gone by scan `m` waits, with deadline
/// `times[m] + POST_EXIT_DELAY_MILLIS`, through every later scan that comes
/// before the deadline.
proof fn lemma_run_waits_until(
    watched: Seq<(Seq<char>, Seq<Seq<char>>)>,
    tables: Seq<Seq<ProcessEntry>>,
    times: Seq<u64>,
    m: nat,
    u: nat,
    g: Seq<char>,
    pid: u32,
)
    requires
        run_times_ok(tables, times),
        m < u <= tables.len(),
        session_in(run_state(watched, tables, times, m).0, g, pid),
        !pid_listed(tables[m as int], pid),
        forall|v: nat| m < v < u ==> #[trigger] times[v as int] < times[m as int] + POST_EXIT_DELAY_MILLIS,
    ensures
        exists|j: int|
            0 <= j < run_state(watched, tables, times, u).1.len() && #[trigger] run_state(
                watched,
                tables,
                times,
                u,
            ).1[j] == (g, pid, (times[m as int] + POST_EXIT_DELAY_MILLIS) as u64),
    decreases u - m,
{
    let p = (u - 1) as nat;
    let s0 = run_state(watched, tables, times, p);
    let now = times[p as int];
    let procs = tables[p as int];
    let d = (now + POST_EXIT_DELAY_MILLIS) as u64;
    let sw = sweep(s0.0, procs, d);
    let pe = pending_exits(s0.1, now);
    let s = run_state(watched, tables, times, u);
    assert(s.1 == pe + sw.2);
    let target = (g, pid, (times[m as int] + POST_EXIT_DELAY_MILLIS) as u64);
    if p == m {
        lemma_sweep_from_active(s0.0, procs, d);
        let a = choose|a: int| 0 <= a < s0.0.len() && #[trigger] s0.0[a] == (g, pid);
        if exists|i: int| 0 <= i < sw.1.len() && sw.1[i] == s0.0[a] {
            let i = choose|i: int| 0 <= i < sw.1.len() && sw.1[i] == s0.0[a];
            assert(pid_listed(procs, sw.1[i].1));
        } else {
            let i = choose|i: int| 0 <= i < sw.2.len() && sw.2[i] == (s0.0[a].0, s0.0[a].1, d);
            assert(s.1[pe.len() + i] == target);
        }
    } else {
        lemma_run_waits_until(watched, tables, times, m, p, g, pid);
        let j = choose|j: int| 0 <= j < s0.1.len() && #[trigger] s0.1[j] == target;
        assert(times[p as int] < times[m as int] + POST_EXIT_DELAY_MILLIS);
        lemma_pending_keeps(s0.1, now);
        assert(s0.1[j].2 > now);
        let i = choose|i: int| 0 <= i < pe.len() && pe[i] == s0.1[j];
        assert(s.1[i] == target);
    }
}

/// In such a run a session is reported Exited at the first scan that comes
/// `POST_EXIT_DELAY_MILLIS` or more after a scan that found it gone.
pub proof fn lemma_run_exit_reported(
    watched: Seq<(Seq<char>, Seq<Seq<char>>)>,
    tables: Seq<Seq<ProcessEntry>>,
    times: Seq<u64>,
    m: nat,
    n: nat,
    g: Seq<char>,
    pid: u32,
)
    requires
        run_times_ok(tables, times),
        m < n < tables.len(),
        session_in(run_state(watched, tables, times, m).0, g, pid),
        !pid_listed(tables[m as int], pid),
        forall|v: nat| m < v < n ==> #[trigger] times[v as int] < times[m as int] + POST_EXIT_DELAY_MILLIS,
        times[n as int] >= times[m as int] + POST_EXIT_DELAY_MILLIS,
    ensures
        exists|i: int|
            0 <= i < run_events(watched, tables, times, n).len() && #[trigger] run_events(
                watched,
                tables,
                times,
                n,
            )[i] == (Sighting::Exited, g, pid),
{
    lemma_run_waits_until(watched, tables, times, m, n, g, pid);
    let s = run_state(watched, tables, times, n);
    let now = times[n as int];
    let target = (g, pid, (times[m as int] + POST_EXIT_DELAY_MILLIS) as u64);
    let j = choose|j: int| 0 <= j < s.1.len() && #[trigger] s.1[j] == target;
    lemma_due_reported(s.1, now);
    assert(s.1[j].2 <= now);
    let due = due_exits(s.1, now);
    let i = choose|i: int| 0 <= i < due.len() && due[i] == (Sighting::Exited, s.1[j].0, s.1[j].1);
    let d = (now + POST_EXIT_DELAY_MILLIS) as u64;
    let sw = sweep(s.0, tables[n as int], d);
    let la = launches(watched, sw.1, pending_exits(s.1, now) + sw.2, tables[n as int]);
    let ev = run_events(watched, tables, times, n);
    assert(ev == due + sw.0 + la.0);
    assert(ev[i] == due[i]);
}

/// Copy of a list of strings.
fn clone_texts(v: &Vec<String>) -> (r: Vec<String>)
    ensures
        r@ == v@,
{
    let mut r: Vec<String> = Vec::new();
    let mut i: usize = 0;
    while i < v.len()
        invariant
            i <= v@.len(),
            r@ == v@.take(i as int),
        decreases v@.len() - i,
    {
        r.push(v[i].clone());
        assert(v@.take(i + 1) =~= v@.take(i as int).push(v@[i as int]));
        i = i + 1;
    }
    assert(v@.take(v@.len() as int) =~= v@);
    r
}

/// Sessions whose deadline has come become Exited events; the others keep
/// waiting.
fn split_exits(exiting: &Vec<ExitingSession>, now: u64) -> (r: (Vec<AgentEvent>, Vec<ExitingSession>))
    ensures
        events_view(r.0@) == due_exits(exiting_view(exiting@), now),
        exiting_view(r.1@) == pending_exits(exiting_view(exiting@), now),
{
    let ghost ex = exiting_view(exiting@);
    let mut events: Vec<AgentEvent> = Vec::new();
    let mut pending: Vec<ExitingSession> = Vec::new();
    let mut i: usize = 0;
    while i < exiting.len()
        invariant
            i <= exiting@.len(),
            ex == exiting_view(exiting@),
            events_view(events@) == due_exits(ex.take(i as int), now),
            exiting_view(pending@) == pending_exits(ex.take(i as int), now),
        decreases exiting@.len() - i,
    {
        let s = &exiting[i];
        proof {
            assert(ex.take(i + 1).drop_last() =~= ex.take(i as int));
            assert(ex.take(i + 1).last() == (s.game_id@, s.pid, s.deadline));
        }
        if s.deadline <= now {
            let e = AgentEvent::Exited { game_id: s.game_id.clone(), pid: s.pid };
            proof {
                lemma_events_push(events@, e);
            }
            events.push(e);
        } else {
            let p = ExitingSession { game_id: s.game_id.clone(), pid: s.pid, deadline: s.deadline };
            proof {
                lemma_exiting_push(pending@, p);
            }
            pending.push(p);
        }
        i = i + 1;
    }
    proof {
        assert(ex.take(exiting@.len() as int) =~= ex);
    }
    (events, pending)
}

/// Running sessions checked against the process list.
fn sweep_active(active: &Vec<(String, u32)>, table: &ProcessTable, deadline: u64) -> (r: (
    Vec<AgentEvent>,
    Vec<(String, u32)>,
    Vec<ExitingSession>,
))
    ensures
        ({
            let s = sweep(active_view(active@), table.processes@, deadline);
            &&& events_view(r.0@) == s.0
            &&& active_view(r.1@) == s.1
            &&& exiting_view(r.2@) == s.2
        }),
{
    let ghost act = active_view(active@);
    let mut events: Vec<AgentEvent> = Vec::new();
    let mut keep: Vec<(String, u32)> = Vec::new();
    let mut gone: Vec<ExitingSession> = Vec::new();
    let mut i: usize = 0;
    while i < active.len()
        invariant
            i <= active@.len(),
            act == active_view(active@),
            ({
                let s = sweep(act.take(i as int), table.processes@, deadline);
                &&& events_view(events@) == s.0
                &&& active_view(keep@) == s.1
                &&& exiting_view(gone@) == s.2
            }),
        decreases active@.len() - i,
    {
        let game_id = &active[i].0;
        let pid = active[i].1;
        proof {
            assert(act.take(i + 1).drop_last() =~= act.take(i as int));
            assert(act.take(i + 1).last() == (game_id@, pid));
        }
        if table.is_running(pid) {
            let e = AgentEvent::Running { game_id: game_id.clone(), pid };
            let a = (game_id.clone(), pid);
            proof {
                lemma_events_push(events@, e);
                lemma_active_push(keep@, a);
            }
            events.push(e);
            keep.push(a);
        } else {
            let s = ExitingSession { game_id: game_id.clone(), pid, deadline };
            proof {
                lemma_exiting_push(gone@, s);
            }
            gone.push(s);
        }
        i = i + 1;
    }
    proof {
        assert(act.take(active@.len() as int) =~= act);
    }
    (events, keep, gone)
}

fn active_has(s: &Vec<(String, u32)>, g: &str) -> (r: bool)
    ensures
        r == has_active(active_view(s@), g@),
{
    let mut i: usize = 0;
    while i < s.len()
        invariant
            i <= s@.len(),
            forall|j: int| 0 <= j < i ==> s@[j].0@ != g@,
        decreases s@.len() - i,
    {
        if str_eq(s[i].0.as_str(), g) {
            assert(active_view(s@)[i as int].0 == g@);
            return true;
        }
        i = i + 1;
    }
    proof {
        if has_active(active_view(s@), g@) {
            let j = choose|j: int| 0 <= j < active_view(s@).len() && #[trigger] active_view(s@)[j].0 == g@;
            assert(s@[j].0@ == g@);
        }
    }
    false
}

fn exiting_has(s: &Vec<ExitingSession>, g: &str) -> (r: bool)
    ensures
        r == has_exiting(exiting_view(s@), g@),
{
    let mut i: usize = 0;
    while i < s.len()
        invariant
            i <= s@.len(),
            forall|j: int| 0 <= j < i ==> s@[j].game_id@ != g@,
        decreases s@.len() - i,
    {
        if str_eq(s[i].game_id.as_str(), g) {
            assert(exiting_view(s@)[i as int].0 == g@);
            return true;
        }
        i = i + 1;
    }
    proof {
        if has_exiting(exiting_view(s@), g@) {
            let j = choose|j: int| 0 <= j < exiting_view(s@).len() && #[trigger] exiting_view(s@)[j].0 == g@;
            assert(s@[j].game_id@ == g@);
        }
    }
    false
}

/// Watched games that are neither running nor waiting, looked up in the
/// process list.
fn launch_new(
    watched: &Vec<(String, Vec<String>)>,
    still: Vec<(String, u32)>,
    waiting: &Vec<ExitingSession>,
    table: &ProcessTable,
) -> (r: (Vec<AgentEvent>, Vec<(String, u32)>))
    ensures
        ({
            let l = launches(
                watched_view(watched@),
                active_view(still@),
                exiting_view(waiting@),
                table.processes@,
            );
            &&& events_view(r.0@) == l.0
            &&& active_view(r.1@) == l.1
        }),
{
    let ghost ws = watched_view(watched@);
    let ghost st0 = active_view(still@);
    let ghost wt = exiting_view(waiting@);
    let mut events: Vec<AgentEvent> = Vec::new();
    let mut st = still;
    let mut i: usize = 0;
    while i < watched.len()
        invariant
            i <= watched@.len(),
            ws == watched_view(watched@),
            wt == exiting_view(waiting@),
            ({
                let l = launches(ws.take(i as int), st0, wt, table.processes@);
                &&& events_view(events@) == l.0
                &&& active_view(st@) == l.1
            }),
        decreases watched@.len() - i,
    {
        let game_id = &watched[i].0;
        let names = &watched[i].1;
        proof {
            assert(ws.take(i + 1).drop_last() =~= ws.take(i as int));
            assert(ws.take(i + 1).last() == (game_id@, texts(names@)));
        }
        if !active_has(&st, game_id.as_str()) && !exiting_has(waiting, game_id.as_str()) {
            match table.find_by_name(names.as_slice()) {
                Some(info) => {
                    let e = AgentEvent::Launched { game_id: game_id.clone(), pid: info.pid };
                    let a = (game_id.clone(), info.pid);
                    proof {
                        lemma_events_push(events@, e);
                        lemma_active_push(st@, a);
                    }
                    events.push(e);
                    st.push(a);
                },
                None => {},
            }
        }
        i = i + 1;
    }
    proof {
        assert(ws.take(watched@.len() as int) =~= ws);
    }
    (events, st)
}

/// The Feather Agent's watch list and sessions.
pub struct AgentState {
    watched: Vec<(String, Vec<String>)>,
    active: Vec<(String, u32)>,
    exiting: Vec<ExitingSession>,
}

impl AgentState {
    /// Watched games with their process names.
    pub closed spec fn watched_spec(&self) -> Seq<(Seq<char>, Seq<Seq<char>>)> {
        watched_view(self.watched@)
    }

    /// Running sessions: game id and process id.
    pub closed spec fn active_spec(&self) -> Seq<(Seq<char>, u32)> {
        active_view(self.active@)
    }

    /// Sessions waiting to be reported as exited.
    pub closed spec fn exiting_spec(&self) -> Seq<(Seq<char>, u32, u64)> {
        exiting_view(self.exiting@)
    }

    pub fn new() -> (a: Self)
        ensures
            a.watched_spec() == Seq::<(Seq<char>, Seq<Seq<char>>)>::empty(),
            a.active_spec() == Seq::<(Seq<char>, u32)>::empty(),
            a.exiting_spec() == Seq::<(Seq<char>, u32, u64)>::empty(),
    {
        let a = AgentState { watched: Vec::new(), active: Vec::new(), exiting: Vec::new() };
        assert(a.watched_spec() =~= Seq::<(Seq<char>, Seq<Seq<char>>)>::empty());
        assert(a.active_spec() =~= Seq::<(Seq<char>, u32)>::empty());
        assert(a.exiting_spec() =~= Seq::<(Seq<char>, u32, u64)>::empty());
        a
    }

    /// Start watching a game under one or more process names; a game
    /// already watched gets the new names.
    pub fn track(&mut self, game_id: String, process_names: Vec<String>)
        ensures
            final(self).watched_spec() == without_watch(old(self).watched_spec(), game_id@).push(
                (game_id@, texts(process_names@)),
            ),
            final(self).active_spec() == old(self).active_spec(),
            final(self).exiting_spec() == old(self).exiting_spec(),
    {
        self.drop_watch(game_id.as_str());
        let ghost w = (game_id, process_names);
        proof {
            lemma_watched_push(self.watched@, w);
        }
        self.watched.push((game_id, process_names));
    }

    fn drop_watch(&mut self, game_id: &str)
        ensures
            final(self).watched_spec() == without_watch(old(self).watched_spec(), game_id@),
            final(self).active_spec() == old(self).active_spec(),
            final(self).exiting_spec() == old(self).exiting_spec(),
    {
        let ghost ws = self.watched_spec();
        let n = self.watched.len();
        let mut old_list: Vec<(String, Vec<String>)> = Vec::new();
        std::mem::swap(&mut old_list, &mut self.watched);
        assert(watched_view(old_list@) == ws);
        let mut i: usize = 0;
        while i < n
            invariant
                n == ws.len(),
                i <= n,
                old_list@.len() == n - i,
                forall|j: int| 0 <= j < n - i ==> #[trigger] watched_view(old_list@)[j] == ws[i + j],
                self.watched_spec() == without_watch(ws.take(i as int), game_id@),
                self.active_spec() == old(self).active_spec(),
                self.exiting_spec() == old(self).exiting_spec(),
            decreases n - i,
        {
            let ghost prev = old_list@;
            let w = old_list.remove(0);
            proof {
                assert(watched_view(prev)[0] == ws[i as int]);
                assert(w == prev[0]);
                assert(ws.take(i + 1).drop_last() =~= ws.take(i as int));
                assert(ws.take(i + 1).last() == ws[i as int]);
                assert forall|j: int| 0 <= j < n - i - 1 implies #[trigger] watched_view(
                    old_list@,
                )[j] == ws[i + 1 + j] by {
                    assert(old_list@[j] == prev[j + 1]);
                    assert(watched_view(prev)[j + 1] == ws[i + (j + 1)]);
                }
            }
            if !str_eq(w.0.as_str(), game_id) {
                proof {
                    lemma_watched_push(self.watched@, w);
                }
                self.watched.push(w);
            }
            i = i + 1;
        }
        proof {
            assert(ws.take(n as int) =~= ws);
        }
    }

    /// Stop watching a game and forget its running session.
    pub fn untrack(&mut self, game_id: &str)
        ensures
            final(self).watched_spec() == without_watch(old(self).watched_spec(), game_id@),
            final(self).active_spec() == without_active(old(self).active_spec(), game_id@),
            final(self).exiting_spec() == old(self).exiting_spec(),
    {
        let ghost act = self.active_spec();
        let n = self.active.len();
        let mut kept: Vec<(String, u32)> = Vec::new();
        let mut i: usize = 0;
        while i < n
            invariant
                n == self.active@.len(),
                act == active_view(self.active@),
                i <= n,
                active_view(kept@) == without_active(act.take(i as int), game_id@),
            decreases n - i,
        {
            proof {
                assert(act.take(i + 1).drop_last() =~= act.take(i as int));
                assert(act.take(i + 1).last() == act[i as int]);
            }
            if !str_eq(self.active[i].0.as_str(), game_id) {
                let a = (self.active[i].0.clone(), self.active[i].1);
                proof {
                    lemma_active_push(kept@, a);
                }
                kept.push(a);
            }
            i = i + 1;
        }
        proof {
            assert(act.take(n as int) =~= act);
        }
        self.active = kept;
        self.drop_watch(game_id);
    }

    /// The watched games and their process names.
    pub fn watched(&self) -> (r: Vec<(String, Vec<String>)>)
        ensures
            watched_view(r@) == self.watched_spec(),
    {
        let mut r: Vec<(String, Vec<String>)> = Vec::new();
        let mut i: usize = 0;
        while i < self.watched.len()
            invariant
                i <= self.watched@.len(),
                watched_view(r@) == watched_view(self.watched@).take(i as int),
            decreases self.watched@.len() - i,
        {
            let w = (self.watched[i].0.clone(), clone_texts(&self.watched[i].1));
            proof {
                lemma_watched_push(r@, w);
                assert(watched_view(self.watched@).take(i + 1) =~= watched_view(
                    self.watched@,
                ).take(i as int).push(watched_view(self.watched@)[i as int]));
            }
            r.push(w);
            i = i + 1;
        }
        proof {
            assert(watched_view(self.watched@).take(self.watched@.len() as int) =~= watched_view(
                self.watched@,
            ));
        }
        r
    }

    /// One scan of the process list at `now`: report the waiting sessions
    /// whose delay is over, check the running sessions, and look for newly
    /// started watched games.
    pub fn scan(&mut self, table: &ProcessTable, now: u64) -> (events: Vec<AgentEvent>)
        requires
            now <= u64::MAX - POST_EXIT_DELAY_MILLIS,
        ensures
            ({
                let o = scan_outcome(
                    old(self).watched_spec(),
                    old(self).active_spec(),
                    old(self).exiting_spec(),
                    table.processes@,
                    now,
                );
                &&& events_view(events@) == o.0
                &&& final(self).active_spec() == o.1
                &&& final(self).exiting_spec() == o.2
            }),
            final(self).watched_spec() == old(self).watched_spec(),
    {
        let (mut events, mut waiting) = split_exits(&self.exiting, now);
        let deadline = now + POST_EXIT_DELAY_MILLIS;
        let (mut running, keep, mut gone) = sweep_active(&self.active, table, deadline);
        proof {
            lemma_exiting_append(waiting@, gone@);
            lemma_events_append(events@, running@);
        }
        waiting.append(&mut gone);
        events.append(&mut running);
        let (mut launched, still) = launch_new(&self.watched, keep, &waiting, table);
        proof {
            lemma_events_append(events@, launched@);
        }
        events.append(&mut launched);
        self.active = still;
        self.exiting = waiting;
        events
    }
}

} // verus!
