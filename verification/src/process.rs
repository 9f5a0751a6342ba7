//! Process matching for the Feather Agent.
//!
//! The system's process list is read by a platform backend and handed over as
//! a [`ProcessTable`]: for each process its id, and the file name and file
//! stem of its process name and of its executable path. Matching a game's
//! process names against it is case-insensitive and tolerant of a missing
//! `.exe` extension.
use vstd::prelude::*;

use crate::text::{ascii_lower, chars_of, ends_with, slice_range, string_from_chars, str_eq};

verus! {

broadcast use vstd::string::group_string_axioms;

/// The lower-case form of a text, as std's `str::to_lowercase` computes it.
pub uninterp spec fn lowercase(s: Seq<char>) -> Seq<char>;

/// Whether every character of a text is ASCII.
pub open spec fn all_ascii(s: Seq<char>) -> bool {
    forall|i: int| 0 <= i < s.len() ==> (#[trigger] s[i] as u32) < 128
}

/// std's `str::to_lowercase`: the result is the lower-case form of `s`; the
/// lower case of the empty text is empty, and Unicode lower-cases an ASCII
/// text as ASCII does (`A`-`Z` to `a`-`z`, everything else unchanged).
#[verifier::external_body]
fn to_lowercase(s: &str) -> (r: String)
    ensures
        r@ == lowercase(s@),
        s@.len() == 0 ==> r@.len() == 0,
        all_ascii(s@) ==> r@ == ascii_lower(s@),
{
    s.to_lowercase()
}

/// Lightweight snapshot of a running process.
#[derive(Debug)]
pub struct ProcessInfo {
    pub pid: u32,
    pub name: String,
    pub exe: Option<String>,
}

/// One running process as the platform reports it.
#[derive(Debug)]
pub struct ProcessEntry {
    pub pid: u32,
    /// File name of the process name (`Game.exe`), if it has one.
    pub name_file: Option<String>,
    /// File stem of the process name (`Game`), if it has one.
    pub name_stem: Option<String>,
    /// Full executable path, if known.
    pub exe: Option<String>,
    /// File name of the executable path, if known.
    pub exe_file: Option<String>,
    /// File stem of the executable path, if known.
    pub exe_stem: Option<String>,
}

/// Interface of a process-monitoring backend: refresh the process list,
/// check a process id, and find a process by one of a game's names.
pub trait ProcessBackend {
    /// Refresh the process list.
    fn refresh(&mut self);

    /// Whether the process with `pid` still exists.
    fn is_running(&self, pid: u32) -> bool;

    /// The first process whose name or executable matches one of `names`.
    fn find_by_name(&self, names: &[String]) -> Option<ProcessInfo>;
}

/// The text of an optional string, empty when absent.
pub open spec fn opt_text(o: Option<String>) -> Seq<char> {
    match o {
        Some(s) => s@,
        None => Seq::empty(),
    }
}

/// The lower-case form of an optional string.
pub open spec fn opt_lower(o: Option<String>) -> Option<Seq<char>> {
    match o {
        Some(s) => Some(lowercase(s@)),
        None => None,
    }
}

/// The views of a list of strings.
pub open spec fn texts(v: Seq<String>) -> Seq<Seq<char>> {
    v.map_values(|s: String| s@)
}

/// A name with a trailing `.exe` removed.
pub open spec fn exe_trimmed(t: Seq<char>) -> Seq<char> {
    if t.len() >= 4 && t.skip(t.len() - 4) == ".exe"@ {
        t.subrange(0, t.len() - 4)
    } else {
        t
    }
}

/// Whether a lower-cased target names the process: its name, its full
/// file name, its executable's file name or its executable's stem.
pub open spec fn target_names(e: ProcessEntry, t: Seq<char>) -> bool {
    ||| lowercase(opt_text(e.name_stem)) == t
    ||| lowercase(opt_text(e.name_file)) == t
    ||| opt_lower(e.exe_file) == Some(t)
    ||| opt_lower(e.exe_stem) == Some(t)
}

/// Whether a target with its `.exe` removed names the process: its name,
/// its full file name or its executable's stem.
pub open spec fn stem_names(e: ProcessEntry, t: Seq<char>) -> bool {
    ||| lowercase(opt_text(e.name_stem)) == t
    ||| lowercase(opt_text(e.name_file)) == t
    ||| opt_lower(e.exe_stem) == Some(t)
}

/// Whether the process matches one of `names`, case-insensitively.
pub open spec fn entry_matches(e: ProcessEntry, names: Seq<Seq<char>>) -> bool {
    ||| exists|i: int| 0 <= i < names.len() && #[trigger] target_names(e, lowercase(names[i]))
    ||| exists|i: int|
        0 <= i < names.len() && #[trigger] stem_names(e, exe_trimmed(lowercase(names[i])))
}

/// Index of the first process from `i` on that matches `names`.
pub open spec fn match_from(es: Seq<ProcessEntry>, names: Seq<Seq<char>>, i: int) -> Option<int>
    decreases es.len() - i,
{
    if i < 0 || i >= es.len() {
        None
    } else if entry_matches(es[i], names) {
        Some(i)
    } else {
        match_from(es, names, i + 1)
    }
}

/// The process id found for `names`, if any.
pub open spec fn found_pid(es: Seq<ProcessEntry>, names: Seq<Seq<char>>) -> Option<u32> {
    match match_from(es, names, 0) {
        Some(k) => Some(es[k].pid),
        None => None,
    }
}

proof fn lemma_match_reaches(es: Seq<ProcessEntry>, names: Seq<Seq<char>>, i: int, k: int)
    requires
        0 <= i <= k < es.len(),
        entry_matches(es[k], names),
    ensures
        match_from(es, names, i) matches Some(j) && i <= j <= k,
    decreases k - i,
{
    if !entry_matches(es[i], names) {
        lemma_match_reaches(es, names, i + 1, k);
    }
}

/// A process is found by its executable too, whatever its process name: if
/// the file name of some process's executable equals a wanted name up to
/// case, or its executable's stem equals a wanted name up to case (with or
/// without a trailing `.exe` on the wanted name), then a process is found,
/// and it is that one or one listed before it.
pub proof fn lemma_found_by_executable(es: Seq<ProcessEntry>, names: Seq<Seq<char>>, k: int, i: int)
    requires
        0 <= k < es.len(),
        0 <= i < names.len(),
        (es[k].exe_file matches Some(f) && lowercase(f@) == lowercase(names[i])) || (
        es[k].exe_stem matches Some(st) && (lowercase(st@) == lowercase(names[i]) || lowercase(st@)
            == exe_trimmed(lowercase(names[i])))),
    ensures
        match_from(es, names, 0) matches Some(j) && j <= k,
        found_pid(es, names) is Some,
{
    let e = es[k];
    if e.exe_file matches Some(f) && lowercase(f@) == lowercase(names[i]) {
        assert(target_names(e, lowercase(names[i])));
    } else if e.exe_stem matches Some(st) && lowercase(st@) == lowercase(names[i]) {
        assert(target_names(e, lowercase(names[i])));
    } else {
        assert(stem_names(e, exe_trimmed(lowercase(names[i]))));
    }
    assert(entry_matches(e, names));
    lemma_match_reaches(es, names, 0, k);
}

/// Whether a process with `pid` is in the list.
pub open spec fn pid_listed(es: Seq<ProcessEntry>, pid: u32) -> bool {
    exists|k: int| 0 <= k < es.len() && #[trigger] es[k].pid == pid
}

/// The name reported for a matched process: its file name, or its
/// lower-cased stem when it has none.
pub open spec fn reported_name(e: ProcessEntry) -> Seq<char> {
    match e.name_file {
        Some(f) => f@,
        None => lowercase(opt_text(e.name_stem)),
    }
}

fn lower_opt(o: &Option<String>) -> (r: Option<String>)
    ensures
        match r {
            Some(s) => opt_lower(*o) == Some(s@),
            None => o is None,
        },
{
    match o {
        Some(s) => Some(to_lowercase(s.as_str())),
        None => None,
    }
}

fn lower_text(o: &Option<String>) -> (r: String)
    ensures
        r@ == lowercase(opt_text(*o)),
{
    match o {
        Some(s) => to_lowercase(s.as_str()),
        None => {
            proof {
                reveal_strlit("");
                assert(opt_text(*o) =~= ""@);
            }
            to_lowercase("")
        },
    }
}

fn opt_eq(o: &Option<String>, t: &str) -> (r: bool)
    ensures
        r == (match o {
            Some(s) => s@ == t@,
            None => false,
        }),
{
    match o {
        Some(s) => str_eq(s.as_str(), t),
        None => false,
    }
}

/// A name with a trailing `.exe` removed.
fn trim_exe(t: &str) -> (r: String)
    ensures
        r@ == exe_trimmed(t@),
{
    let v = chars_of(t);
    let suffix = chars_of(".exe");
    proof {
        reveal_strlit(".exe");
    }
    if ends_with(v.as_slice(), suffix.as_slice()) {
        let cut = slice_range(v.as_slice(), 0, v.len() - 4);
        string_from_chars(cut.as_slice())
    } else {
        string_from_chars(v.as_slice())
    }
}

/// The lower-cased keys of one process.
struct Keys {
    name: String,
    full: String,
    exe_name: Option<String>,
    exe_stem: Option<String>,
}

spec fn keys_of_entry(k: Keys, e: ProcessEntry) -> bool {
    &&& k.name@ == lowercase(opt_text(e.name_stem))
    &&& k.full@ == lowercase(opt_text(e.name_file))
    &&& match k.exe_name {
        Some(s) => opt_lower(e.exe_file) == Some(s@),
        None => e.exe_file is None,
    }
    &&& match k.exe_stem {
        Some(s) => opt_lower(e.exe_stem) == Some(s@),
        None => e.exe_stem is None,
    }
}

fn keys_of(e: &ProcessEntry) -> (k: Keys)
    ensures
        keys_of_entry(k, *e),
        k.name@ == lowercase(opt_text(e.name_stem)),
        k.full@ == lowercase(opt_text(e.name_file)),
        match k.exe_name {
            Some(s) => opt_lower(e.exe_file) == Some(s@),
            None => e.exe_file is None,
        },
        match k.exe_stem {
            Some(s) => opt_lower(e.exe_stem) == Some(s@),
            None => e.exe_stem is None,
        },
{
    Keys {
        name: lower_text(&e.name_stem),
        full: lower_text(&e.name_file),
        exe_name: lower_opt(&e.exe_file),
        exe_stem: lower_opt(&e.exe_stem),
    }
}

/// Whether one process matches the lower-cased targets and their
/// `.exe`-trimmed forms.
fn process_matches(e: &ProcessEntry, targets: &Vec<String>, stems: &Vec<String>, Ghost(names): Ghost<
    Seq<Seq<char>>,
>) -> (r: bool)
    requires
        targets@.len() == names.len(),
        stems@.len() == names.len(),
        forall|i: int| 0 <= i < names.len() ==> #[trigger] targets@[i]@ == lowercase(names[i]),
        forall|i: int| 0 <= i < names.len() ==> #[trigger] stems@[i]@ == exe_trimmed(
            lowercase(names[i]),
        ),
    ensures
        r == entry_matches(*e, names),
{
    let k = keys_of(e);
    let mut i: usize = 0;
    while i < targets.len()
        invariant
            keys_of_entry(k, *e),
            i <= targets@.len(),
            targets@.len() == names.len(),
            forall|j: int| 0 <= j < names.len() ==> #[trigger] targets@[j]@ == lowercase(names[j]),
            forall|j: int| 0 <= j < i ==> !#[trigger] target_names(*e, lowercase(names[j])),
        decreases targets@.len() - i,
    {
        let t = targets[i].as_str();
        assert(targets@[i as int]@ == lowercase(names[i as int]));
        if str_eq(k.name.as_str(), t) || str_eq(k.full.as_str(), t) || opt_eq(&k.exe_name, t)
            || opt_eq(&k.exe_stem, t) {
            assert(target_names(*e, lowercase(names[i as int])));
            return true;
        }
        i = i + 1;
    }
    let mut i: usize = 0;
    while i < stems.len()
        invariant
            keys_of_entry(k, *e),
            i <= stems@.len(),
            stems@.len() == names.len(),
            forall|j: int| 0 <= j < names.len() ==> #[trigger] stems@[j]@ == exe_trimmed(
                lowercase(names[j]),
            ),
            forall|j: int|
                0 <= j < i ==> !#[trigger] stem_names(*e, exe_trimmed(lowercase(names[j]))),
            forall|j: int| 0 <= j < names.len() ==> !#[trigger] target_names(*e, lowercase(names[j])),
        decreases stems@.len() - i,
    {
        let t = stems[i].as_str();
        assert(stems@[i as int]@ == exe_trimmed(lowercase(names[i as int])));
        if str_eq(k.name.as_str(), t) || str_eq(k.full.as_str(), t) || opt_eq(&k.exe_stem, t) {
            assert(stem_names(*e, exe_trimmed(lowercase(names[i as int]))));
            return true;
        }
        i = i + 1;
    }
    false
}

/// A snapshot of the system's process list.
#[derive(Debug)]
pub struct ProcessTable {
    pub processes: Vec<ProcessEntry>,
}

impl ProcessTable {
    /// Whether the process with `pid` is in the snapshot.
    pub fn is_running(&self, pid: u32) -> (r: bool)
        ensures
            r == pid_listed(self.processes@, pid),
    {
        let mut k: usize = 0;
        while k < self.processes.len()
            invariant
                k <= self.processes@.len(),
                forall|j: int| 0 <= j < k ==> self.processes@[j].pid != pid,
            decreases self.processes@.len() - k,
        {
            if self.processes[k].pid == pid {
                assert(self.processes@[k as int].pid == pid);
                return true;
            }
            k = k + 1;
        }
        false
    }

    /// The first process whose name or executable matches one of `names`,
    /// case-insensitively and with or without a `.exe` extension.
    pub fn find_by_name(&self, names: &[String]) -> (r: Option<ProcessInfo>)
        ensures
            match match_from(self.processes@, texts(names@), 0) {
                Some(k) => r matches Some(info) && {
                    let e = self.processes@[k];
                    &&& info.pid == e.pid
                    &&& info.name@ == reported_name(e)
                    &&& info.exe == e.exe
                },
                None => r is None,
            },
            forall|k: int, i: int|
                0 <= k < self.processes@.len() && 0 <= i < names@.len() && ((
                #[trigger] self.processes@[k]).exe_file matches Some(f) && lowercase(f@)
                    == lowercase(#[trigger] names@[i]@)) ==> r is Some,
    {
        proof {
            assert forall|k: int, i: int|
                0 <= k < self.processes@.len() && 0 <= i < names@.len() && ((
                #[trigger] self.processes@[k]).exe_file matches Some(f) && lowercase(f@)
                    == lowercase(#[trigger] names@[i]@)) implies match_from(
                self.processes@,
                texts(names@),
                0,
            ) is Some by {
                assert(texts(names@)[i] == names@[i]@);
                lemma_found_by_executable(self.processes@, texts(names@), k, i);
            }
        }
        let ghost ns = texts(names@);
        let mut targets: Vec<String> = Vec::new();
        let mut stems: Vec<String> = Vec::new();
        let mut i: usize = 0;
        while i < names.len()
            invariant
                i <= names@.len(),
                ns == texts(names@),
                targets@.len() == i,
                stems@.len() == i,
                forall|j: int| 0 <= j < i ==> #[trigger] targets@[j]@ == lowercase(ns[j]),
                forall|j: int| 0 <= j < i ==> #[trigger] stems@[j]@ == exe_trimmed(lowercase(ns[j])),
            decreases names@.len() - i,
        {
            let t = to_lowercase(names[i].as_str());
            let s = trim_exe(t.as_str());
            targets.push(t);
            stems.push(s);
            i = i + 1;
        }
        let mut k: usize = 0;
        while k < self.processes.len()
            invariant
                k <= self.processes@.len(),
                ns == texts(names@),
                targets@.len() == ns.len(),
                stems@.len() == ns.len(),
                forall|j: int| 0 <= j < ns.len() ==> #[trigger] targets@[j]@ == lowercase(ns[j]),
                forall|j: int|
                    0 <= j < ns.len() ==> #[trigger] stems@[j]@ == exe_trimmed(lowercase(ns[j])),
                match_from(self.processes@, ns, 0) == match_from(self.processes@, ns, k as int),
            decreases self.processes@.len() - k,
        {
            let e = &self.processes[k];
            if process_matches(e, &targets, &stems, Ghost(ns)) {
                let name = match &e.name_file {
                    Some(f) => f.clone(),
                    None => lower_text(&e.name_stem),
                };
                let exe = match &e.exe {
                    Some(x) => Some(x.clone()),
                    None => None,
                };
                return Some(ProcessInfo { pid: e.pid, name, exe });
            }
            k = k + 1;
        }
        None
    }
}

/// Matching ignores case and a `.exe` extension: a process whose name, or
/// whose name's stem, equals a wanted name up to case and `.exe` matches.
pub proof fn lemma_match_ignores_case_and_exe(e: ProcessEntry, names: Seq<Seq<char>>, i: int)
    requires
        0 <= i < names.len(),
        lowercase(opt_text(e.name_file)) == lowercase(names[i]) || lowercase(opt_text(e.name_stem))
            == exe_trimmed(lowercase(names[i])),
    ensures
        entry_matches(e, names),
{
    if lowercase(opt_text(e.name_file)) == lowercase(names[i]) {
        assert(target_names(e, lowercase(names[i])));
    } else {
        assert(stem_names(e, exe_trimmed(lowercase(names[i]))));
    }
}

} // verus!
