//! Foraging Engine: the catalogue of verified games, their save-path
//! templates, and the digest of a save folder.
//!
//! Templates use Ludusavi placeholders such as `<home>`, `<winAppData>`,
//! `<winLocalAppData>`, `<winLocalLow>`, `<winDocuments>`, `<winPublic>`,
//! `<xdgData>`, `<xdgConfig>` and `<root>` (the game's install root, which is
//! not resolved). The user's folders are read by the caller and handed over
//! as [`TemplateDirs`]; the files of a save folder, walked in file-name order,
//! as [`SaveFile`]s.
use vstd::prelude::*;

use crate::api::DiscoveredGame;
use crate::client_error::BirdError;
use crate::digest::{hash_bytes, hash_to_hex, hex_of, sha256, sha256_digest};
use crate::domain::{Platform, SyncStatus};
use crate::process::texts;
use vstd::utf8::encode_utf8;

use crate::text::{
    concat, debug_quoted, contains_text, map_char, nat_digits, replace_all, replace_char, replace_str, str_contains,
    str_eq, u64_text,
};

verus! {

broadcast use vstd::string::group_string_axioms;

/// Where the open-source Ludusavi manifest is downloaded from.
pub const LUDUSAVI_MANIFEST_URL: &'static str =
    "https://raw.githubusercontent.com/mtkennerly/ludusavi/master/data/manifest.yaml";

/// File name of the cached manifest inside the cache folder.
pub const MANIFEST_FILE: &'static str = "ludusavi_manifest.yaml";

/// Age after which the cached manifest is downloaded again.
pub const CACHE_HOURS: i64 = 24;

/// Save-path templates of a game for each platform.
#[derive(Debug)]
pub struct SavePaths {
    pub windows: Vec<String>,
    pub linux: Vec<String>,
    pub macos: Vec<String>,
    pub other: Vec<String>,
}

impl SavePaths {
    /// The templates for `p`.
    pub open spec fn for_platform(&self, p: Platform) -> Seq<Seq<char>> {
        match p {
            Platform::Windows => texts(self.windows@),
            Platform::Linux => texts(self.linux@),
            Platform::MacOs => texts(self.macos@),
            Platform::Other => texts(self.other@),
        }
    }

    /// The templates for `p`.
    pub fn templates(&self, p: Platform) -> (r: &Vec<String>)
        ensures
            texts(r@) == self.for_platform(p),
    {
        match p {
            Platform::Windows => &self.windows,
            Platform::Linux => &self.linux,
            Platform::MacOs => &self.macos,
            Platform::Other => &self.other,
        }
    }
}

/// A curated verified game with its platform-specific save-path templates.
#[derive(Debug)]
pub struct VerifiedGame {
    pub game_id: String,
    pub title: String,
    pub save_paths: SavePaths,
}

proof fn lemma_texts_push(v: Seq<String>, s: String)
    ensures
        texts(v.push(s)) == texts(v).push(s@),
{
    assert(texts(v.push(s)) =~= texts(v).push(s@));
}

impl VerifiedGame {
    /// A game with no templates yet.
    pub fn new(game_id: &str, title: &str) -> (g: Self)
        ensures
            g.game_id@ == game_id@,
            g.title@ == title@,
            forall|p: Platform| #[trigger] g.save_paths.for_platform(p) == Seq::<Seq<char>>::empty(),
    {
        let g = VerifiedGame {
            game_id: game_id.to_string(),
            title: title.to_string(),
            save_paths: SavePaths {
                windows: Vec::new(),
                linux: Vec::new(),
                macos: Vec::new(),
                other: Vec::new(),
            },
        };
        assert forall|p: Platform| #[trigger] g.save_paths.for_platform(p) == Seq::<
            Seq<char>,
        >::empty() by {
            assert(g.save_paths.for_platform(p) =~= Seq::<Seq<char>>::empty());
        }
        g
    }

    /// The game with one more template for `platform`.
    pub fn with_path(self, platform: Platform, template: &str) -> (g: Self)
        ensures
            g.game_id@ == self.game_id@,
            g.title@ == self.title@,
            g.save_paths.for_platform(platform) == self.save_paths.for_platform(platform).push(
                template@,
            ),
            forall|p: Platform|
                p != platform ==> #[trigger] g.save_paths.for_platform(p)
                    == self.save_paths.for_platform(p),
    {
        let mut g = self;
        let t = template.to_string();
        proof {
            match platform {
                Platform::Windows => lemma_texts_push(g.save_paths.windows@, t),
                Platform::Linux => lemma_texts_push(g.save_paths.linux@, t),
                Platform::MacOs => lemma_texts_push(g.save_paths.macos@, t),
                Platform::Other => lemma_texts_push(g.save_paths.other@, t),
            }
        }
        match platform {
            Platform::Windows => g.save_paths.windows.push(t),
            Platform::Linux => g.save_paths.linux.push(t),
            Platform::MacOs => g.save_paths.macos.push(t),
            Platform::Other => g.save_paths.other.push(t),
        }
        g
    }
}

/// A catalogue entry: the game's id, title and templates for Windows,
/// Linux and macOS (none for other platforms).
pub open spec fn catalogue_entry(
    g: VerifiedGame,
    id: Seq<char>,
    title: Seq<char>,
    windows: Seq<Seq<char>>,
    linux: Seq<Seq<char>>,
    macos: Seq<Seq<char>>,
) -> bool {
    &&& g.game_id@ == id
    &&& g.title@ == title
    &&& g.save_paths.for_platform(Platform::Windows) == windows
    &&& g.save_paths.for_platform(Platform::Linux) == linux
    &&& g.save_paths.for_platform(Platform::MacOs) == macos
    &&& g.save_paths.for_platform(Platform::Other) == Seq::<Seq<char>>::empty()
}

/// The manually verified games shipped with the Bird.
pub open spec fn is_built_in_catalogue(games: Seq<VerifiedGame>) -> bool {
    &&& games.len() == 5
    &&& catalogue_entry(
        games[0],
        "stardew-valley"@,
        "Stardew Valley"@,
        seq!["<winAppData>/StardewValley/Saves"@],
        seq!["<home>/.config/StardewValley/Saves"@],
        seq!["<home>/.config/StardewValley/Saves"@],
    )
    &&& catalogue_entry(
        games[1],
        "hollow-knight"@,
        "Hollow Knight"@,
        seq!["<winLocalAppData>Low/Team Cherry/Hollow Knight"@],
        seq!["<home>/.config/unity3d/Team Cherry/Hollow Knight"@],
        Seq::empty(),
    )
    &&& catalogue_entry(
        games[2],
        "celeste"@,
        "Celeste"@,
        seq!["<winAppData>/Celeste"@],
        seq!["<home>/.local/share/Celeste"@],
        seq!["<home>/Library/Application Support/Celeste"@],
    )
    &&& catalogue_entry(
        games[3],
        "hades"@,
        "Hades"@,
        seq!["<winDocuments>/Saved Games/Hades"@],
        seq!["<home>/.local/share/Supergiant Games/Hades"@],
        Seq::empty(),
    )
    &&& catalogue_entry(
        games[4],
        "terraria"@,
        "Terraria"@,
        seq!["<winDocuments>/My Games/Terraria"@],
        seq!["<home>/.local/share/Terraria"@],
        Seq::empty(),
    )
}

/// The manually verified games used by the Foraging Engine.
pub fn built_in_verified_games() -> (games: Vec<VerifiedGame>)
    ensures
        is_built_in_catalogue(games@),
{
    let mut games: Vec<VerifiedGame> = Vec::new();
    games.push(
        VerifiedGame::new("stardew-valley", "Stardew Valley").with_path(
            Platform::Windows,
            "<winAppData>/StardewValley/Saves",
        ).with_path(Platform::Linux, "<home>/.config/StardewValley/Saves").with_path(
            Platform::MacOs,
            "<home>/.config/StardewValley/Saves",
        ),
    );
    games.push(
        VerifiedGame::new("hollow-knight", "Hollow Knight").with_path(
            Platform::Windows,
            "<winLocalAppData>Low/Team Cherry/Hollow Knight",
        ).with_path(Platform::Linux, "<home>/.config/unity3d/Team Cherry/Hollow Knight"),
    );
    games.push(
        VerifiedGame::new("celeste", "Celeste").with_path(
            Platform::Windows,
            "<winAppData>/Celeste",
        ).with_path(Platform::Linux, "<home>/.local/share/Celeste").with_path(
            Platform::MacOs,
            "<home>/Library/Application Support/Celeste",
        ),
    );
    games.push(
        VerifiedGame::new("hades", "Hades").with_path(
            Platform::Windows,
            "<winDocuments>/Saved Games/Hades",
        ).with_path(Platform::Linux, "<home>/.local/share/Supergiant Games/Hades"),
    );
    games.push(
        VerifiedGame::new("terraria", "Terraria").with_path(
            Platform::Windows,
            "<winDocuments>/My Games/Terraria",
        ).with_path(Platform::Linux, "<home>/.local/share/Terraria"),
    );
    proof {
        assert(games@[0].save_paths.for_platform(Platform::MacOs) =~= seq![
            "<home>/.config/StardewValley/Saves"@,
        ]);
        assert(games@[1].save_paths.for_platform(Platform::MacOs) =~= Seq::<Seq<char>>::empty());
    }
    games
}

/// The platform of an operating system name (`std::env::consts::OS`).
pub open spec fn platform_of_os(os: Seq<char>) -> Platform {
    if os == "windows"@ {
        Platform::Windows
    } else if os == "linux"@ {
        Platform::Linux
    } else if os == "macos"@ {
        Platform::MacOs
    } else {
        Platform::Other
    }
}

/// The platform the Bird runs on, from the operating system's name.
pub fn current_platform(os: &str) -> (p: Platform)
    ensures
        p == platform_of_os(os@),
{
    if str_eq(os, "windows") {
        Platform::Windows
    } else if str_eq(os, "linux") {
        Platform::Linux
    } else if str_eq(os, "macos") {
        Platform::MacOs
    } else {
        Platform::Other
    }
}

/// The index of the verified game `game_id`, or `GameNotFound`.
pub fn find_verified(games: &Vec<VerifiedGame>, game_id: &str) -> (r: Result<usize, BirdError>)
    ensures
        match r {
            Ok(k) => k < games@.len() && games@[k as int].game_id@ == game_id@ && forall|j: int|
                0 <= j < k ==> games@[j].game_id@ != game_id@,
            Err(e) => e matches BirdError::GameNotFound(g) && g@ == game_id@ && forall|j: int|
                0 <= j < games@.len() ==> games@[j].game_id@ != game_id@,
        },
{
    let mut k: usize = 0;
    while k < games.len()
        invariant
            k <= games@.len(),
            forall|j: int| 0 <= j < k ==> games@[j].game_id@ != game_id@,
        decreases games@.len() - k,
    {
        if str_eq(games[k].game_id.as_str(), game_id) {
            return Ok(k);
        }
        k = k + 1;
    }
    Err(BirdError::GameNotFound(game_id.to_string()))
}

/// The default process names known for a verified game. The catalogue
/// holds save paths only, so a known game has none and an unknown one is
/// `GameNotFound`.
pub fn process_names(games: &Vec<VerifiedGame>, game_id: &str) -> (r: Result<Vec<String>, BirdError>)
    ensures
        match r {
            Ok(v) => v@.len() == 0 && exists|j: int|
                0 <= j < games@.len() && games@[j].game_id@ == game_id@,
            Err(e) => e matches BirdError::GameNotFound(g) && g@ == game_id@ && forall|j: int|
                0 <= j < games@.len() ==> games@[j].game_id@ != game_id@,
        },
{
    match find_verified(games, game_id) {
        Ok(k) => {
            assert(games@[k as int].game_id@ == game_id@);
            Ok(Vec::new())
        },
        Err(e) => Err(e),
    }
}

/// The process names to watch a game under: those given, or else the
/// catalogue's defaults; an error when there are none.
pub fn watch_names(games: &Vec<VerifiedGame>, game_id: &str, given: Vec<String>) -> (r: Result<
    Vec<String>,
    BirdError,
>)
    ensures
        given@.len() > 0 ==> (r matches Ok(v) && v@ == given@),
        given@.len() == 0 ==> match r {
            Ok(_) => false,
            Err(e) => if exists|j: int| 0 <= j < games@.len() && games@[j].game_id@ == game_id@ {
                e matches BirdError::Validation(m) && m@ == "no process names known for "@
                    + game_id@
            } else {
                e matches BirdError::GameNotFound(g) && g@ == game_id@
            },
        },
{
    let names = if given.len() == 0 {
        match process_names(games, game_id) {
            Ok(v) => v,
            Err(e) => {
                return Err(e);
            },
        }
    } else {
        given
    };
    if names.len() == 0 {
        return Err(BirdError::Validation(concat("no process names known for ", game_id)));
    }
    Ok(names)
}

// ---------------------------------------------------------------------------
// Save-path templates
// ---------------------------------------------------------------------------

/// The user's folders that templates refer to, read by the caller, and
/// whether the Bird runs on Windows.
#[derive(Debug)]
pub struct TemplateDirs {
    pub windows: bool,
    pub home: Option<String>,
    /// Roaming application data (`%APPDATA%`).
    pub app_data: Option<String>,
    /// Local application data (`%LOCALAPPDATA%`).
    pub local_app_data: Option<String>,
    /// `LocalLow`, beside local application data.
    pub local_low: Option<String>,
    pub documents: Option<String>,
    pub public: Option<String>,
    pub xdg_data: Option<String>,
    pub xdg_config: Option<String>,
}

/// Every `tag` in `s` replaced by the folder, when it is known.
pub open spec fn fill(s: Seq<char>, tag: Seq<char>, dir: Option<String>) -> Seq<char> {
    match dir {
        Some(d) => replace_all(s, tag, d@),
        None => s,
    }
}

/// A template with the known folders filled in.
pub open spec fn expand_template(t: Seq<char>, d: TemplateDirs) -> Seq<char> {
    let s = fill(t, "<home>"@, d.home);
    if d.windows {
        let s = fill(s, "<winAppData>"@, d.app_data);
        let s = match d.local_app_data {
            Some(l) => fill(replace_all(s, "<winLocalAppData>"@, l@), "<winLocalLow>"@, d.local_low),
            None => s,
        };
        let s = fill(s, "<winDocuments>"@, d.documents);
        fill(s, "<winPublic>"@, d.public)
    } else {
        let s = fill(s, "<xdgData>"@, d.xdg_data);
        fill(s, "<xdgConfig>"@, d.xdg_config)
    }
}

/// The message of the error for a template that names the install root.
pub open spec fn root_unsupported() -> Seq<char> {
    "<root> placeholder requires game install detection (Phase 12)"@
}

/// The path a template resolves to: placeholders filled in, separators
/// turned to `\` on Windows; `None` when it names the install root.
pub open spec fn resolved_template(t: Seq<char>, d: TemplateDirs) -> Option<Seq<char>> {
    let s = expand_template(t, d);
    if contains_text(s, "<root>"@) {
        None
    } else if d.windows {
        Some(map_char(s, '/', '\\'))
    } else {
        Some(s)
    }
}

/// A path resolved on Windows has no `/` left: every separator is `\`.
pub proof fn lemma_windows_paths_use_backslashes(t: Seq<char>, d: TemplateDirs)
    requires
        d.windows,
        resolved_template(t, d) is Some,
    ensures
        !resolved_template(t, d).unwrap().contains('/'),
{
    let p = resolved_template(t, d).unwrap();
    let s = expand_template(t, d);
    assert(p == map_char(s, '/', '\\'));
    assert forall|i: int| 0 <= i < p.len() implies p[i] != '/' by {}
}

/// Whether a text has no `<` (no placeholder can start in it). Windows
/// forbids `<` in file and folder names.
pub open spec fn no_angle(s: Seq<char>) -> bool {
    forall|i: int| 0 <= i < s.len() ==> #[trigger] s[i] != '<'
}

proof fn lemma_replace_absent(s: Seq<char>, p: Seq<char>, r: Seq<char>)
    requires
        p.len() > 0,
        p[0] == '<',
        no_angle(s),
    ensures
        replace_all(s, p, r) == s,
    decreases s.len(),
{
    if s.len() >= p.len() {
        assert(s.take(p.len() as int)[0] == s[0]);
        assert(s.take(p.len() as int) != p);
        let t = s.drop_first();
        assert forall|i: int| 0 <= i < t.len() implies #[trigger] t[i] != '<' by {
            assert(t[i] == s[i + 1]);
        }
        lemma_replace_absent(t, p, r);
        assert(seq![s[0]] + t =~= s);
    }
}

/// A template made of placeholder `h` and a tail without placeholders is
/// left alone by the replacement of another placeholder `p`, one that
/// differs from `h` at some position `k` they both have.
proof fn lemma_replace_other_head(h: Seq<char>, x: Seq<char>, p: Seq<char>, r: Seq<char>, k: int)
    requires
        p.len() > 0,
        p[0] == '<',
        h.len() > 0,
        h[0] == '<',
        no_angle(h.drop_first()),
        no_angle(x),
        0 <= k < h.len(),
        k < p.len(),
        h[k] != p[k],
    ensures
        replace_all(h + x, p, r) == h + x,
{
    let s = h + x;
    if s.len() >= p.len() {
        assert(s.take(p.len() as int)[k] == h[k]);
        assert(s.take(p.len() as int) != p);
        let t = s.drop_first();
        assert forall|i: int| 0 <= i < t.len() implies #[trigger] t[i] != '<' by {
            assert(t[i] == s[i + 1]);
            if i + 1 < h.len() {
                assert(h.drop_first()[i] == h[i + 1]);
            } else {
                assert(s[i + 1] == x[i + 1 - h.len()]);
            }
        }
        lemma_replace_absent(t, p, r);
        assert(seq![s[0]] + t =~= s);
    }
}

/// Replacing placeholder `p` in `p` followed by a tail without placeholders
/// gives the replacement followed by the tail.
proof fn lemma_replace_head(p: Seq<char>, x: Seq<char>, r: Seq<char>)
    requires
        p.len() > 0,
        p[0] == '<',
        no_angle(x),
    ensures
        replace_all(p + x, p, r) == r + x,
{
    let s = p + x;
    assert(s.take(p.len() as int) =~= p);
    assert(s.skip(p.len() as int) =~= x);
    lemma_replace_absent(x, p, r);
}

/// On Windows, with the Documents folder `docs` known, a template
/// `<winDocuments>` followed by a tail resolves to that folder followed by
/// the tail, with `\` for every `/`: the placeholder is filled with the
/// Documents folder and no other. (Neither the folder nor the tail holds a
/// `<`, which Windows forbids in names.)
pub proof fn lemma_documents_placeholder(tail: Seq<char>, d: TemplateDirs, docs: String)
    requires
        d.windows,
        d.documents == Some(docs),
        no_angle(docs@),
        no_angle(tail),
    ensures
        resolved_template("<winDocuments>"@ + tail, d) == Some(map_char(docs@ + tail, '/', '\\')),
{
    reveal_strlit("<winDocuments>");
    reveal_strlit("<home>");
    reveal_strlit("<winAppData>");
    reveal_strlit("<winLocalAppData>");
    reveal_strlit("<winLocalLow>");
    reveal_strlit("<winPublic>");
    reveal_strlit("<root>");
    let h = "<winDocuments>"@;
    let t = h + tail;
    assert(no_angle(h.drop_first())) by {
        assert forall|i: int| 0 <= i < h.drop_first().len() implies #[trigger] h.drop_first()[i] != '<' by {
            assert(h.drop_first()[i] == h[i + 1]);
        }
    }
    let s1 = fill(t, "<home>"@, d.home);
    if let Some(x) = d.home {
        lemma_replace_other_head(h, tail, "<home>"@, x@, 1);
    }
    assert(s1 == t);
    let s2 = fill(s1, "<winAppData>"@, d.app_data);
    if let Some(x) = d.app_data {
        lemma_replace_other_head(h, tail, "<winAppData>"@, x@, 4);
    }
    assert(s2 == t);
    let s3 = match d.local_app_data {
        Some(l) => fill(replace_all(s2, "<winLocalAppData>"@, l@), "<winLocalLow>"@, d.local_low),
        None => s2,
    };
    if let Some(l) = d.local_app_data {
        lemma_replace_other_head(h, tail, "<winLocalAppData>"@, l@, 4);
        if let Some(x) = d.local_low {
            lemma_replace_other_head(h, tail, "<winLocalLow>"@, x@, 4);
        }
    }
    assert(s3 == t);
    let s4 = fill(s3, "<winDocuments>"@, d.documents);
    lemma_replace_head(h, tail, docs@);
    assert(s4 == docs@ + tail);
    let dt = docs@ + tail;
    assert(no_angle(dt)) by {
        assert forall|i: int| 0 <= i < dt.len() implies #[trigger] dt[i] != '<' by {
            if i < docs@.len() {
                assert(dt[i] == docs@[i]);
            } else {
                assert(dt[i] == tail[i - docs@.len()]);
            }
        }
    }
    let s5 = fill(s4, "<winPublic>"@, d.public);
    if let Some(x) = d.public {
        lemma_replace_absent(dt, "<winPublic>"@, x@);
    }
    assert(s5 == dt);
    assert(expand_template(t, d) == dt);
    assert(!contains_text(dt, "<root>"@)) by {
        if contains_text(dt, "<root>"@) {
            let i = choose|i: int| #[trigger] crate::text::occurs_at(dt, "<root>"@, i);
            assert(dt.subrange(i, i + 6)[0] == dt[i]);
        }
    }
}

proof fn lemma_placeholder_shape(h: Seq<char>)
    requires
        h.len() > 1,
        h[0] == '<',
        forall|i: int| 1 <= i < h.len() ==> #[trigger] h[i] != '<',
    ensures
        no_angle(h.drop_first()),
{
    assert forall|i: int| 0 <= i < h.drop_first().len() implies #[trigger] h.drop_first()[i] != '<' by {
        assert(h.drop_first()[i] == h[i + 1]);
    }
}

proof fn lemma_concat_no_angle(a: Seq<char>, b: Seq<char>)
    requires
        no_angle(a),
        no_angle(b),
    ensures
        no_angle(a + b),
{
    assert forall|i: int| 0 <= i < (a + b).len() implies #[trigger] (a + b)[i] != '<' by {
        if i < a.len() {
            assert((a + b)[i] == a[i]);
        } else {
            assert((a + b)[i] == b[i - a.len()]);
        }
    }
}

/// Filling a known folder into a text without placeholders changes nothing.
proof fn lemma_fill_absent(s: Seq<char>, tag: Seq<char>, dir: Option<String>)
    requires
        tag.len() > 0,
        tag[0] == '<',
        no_angle(s),
    ensures
        fill(s, tag, dir) == s,
{
    if let Some(x) = dir {
        lemma_replace_absent(s, tag, x@);
    }
}

proof fn lemma_fill_other(h: Seq<char>, tail: Seq<char>, tag: Seq<char>, dir: Option<String>, k: int)
    requires
        tag.len() > 0,
        tag[0] == '<',
        h.len() > 1,
        h[0] == '<',
        no_angle(h.drop_first()),
        no_angle(tail),
        0 <= k < h.len(),
        k < tag.len(),
        h[k] != tag[k],
    ensures
        fill(h + tail, tag, dir) == h + tail,
{
    if let Some(x) = dir {
        lemma_replace_other_head(h, tail, tag, x@, k);
    }
}

proof fn lemma_no_root(s: Seq<char>)
    requires
        no_angle(s),
    ensures
        !contains_text(s, "<root>"@),
{
    reveal_strlit("<root>");
    if contains_text(s, "<root>"@) {
        let i = choose|i: int| #[trigger] crate::text::occurs_at(s, "<root>"@, i);
        assert(s.subrange(i, i + 6)[0] == s[i]);
    }
}

/// The path a template resolves to once its placeholders are filled with
/// the text `filled`: `\` for every `/` on Windows.
pub open spec fn on_platform(filled: Seq<char>, d: TemplateDirs) -> Seq<char> {
    if d.windows {
        map_char(filled, '/', '\\')
    } else {
        filled
    }
}

/// With the home folder `home` known, a template `<home>` followed by a
/// tail resolves to the home folder followed by the tail, on every
/// platform.
pub proof fn lemma_home_placeholder(tail: Seq<char>, d: TemplateDirs, home: String)
    requires
        d.home == Some(home),
        no_angle(home@),
        no_angle(tail),
    ensures
        resolved_template("<home>"@ + tail, d) == Some(on_platform(home@ + tail, d)),
{
    reveal_strlit("<home>");
    reveal_strlit("<winAppData>");
    reveal_strlit("<winLocalAppData>");
    reveal_strlit("<winLocalLow>");
    reveal_strlit("<winDocuments>");
    reveal_strlit("<winPublic>");
    reveal_strlit("<xdgData>");
    reveal_strlit("<xdgConfig>");
    let h = "<home>"@;
    lemma_replace_head(h, tail, home@);
    let s = home@ + tail;
    lemma_concat_no_angle(home@, tail);
    lemma_fill_absent(s, "<winAppData>"@, d.app_data);
    if let Some(l) = d.local_app_data {
        lemma_replace_absent(s, "<winLocalAppData>"@, l@);
    }
    lemma_fill_absent(s, "<winLocalLow>"@, d.local_low);
    lemma_fill_absent(s, "<winDocuments>"@, d.documents);
    lemma_fill_absent(s, "<winPublic>"@, d.public);
    lemma_fill_absent(s, "<xdgData>"@, d.xdg_data);
    lemma_fill_absent(s, "<xdgConfig>"@, d.xdg_config);
    assert(expand_template(h + tail, d) == s);
    lemma_no_root(s);
}

/// On Windows, with the roaming application-data folder `dir` known, a
/// template `<winAppData>` followed by a tail resolves to that folder
/// followed by the tail, with `\` for every `/`.
pub proof fn lemma_app_data_placeholder(tail: Seq<char>, d: TemplateDirs, dir: String)
    requires
        d.windows,
        d.app_data == Some(dir),
        no_angle(dir@),
        no_angle(tail),
    ensures
        resolved_template("<winAppData>"@ + tail, d) == Some(map_char(dir@ + tail, '/', '\\')),
{
    reveal_strlit("<home>");
    reveal_strlit("<winAppData>");
    reveal_strlit("<winLocalAppData>");
    reveal_strlit("<winLocalLow>");
    reveal_strlit("<winDocuments>");
    reveal_strlit("<winPublic>");
    let h = "<winAppData>"@;
    lemma_placeholder_shape(h);
    lemma_fill_other(h, tail, "<home>"@, d.home, 1);
    lemma_replace_head(h, tail, dir@);
    let s = dir@ + tail;
    lemma_concat_no_angle(dir@, tail);
    if let Some(l) = d.local_app_data {
        lemma_replace_absent(s, "<winLocalAppData>"@, l@);
    }
    lemma_fill_absent(s, "<winLocalLow>"@, d.local_low);
    lemma_fill_absent(s, "<winDocuments>"@, d.documents);
    lemma_fill_absent(s, "<winPublic>"@, d.public);
    assert(expand_template(h + tail, d) == s);
    lemma_no_root(s);
}

/// On Windows, with the local application-data folder `dir` known, a
/// template `<winLocalAppData>` followed by a tail resolves to that folder
/// followed by the tail, with `\` for every `/`.
pub proof fn lemma_local_app_data_placeholder(tail: Seq<char>, d: TemplateDirs, dir: String)
    requires
        d.windows,
        d.local_app_data == Some(dir),
        no_angle(dir@),
        no_angle(tail),
    ensures
        resolved_template("<winLocalAppData>"@ + tail, d) == Some(map_char(dir@ + tail, '/', '\\')),
{
    reveal_strlit("<home>");
    reveal_strlit("<winAppData>");
    reveal_strlit("<winLocalAppData>");
    reveal_strlit("<winLocalLow>");
    reveal_strlit("<winDocuments>");
    reveal_strlit("<winPublic>");
    let h = "<winLocalAppData>"@;
    lemma_placeholder_shape(h);
    lemma_fill_other(h, tail, "<home>"@, d.home, 1);
    lemma_fill_other(h, tail, "<winAppData>"@, d.app_data, 4);
    lemma_replace_head(h, tail, dir@);
    let s = dir@ + tail;
    lemma_concat_no_angle(dir@, tail);
    lemma_fill_absent(s, "<winLocalLow>"@, d.local_low);
    lemma_fill_absent(s, "<winDocuments>"@, d.documents);
    lemma_fill_absent(s, "<winPublic>"@, d.public);
    assert(expand_template(h + tail, d) == s);
    lemma_no_root(s);
}

/// On Windows, with the public folder `dir` known, a template `<winPublic>`
/// followed by a tail resolves to that folder followed by the tail, with
/// `\` for every `/`.
pub proof fn lemma_public_placeholder(tail: Seq<char>, d: TemplateDirs, dir: String)
    requires
        d.windows,
        d.public == Some(dir),
        no_angle(dir@),
        no_angle(tail),
    ensures
        resolved_template("<winPublic>"@ + tail, d) == Some(map_char(dir@ + tail, '/', '\\')),
{
    reveal_strlit("<home>");
    reveal_strlit("<winAppData>");
    reveal_strlit("<winLocalAppData>");
    reveal_strlit("<winLocalLow>");
    reveal_strlit("<winDocuments>");
    reveal_strlit("<winPublic>");
    let h = "<winPublic>"@;
    lemma_placeholder_shape(h);
    lemma_fill_other(h, tail, "<home>"@, d.home, 1);
    lemma_fill_other(h, tail, "<winAppData>"@, d.app_data, 4);
    if let Some(l) = d.local_app_data {
        lemma_replace_other_head(h, tail, "<winLocalAppData>"@, l@, 4);
        lemma_fill_other(h, tail, "<winLocalLow>"@, d.local_low, 4);
    }
    lemma_fill_other(h, tail, "<winDocuments>"@, d.documents, 4);
    lemma_replace_head(h, tail, dir@);
    let s = dir@ + tail;
    lemma_concat_no_angle(dir@, tail);
    assert(expand_template(h + tail, d) == s);
    lemma_no_root(s);
}

/// Off Windows, with the XDG data folder `dir` known, a template
/// `<xdgData>` followed by a tail resolves to that folder followed by the
/// tail.
pub proof fn lemma_xdg_data_placeholder(tail: Seq<char>, d: TemplateDirs, dir: String)
    requires
        !d.windows,
        d.xdg_data == Some(dir),
        no_angle(dir@),
        no_angle(tail),
    ensures
        resolved_template("<xdgData>"@ + tail, d) == Some(dir@ + tail),
{
    reveal_strlit("<home>");
    reveal_strlit("<xdgData>");
    reveal_strlit("<xdgConfig>");
    let h = "<xdgData>"@;
    lemma_placeholder_shape(h);
    lemma_fill_other(h, tail, "<home>"@, d.home, 1);
    lemma_replace_head(h, tail, dir@);
    let s = dir@ + tail;
    lemma_concat_no_angle(dir@, tail);
    lemma_fill_absent(s, "<xdgConfig>"@, d.xdg_config);
    assert(expand_template(h + tail, d) == s);
    lemma_no_root(s);
}

/// Off Windows, with the XDG configuration folder `dir` known, a template
/// `<xdgConfig>` followed by a tail resolves to that folder followed by the
/// tail.
pub proof fn lemma_xdg_config_placeholder(tail: Seq<char>, d: TemplateDirs, dir: String)
    requires
        !d.windows,
        d.xdg_config == Some(dir),
        no_angle(dir@),
        no_angle(tail),
    ensures
        resolved_template("<xdgConfig>"@ + tail, d) == Some(dir@ + tail),
{
    reveal_strlit("<home>");
    reveal_strlit("<xdgData>");
    reveal_strlit("<xdgConfig>");
    let h = "<xdgConfig>"@;
    lemma_placeholder_shape(h);
    lemma_fill_other(h, tail, "<home>"@, d.home, 1);
    lemma_fill_other(h, tail, "<xdgData>"@, d.xdg_data, 4);
    lemma_replace_head(h, tail, dir@);
    let s = dir@ + tail;
    lemma_concat_no_angle(dir@, tail);
    assert(expand_template(h + tail, d) == s);
    lemma_no_root(s);
}

fn fill_exec(s: String, tag: &str, dir: &Option<String>) -> (r: String)
    requires
        tag@.len() > 0,
    ensures
        r@ == fill(s@, tag@, *dir),
{
    match dir {
        Some(d) => replace_str(s.as_str(), tag, d.as_str()),
        None => s,
    }
}

/// Resolve a Ludusavi-style path template with the user's folders.
pub fn resolve_template(template: &str, dirs: &TemplateDirs) -> (r: Result<String, BirdError>)
    ensures
        match resolved_template(template@, *dirs) {
            Some(p) => r matches Ok(q) && q@ == p,
            None => r matches Err(BirdError::Internal(m)) && m@ == root_unsupported(),
        },
{
    proof {
        reveal_strlit("<home>");
        reveal_strlit("<winAppData>");
        reveal_strlit("<winLocalAppData>");
        reveal_strlit("<winLocalLow>");
        reveal_strlit("<winDocuments>");
        reveal_strlit("<winPublic>");
        reveal_strlit("<xdgData>");
        reveal_strlit("<xdgConfig>");
    }
    let mut s = fill_exec(template.to_string(), "<home>", &dirs.home);
    if dirs.windows {
        s = fill_exec(s, "<winAppData>", &dirs.app_data);
        match &dirs.local_app_data {
            Some(l) => {
                s = replace_str(s.as_str(), "<winLocalAppData>", l.as_str());
                s = fill_exec(s, "<winLocalLow>", &dirs.local_low);
            },
            None => {},
        }
        s = fill_exec(s, "<winDocuments>", &dirs.documents);
        s = fill_exec(s, "<winPublic>", &dirs.public);
    } else {
        s = fill_exec(s, "<xdgData>", &dirs.xdg_data);
        s = fill_exec(s, "<xdgConfig>", &dirs.xdg_config);
    }
    if str_contains(s.as_str(), "<root>") {
        return Err(
            BirdError::Internal(
                "<root> placeholder requires game install detection (Phase 12)".to_string(),
            ),
        );
    }
    if dirs.windows {
        s = replace_char(s.as_str(), '/', '\\');
    }
    Ok(s)
}

/// Each template of a game resolved in order.
pub fn resolve_candidates(templates: &Vec<String>, dirs: &TemplateDirs) -> (r: Vec<
    Result<String, BirdError>,
>)
    ensures
        r@.len() == templates@.len(),
        forall|i: int|
            0 <= i < r@.len() ==> match resolved_template(templates@[i]@, *dirs) {
                Some(p) => #[trigger] r@[i] matches Ok(q) && q@ == p,
                None => r@[i] matches Err(BirdError::Internal(m)) && m@ == root_unsupported(),
            },
{
    let mut r: Vec<Result<String, BirdError>> = Vec::new();
    let mut i: usize = 0;
    while i < templates.len()
        invariant
            i <= templates@.len(),
            r@.len() == i,
            forall|j: int|
                0 <= j < i ==> match resolved_template(templates@[j]@, *dirs) {
                    Some(p) => #[trigger] r@[j] matches Ok(q) && q@ == p,
                    None => r@[j] matches Err(BirdError::Internal(m)) && m@ == root_unsupported(),
                },
        decreases templates@.len() - i,
    {
        r.push(resolve_template(templates[i].as_str(), dirs));
        i = i + 1;
    }
    r
}

/// Index of the first candidate that settles the save path: one that failed
/// to resolve, or one that exists on disk.
pub open spec fn first_settled(c: Seq<Result<String, BirdError>>, on_disk: Seq<bool>, i: int) -> Option<
    int,
>
    decreases c.len() - i,
{
    if i < 0 || i >= c.len() {
        None
    } else if c[i] is Err || (i < on_disk.len() && on_disk[i]) {
        Some(i)
    } else {
        first_settled(c, on_disk, i + 1)
    }
}

/// The save path of a game from its resolved candidates and whether each
/// exists: the first one that exists, unless an earlier one failed to
/// resolve; `None` when none exists.
pub fn pick_save_path(candidates: Vec<Result<String, BirdError>>, on_disk: &Vec<bool>) -> (r: Result<
    Option<String>,
    BirdError,
>)
    ensures
        match first_settled(candidates@, on_disk@, 0) {
            Some(k) => match candidates@[k] {
                Ok(p) => r matches Ok(Some(q)) && q@ == p@,
                Err(e) => r == Err::<Option<String>, BirdError>(e),
            },
            None => r matches Ok(None),
        },
{
    let ghost c = candidates@;
    let mut rest = candidates;
    let n = rest.len();
    let mut k: usize = 0;
    while k < n
        invariant
            c == candidates@,
            n == c.len(),
            k <= n,
            rest@ == c.skip(k as int),
            first_settled(c, on_disk@, 0) == first_settled(c, on_disk@, k as int),
        decreases n - k,
    {
        let item = rest.remove(0);
        assert(item == c[k as int]);
        assert(c.skip(k + 1) =~= c.skip(k as int).remove(0));
        let here = k < on_disk.len() && on_disk[k];
        match item {
            Err(e) => {
                return Err(e);
            },
            Ok(p) => {
                if here {
                    return Ok(Some(p));
                }
            },
        }
        k = k + 1;
    }
    Ok(None)
}

/// What the Bird reports for a game once its save path is settled; `digest`
/// is the save folder's hash and newest modification time when it exists.
pub fn discovered(game: &VerifiedGame, save_path: Option<String>, digest: Option<(String, i64)>) -> (d:
    DiscoveredGame)
    ensures
        d.game_id@ == game.game_id@,
        d.title@ == game.title@,
        match save_path {
            Some(p) => d.save_path matches Some(q) && q@ == p@,
            None => d.save_path is None,
        },
        d.exists == digest is Some,
        match digest {
            Some((h, t)) => d.local_hash matches Some(x) && x@ == h@ && d.local_modified_at == Some(
                t,
            ),
            None => d.local_hash is None && d.local_modified_at is None,
        },
        d.status == SyncStatus::SafeInNest,
{
    let (present, local_hash, local_modified_at) = match digest {
        Some((h, t)) => (true, Some(h), Some(t)),
        None => (false, None, None),
    };
    DiscoveredGame {
        game_id: game.game_id.clone(),
        title: game.title.clone(),
        save_path,
        exists: present,
        local_hash,
        local_modified_at,
        status: SyncStatus::SafeInNest,
    }
}

/// Whether the cached manifest must be downloaded again: when it is
/// missing, or when its age in seconds amounts to `CACHE_HOURS` hours.
pub fn manifest_is_stale(present: bool, age_secs: u64) -> (r: bool)
    ensures
        r == (!present || (86400 <= age_secs && age_secs <= i64::MAX)),
{
    if !present {
        return true;
    }
    if age_secs > 9223372036854775807u64 {
        return false;
    }
    let hours: i64 = (age_secs / 3600) as i64;
    hours >= CACHE_HOURS
}

// ---------------------------------------------------------------------------
// Save-folder digest
// ---------------------------------------------------------------------------

/// One file of a save folder: its path relative to the folder, its contents,
/// and its modification time in Unix seconds when the system reports one.
#[derive(Debug)]
pub struct SaveFile {
    pub rel_path: String,
    pub contents: Vec<u8>,
    pub modified: Option<i64>,
}

/// The bytes hashed for a save folder: for each file in order, its relative
/// path, a zero byte, its contents and a zero byte.
pub open spec fn save_stream(files: Seq<SaveFile>) -> Seq<u8>
    decreases files.len(),
{
    if files.len() == 0 {
        Seq::empty()
    } else {
        let f = files.last();
        save_stream(files.drop_last()) + encode_utf8(f.rel_path@) + seq![0u8] + f.contents@
            + seq![0u8]
    }
}

/// The newest modification time among the files, and 0 when none is later.
pub open spec fn newest_modified(files: Seq<SaveFile>) -> i64
    decreases files.len(),
{
    if files.len() == 0 {
        0
    } else {
        let prev = newest_modified(files.drop_last());
        match files.last().modified {
            Some(t) => if t > prev {
                t
            } else {
                prev
            },
            None => prev,
        }
    }
}

/// The time a save digest reports is the newest modification time among
/// the files: no file reports a later one, it is never negative, and when it
/// is not 0 some file reports exactly it.
pub proof fn lemma_newest_is_maximum(files: Seq<SaveFile>)
    ensures
        newest_modified(files) >= 0,
        forall|k: int|
            0 <= k < files.len() ==> match (#[trigger] files[k]).modified {
                Some(t) => t <= newest_modified(files),
                None => true,
            },
        newest_modified(files) != 0 ==> exists|k: int|
            0 <= k < files.len() && (#[trigger] files[k]).modified == Some(newest_modified(files)),
    decreases files.len(),
{
    if files.len() > 0 {
        let prev = files.drop_last();
        lemma_newest_is_maximum(prev);
        let n = files.len() - 1;
        assert forall|k: int| 0 <= k < files.len() implies match (#[trigger] files[k]).modified {
            Some(t) => t <= newest_modified(files),
            None => true,
        } by {
            if k < n {
                assert(files[k] == prev[k]);
            }
        }
        if newest_modified(files) != 0 {
            if newest_modified(files) == newest_modified(prev) {
                let k = choose|k: int|
                    0 <= k < prev.len() && (#[trigger] prev[k]).modified == Some(newest_modified(prev));
                assert(files[k] == prev[k]);
            } else {
                assert(files[n].modified == Some(newest_modified(files)));
            }
        }
    }
}

fn push_bytes(out: &mut Vec<u8>, b: &[u8])
    ensures
        final(out)@ == old(out)@ + b@,
{
    let mut i: usize = 0;
    while i < b.len()
        invariant
            i <= b@.len(),
            out@ == old(out)@ + b@.take(i as int),
        decreases b@.len() - i,
    {
        out.push(b[i]);
        assert(b@.take(i + 1) =~= b@.take(i as int).push(b@[i as int]));
        assert(old(out)@ + b@.take(i + 1) =~= (old(out)@ + b@.take(i as int)).push(b@[i as int]));
        i = i + 1;
    }
    assert(b@.take(b@.len() as int) =~= b@);
}

/// The stable SHA-256 hash (lower-case hex) of a save folder's files and the
/// newest modification time among them.
pub fn save_digest(files: &Vec<SaveFile>) -> (r: (String, i64))
    ensures
        r.0@ == hex_of(sha256(save_stream(files@))),
        r.1 == newest_modified(files@),
        r.1 >= 0,
        forall|k: int|
            0 <= k < files@.len() ==> match (#[trigger] files@[k]).modified {
                Some(t) => t <= r.1,
                None => true,
            },
        r.1 != 0 ==> exists|k: int| 0 <= k < files@.len() && (#[trigger] files@[k]).modified == Some(r.1),
{
    let mut stream: Vec<u8> = Vec::new();
    let mut newest: i64 = 0;
    let mut i: usize = 0;
    while i < files.len()
        invariant
            i <= files@.len(),
            stream@ == save_stream(files@.take(i as int)),
            newest == newest_modified(files@.take(i as int)),
        decreases files@.len() - i,
    {
        let f = &files[i];
        proof {
            assert(files@.take(i + 1).drop_last() =~= files@.take(i as int));
            assert(files@.take(i + 1).last() == *f);
        }
        match f.modified {
            Some(t) => {
                if t > newest {
                    newest = t;
                }
            },
            None => {},
        }
        let ghost before = stream@;
        push_bytes(&mut stream, f.rel_path.as_str().as_bytes());
        stream.push(0u8);
        push_bytes(&mut stream, f.contents.as_slice());
        stream.push(0u8);
        proof {
            assert(stream@ =~= before + encode_utf8(f.rel_path@) + seq![0u8] + f.contents@ + seq![
                0u8,
            ]);
        }
        i = i + 1;
    }
    proof {
        assert(files@.take(files@.len() as int) =~= files@);
        lemma_newest_is_maximum(files@);
    }
    let d = sha256_digest(stream.as_slice());
    (hash_to_hex(d.as_slice()), newest)
}

// ---------------------------------------------------------------------------
// Egg files
// ---------------------------------------------------------------------------

/// The name a file gets inside an Egg: its relative path with `/` for every
/// `\`.
pub fn zip_entry_name(rel_path: &str) -> (n: String)
    ensures
        n@ == map_char(rel_path@, '\\', '/'),
{
    replace_char(rel_path, '\\', '/')
}

/// The name of the backup a replaced save folder is renamed to: the
/// folder's name (`save` when it has none), `.nest-bak-` and the moment.
pub fn backup_name(folder_name: Option<&str>, stamp: u64) -> (n: String)
    ensures
        n@ == (match folder_name {
            Some(f) => f@,
            None => "save"@,
        }) + ".nest-bak-"@ + nat_digits(stamp as nat),
{
    let mut n = match folder_name {
        Some(f) => f.to_string(),
        None => "save".to_string(),
    };
    n.append(".nest-bak-");
    n.append(u64_text(stamp).as_str());
    n
}

/// The archive `zip::ZipWriter` writes for the given `(name, contents)`
/// entries, Deflate-compressed and in order, or the text of its error.
pub uninterp spec fn zip_archive(entries: Seq<(Seq<char>, Seq<u8>)>) -> Result<Seq<u8>, Seq<char>>;

/// The entries of a list of `(name, contents)` pairs, by view.
pub open spec fn entries_view(entries: Seq<(String, Vec<u8>)>) -> Seq<(Seq<char>, Seq<u8>)> {
    entries.map_values(|e: (String, Vec<u8>)| (e.0@, e.1@))
}

/// Whether an entry name names a folder, as the zip crate's `is_dir` reads
/// it: it ends with `/` or `\`.
pub open spec fn name_is_folder(n: Seq<char>) -> bool {
    n.len() > 0 && is_path_sep(n.last())
}

/// An entry name without a NUL and without a `:` (so no drive prefix on any
/// platform).
pub open spec fn name_plain(n: Seq<char>) -> bool {
    !n.contains('\0') && !n.contains(':')
}

/// Entries read back from an archive hold the written ones: in order, each
/// under its name, a folder exactly when its name ends with a separator,
/// with its contents, and enclosed by the zip crate when the name is a plain
/// relative name with no `..` component.
pub open spec fn reads_back(
    v: Seq<(Seq<char>, Seq<char>, bool, bool, Seq<u8>)>,
    written: Seq<(Seq<char>, Seq<u8>)>,
) -> bool {
    &&& v.len() == written.len()
    &&& forall|k: int|
        0 <= k < v.len() ==> (#[trigger] v[k]).0 == written[k].0 && v[k].3 == name_is_folder(
            written[k].0,
        ) && v[k].4 == written[k].1 && (relative_name_safe(written[k].0) && name_plain(
            written[k].0,
        ) ==> v[k].2)
}

/// `zip::ZipWriter` over an in-memory buffer: each `(name, contents)` entry
/// is written, Deflate-compressed, in order, then the archive is finished.
/// With the crate's `time` feature off every entry carries the fixed
/// 1980-01-01 timestamp, so the bytes depend on the entries alone; they are
/// named, not spelled out. A failure carries the crate's message.
///
/// The writer stores each name as given (flagged UTF-8 when it is not
/// ASCII) and refuses a repeated name; `zip::ZipArchive` reads the entries
/// back in order with those names and the inflated contents. `is_dir` is a
/// name ending in `/` or `\`; `enclosed_name` refuses only names with a NUL,
/// a root or a drive prefix, or a `..` that climbs out.
#[verifier::external_body]
fn deflate_zip(entries: &Vec<(String, Vec<u8>)>) -> (r: Result<Vec<u8>, String>)
    ensures
        match r {
            Ok(b) => zip_archive(entries_view(entries@)) == Ok::<Seq<u8>, Seq<char>>(b@),
            Err(m) => zip_archive(entries_view(entries@)) == Err::<Seq<u8>, Seq<char>>(m@),
        },
        r matches Ok(b) ==> (zip_read(b@) matches Ok(v) && reads_back(v, entries_view(entries@))),
{
    let mut writer = std::io::Cursor::new(Vec::new());
    let options = zip::write::SimpleFileOptions::default().compression_method(
        zip::CompressionMethod::Deflated,
    );
    let mut zip = zip::ZipWriter::new(&mut writer);
    for (name, data) in entries {
        zip.start_file(name.as_str(), options).map_err(|e| e.to_string())?;
        std::io::Write::write_all(&mut zip, data).map_err(|e| e.to_string())?;
    }
    zip.finish().map_err(|e| e.to_string())?;
    Ok(writer.into_inner())
}

/// The entries of an Egg: each file of the save folder, in order, under its
/// entry name.
pub open spec fn egg_entries(files: Seq<SaveFile>) -> Seq<(Seq<char>, Seq<u8>)> {
    files.map_values(|f: SaveFile| (map_char(f.rel_path@, '\\', '/'), f.contents@))
}

/// The name a save file gets inside an Egg.
pub open spec fn egg_name(f: SaveFile) -> Seq<char> {
    map_char(f.rel_path@, '\\', '/')
}

/// Every file of a save folder has an entry name that unpacks: plain,
/// relative, with no `..` component.
pub open spec fn files_unpackable(files: Seq<SaveFile>) -> bool {
    forall|k: int|
        0 <= k < files.len() ==> relative_name_safe(egg_name(#[trigger] files[k])) && name_plain(
            egg_name(files[k]),
        )
}

/// What [`unpack_egg`] gives for an Egg's bytes.
pub open spec fn unpacked_from(
    bytes: Seq<u8>,
    r: Result<Vec<(String, bool, Vec<u8>)>, BirdError>,
) -> bool {
    match zip_read(bytes) {
        Ok(v) => unpack_outcome(v, r),
        Err(m) => r matches Err(BirdError::Archive(msg)) && msg@ == m,
    }
}

/// The unpacked entries are the save files, in order, each under its entry
/// name, with its contents.
pub open spec fn gives_back(r: Result<Vec<(String, bool, Vec<u8>)>, BirdError>, files: Seq<SaveFile>) -> bool {
    r matches Ok(out) && out@.len() == files.len() && forall|k: int|
        0 <= k < files.len() ==> (#[trigger] out@[k]).0@ == egg_name(files[k]) && out@[k].1
            == name_is_folder(egg_name(files[k])) && out@[k].2@ == files[k].contents@
}

/// Package a save folder's files into an Egg; gives the Egg's bytes, the
/// zip archive of the files under their entry names, and their SHA-256 hash
/// (lower-case hex). Unpacking the Egg gives the files back: each under its
/// entry name, in order, with its contents, when every name unpacks.
pub fn package_files(files: &Vec<SaveFile>) -> (r: Result<(Vec<u8>, String), BirdError>)
    ensures
        match zip_archive(egg_entries(files@)) {
            Ok(b) => r matches Ok((bytes, hash)) && bytes@ == b && hash@ == hex_of(sha256(b)),
            Err(m) => r matches Err(BirdError::Archive(msg)) && msg@ == m,
        },
        r matches Ok((bytes, hash)) ==> (zip_read(bytes@) matches Ok(v) && reads_back(
            v,
            egg_entries(files@),
        )),
        r matches Ok((bytes, hash)) ==> (files_unpackable(files@) ==> forall|
            out: Result<Vec<(String, bool, Vec<u8>)>, BirdError>,
        | #[trigger] unpacked_from(bytes@, out) ==> gives_back(out, files@)),
{
    let mut entries: Vec<(String, Vec<u8>)> = Vec::new();
    let mut i: usize = 0;
    while i < files.len()
        invariant
            i <= files@.len(),
            entries@.len() == i,
            forall|j: int|
                0 <= j < i ==> (#[trigger] entries@[j]).0@ == egg_entries(files@)[j].0
                    && entries@[j].1@ == egg_entries(files@)[j].1,
        decreases files@.len() - i,
    {
        let name = zip_entry_name(files[i].rel_path.as_str());
        let data = copy_bytes(files[i].contents.as_slice());
        entries.push((name, data));
        i = i + 1;
    }
    assert(entries_view(entries@) =~= egg_entries(files@));
    match deflate_zip(&entries) {
        Ok(bytes) => {
            let hash = hash_bytes(bytes.as_slice());
            proof {
                if files_unpackable(files@) {
                    lemma_egg_round_trip(files@, bytes@);
                }
            }
            Ok((bytes, hash))
        },
        Err(e) => Err(BirdError::Archive(e)),
    }
}

/// An entry of an Egg as the zip crate reads it, by view: its stored name,
/// that name as Rust debug-quotes it (for messages), whether the crate's
/// `enclosed_name` accepts it, whether it is a folder, and its contents.
pub open spec fn zip_entry_view(e: (String, String, bool, bool, Vec<u8>)) -> (
    Seq<char>,
    Seq<char>,
    bool,
    bool,
    Seq<u8>,
) {
    (e.0@, e.1@, e.2, e.3, e.4@)
}

/// What `zip::ZipArchive` reads from an archive's bytes: its entries in
/// order (as [`zip_entry_view`] describes them), or the text of its error.
pub uninterp spec fn zip_read(bytes: Seq<u8>) -> Result<
    Seq<(Seq<char>, Seq<char>, bool, bool, Seq<u8>)>,
    Seq<char>,
>;

/// `zip::ZipArchive::new` over the bytes, then `by_index` for every entry:
/// each entry handed out with its `name()`, that name debug-quoted, whether
/// `enclosed_name()` is `Some`, `is_dir()` and its decompressed contents.
/// Any error of the crate, or of reading an entry, ends the read with its
/// message.
#[verifier::external_body]
fn zip_entries(bytes: &[u8]) -> (r: Result<Vec<(String, String, bool, bool, Vec<u8>)>, String>)
    ensures
        match r {
            Ok(v) => zip_read(bytes@) == Ok::<
                Seq<(Seq<char>, Seq<char>, bool, bool, Seq<u8>)>,
                Seq<char>,
            >(v@.map_values(|e: (String, String, bool, bool, Vec<u8>)| zip_entry_view(e))),
            Err(m) => zip_read(bytes@) == Err::<
                Seq<(Seq<char>, Seq<char>, bool, bool, Seq<u8>)>,
                Seq<char>,
            >(m@),
        },
        r matches Ok(v) ==> forall|k: int|
            0 <= k < v@.len() ==> (#[trigger] v@[k]).1@ == debug_quoted(v@[k].0@),
{
    let mut a = zip::ZipArchive::new(std::io::Cursor::new(bytes)).map_err(|e| e.to_string())?;
    let mut out = Vec::new();
    for i in 0..a.len() {
        let mut f = a.by_index(i).map_err(|e| e.to_string())?;
        let mut data = Vec::new();
        std::io::Read::read_to_end(&mut f, &mut data).map_err(|e| e.to_string())?;
        let name = f.name().to_string();
        out.push((name.clone(), format!("{:?}", name), f.enclosed_name().is_some(), f.is_dir(), data));
    }
    Ok(out)
}

/// A path separator inside an Egg entry name.
pub open spec fn is_path_sep(c: char) -> bool {
    c == '/' || c == '\\'
}

/// Whether a name has a `..` component, with `/` or `\` as separators.
pub open spec fn has_parent_component(n: Seq<char>) -> bool {
    exists|i: int|
        0 <= i && i + 2 <= n.len() && #[trigger] n[i] == '.' && n[i + 1] == '.' && (i == 0
            || is_path_sep(n[i - 1])) && (i + 2 == n.len() || is_path_sep(n[i + 2]))
}

/// An entry name that, joined under a folder, stays inside it: not
/// absolute, with no `..` component.
pub open spec fn relative_name_safe(n: Seq<char>) -> bool {
    &&& !(n.len() > 0 && is_path_sep(n[0]))
    &&& !has_parent_component(n)
}

/// An entry that may be unpacked: the zip crate encloses its name and the
/// name is relative with no `..` component.
pub open spec fn entry_safe(e: (Seq<char>, Seq<char>, bool, bool, Seq<u8>)) -> bool {
    e.2 && relative_name_safe(e.0)
}

/// What unpacking the entries `v` gives: every entry, as `(name, is_dir,
/// contents)` and in order, when all are safe; else an Archive error naming
/// the first unsafe one.
pub open spec fn unpack_outcome(
    v: Seq<(Seq<char>, Seq<char>, bool, bool, Seq<u8>)>,
    r: Result<Vec<(String, bool, Vec<u8>)>, BirdError>,
) -> bool {
    &&& (r is Ok <==> forall|k: int| 0 <= k < v.len() ==> #[trigger] entry_safe(v[k]))
    &&& (r matches Ok(out) ==> out@.len() == v.len() && forall|k: int|
        0 <= k < v.len() ==> (#[trigger] out@[k]).0@ == v[k].0 && out@[k].1 == v[k].3
            && out@[k].2@ == v[k].4)
    &&& (r matches Err(e) ==> exists|k: int|
        0 <= k < v.len() && !#[trigger] entry_safe(v[k]) && (forall|j: int|
            0 <= j < k ==> entry_safe(v[j])) && (e matches BirdError::Archive(m) && m@
            == "invalid path in archive: "@ + v[k].1))
}

/// Whether `n` has a `..` component, scanning its characters.
fn has_parent_component_exec(n: &str) -> (b: bool)
    ensures
        b == has_parent_component(n@),
{
    let v = crate::text::chars_of(n);
    let len = v.len();
    let mut i: usize = 0;
    while len >= 2 && i <= len - 2
        invariant
            v@ == n@,
            len == v@.len(),
            i <= len,
            forall|k: int|
                0 <= k < i && k + 2 <= n@.len() ==> !(#[trigger] n@[k] == '.' && n@[k + 1] == '.'
                    && (k == 0 || is_path_sep(n@[k - 1])) && (k + 2 == n@.len() || is_path_sep(
                    n@[k + 2],
                ))),
        decreases len - i,
    {
        if v[i] == '.' && v[i + 1] == '.' && (i == 0 || v[i - 1] == '/' || v[i - 1] == '\\') && (
        i + 2 == len || v[i + 2] == '/' || v[i + 2] == '\\') {
            assert(n@[i as int] == '.');
            return true;
        }
        i = i + 1;
    }
    proof {
        if has_parent_component(n@) {
            let k = choose|k: int|
                0 <= k && k + 2 <= n@.len() && #[trigger] n@[k] == '.' && n@[k + 1] == '.' && (k
                    == 0 || is_path_sep(n@[k - 1])) && (k + 2 == n@.len() || is_path_sep(
                    n@[k + 2],
                ));
            assert(n@[k] == '.');
        }
    }
    false
}

/// Checks the entries of an Egg before anything is written: every name must
/// be one the zip crate encloses, relative, with no `..` component. Gives
/// the entries to write, in order.
pub fn unpack_plan(entries: &Vec<(String, String, bool, bool, Vec<u8>)>) -> (r: Result<
    Vec<(String, bool, Vec<u8>)>,
    BirdError,
>)
    ensures
        unpack_outcome(
            entries@.map_values(|e: (String, String, bool, bool, Vec<u8>)| zip_entry_view(e)),
            r,
        ),
{
    let ghost v = entries@.map_values(|e: (String, String, bool, bool, Vec<u8>)| zip_entry_view(e));
    let mut out: Vec<(String, bool, Vec<u8>)> = Vec::new();
    let mut i: usize = 0;
    while i < entries.len()
        invariant
            v == entries@.map_values(|e: (String, String, bool, bool, Vec<u8>)| zip_entry_view(e)),
            i <= entries@.len(),
            out@.len() == i,
            forall|k: int| 0 <= k < i ==> #[trigger] entry_safe(v[k]),
            forall|k: int|
                0 <= k < i ==> (#[trigger] out@[k]).0@ == v[k].0 && out@[k].1 == v[k].3
                    && out@[k].2@ == v[k].4,
        decreases entries@.len() - i,
    {
        let e = &entries[i];
        assert(v[i as int] == zip_entry_view(entries@[i as int]));
        let name = e.0.as_str();
        let n = first_char(name);
        let absolute = match n {
            Some(c) => c == '/' || c == '\\',
            None => false,
        };
        if !e.2 || absolute || has_parent_component_exec(name) {
            assert(!entry_safe(v[i as int]));
            return Err(BirdError::Archive(concat("invalid path in archive: ", e.1.as_str())));
        }
        out.push((e.0.clone(), e.3, copy_bytes(e.4.as_slice())));
        i = i + 1;
    }
    Ok(out)
}

/// The first character of a text, if any.
fn first_char(s: &str) -> (r: Option<char>)
    ensures
        match r {
            Some(c) => s@.len() > 0 && c == s@[0],
            None => s@.len() == 0,
        },
{
    let v = crate::text::chars_of(s);
    if v.len() == 0 {
        None
    } else {
        Some(v[0])
    }
}

/// Read an Egg's bytes and check its entries for unpacking: a zip the crate
/// cannot read is an Archive error with its message; otherwise the outcome
/// of [`unpack_plan`] on its entries.
pub fn unpack_egg(bytes: &[u8]) -> (r: Result<Vec<(String, bool, Vec<u8>)>, BirdError>)
    ensures
        unpacked_from(bytes@, r),
{
    match zip_entries(bytes) {
        Ok(entries) => unpack_plan(&entries),
        Err(m) => Err(BirdError::Archive(m)),
    }
}

/// Every entry an Egg is unpacked to has a name that stays inside the
/// destination folder: relative, with no `..` component.
pub proof fn lemma_unpacked_names_stay_inside(
    v: Seq<(Seq<char>, Seq<char>, bool, bool, Seq<u8>)>,
    r: Result<Vec<(String, bool, Vec<u8>)>, BirdError>,
    k: int,
)
    requires
        unpack_outcome(v, r),
        r is Ok,
        0 <= k < r->Ok_0@.len(),
    ensures
        relative_name_safe(r->Ok_0@[k].0@),
{
    assert(entry_safe(v[k]));
}

/// An Egg whose archive reads back the entries of save files with names
/// that all unpack is unpacked to exactly those files.
pub proof fn lemma_egg_round_trip(files: Seq<SaveFile>, bytes: Seq<u8>)
    requires
        zip_read(bytes) matches Ok(v) && reads_back(v, egg_entries(files)),
        files_unpackable(files),
    ensures
        forall|out: Result<Vec<(String, bool, Vec<u8>)>, BirdError>|
            #[trigger] unpacked_from(bytes, out) ==> gives_back(out, files),
{
    let v = zip_read(bytes)->Ok_0;
    let es = egg_entries(files);
    assert forall|k: int| 0 <= k < v.len() implies #[trigger] entry_safe(v[k]) by {
        assert(es[k] == (egg_name(files[k]), files[k].contents@));
        assert(relative_name_safe(egg_name(files[k])) && name_plain(egg_name(files[k])));
    }
    assert forall|out: Result<Vec<(String, bool, Vec<u8>)>, BirdError>|
        #[trigger] unpacked_from(bytes, out) implies gives_back(out, files) by {
        assert(unpack_outcome(v, out));
        let o = out->Ok_0;
        assert forall|k: int| 0 <= k < files.len() implies (#[trigger] o@[k]).0@ == egg_name(files[k])
            && o@[k].1 == name_is_folder(egg_name(files[k])) && o@[k].2@ == files[k].contents@ by {
            assert(es[k] == (egg_name(files[k]), files[k].contents@));
            assert(o@[k].0@ == v[k].0);
        }
    }
}

fn copy_bytes(b: &[u8]) -> (r: Vec<u8>)
    ensures
        r@ == b@,
{
    let mut r: Vec<u8> = Vec::new();
    let mut i: usize = 0;
    while i < b.len()
        invariant
            i <= b@.len(),
            r@ == b@.take(i as int),
        decreases b@.len() - i,
    {
        r.push(b[i]);
        assert(b@.take(i + 1) =~= b@.take(i as int).push(b@[i as int]));
        i = i + 1;
    }
    assert(b@.take(b@.len() as int) =~= b@);
    r
}

} // verus!
