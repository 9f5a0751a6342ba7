//! Rules of the Egg archive: which game ids are accepted, where an Egg is
//! stored, how an upload is checked, and which Eggs the Brood Limit prunes.
use vstd::prelude::*;
use vstd::utf8::encode_utf8;

use crate::domain::Egg;
use crate::error::AppError;
use crate::ids::{parse_uuid, uuid_parse, uuid_text, uuid_to_string};
use crate::text::{
    char_is_ascii_alnum, chars_of, concat, contains_char, int_text, i64_text, is_ascii_alnum,
    slice_range, str_eq, string_from_chars, trim, trim_end_underscores,
    trim_end_underscores_chars, trim_str, trim_underscores, trim_underscores_chars,
};

verus! {

broadcast use vstd::string::group_string_axioms;

// ---------------------------------------------------------------------------
// Game ids
// ---------------------------------------------------------------------------

/// Why a game id is rejected as a path parameter, if it is.
pub open spec fn game_id_problem(g: Seq<char>) -> Option<Seq<char>> {
    if g.len() == 0 || encode_utf8(g).len() > 128 {
        Some("game_id must be 1-128 characters"@)
    } else if g == "."@ || g == ".."@ {
        Some("invalid game_id"@)
    } else if g.contains('/') || g.contains('\\') || g.contains('\0') {
        Some("game_id must not contain path separators"@)
    } else {
        None
    }
}

/// A game-path parameter is rejected if it could escape the archive directory.
pub fn validate_game_id(game_id: &str) -> (r: Result<(), AppError>)
    ensures
        game_id_problem(game_id@) is None <==> r is Ok,
        r matches Err(e) ==> (e matches AppError::Validation(m) && game_id_problem(game_id@)
            == Some(m@)),
{
    let bytes = game_id.as_bytes();
    if game_id.is_empty() || bytes.len() > 128 {
        return Err(AppError::Validation("game_id must be 1-128 characters".to_string()));
    }
    if str_eq(game_id, ".") || str_eq(game_id, "..") {
        return Err(AppError::Validation("invalid game_id".to_string()));
    }
    let v = chars_of(game_id);
    if contains_char(v.as_slice(), '/') || contains_char(v.as_slice(), '\\') || contains_char(
        v.as_slice(),
        '\0',
    ) {
        return Err(AppError::Validation("game_id must not contain path separators".to_string()));
    }
    Ok(())
}

/// Characters kept verbatim in an archive directory name.
pub open spec fn slug_safe(c: char) -> bool {
    is_ascii_alnum(c) || c == '.' || c == '-' || c == '_'
}

/// The raw slug of a game id and the last character pushed: safe characters
/// are kept, and each run of other characters becomes one `_`.
pub open spec fn slug_scan(s: Seq<char>) -> (Seq<char>, char)
    decreases s.len(),
{
    if s.len() == 0 {
        (Seq::empty(), '_')
    } else {
        let (acc, prev) = slug_scan(s.drop_last());
        let c = s.last();
        if slug_safe(c) {
            (acc.push(c), c)
        } else if prev != '_' {
            (acc.push('_'), '_')
        } else {
            (acc, prev)
        }
    }
}

/// The slug of a game id trimmed of underscores and cut to 64 characters.
pub open spec fn slug_cut(g: Seq<char>) -> Seq<char> {
    let t = trim_underscores(slug_scan(g).0);
    if t.len() > 64 {
        trim_end_underscores(t.take(64))
    } else {
        t
    }
}

/// Whether a name is `.` or `..`, which a file system reads as the current
/// or the parent directory.
pub open spec fn is_dot_segment(s: Seq<char>) -> bool {
    s == seq!['.'] || s == seq!['.', '.']
}

/// The filesystem-safe directory name of a game id; an empty slug, and the
/// slugs `.` and `..`, become `unknown`.
pub open spec fn sanitized(g: Seq<char>) -> Seq<char> {
    let c = slug_cut(g);
    if c.len() == 0 || is_dot_segment(c) {
        "unknown"@
    } else {
        c
    }
}

proof fn lemma_slug_scan_safe(s: Seq<char>)
    ensures
        forall|k: int| 0 <= k < slug_scan(s).0.len() ==> slug_safe(#[trigger] slug_scan(s).0[k]),
        slug_scan(s).0.len() > 0 ==> slug_scan(s).1 == slug_scan(s).0.last(),
        slug_scan(s).0.len() == 0 ==> slug_scan(s).1 == '_',
    decreases s.len(),
{
    if s.len() > 0 {
        lemma_slug_scan_safe(s.drop_last());
    }
}

/// Produce a filesystem-safe directory name from a game id.
pub fn sanitize_game_id(game_id: &str) -> (slug: String)
    ensures
        slug@ == sanitized(game_id@),
{
    let v = chars_of(game_id);
    let mut slug: Vec<char> = Vec::new();
    let mut prev: char = '_';
    let mut i: usize = 0;
    while i < v.len()
        invariant
            v@ == game_id@,
            i <= v.len(),
            (slug@, prev) == slug_scan(game_id@.take(i as int)),
        decreases v.len() - i,
    {
        let c = v[i];
        assert(game_id@.take(i + 1).drop_last() =~= game_id@.take(i as int));
        assert(game_id@.take(i + 1).last() == c);
        if char_is_ascii_alnum(c) || c == '.' || c == '-' || c == '_' {
            slug.push(c);
            prev = c;
        } else if prev != '_' {
            slug.push('_');
            prev = '_';
        }
        i = i + 1;
    }
    assert(game_id@.take(v.len() as int) =~= game_id@);
    let t = trim_underscores_chars(slug.as_slice());
    let cut = if t.len() > 64 {
        let head = slice_range(t.as_slice(), 0, 64);
        assert(head@ =~= t@.take(64));
        trim_end_underscores_chars(head.as_slice())
    } else {
        t
    };
    assert(cut@ == slug_cut(game_id@));
    let dot_segment = (cut.len() == 1 && cut[0] == '.') || (cut.len() == 2 && cut[0] == '.'
        && cut[1] == '.');
    assert(dot_segment == is_dot_segment(cut@)) by {
        if cut@.len() == 1 && cut@[0] == '.' {
            assert(cut@ =~= seq!['.']);
        }
        if cut@.len() == 2 && cut@[0] == '.' && cut@[1] == '.' {
            assert(cut@ =~= seq!['.', '.']);
        }
    }
    if cut.len() == 0 || dot_segment {
        return "unknown".to_string();
    }
    string_from_chars(cut.as_slice())
}

/// A sanitized directory name is non-empty, at most 64 characters, made
/// only of ASCII letters, digits, `.`, `-` and `_` (so it never holds a path
/// separator), neither starts nor ends with `_`, and is never `.` or `..`.
pub proof fn lemma_sanitized_is_safe(g: Seq<char>)
    ensures
        1 <= sanitized(g).len() <= 64,
        forall|k: int| 0 <= k < sanitized(g).len() ==> slug_safe(#[trigger] sanitized(g)[k]),
        sanitized(g)[0] != '_',
        sanitized(g).last() != '_',
        !is_dot_segment(sanitized(g)),
        sanitized(g) != "."@,
        sanitized(g) != ".."@,
{
    reveal_strlit("unknown");
    reveal_strlit(".");
    reveal_strlit("..");
    lemma_slug_scan_safe(g);
    let raw = slug_scan(g).0;
    let t = trim_underscores(raw);
    lemma_strip_sub(raw);
    let c = slug_cut(g);
    if t.len() > 64 {
        let h = t.take(64);
        lemma_strip_end_sub(h);
        assert forall|k: int| 0 <= k < c.len() implies slug_safe(#[trigger] c[k]) by {
            assert(c[k] == h[k]);
            assert(h[k] == t[k]);
        }
        lemma_strip_end_prefix_head(h);
    }
    assert("unknown"@.len() == 7);
    if c.len() != 0 && !is_dot_segment(c) {
        assert(sanitized(g) == c);
        if c == "."@ {
            assert(c =~= seq!['.']);
        }
        if c == ".."@ {
            assert(c =~= seq!['.', '.']);
        }
    }
}

/// Trimming underscores keeps a contiguous part of the input.
proof fn lemma_strip_sub(s: Seq<char>)
    ensures
        exists|a: int, b: int|
            0 <= a <= b <= s.len() && #[trigger] trim_underscores(s) == s.subrange(a, b),
        trim_underscores(s).len() > 0 ==> trim_underscores(s)[0] != '_',
        trim_underscores(s).len() > 0 ==> trim_underscores(s).last() != '_',
{
    let p = crate::text::underscore_pred();
    lemma_strip_start_sub(s);
    let st = crate::text::strip_start(s, p);
    let a = choose|a: int| 0 <= a <= s.len() && st == s.subrange(a, s.len() as int);
    lemma_strip_end_sub(st);
    let b = choose|b: int| 0 <= b <= st.len() && #[trigger] trim_end_underscores(st) == st.subrange(0, b);
    assert(trim_underscores(s) =~= s.subrange(a, a + b));
    if trim_underscores(s).len() > 0 {
        lemma_strip_end_prefix_head(st);
    }
}

proof fn lemma_strip_start_sub(s: Seq<char>)
    ensures
        exists|a: int|
            0 <= a <= s.len() && crate::text::strip_start(s, crate::text::underscore_pred())
                == s.subrange(a, s.len() as int),
        crate::text::strip_start(s, crate::text::underscore_pred()).len() > 0
            ==> crate::text::strip_start(s, crate::text::underscore_pred())[0] != '_',
    decreases s.len(),
{
    let p = crate::text::underscore_pred();
    if s.len() > 0 && p(s[0]) {
        lemma_strip_start_sub(s.drop_first());
        let a = choose|a: int|
            0 <= a <= s.drop_first().len() && crate::text::strip_start(s.drop_first(), p)
                == s.drop_first().subrange(a, s.drop_first().len() as int);
        assert(s.drop_first().subrange(a, s.drop_first().len() as int) =~= s.subrange(
            a + 1,
            s.len() as int,
        ));
    } else {
        assert(s.subrange(0, s.len() as int) =~= s);
    }
}

proof fn lemma_strip_end_sub(s: Seq<char>)
    ensures
        exists|b: int| 0 <= b <= s.len() && #[trigger] trim_end_underscores(s) == s.subrange(0, b),
        trim_end_underscores(s).len() > 0 ==> trim_end_underscores(s).last() != '_',
    decreases s.len(),
{
    let p = crate::text::underscore_pred();
    if s.len() > 0 && p(s.last()) {
        lemma_strip_end_sub(s.drop_last());
        let b = choose|b: int|
            0 <= b <= s.drop_last().len() && #[trigger] trim_end_underscores(s.drop_last())
                == s.drop_last().subrange(0, b);
        assert(s.drop_last().subrange(0, b) =~= s.subrange(0, b));
    } else {
        assert(s.subrange(0, s.len() as int) =~= s);
    }
}

/// Trimming trailing underscores keeps the first character when it is not one.
proof fn lemma_strip_end_prefix_head(s: Seq<char>)
    requires
        s.len() > 0,
        s[0] != '_',
    ensures
        trim_end_underscores(s).len() > 0,
        trim_end_underscores(s)[0] == s[0],
    decreases s.len(),
{
    let p = crate::text::underscore_pred();
    if p(s.last()) {
        assert(s.len() > 1);
        assert(s.drop_last()[0] == s[0]);
        lemma_strip_end_prefix_head(s.drop_last());
    }
}

proof fn lemma_strip_end_keeps_non_underscore(s: Seq<char>)
    requires
        s.len() > 0,
        s[0] != '_',
    ensures
        trim_end_underscores(s).len() > 0,
{
    lemma_strip_end_prefix_head(s);
}

// ---------------------------------------------------------------------------
// Archive paths
// ---------------------------------------------------------------------------

/// The archive path of an Egg, relative to the data directory:
/// `flocks/{flock}/{game}/egg_{created_at}_{egg}.zip`.
pub open spec fn egg_path(flock_id: u128, game_id: Seq<char>, egg_id: u128, created_at: i64) -> Seq<
    char,
> {
    "flocks/"@ + uuid_text(flock_id) + "/"@ + sanitized(game_id) + "/egg_"@ + int_text(
        created_at as int,
    ) + "_"@ + uuid_text(egg_id) + ".zip"@
}

/// The relative archive path for an Egg, stored in the database.
pub fn relative_egg_path(flock_id: u128, game_id: &str, egg_id: u128, created_at: i64) -> (p:
    String)
    ensures
        p@ == egg_path(flock_id, game_id@, egg_id, created_at),
{
    let mut p = "flocks/".to_string();
    p.append(uuid_to_string(flock_id).as_str());
    p.append("/");
    p.append(sanitize_game_id(game_id).as_str());
    p.append("/egg_");
    p.append(i64_text(created_at).as_str());
    p.append("_");
    p.append(uuid_to_string(egg_id).as_str());
    p.append(".zip");
    p
}

/// The archive directory of a Flock's game, relative to the data directory.
pub open spec fn clutch_dir(flock_id: u128, game_id: Seq<char>) -> Seq<char> {
    "flocks/"@ + uuid_text(flock_id) + "/"@ + sanitized(game_id)
}

pub fn relative_clutch_dir(flock_id: u128, game_id: &str) -> (p: String)
    ensures
        p@ == clutch_dir(flock_id, game_id@),
{
    let mut p = "flocks/".to_string();
    p.append(uuid_to_string(flock_id).as_str());
    p.append("/");
    p.append(sanitize_game_id(game_id).as_str());
    p
}

// ---------------------------------------------------------------------------
// Uploads
// ---------------------------------------------------------------------------

/// Reads the `source_bird_id` field of an upload.
pub fn parse_source_bird_id(text: &str) -> (r: Result<u128, AppError>)
    ensures
        r matches Ok(id) ==> uuid_parse(text@) == Some(id),
        r matches Err(e) ==> uuid_parse(text@) is None && (e matches AppError::Validation(m)
            && m@ == "invalid source_bird_id"@),
{
    match parse_uuid(text) {
        Some(id) => Ok(id),
        None => Err(AppError::Validation("invalid source_bird_id".to_string())),
    }
}

/// The Bird an upload is attributed to: the one the request names, which
/// defaults to the token's Bird; without one the upload is forbidden.
pub fn require_source_bird(source: Option<u128>) -> (r: Result<u128, AppError>)
    ensures
        source matches Some(id) ==> r == Ok::<u128, AppError>(id),
        source is None ==> r matches Err(AppError::Forbidden),
{
    match source {
        Some(id) => Ok(id),
        None => Err(AppError::Forbidden),
    }
}

/// Checks an upload's declared hash against the hash of the received bytes.
pub fn check_upload_hash(computed: &str, provided: Option<&str>) -> (r: Result<(), AppError>)
    ensures
        provided is None ==> (r matches Err(AppError::Validation(m)) && m@
            == "missing file_hash field"@),
        provided matches Some(p) ==> (r is Ok <==> computed@ == trim(p@)),
        provided matches Some(p) && computed@ != trim(p@) ==> (r matches Err(
            AppError::Validation(m),
        ) && m@ == "file hash does not match payload"@),
{
    match provided {
        None => Err(AppError::Validation("missing file_hash field".to_string())),
        Some(p) => {
            let t = trim_str(p);
            if str_eq(computed, t.as_str()) {
                Ok(())
            } else {
                Err(AppError::Validation("file hash does not match payload".to_string()))
            }
        },
    }
}

/// The uploaded save of an Egg upload. A form without a `file` part has
/// nothing to store: the upload fails as a server-side error once its
/// (empty) payload has passed the hash check, and no Egg is made.
pub fn require_upload_file(payload: Option<Vec<u8>>) -> (r: Result<Vec<u8>, AppError>)
    ensures
        match payload {
            Some(p) => r == Ok::<Vec<u8>, AppError>(p),
            None => r matches Err(AppError::Internal(m)) && m@ == "missing file field"@,
        },
{
    match payload {
        Some(p) => Ok(p),
        None => Err(AppError::Internal("missing file field".to_string())),
    }
}

// ---------------------------------------------------------------------------
// Brood Limit
// ---------------------------------------------------------------------------

/// How many of `n` Eggs the Brood Limit removes.
pub open spec fn prune_count(n: nat, brood_limit: int) -> nat {
    if n <= brood_limit {
        0
    } else {
        (n - brood_limit) as nat
    }
}

/// The Eggs to prune from a Clutch so that only `brood_limit` remain:
/// the oldest ones, given the Clutch's Eggs oldest first.
pub fn select_pruned(eggs_oldest_first: &Vec<Egg>, brood_limit: i64) -> (r: Result<
    Vec<Egg>,
    AppError,
>)
    ensures
        brood_limit < 1 <==> r is Err,
        r matches Err(e) ==> (e matches AppError::Validation(m) && m@
            == "brood_limit must be at least 1"@),
        r matches Ok(p) ==> p@ == eggs_oldest_first@.take(
            prune_count(eggs_oldest_first@.len(), brood_limit as int) as int,
        ),
{
    if brood_limit < 1 {
        return Err(AppError::Validation("brood_limit must be at least 1".to_string()));
    }
    let n = eggs_oldest_first.len();
    let count: usize = if (n as u64) <= (brood_limit as u64) {
        0
    } else {
        n - (brood_limit as u64) as usize
    };
    let mut pruned: Vec<Egg> = Vec::new();
    let mut i: usize = 0;
    while i < count
        invariant
            count <= eggs_oldest_first.len(),
            i <= count,
            pruned@ =~= eggs_oldest_first@.take(i as int),
        decreases count - i,
    {
        pruned.push(eggs_oldest_first[i].clone());
        i = i + 1;
    }
    Ok(pruned)
}

/// The Brood Limit keeps exactly the `min(n, limit)` newest Eggs: what is
/// pruned and what remains split the Clutch, oldest first.
pub proof fn lemma_brood_limit_keeps_newest(eggs: Seq<Egg>, brood_limit: int)
    requires
        brood_limit >= 1,
    ensures
        ({
            let k = prune_count(eggs.len(), brood_limit) as int;
            let kept = eggs.skip(k);
            &&& eggs == eggs.take(k) + kept
            &&& kept.len() == if eggs.len() <= brood_limit {
                eggs.len() as int
            } else {
                brood_limit
            }
        }),
{
    let k = prune_count(eggs.len(), brood_limit) as int;
    assert(eggs =~= eggs.take(k) + eggs.skip(k));
}

/// After an upload, pruning the Clutch (its Eggs oldest first, the new Egg
/// last) keeps exactly the `min(n + 1, limit)` newest Eggs, the new one
/// among them as the newest.
pub proof fn lemma_upload_keeps_new_egg(eggs: Seq<Egg>, new_egg: Egg, brood_limit: int)
    requires
        brood_limit >= 1,
    ensures
        ({
            let all = eggs.push(new_egg);
            let kept = all.skip(prune_count(all.len(), brood_limit) as int);
            &&& kept.len() == if eggs.len() + 1 <= brood_limit {
                eggs.len() + 1int
            } else {
                brood_limit
            }
            &&& kept.len() >= 1
            &&& kept.last() == new_egg
            &&& all == all.take(prune_count(all.len(), brood_limit) as int) + kept
        }),
{
    let all = eggs.push(new_egg);
    lemma_brood_limit_keeps_newest(all, brood_limit);
}

// ---------------------------------------------------------------------------
// Upload form and download headers
// ---------------------------------------------------------------------------

/// The parts of an Egg upload form.
#[derive(Debug, Clone, Copy, PartialEq, Eq, Structural)]
pub enum LayField {
    /// The zipped save (`file`).
    File,
    /// The hash the Bird computed (`file_hash`).
    FileHash,
    /// The uploading Bird's id (`source_bird_id`).
    SourceBirdId,
    /// Anything else, read and ignored.
    Other,
}

/// Which part of the upload form a field is, by its name.
pub fn lay_field(name: Option<&str>) -> (f: LayField)
    ensures
        f == (match name {
            Some(n) => if n@ == "file"@ {
                LayField::File
            } else if n@ == "file_hash"@ {
                LayField::FileHash
            } else if n@ == "source_bird_id"@ {
                LayField::SourceBirdId
            } else {
                LayField::Other
            },
            None => LayField::Other,
        }),
{
    match name {
        Some(n) => if str_eq(n, "file") {
            LayField::File
        } else if str_eq(n, "file_hash") {
            LayField::FileHash
        } else if str_eq(n, "source_bird_id") {
            LayField::SourceBirdId
        } else {
            LayField::Other
        },
        None => LayField::Other,
    }
}

/// The error for an upload form that cannot be read.
pub fn multipart_failure(detail: &str) -> (e: AppError)
    ensures
        e matches AppError::Validation(m) && m@ == "multipart error: "@ + detail@,
{
    AppError::Validation(concat("multipart error: ", detail))
}

/// The `Content-Disposition` of a downloaded Egg: an attachment named after
/// its file (`egg.zip` when the name is unknown).
pub fn attachment_header(file_name: Option<&str>) -> (h: String)
    ensures
        h@ == "attachment; filename=\""@ + (match file_name {
            Some(f) => f@,
            None => "egg.zip"@,
        }) + "\""@,
{
    let mut h = "attachment; filename=\"".to_string();
    match file_name {
        Some(f) => h.append(f),
        None => h.append("egg.zip"),
    }
    h.append("\"");
    h
}

} // verus!
