//! Index staleness decisions.
//!
//! The index is stale when it was never built, when the saved hash of
//! `gradle.lockfile` differs from the current one, or (without a lockfile)
//! when a tracked build file changed, vanished or appeared.
use vstd::prelude::*;
use crate::digest::{hex_digit, sha256_hex, sha256_of, spec_hex, spec_sha256_hex};
use crate::jar::{spec_trim, trim};
use crate::text::{chars_of, seq_eq, str_eq, string_of};

verus! {

/// The lockfile outcome: none without a lockfile; stale without a saved
/// hash; else stale when the lockfile's SHA-256 (lowercase hex) differs
/// from the saved hash with surrounding whitespace removed.
pub open spec fn spec_check_lockfile(lockfile: Option<Seq<u8>>, saved_hash: Option<Seq<char>>) -> Option<bool> {
    match lockfile {
        None => None,
        Some(content) => match saved_hash {
            None => Some(true),
            Some(h) => Some(spec_sha256_hex(content) != spec_trim(h)),
        },
    }
}

/// Check staleness via the `gradle.lockfile` hash, given the lockfile's
/// content (when it exists) and the saved hash file's text (when it exists).
pub fn check_lockfile(lockfile: Option<&[u8]>, saved_hash: Option<&str>) -> (r: Option<bool>)
    ensures
        r == spec_check_lockfile(
            match lockfile { Some(c) => Some(c@), None => None },
            match saved_hash { Some(h) => Some(h@), None => None },
        ),
{
    match lockfile {
        None => None,
        Some(content) => match saved_hash {
            None => Some(true),
            Some(h) => {
                let current = sha256_hex(content);
                let cv = chars_of(current.as_str());
                let hv = chars_of(h);
                let saved = trim(&hv);
                Some(!seq_eq(&cv, &saved))
            },
        },
    }
}

/// The Gradle build files tracked for staleness.
pub open spec fn spec_build_files() -> Seq<Seq<char>> {
    seq!["build.gradle"@, "build.gradle.kts"@, "settings.gradle"@, "settings.gradle.kts"@, "gradle/libs.versions.toml"@]
}

/// Gradle build file names tracked for staleness detection.
pub fn build_files() -> (r: Vec<&'static str>)
    ensures
        r@.map_values(|s: &'static str| s@) == spec_build_files(),
{
    let r = vec!["build.gradle", "build.gradle.kts", "settings.gradle", "settings.gradle.kts", "gradle/libs.versions.toml"];
    assert(r@.map_values(|s: &'static str| s@) =~= spec_build_files());
    r
}

/// A saved build file modification time, by path relative to the project.
#[derive(Debug, Clone)]
pub struct SavedMtime {
    /// Path relative to the project directory.
    pub path: String,
    /// Modification time in seconds since the epoch.
    pub mtime: u64,
}

/// What is found now of a saved build file.
#[derive(Debug, Clone, Copy)]
pub struct FileState {
    /// Whether the file exists.
    pub exists: bool,
    /// Its modification time in seconds since the epoch, when readable.
    pub mtime: Option<u64>,
}

/// Whether a saved file changed: it is gone, or its readable time differs.
pub open spec fn file_changed(saved: SavedMtime, now: FileState) -> bool {
    !now.exists || (now.mtime matches Some(t) && t != saved.mtime)
}

/// The build-file outcome: stale without saved times, when a saved file
/// changed, or when a tracked build file exists that was not saved.
pub open spec fn spec_build_files_stale(saved: Option<Seq<SavedMtime>>, now: Seq<FileState>, present: Seq<bool>) -> bool {
    match saved {
        None => true,
        Some(s) => some_changed(s, now) || some_new(s, present),
    }
}

/// Whether a saved file changed.
pub open spec fn some_changed(s: Seq<SavedMtime>, now: Seq<FileState>) -> bool {
    exists|i: int| 0 <= i < s.len() && i < now.len() && #[trigger] file_changed(s[i], now[i])
}

/// Whether the `j`-th tracked build file exists and was not saved.
pub open spec fn new_build_file(s: Seq<SavedMtime>, present: Seq<bool>, j: int) -> bool {
    0 <= j < present.len() && j < spec_build_files().len() && present[j]
        && !s.map_values(|m: SavedMtime| m.path@).contains(spec_build_files()[j])
}

/// Whether a tracked build file appeared.
pub open spec fn some_new(s: Seq<SavedMtime>, present: Seq<bool>) -> bool {
    exists|j: int| #[trigger] new_build_file(s, present, j)
}

/// Check staleness via build file modification times: `saved` are the
/// saved times (none when no times were saved), `now` what is found of each
/// saved file, in the same order, and `present` whether each tracked build
/// file exists.
pub fn check_build_files(saved: Option<&Vec<SavedMtime>>, now: &Vec<FileState>, present: &Vec<bool>) -> (r: bool)
    requires
        saved matches Some(s) ==> s@.len() == now@.len(),
        present@.len() == spec_build_files().len(),
    ensures
        r == spec_build_files_stale(match saved { Some(s) => Some(s@), None => None }, now@, present@),
{
    let s = match saved {
        None => return true,
        Some(s) => s,
    };
    let mut i: usize = 0;
    while i < s.len()
        invariant
            match saved { Some(x) => x@ == s@, None => false },
            s@.len() == now@.len(),
            0 <= i <= s@.len(),
            forall|k: int| 0 <= k < i ==> !file_changed(s@[k], now@[k]),
        decreases s@.len() - i,
    {
        let st = now[i];
        let changed = !st.exists || match st.mtime { Some(t) => t != s[i].mtime, None => false };
        if changed {
            assert(file_changed(s@[i as int], now@[i as int]));
            assert(some_changed(s@, now@));
            return true;
        }
        i = i + 1;
    }
    let names = build_files();
    let ghost paths = s@.map_values(|m: SavedMtime| m.path@);
    let mut j: usize = 0;
    while j < names.len()
        invariant
            match saved { Some(x) => x@ == s@, None => false },
            names@.map_values(|x: &'static str| x@) == spec_build_files(),
            present@.len() == spec_build_files().len(),
            paths == s@.map_values(|m: SavedMtime| m.path@),
            0 <= j <= names@.len(),
            forall|k: int| 0 <= k < s@.len() ==> !file_changed(s@[k], now@[k]),
            forall|k: int| 0 <= k < j ==> !(present@[k] && !paths.contains(spec_build_files()[k])),
        decreases names@.len() - j,
    {
        assert(names@[j as int]@ == spec_build_files()[j as int]);
        if present[j] {
            let mut found = false;
            let mut k: usize = 0;
            while k < s.len()
                invariant
                    0 <= k <= s@.len(),
                    paths == s@.map_values(|m: SavedMtime| m.path@),
                    j < names@.len(),
                    names@[j as int]@ == spec_build_files()[j as int],
                    found ==> paths.contains(spec_build_files()[j as int]),
                    !found ==> forall|q: int| 0 <= q < k ==> paths[q] != spec_build_files()[j as int],
                decreases s@.len() - k,
            {
                assert(paths[k as int] == s@[k as int].path@);
                if str_eq(s[k].path.as_str(), names[j]) {
                    found = true;
                }
                k = k + 1;
            }
            if !found {
                assert(!paths.contains(spec_build_files()[j as int])) by {
                    if paths.contains(spec_build_files()[j as int]) {
                        let q = choose|q: int| 0 <= q < paths.len() && paths[q] == spec_build_files()[j as int];
                        assert(paths[q] != spec_build_files()[j as int]);
                    }
                }
                assert(new_build_file(s@, present@, j as int));
                assert(some_new(s@, present@));
                return true;
            }
        }
        j = j + 1;
    }
    assert(!some_changed(s@, now@));
    assert(!some_new(s@, present@)) by {
        assert forall|j: int| !#[trigger] new_build_file(s@, present@, j) by {
            if 0 <= j < present@.len() && j < spec_build_files().len() {
                assert(!(present@[j] && !paths.contains(spec_build_files()[j])));
            }
        }
    }
    false
}

/// Whether the index is stale: it is when no index was recorded; else the
/// lockfile outcome decides when there is one, else the build-file outcome.
pub open spec fn spec_is_stale(has_indexed_manifest: bool, lockfile: Option<bool>, build_files: bool) -> bool {
    if !has_indexed_manifest {
        true
    } else {
        match lockfile {
            Some(s) => s,
            None => build_files,
        }
    }
}

/// Staleness answers to the lockfile when there is one: with an index
/// recorded and a lockfile outcome, the index is stale exactly when the
/// lockfile says so, whatever the build files say; without a recorded
/// index it is always stale; and without a lockfile the build files decide.
pub proof fn law_lockfile_decides_staleness(lockfile: bool, build_a: bool, build_b: bool)
    ensures
        spec_is_stale(true, Some(lockfile), build_a) == lockfile,
        spec_is_stale(true, Some(lockfile), build_a) == spec_is_stale(true, Some(lockfile), build_b),
        spec_is_stale(false, Some(lockfile), build_a),
        spec_is_stale(false, None, build_a),
        spec_is_stale(true, None, build_a) == build_a,
{
}

/// A lockfile whose content no longer matches the saved hash makes the
/// index stale, whatever the build files say.
pub proof fn law_changed_lockfile_is_stale(content: Seq<u8>, saved_hash: Seq<char>, build_files: bool)
    requires
        spec_sha256_hex(content) != spec_trim(saved_hash),
    ensures
        spec_is_stale(true, spec_check_lockfile(Some(content), Some(saved_hash)), build_files),
{
}

/// Decide staleness from the recorded index, the lockfile outcome, and the
/// build-file outcome (consulted only when there is no lockfile).
pub fn is_stale(has_indexed_manifest: bool, lockfile: Option<bool>, build_files: bool) -> (r: bool)
    ensures
        r == spec_is_stale(has_indexed_manifest, lockfile, build_files),
{
    if !has_indexed_manifest {
        return true;
    }
    match lockfile {
        Some(s) => s,
        None => build_files,
    }
}

/// The saved times as plain values: path and time.
pub open spec fn saved_view(s: Seq<SavedMtime>) -> Seq<(Seq<char>, u64)> {
    s.map_values(|m: SavedMtime| (m.path@, m.mtime))
}

/// What a marker update saves of the build files it looked at, given as
/// path and modification time when readable: each file whose time was
/// read, in order.
pub open spec fn marker_times(observed: Seq<(Seq<char>, Option<u64>)>) -> Seq<(Seq<char>, u64)>
    decreases observed.len(),
{
    if observed.len() == 0 {
        Seq::empty()
    } else {
        let rest = marker_times(observed.drop_last());
        match observed.last().1 {
            Some(t) => rest.push((observed.last().0, t)),
            None => rest,
        }
    }
}

/// The build-file times to save after a refresh: each observed file whose
/// modification time could be read, with that time, in order.
pub fn saved_build_file_times(observed: &Vec<(String, Option<u64>)>) -> (r: Vec<SavedMtime>)
    ensures
        saved_view(r@) == marker_times(observed@.map_values(|o: (String, Option<u64>)| (o.0@, o.1))),
{
    let ghost ov = observed@.map_values(|o: (String, Option<u64>)| (o.0@, o.1));
    let mut out: Vec<SavedMtime> = Vec::new();
    let mut i: usize = 0;
    while i < observed.len()
        invariant
            0 <= i <= observed@.len(),
            ov == observed@.map_values(|o: (String, Option<u64>)| (o.0@, o.1)),
            saved_view(out@) == marker_times(ov.take(i as int)),
        decreases observed@.len() - i,
    {
        assert(ov.take(i as int + 1).drop_last() =~= ov.take(i as int));
        assert(ov.take(i as int + 1).last() == ov[i as int]);
        match observed[i].1 {
            Some(t) => {
                let ghost before = saved_view(out@);
                let m = SavedMtime { path: string_of(chars_of(observed[i].0.as_str()).as_slice()), mtime: t };
                out.push(m);
                assert(saved_view(out@) =~= before.push((observed@[i as int].0@, t)));
            },
            None => {},
        }
        i = i + 1;
    }
    assert(ov.take(ov.len() as int) =~= ov);
    out
}

/// What is found of saved files that nobody touched: each still exists
/// with its saved time.
pub open spec fn untouched(s: Seq<SavedMtime>) -> Seq<FileState> {
    s.map_values(|m: SavedMtime| FileState { exists: true, mtime: Some(m.mtime) })
}

proof fn lemma_marker_keeps_readable(observed: Seq<(Seq<char>, Option<u64>)>, i: int)
    requires
        0 <= i < observed.len(),
        observed[i].1 is Some,
    ensures
        marker_times(observed).contains((observed[i].0, observed[i].1->0)),
    decreases observed.len(),
{
    let rest = marker_times(observed.drop_last());
    if i < observed.len() - 1 {
        lemma_marker_keeps_readable(observed.drop_last(), i);
        let k = choose|k: int| 0 <= k < rest.len() && rest[k] == (observed[i].0, observed[i].1->0);
        match observed.last().1 {
            Some(t) => assert(rest.push((observed.last().0, t))[k] == rest[k]),
            None => {},
        }
    } else {
        let t = observed.last().1->0;
        assert(rest.push((observed.last().0, t))[rest.len() as int] == (observed.last().0, t));
    }
}

/// Right after a refresh saves its markers, the index is not stale while
/// nothing changes: the lockfile's saved hash matches it, and without a
/// lockfile every saved build file is found with its saved time and every
/// tracked build file that exists was among those whose times were saved.
pub proof fn law_fresh_after_markers_saved(
    lockfile: Option<Seq<u8>>,
    observed: Seq<(Seq<char>, Option<u64>)>,
    saved: Seq<SavedMtime>,
    present: Seq<bool>,
)
    requires
        saved_view(saved) == marker_times(observed),
        forall|j: int| 0 <= j < present.len() && j < spec_build_files().len() && present[j] ==>
            exists|i: int| 0 <= i < observed.len() && (#[trigger] observed[i]).0 == spec_build_files()[j] && observed[i].1 is Some,
    ensures
        !spec_is_stale(
            true,
            spec_check_lockfile(lockfile, match lockfile { Some(c) => Some(spec_sha256_hex(c)), None => None }),
            spec_build_files_stale(Some(saved), untouched(saved), present),
        ),
{
    match lockfile {
        Some(c) => {
            law_saved_lockfile_hash_is_fresh(c);
        },
        None => {
            let now = untouched(saved);
            assert(!some_changed(saved, now)) by {
                assert forall|i: int| 0 <= i < saved.len() && i < now.len() implies !#[trigger] file_changed(saved[i], now[i]) by {}
            }
            assert(!some_new(saved, present)) by {
                assert forall|j: int| !#[trigger] new_build_file(saved, present, j) by {
                    if 0 <= j < present.len() && j < spec_build_files().len() && present[j] {
                        let i = choose|i: int| 0 <= i < observed.len() && (#[trigger] observed[i]).0 == spec_build_files()[j] && observed[i].1 is Some;
                        lemma_marker_keeps_readable(observed, i);
                        let mt = marker_times(observed);
                        let k = choose|k: int| 0 <= k < mt.len() && mt[k] == (observed[i].0, observed[i].1->0);
                        assert(saved_view(saved)[k] == mt[k]);
                        assert(saved.map_values(|m: SavedMtime| m.path@)[k] == spec_build_files()[j]);
                    }
                }
            }
        },
    }
}

/// A lockfile whose hash was just saved is not stale.
pub proof fn law_saved_lockfile_hash_is_fresh(content: Seq<u8>)
    ensures
        spec_check_lockfile(Some(content), Some(spec_sha256_hex(content))) == Some(false),
{
    lemma_hex_has_no_whitespace(sha256_of(content));
    lemma_trim_no_whitespace(spec_sha256_hex(content));
}

/// No character of a hex text is whitespace.
proof fn lemma_hex_has_no_whitespace(data: Seq<u8>)
    ensures
        forall|c: char| #![auto] spec_hex(data).contains(c) ==> !crate::jar::char_is_whitespace(c),
    decreases data.len(),
{
    if data.len() > 0 {
        lemma_hex_has_no_whitespace(data.drop_last());
        let hi = data.last() as int / 16;
        let lo = data.last() as int % 16;
        assert(!crate::jar::char_is_whitespace(hex_digit(hi)));
        assert(!crate::jar::char_is_whitespace(hex_digit(lo)));
        let prev = spec_hex(data.drop_last());
        let whole = spec_hex(data);
        assert(whole == prev + seq![hex_digit(hi), hex_digit(lo)]);
        assert forall|c: char| #![auto] whole.contains(c) implies !crate::jar::char_is_whitespace(c) by {
            let k = choose|k: int| 0 <= k < whole.len() && whole[k] == c;
            if k < prev.len() {
                assert(prev[k] == c);
                assert(prev.contains(c));
            }
        }
    }
}

proof fn lemma_trim_no_whitespace(s: Seq<char>)
    requires
        forall|c: char| #![auto] s.contains(c) ==> !crate::jar::char_is_whitespace(c),
    ensures
        spec_trim(s) == s,
{
    if s.len() > 0 {
        assert(s.contains(s[0]));
        assert(s.contains(s.last()));
    }
}

} // verus!
