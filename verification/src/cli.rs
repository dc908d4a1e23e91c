//! Command decisions: index and manifest prerequisites, staleness errors,
//! scope display, pagination, status counts, and refresh planning.
use vstd::prelude::*;
use crate::error::{CliError, error_is};
use crate::manifest::{DependencyInfo, GavSet, ManifestDiff, derefs, spec_gav, strs};
use crate::output_model::RefreshOutput;
use crate::jar::{spec_trim, trim};
use crate::text::{chars_of, first_index_of, has_suffix, lemma_first_index_props, join, push_seq, push_str, seq_eq, split_chars, split_on, string_of};

verus! {

/// The message of a missing index.
pub open spec fn index_missing_message() -> Seq<char> {
    "No index found. Run `classpath-surfer index refresh` to build it."@
}

/// The message of a stale index.
pub open spec fn index_stale_message() -> Seq<char> {
    "Index is stale. Dependencies have changed since last indexing.\nRun `classpath-surfer index refresh` to update."@
}

/// The recovery command suggested for a missing or stale index.
pub open spec fn refresh_command() -> Seq<char> {
    "classpath-surfer index refresh"@
}

/// An error with a code and message (exit 3, not retryable) that suggests
/// running a refresh.
pub open spec fn refresh_error(e: CliError, code: Seq<char>, msg: Seq<char>) -> bool {
    &&& e.error_code@ == code
    &&& e.exit_code == 3
    &&& e.message@ == msg
    &&& !e.retryable
    &&& e.suggested_command matches Some(c) && c@ == refresh_command()
}

fn missing_index_error() -> (r: CliError)
    ensures
        refresh_error(r, "INDEX_NOT_FOUND"@, index_missing_message()),
{
    CliError::resource_not_found("INDEX_NOT_FOUND", string_of(&chars_of("No index found. Run `classpath-surfer index refresh` to build it.")))
        .with_suggested_command(string_of(&chars_of("classpath-surfer index refresh")))
}

/// Fail with `INDEX_STALE` when the index is stale.
pub fn check_staleness(stale: bool) -> (r: Result<(), CliError>)
    ensures
        stale <==> r is Err,
        r matches Err(e) ==> refresh_error(e, "INDEX_STALE"@, index_stale_message()),
{
    if stale {
        return Err(CliError::resource_not_found(
            "INDEX_STALE",
            string_of(&chars_of("Index is stale. Dependencies have changed since last indexing.\nRun `classpath-surfer index refresh` to update.")),
        ).with_suggested_command(string_of(&chars_of("classpath-surfer index refresh"))));
    }
    Ok(())
}

/// Verify that the index exists (its `meta.json` is present) and is not
/// stale; `stale` is consulted only when it exists.
pub fn require_index(index_exists: bool, stale: bool) -> (r: Result<(), CliError>)
    ensures
        r is Ok <==> (index_exists && !stale),
        !index_exists ==> (r matches Err(e) && refresh_error(e, "INDEX_NOT_FOUND"@, index_missing_message())),
        index_exists && stale ==> (r matches Err(e) && refresh_error(e, "INDEX_STALE"@, index_stale_message())),
{
    if !index_exists {
        return Err(missing_index_error());
    }
    check_staleness(stale)
}

/// Verify that the classpath manifest exists and the index is not stale;
/// `stale` is consulted only when it exists.
pub fn require_manifest(manifest_exists: bool, stale: bool) -> (r: Result<(), CliError>)
    ensures
        r is Ok <==> (manifest_exists && !stale),
        !manifest_exists ==> (r matches Err(e) && refresh_error(e, "INDEX_NOT_FOUND"@, index_missing_message())),
        manifest_exists && stale ==> (r matches Err(e) && refresh_error(e, "INDEX_STALE"@, index_stale_message())),
{
    if !manifest_exists {
        return Err(missing_index_error());
    }
    check_staleness(stale)
}

/// A scope name without its `Classpath` suffix.
pub open spec fn short_scope(s: Seq<char>) -> Seq<char> {
    if has_suffix(s, "Classpath"@) { s.take(s.len() - 9) } else { s }
}

/// A scope name without its `Classpath` suffix.
pub fn short_scope_name(s: &str) -> (r: String)
    ensures
        r@ == short_scope(s@),
{
    let v = chars_of(s);
    if crate::text::ends_with_str(&v, "Classpath") {
        proof { reveal_strlit("Classpath"); }
        let t = crate::text::slice_vec(&v, 0, v.len() - 9);
        assert(t@ =~= short_scope(s@));
        string_of(&t)
    } else {
        string_of(&v)
    }
}

/// Scopes shown short (`compile`, `runtime`, ...) and joined with `+`.
pub open spec fn spec_format_scopes(scopes: Seq<Seq<char>>) -> Seq<char> {
    join(scopes.map_values(|s: Seq<char>| short_scope(s)), "+"@)
}

/// Format scopes for display: each without its `Classpath` suffix, joined with `+`.
pub fn format_scopes(scopes: &[String]) -> (r: String)
    ensures
        r@ == spec_format_scopes(scopes@.map_values(|s: String| s@)),
{
    let ghost views = scopes@.map_values(|s: String| s@);
    let ghost want = views.map_values(|s: Seq<char>| short_scope(s));
    let mut parts: Vec<Vec<char>> = Vec::new();
    let mut i: usize = 0;
    while i < scopes.len()
        invariant
            views == scopes@.map_values(|s: String| s@),
            want == views.map_values(|s: Seq<char>| short_scope(s)),
            0 <= i <= scopes@.len(),
            parts@.map_values(|p: Vec<char>| p@) == want.take(i as int),
        decreases scopes@.len() - i,
    {
        let v = chars_of(scopes[i].as_str());
        let short = if crate::text::ends_with_str(&v, "Classpath") {
            proof { reveal_strlit("Classpath"); }
            crate::text::slice_vec(&v, 0, v.len() - 9)
        } else {
            v
        };
        assert(short@ =~= want[i as int]);
        let ghost before = parts@.map_values(|p: Vec<char>| p@);
        parts.push(short);
        assert(parts@.map_values(|p: Vec<char>| p@) =~= before.push(want[i as int]));
        assert(want.take(i + 1) =~= want.take(i as int).push(want[i as int]));
        i = i + 1;
    }
    assert(want.take(scopes@.len() as int) =~= want);
    string_of(&crate::text::join_vecs(&parts, "+"))
}

/// The page of `n` items after skipping `offset`, at most `limit` long:
/// its bounds `(start, end)`.
pub open spec fn page_bounds(n: int, offset: int, limit: int) -> (int, int) {
    let start = if offset < n { offset } else { n };
    let end = if limit < n - start { start + limit } else { n };
    (start, end)
}

/// Whether items remain after a page: the offset plus the page length is
/// short of the total.
pub open spec fn spec_has_more(offset: int, page_len: int, total: int) -> bool {
    offset + page_len < total
}

/// The bounds of the page after skipping `offset` items and taking at most
/// `limit`, as `skip(offset).take(limit)` gives them.
pub fn page_range(n: usize, offset: usize, limit: usize) -> (r: (usize, usize))
    ensures
        (r.0 as int, r.1 as int) == page_bounds(n as int, offset as int, limit as int),
        r.0 <= r.1 <= n,
{
    let start = if offset < n { offset } else { n };
    let end = if limit < n - start { start + limit } else { n };
    (start, end)
}

/// Paging on from the offset that a page's note names (`--offset` plus the
/// page's length) continues right after the page; when the note says more
/// remain, that next page is not empty.
pub proof fn law_next_page_continues(n: int, offset: int, limit: int)
    requires
        0 <= n,
        0 <= offset,
        0 < limit,
    ensures
        ({
            let (s, e) = page_bounds(n, offset, limit);
            let (s2, e2) = page_bounds(n, offset + (e - s), limit);
            &&& s2 == e
            &&& spec_has_more(offset, e - s, n) ==> s2 < e2
        }),
{
}

/// Whether more items exist beyond a page.
pub fn has_more(offset: usize, page_len: usize, total: usize) -> (r: bool)
    ensures
        r == spec_has_more(offset as int, page_len as int, total as int),
{
    (offset as u128) + (page_len as u128) < (total as u128)
}

/// The number of dependencies with a source JAR.
pub open spec fn source_jar_count(deps: Seq<DependencyInfo>) -> nat
    decreases deps.len(),
{
    if deps.len() == 0 {
        0
    } else {
        source_jar_count(deps.drop_last()) + (if deps.last().source_jar_path is Some { 1nat } else { 0nat })
    }
}

/// Count the dependencies that have a source JAR.
pub fn count_with_source_jars(deps: &Vec<&DependencyInfo>) -> (r: usize)
    ensures
        r == source_jar_count(derefs(deps@)),
        r <= deps@.len(),
{
    let mut count: usize = 0;
    let mut i: usize = 0;
    while i < deps.len()
        invariant
            0 <= i <= deps@.len(),
            count == source_jar_count(derefs(deps@).take(i as int)),
            count <= i,
        decreases deps@.len() - i,
    {
        assert(derefs(deps@).take(i + 1).drop_last() =~= derefs(deps@).take(i as int));
        if deps[i].source_jar_path.is_some() {
            count = count + 1;
        }
        i = i + 1;
    }
    assert(derefs(deps@).take(deps@.len() as int) =~= derefs(deps@));
    count
}

/// Whether refresh can skip Gradle: not forced, an index was recorded, and
/// it is not stale.
pub open spec fn spec_skip_refresh(force: bool, indexed_manifest_exists: bool, stale: bool) -> bool {
    !force && indexed_manifest_exists && !stale
}

/// Whether refresh can skip Gradle entirely.
pub fn skip_refresh(force: bool, indexed_manifest_exists: bool, stale: bool) -> (r: bool)
    ensures
        r == spec_skip_refresh(force, indexed_manifest_exists, stale),
{
    !force && indexed_manifest_exists && !stale
}

/// Whether refresh rebuilds the whole index: when forced, when the schema
/// was rebuilt, or when no index was recorded.
pub fn full_rebuild(force: bool, schema_rebuilt: bool, indexed_manifest_exists: bool) -> (r: bool)
    ensures
        r == (force || schema_rebuilt || !indexed_manifest_exists),
{
    force || schema_rebuilt || !indexed_manifest_exists
}

/// Whether an incremental refresh has nothing to do: nothing added or removed.
pub fn diff_is_empty(diff: &ManifestDiff) -> (r: bool)
    requires
        diff.added.wf(),
        diff.removed.wf(),
    ensures
        r == (diff.added.view().len() == 0 && diff.removed.view().len() == 0),
{
    diff.added.is_empty() && diff.removed.is_empty()
}

/// The record of a refresh that found nothing to do.
pub open spec fn is_up_to_date_output(r: RefreshOutput) -> bool {
    r.mode@ == "up_to_date"@ && r.dependencies_processed == 0 && r.symbols_indexed == 0
}

/// The record of a refresh that found nothing to do: mode `up_to_date`,
/// nothing processed or indexed.
pub fn up_to_date_output() -> (r: RefreshOutput)
    ensures
        is_up_to_date_output(r),
{
    RefreshOutput { mode: string_of(chars_of("up_to_date").as_slice()), dependencies_processed: 0, symbols_indexed: 0 }
}

/// The record of a full rebuild: mode `full` and the counts.
pub fn full_refresh_output(processed: usize, indexed: usize) -> (r: RefreshOutput)
    ensures
        r.mode@ == "full"@,
        r.dependencies_processed == processed,
        r.symbols_indexed == indexed,
{
    RefreshOutput { mode: string_of(chars_of("full").as_slice()), dependencies_processed: processed, symbols_indexed: indexed }
}

/// The record of an incremental refresh: up to date when the diff adds and
/// removes nothing; otherwise mode `incremental` with the dependencies
/// processed and the symbols indexed.
pub fn refresh_outcome(diff: &ManifestDiff, processed: usize, indexed: usize) -> (r: RefreshOutput)
    requires
        diff.added.wf(),
        diff.removed.wf(),
    ensures
        (diff.added.view().len() == 0 && diff.removed.view().len() == 0) ==> is_up_to_date_output(r),
        !(diff.added.view().len() == 0 && diff.removed.view().len() == 0) ==> (r.mode@ == "incremental"@
            && r.dependencies_processed == processed && r.symbols_indexed == indexed),
{
    if diff_is_empty(diff) {
        up_to_date_output()
    } else {
        RefreshOutput {
            mode: string_of(chars_of("incremental").as_slice()),
            dependencies_processed: processed,
            symbols_indexed: indexed,
        }
    }
}

/// The dependencies an incremental refresh indexes: those whose GAV was
/// added, in order.
pub open spec fn added_deps(deps: Seq<DependencyInfo>, added: Set<Seq<char>>) -> Seq<DependencyInfo>
    decreases deps.len(),
{
    if deps.len() == 0 {
        Seq::empty()
    } else {
        let r = added_deps(deps.drop_last(), added);
        if added.contains(spec_gav(deps.last())) { r.push(deps.last()) } else { r }
    }
}

/// Select the dependencies whose GAV was added.
pub fn deps_to_index<'a>(deps: &'a Vec<DependencyInfo>, added: &GavSet) -> (r: Vec<&'a DependencyInfo>)
    ensures
        derefs(r@) == added_deps(deps@, added.view()),
{
    let mut out: Vec<&'a DependencyInfo> = Vec::new();
    let mut i: usize = 0;
    while i < deps.len()
        invariant
            0 <= i <= deps@.len(),
            derefs(out@) == added_deps(deps@.take(i as int), added.view()),
        decreases deps@.len() - i,
    {
        assert(deps@.take(i + 1).drop_last() =~= deps@.take(i as int));
        let gav = deps[i].gav();
        if added.contains(gav.as_str()) {
            let ghost before = derefs(out@);
            out.push(&deps[i]);
            assert(derefs(out@) =~= before.push(deps@[i as int]));
        }
        i = i + 1;
    }
    assert(deps@.take(deps@.len() as int) =~= deps@);
    out
}

/// The packages a filter keeps: all without a filter, else those whose
/// name matches the glob, in order.
pub open spec fn filtered_pkgs(all: Seq<(String, usize)>, filter: Option<Seq<char>>) -> Seq<(String, usize)>
    decreases all.len(),
{
    if all.len() == 0 {
        Seq::empty()
    } else {
        let r = filtered_pkgs(all.drop_last(), filter);
        match filter {
            Some(f) => if crate::glob::glob_match(all.last().0@, f) { r.push(all.last()) } else { r },
            None => r.push(all.last()),
        }
    }
}

/// The output of the package listing: the filter, the number of packages
/// kept, and the page after skipping `offset` of at most `limit` of them.
pub fn pkgs_output(all: &Vec<(String, usize)>, filter: Option<&str>, limit: usize, offset: usize) -> (r: crate::output_model::PkgsOutput)
    ensures
        ({
            let kept = filtered_pkgs(all@, match filter { Some(f) => Some(f@), None => None });
            let (start, end) = page_bounds(kept.len() as int, offset as int, limit as int);
            &&& r.total_count == kept.len()
            &&& r.offset == offset && r.limit == limit
            &&& r.packages@.len() == end - start
            &&& forall|i: int| 0 <= i < r.packages@.len() ==>
                (#[trigger] r.packages@[i]).package@ == kept[start + i].0@ && r.packages@[i].symbol_count == kept[start + i].1
            &&& r.has_more == spec_has_more(offset as int, end - start, kept.len() as int)
            &&& match filter { Some(f) => r.filter matches Some(x) && x@ == f@, None => r.filter is None }
            &&& r.dependency is None && r.matched_gavs is None
        }),
{
    let ghost fv: Option<Seq<char>> = match filter { Some(f) => Some(f@), None => None };
    let mut kept: Vec<&(String, usize)> = Vec::new();
    let mut i: usize = 0;
    while i < all.len()
        invariant
            0 <= i <= all@.len(),
            fv == (match filter { Some(f) => Some(f@), None => None::<Seq<char>> }),
            kept@.map_values(|e: &(String, usize)| *e) == filtered_pkgs(all@.take(i as int), fv),
        decreases all@.len() - i,
    {
        assert(all@.take(i + 1).drop_last() =~= all@.take(i as int));
        let keep = match filter {
            Some(f) => crate::glob::matches_glob_pattern(all[i].0.as_str(), f),
            None => true,
        };
        if keep {
            let ghost before = kept@.map_values(|e: &(String, usize)| *e);
            kept.push(&all[i]);
            assert(kept@.map_values(|e: &(String, usize)| *e) =~= before.push(all@[i as int]));
        }
        i = i + 1;
    }
    assert(all@.take(all@.len() as int) =~= all@);
    let ghost kv = kept@.map_values(|e: &(String, usize)| *e);
    let total_count = kept.len();
    let (start, end) = page_range(total_count, offset, limit);
    let mut packages: Vec<crate::output_model::PkgInfo> = Vec::new();
    let mut k: usize = start;
    while k < end
        invariant
            kv == kept@.map_values(|e: &(String, usize)| *e),
            start <= k <= end <= kept@.len(),
            packages@.len() == k - start,
            forall|q: int| 0 <= q < packages@.len() ==>
                (#[trigger] packages@[q]).package@ == kv[start + q].0@ && packages@[q].symbol_count == kv[start + q].1,
        decreases end - k,
    {
        let e = kept[k];
        packages.push(crate::output_model::PkgInfo { package: e.0.clone(), symbol_count: e.1 });
        k = k + 1;
    }
    let more = has_more(offset, packages.len(), total_count);
    let filter_out: Option<String> = match filter { Some(f) => Some(string_of(&chars_of(f))), None => None };
    crate::output_model::PkgsOutput {
        filter: filter_out,
        dependency: None,
        matched_gavs: None,
        total_count,
        offset,
        limit,
        has_more: more,
        packages,
    }
}

/// The `.gitignore` entry for the tool's directory.
pub open spec fn gitignore_entry() -> Seq<char> {
    ".classpath-surfer/"@
}

/// Whether some line of a text, trimmed, is the entry.
pub open spec fn has_entry_line(content: Seq<char>) -> bool {
    exists|i: int| 0 <= i < split_on(content, '\n').len() && spec_trim(#[trigger] split_on(content, '\n')[i]) == gitignore_entry()
}

/// The new `.gitignore` text: the entry and a line break for a missing file;
/// nothing to write when a line already holds the entry; else the text, a
/// line break when it does not end with one, the entry and a line break.
pub open spec fn spec_gitignore_update(content: Option<Seq<char>>) -> Option<Seq<char>> {
    match content {
        None => Some(gitignore_entry() + "\n"@),
        Some(c) => if has_entry_line(c) {
            None
        } else {
            Some(c + (if c.len() > 0 && c.last() == '\n' { Seq::empty() } else { "\n"@ }) + gitignore_entry() + "\n"@)
        },
    }
}

/// The `.gitignore` update of `init`.
pub fn gitignore_update(content: Option<&str>) -> (r: Option<String>)
    ensures
        match spec_gitignore_update(match content { Some(c) => Some(c@), None => None }) {
            Some(t) => r is Some && r->0@ == t,
            None => r is None,
        },
{
    let c = match content {
        None => {
            let mut v: Vec<char> = Vec::new();
            push_str(&mut v, ".classpath-surfer/");
            push_str(&mut v, "\n");
            return Some(string_of(&v));
        },
        Some(c) => c,
    };
    let v = chars_of(c);
    let lines = split_chars(&v, '\n');
    let ghost lv = lines@.map_values(|p: Vec<char>| p@);
    let mut i: usize = 0;
    while i < lines.len()
        invariant
            lv == lines@.map_values(|p: Vec<char>| p@),
            lv == split_on(c@, '\n'),
            content == Some(c),
            0 <= i <= lines@.len(),
            forall|k: int| 0 <= k < i ==> spec_trim(#[trigger] lv[k]) != gitignore_entry(),
        decreases lines@.len() - i,
    {
        let t = trim(lines[i].as_slice());
        if seq_eq(t.as_slice(), chars_of(".classpath-surfer/").as_slice()) {
            assert(spec_trim(lv[i as int]) == gitignore_entry());
            assert(spec_trim(split_on(c@, '\n')[i as int]) == gitignore_entry());
            assert(has_entry_line(c@));
            return None;
        }
        i = i + 1;
    }
    let mut out = v;
    if !(out.len() > 0 && out[out.len() - 1] == '\n') {
        push_str(&mut out, "\n");
    }
    push_str(&mut out, ".classpath-surfer/");
    push_str(&mut out, "\n");
    Some(string_of(&out))
}

/// A line after text that is empty or ends with a line break is one of the
/// lines of the whole text.
proof fn lemma_last_line(a: Seq<char>, e: Seq<char>)
    requires
        a.len() == 0 || a.last() == '\n',
        forall|j: int| 0 <= j < e.len() ==> e[j] != '\n',
    ensures
        split_on(a + e + seq!['\n'], '\n').contains(e),
    decreases a.len(),
{
    let s = a + e + seq!['\n'];
    lemma_first_index_props(s, '\n');
    if a.len() == 0 {
        assert(s[e.len() as int] == '\n');
        let i = first_index_of(s, '\n')->0;
        assert(i == e.len());
        assert(s.take(i) =~= e);
        assert(split_on(s, '\n')[0] == e);
    } else {
        assert(s[a.len() - 1] == '\n');
        let i = first_index_of(s, '\n')->0;
        assert(i < a.len());
        let rest = a.skip(i + 1);
        assert(s.skip(i + 1) =~= rest + e + seq!['\n']);
        if rest.len() > 0 {
            assert(rest.last() == a.last());
        }
        lemma_last_line(rest, e);
        let tail = split_on(rest + e + seq!['\n'], '\n');
        let k = choose|k: int| 0 <= k < tail.len() && tail[k] == e;
        assert(split_on(s, '\n') == seq![s.take(i)] + tail);
        assert(split_on(s, '\n')[k + 1] == e);
    }
}

/// Running `init` again leaves `.gitignore` as it is: the text an update
/// writes already holds the entry on a line of its own.
pub proof fn law_gitignore_update_is_idempotent(content: Option<Seq<char>>)
    ensures
        match spec_gitignore_update(content) {
            Some(t) => spec_gitignore_update(Some(t)) is None,
            None => true,
        },
{
    reveal_strlit(".classpath-surfer/");
    reveal_strlit("\n");
    let e = gitignore_entry();
    assert(spec_trim(e) == e);
    match spec_gitignore_update(content) {
        Some(t) => {
            let a = match content {
                None => Seq::<char>::empty(),
                Some(c) => c + (if c.len() > 0 && c.last() == '\n' { Seq::empty() } else { "\n"@ }),
            };
            assert(t == a + e + seq!['\n']);
            lemma_last_line(a, e);
            let lines = split_on(t, '\n');
            let k = choose|k: int| 0 <= k < lines.len() && lines[k] == e;
            assert(spec_trim(lines[k]) == gitignore_entry());
            assert(has_entry_line(t));
        },
        None => {},
    }
}
/// Whether dependency `i` of the listing is kept: its GAV matches the glob
/// filter when there is one, and its classpaths hold the classpath when one
/// is given.
pub open spec fn dep_kept(all: Seq<(String, usize)>, cps: Seq<Vec<String>>, filter: Option<Seq<char>>, cp: Option<Seq<char>>, i: int) -> bool {
    &&& match filter { Some(f) => crate::glob::glob_match(all[i].0@, f), None => true }
    &&& match cp { Some(c) => strs(cps[i]@).contains(c), None => true }
}

/// The indices below `n` of the dependencies kept, in order.
pub open spec fn kept_deps(all: Seq<(String, usize)>, cps: Seq<Vec<String>>, filter: Option<Seq<char>>, cp: Option<Seq<char>>, n: int) -> Seq<int>
    decreases n,
{
    if n <= 0 {
        Seq::empty()
    } else {
        let rest = kept_deps(all, cps, filter, cp, n - 1);
        if dep_kept(all, cps, filter, cp, n - 1) { rest.push(n - 1) } else { rest }
    }
}

fn holds_name(names: &Vec<String>, name: &str) -> (r: bool)
    ensures
        r == strs(names@).contains(name@),
{
    let ghost nv = strs(names@);
    let mut i: usize = 0;
    while i < names.len()
        invariant
            nv == strs(names@),
            0 <= i <= names@.len(),
            forall|k: int| 0 <= k < i ==> nv[k] != name@,
        decreases names@.len() - i,
    {
        if crate::text::str_eq(names[i].as_str(), name) {
            assert(nv[i as int] == name@);
            return true;
        }
        i = i + 1;
    }
    false
}

/// The output of the dependency listing: the GAVs of the index (with their
/// symbol counts and classpath names) that the glob filter and the classpath
/// filter keep, the number kept, and the page after skipping `offset` of at
/// most `limit` of them.
pub fn deps_output(
    all: &Vec<(String, usize)>,
    classpaths: &Vec<Vec<String>>,
    filter: Option<&str>,
    classpath: Option<&str>,
    limit: usize,
    offset: usize,
) -> (r: crate::output_model::DepsOutput)
    requires
        classpaths@.len() == all@.len(),
    ensures
        ({
            let kept = kept_deps(all@, classpaths@, match filter { Some(f) => Some(f@), None => None },
                match classpath { Some(c) => Some(c@), None => None }, all@.len() as int);
            let (start, end) = page_bounds(kept.len() as int, offset as int, limit as int);
            &&& r.total_count == kept.len()
            &&& r.offset == offset && r.limit == limit
            &&& r.dependencies@.len() == end - start
            &&& forall|i: int| 0 <= i < r.dependencies@.len() ==> {
                let k = kept[start + i];
                &&& (#[trigger] r.dependencies@[i]).gav@ == all@[k].0@
                &&& r.dependencies@[i].symbol_count == all@[k].1
                &&& strs(r.dependencies@[i].scopes@) == strs(classpaths@[k]@)
            }
            &&& r.has_more == spec_has_more(offset as int, end - start, kept.len() as int)
            &&& match filter { Some(f) => r.filter matches Some(x) && x@ == f@, None => r.filter is None }
        }),
{
    let ghost fv: Option<Seq<char>> = match filter { Some(f) => Some(f@), None => None };
    let ghost cv: Option<Seq<char>> = match classpath { Some(c) => Some(c@), None => None };
    let mut kept: Vec<usize> = Vec::new();
    let mut i: usize = 0;
    while i < all.len()
        invariant
            0 <= i <= all@.len(),
            classpaths@.len() == all@.len(),
            fv == (match filter { Some(f) => Some(f@), None => None::<Seq<char>> }),
            cv == (match classpath { Some(c) => Some(c@), None => None::<Seq<char>> }),
            kept@.map_values(|k: usize| k as int) == kept_deps(all@, classpaths@, fv, cv, i as int),
            forall|q: int| 0 <= q < kept@.len() ==> kept@[q] < i,
        decreases all@.len() - i,
    {
        let by_name = match filter {
            Some(f) => crate::glob::matches_glob_pattern(all[i].0.as_str(), f),
            None => true,
        };
        let by_classpath = match classpath {
            Some(c) => holds_name(&classpaths[i], c),
            None => true,
        };
        if by_name && by_classpath {
            let ghost before = kept@.map_values(|k: usize| k as int);
            kept.push(i);
            assert(kept@.map_values(|k: usize| k as int) =~= before.push(i as int));
        }
        i = i + 1;
    }
    let ghost kv = kept@.map_values(|k: usize| k as int);
    let total_count = kept.len();
    let (start, end) = page_range(total_count, offset, limit);
    let mut dependencies: Vec<crate::output_model::DepInfo> = Vec::new();
    let mut k: usize = start;
    while k < end
        invariant
            kv == kept@.map_values(|k: usize| k as int),
            start <= k <= end <= kept@.len(),
            forall|q: int| 0 <= q < kept@.len() ==> kept@[q] < all@.len(),
            classpaths@.len() == all@.len(),
            dependencies@.len() == k - start,
            forall|q: int| 0 <= q < dependencies@.len() ==> {
                let j = kv[start + q];
                &&& (#[trigger] dependencies@[q]).gav@ == all@[j].0@
                &&& dependencies@[q].symbol_count == all@[j].1
                &&& strs(dependencies@[q].scopes@) == strs(classpaths@[j]@)
            },
        decreases end - k,
    {
        let j = kept[k];
        let mut scopes: Vec<String> = Vec::new();
        let mut s: usize = 0;
        while s < classpaths[j].len()
            invariant
                j < classpaths@.len(),
                0 <= s <= classpaths@[j as int]@.len(),
                strs(scopes@) == strs(classpaths@[j as int]@).take(s as int),
            decreases classpaths@[j as int]@.len() - s,
        {
            let ghost before = strs(scopes@);
            scopes.push(classpaths[j][s].clone());
            assert(strs(scopes@) =~= before.push(classpaths@[j as int]@[s as int]@));
            assert(strs(classpaths@[j as int]@).take(s + 1) =~= strs(classpaths@[j as int]@).take(s as int).push(classpaths@[j as int]@[s as int]@));
            s = s + 1;
        }
        assert(strs(classpaths@[j as int]@).take(classpaths@[j as int]@.len() as int) =~= strs(classpaths@[j as int]@));
        dependencies.push(crate::output_model::DepInfo { gav: all[j].0.clone(), symbol_count: all[j].1, scopes });
        k = k + 1;
    }
    let more = has_more(offset, dependencies.len(), total_count);
    let filter_out: Option<String> = match filter { Some(f) => Some(string_of(&chars_of(f))), None => None };
    crate::output_model::DepsOutput {
        filter: filter_out,
        total_count,
        offset,
        limit,
        has_more: more,
        dependencies,
    }
}
} // verus!
