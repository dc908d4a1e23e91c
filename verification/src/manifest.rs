//! Gradle classpath manifest model, GAV-level diffs and deduplication.
//!
//! A `ClasspathManifest` mirrors the Gradle dependency graph: it contains
//! modules (Gradle sub-projects), each with configurations (e.g.
//! `compileClasspath`), each listing resolved `DependencyInfo` entries
//! (GAV + JAR path).  Diffs between manifests drive incremental re-indexing.
use vstd::prelude::*;
use crate::error::{CliError, error_is};
use crate::text::{chars_of, file_has_extension, has_extension, push_str, str_eq, string_of};

verus! {

/// Top-level classpath manifest produced by the Gradle export task.
#[derive(Debug, Clone)]
pub struct ClasspathManifest {
    /// Gradle version that produced this manifest.
    pub gradle_version: String,
    /// ISO-8601 timestamp of when the export was performed.
    pub extraction_timestamp: String,
    /// Per-module manifests (one per Gradle subproject).
    pub modules: Vec<ModuleManifest>,
}

/// Manifest for a single Gradle subproject (module).
#[derive(Debug, Clone)]
pub struct ModuleManifest {
    /// Gradle project path (e.g. `":app"`, `":lib:core"`).
    pub project_path: String,
    /// Resolved configurations within this module.
    pub configurations: Vec<ConfigurationManifest>,
}

/// A resolved Gradle configuration (e.g. `compileClasspath`, `runtimeClasspath`).
#[derive(Debug, Clone)]
pub struct ConfigurationManifest {
    /// Configuration name (e.g. `"compileClasspath"`).
    pub name: String,
    /// Dependencies resolved under this configuration.
    pub dependencies: Vec<DependencyInfo>,
}

/// A single resolved dependency with its Maven coordinates and local JAR paths.
#[derive(Debug, Clone, PartialEq, Eq, Hash)]
pub struct DependencyInfo {
    /// Maven group ID (e.g. `"com.google.guava"`).
    pub group: String,
    /// Maven artifact ID (e.g. `"guava"`).
    pub artifact: String,
    /// Resolved version string (e.g. `"33.0-jre"`).
    pub version: String,
    /// Absolute path to the binary (classes) JAR on disk.
    pub jar_path: String,
    /// Absolute path to the source JAR, if available.
    pub source_jar_path: Option<String>,
    /// The Gradle configuration that pulled in this dependency (e.g. `"compileClasspath"`).
    pub scope: String,
}

/// The Maven GAV string of a dependency: `group:artifact:version`.
pub open spec fn spec_gav(d: DependencyInfo) -> Seq<char> {
    d.group@ + ":"@ + d.artifact@ + ":"@ + d.version@
}

impl DependencyInfo {
    /// Returns the Maven GAV string (`group:artifact:version`).
    pub fn gav(&self) -> (r: String)
        ensures
            r@ == spec_gav(*self),
    {
        let mut v = chars_of(self.group.as_str());
        push_str(&mut v, ":");
        push_str(&mut v, self.artifact.as_str());
        push_str(&mut v, ":");
        push_str(&mut v, self.version.as_str());
        string_of(&v)
    }
}

/// The dependencies of the first `n` configurations, in order.
pub open spec fn config_deps(cfgs: Seq<ConfigurationManifest>, n: int) -> Seq<DependencyInfo>
    decreases n,
{
    if n <= 0 || n > cfgs.len() {
        Seq::empty()
    } else {
        config_deps(cfgs, n - 1) + cfgs[n - 1].dependencies@
    }
}

/// The dependencies of the first `n` modules, in order.
pub open spec fn module_deps(mods: Seq<ModuleManifest>, n: int) -> Seq<DependencyInfo>
    decreases n,
{
    if n <= 0 || n > mods.len() {
        Seq::empty()
    } else {
        module_deps(mods, n - 1) + config_deps(mods[n - 1].configurations@, mods[n - 1].configurations@.len() as int)
    }
}

/// Every dependency of a manifest, module by module, configuration by
/// configuration, duplicates included.
pub open spec fn listed_deps(m: ClasspathManifest) -> Seq<DependencyInfo> {
    module_deps(m.modules@, m.modules@.len() as int)
}

/// The GAVs of a list of dependencies.
pub open spec fn gavs(s: Seq<DependencyInfo>) -> Seq<Seq<char>> {
    s.map_values(|d: DependencyInfo| spec_gav(d))
}

/// The dependencies with the first of each GAV kept, in order.
pub open spec fn first_per_gav(s: Seq<DependencyInfo>) -> Seq<DependencyInfo>
    decreases s.len(),
{
    if s.len() == 0 {
        Seq::empty()
    } else {
        let r = first_per_gav(s.drop_last());
        if gavs(r).contains(spec_gav(s.last())) { r } else { r.push(s.last()) }
    }
}

/// The views of a sequence of strings.
pub open spec fn strs(v: Seq<String>) -> Seq<Seq<char>> {
    v.map_values(|x: String| x@)
}

/// The dereferenced elements of a vector of references.
pub open spec fn derefs(v: Seq<&DependencyInfo>) -> Seq<DependencyInfo> {
    v.map_values(|r: &DependencyInfo| *r)
}

fn contains_str(seen: &Vec<String>, s: &str) -> (r: bool)
    ensures
        r == strs(seen@).contains(s@),
{
    let ghost views = strs(seen@);
    let mut i: usize = 0;
    while i < seen.len()
        invariant
            views == strs(seen@),
            0 <= i <= seen@.len(),
            forall|j: int| 0 <= j < i ==> views[j] != s@,
        decreases seen@.len() - i,
    {
        assert(views[i as int] == seen@[i as int]@);
        if str_eq(seen[i].as_str(), s) {
            return true;
        }
        i = i + 1;
    }
    false
}

fn add_first<'a>(result: &mut Vec<&'a DependencyInfo>, seen: &mut Vec<String>, dep: &'a DependencyInfo)
    requires
        strs(old(seen)@) == gavs(derefs(old(result)@)),
    ensures
        strs(final(seen)@) == gavs(derefs(final(result)@)),
        derefs(final(result)@) == (if gavs(derefs(old(result)@)).contains(spec_gav(*dep)) {
            derefs(old(result)@)
        } else {
            derefs(old(result)@).push(*dep)
        }),
{
    let gav = dep.gav();
    if !contains_str(seen, gav.as_str()) {
        let ghost before_seen = strs(seen@);
        let ghost before = derefs(result@);
        seen.push(gav);
        result.push(dep);
        assert(strs(seen@) =~= before_seen.push(spec_gav(*dep)));
        assert(derefs(result@) =~= before.push(*dep));
        assert(gavs(derefs(result@)) =~= gavs(before).push(spec_gav(*dep)));
    }
}

impl ClasspathManifest {
    /// Collect all unique dependencies across all modules/configurations:
    /// the first dependency of each GAV, in manifest order.
    pub fn all_dependencies(&self) -> (r: Vec<&DependencyInfo>)
        ensures
            derefs(r@) == first_per_gav(listed_deps(*self)),
    {
        let mut seen: Vec<String> = Vec::new();
        let mut result: Vec<&DependencyInfo> = Vec::new();
        let mut mi: usize = 0;
        while mi < self.modules.len()
            invariant
                0 <= mi <= self.modules@.len(),
                strs(seen@) == gavs(derefs(result@)),
                derefs(result@) == first_per_gav(module_deps(self.modules@, mi as int)),
            decreases self.modules@.len() - mi,
        {
            let module = &self.modules[mi];
            let ghost base = module_deps(self.modules@, mi as int);
            let mut ci: usize = 0;
            assert(base + config_deps(module.configurations@, 0) =~= base);
            while ci < module.configurations.len()
                invariant
                    0 <= ci <= module.configurations@.len(),
                    *module == self.modules@[mi as int],
                    mi < self.modules@.len(),
                    base == module_deps(self.modules@, mi as int),
                    strs(seen@) == gavs(derefs(result@)),
                    derefs(result@) == first_per_gav(base + config_deps(module.configurations@, ci as int)),
                decreases module.configurations@.len() - ci,
            {
                let config = &module.configurations[ci];
                let ghost before = base + config_deps(module.configurations@, ci as int);
                let mut di: usize = 0;
                assert(before + config.dependencies@.take(0) =~= before);
                while di < config.dependencies.len()
                    invariant
                        0 <= di <= config.dependencies@.len(),
                        strs(seen@) == gavs(derefs(result@)),
                        derefs(result@) == first_per_gav(before + config.dependencies@.take(di as int)),
                    decreases config.dependencies@.len() - di,
                {
                    let dep = &config.dependencies[di];
                    let ghost prev = before + config.dependencies@.take(di as int);
                    assert(before + config.dependencies@.take(di + 1) =~= prev.push(*dep));
                    assert((prev.push(*dep)).drop_last() =~= prev);
                    add_first(&mut result, &mut seen, dep);
                    di = di + 1;
                }
                assert(config.dependencies@.take(config.dependencies@.len() as int) =~= config.dependencies@);
                assert(before + config.dependencies@ =~= base + config_deps(module.configurations@, ci + 1));
                ci = ci + 1;
            }
            mi = mi + 1;
        }
        result
    }
}

/// A set of GAV strings.
#[derive(Debug, Clone)]
pub struct GavSet {
    items: Vec<String>,
}

impl GavSet {
    /// The GAVs in the set.
    pub closed spec fn view(&self) -> Set<Seq<char>> {
        strs(self.items@).to_set()
    }

    /// No GAV is listed twice.
    pub closed spec fn wf(&self) -> bool {
        strs(self.items@).no_duplicates()
    }

    /// Whether the set holds `gav`.
    pub fn contains(&self, gav: &str) -> (r: bool)
        ensures
            r == self.view().contains(gav@),
    {
        contains_str(&self.items, gav)
    }

    /// Number of GAVs in the set.
    pub fn len(&self) -> (r: usize)
        requires
            self.wf(),
        ensures
            r == self.view().len(),
    {
        proof { strs(self.items@).unique_seq_to_set(); }
        self.items.len()
    }

    /// Whether the set is empty.
    pub fn is_empty(&self) -> (r: bool)
        requires
            self.wf(),
        ensures
            r == (self.view().len() == 0),
    {
        self.len() == 0
    }

    /// The GAVs, in the order they were found, each once.
    pub fn to_vec(&self) -> (r: Vec<String>)
        ensures
            strs(r@).to_set() == self.view(),
            self.wf() ==> strs(r@).no_duplicates(),
    {
        let r = self.items.clone();
        assert(strs(r@) =~= strs(self.items@)) by {
            assert forall|i: int| 0 <= i < r@.len() implies r@[i]@ == self.items@[i]@ by {
                assert(vstd::pervasive::cloned(self.items@[i], r@[i]));
            }
        }
        r
    }
}

/// GAV-level diff between two classpath manifests, used for incremental indexing.
#[derive(Debug, Clone)]
pub struct ManifestDiff {
    /// GAVs present in the current manifest but absent from the previous one.
    pub added: GavSet,
    /// GAVs present in the previous manifest but absent from the current one.
    pub removed: GavSet,
    /// GAVs present in both manifests (no re-indexing needed).
    pub unchanged: GavSet,
}

/// The GAVs of a manifest.
pub open spec fn manifest_gavs(m: ClasspathManifest) -> Set<Seq<char>> {
    gavs(listed_deps(m)).to_set()
}

proof fn lemma_first_per_gav_gavs(s: Seq<DependencyInfo>)
    ensures
        gavs(first_per_gav(s)).to_set() == gavs(s).to_set(),
        gavs(first_per_gav(s)).no_duplicates(),
    decreases s.len(),
{
    if s.len() > 0 {
        lemma_first_per_gav_gavs(s.drop_last());
        let r = first_per_gav(s.drop_last());
        assert(gavs(s) =~= gavs(s.drop_last()).push(spec_gav(s.last())));
        if gavs(r).contains(spec_gav(s.last())) {
            assert(gavs(s).to_set() =~= gavs(s.drop_last()).to_set()) by {
                assert forall|g| gavs(s).to_set().contains(g) implies gavs(s.drop_last()).to_set().contains(g) by {
                    if g == spec_gav(s.last()) {
                        assert(gavs(r).to_set().contains(g));
                    } else {
                        let i = choose|i: int| 0 <= i < gavs(s).len() && gavs(s)[i] == g;
                        assert(gavs(s.drop_last())[i] == g);
                    }
                }
                assert forall|g| gavs(s.drop_last()).to_set().contains(g) implies gavs(s).to_set().contains(g) by {
                    let i = choose|i: int| 0 <= i < gavs(s.drop_last()).len() && gavs(s.drop_last())[i] == g;
                    assert(gavs(s)[i] == g);
                }
            }
        } else {
            assert(gavs(r.push(s.last())) =~= gavs(r).push(spec_gav(s.last())));
            assert(gavs(s).to_set() =~= gavs(r.push(s.last())).to_set()) by {
                assert forall|g| gavs(s).to_set().contains(g) <==> gavs(r.push(s.last())).to_set().contains(g) by {
                    if gavs(s).to_set().contains(g) {
                        let i = choose|i: int| 0 <= i < gavs(s).len() && gavs(s)[i] == g;
                        if i < s.len() - 1 {
                            assert(gavs(s.drop_last())[i] == g);
                            assert(gavs(r).to_set().contains(g));
                            let j = choose|j: int| 0 <= j < gavs(r).len() && gavs(r)[j] == g;
                            assert(gavs(r.push(s.last()))[j] == g);
                        } else {
                            assert(gavs(r.push(s.last()))[gavs(r).len() as int] == g);
                        }
                    }
                    if gavs(r.push(s.last())).to_set().contains(g) {
                        let j = choose|j: int| 0 <= j < gavs(r.push(s.last())).len() && gavs(r.push(s.last()))[j] == g;
                        if j < gavs(r).len() {
                            assert(gavs(r)[j] == g);
                            assert(gavs(s.drop_last()).to_set().contains(g));
                            let i = choose|i: int| 0 <= i < gavs(s.drop_last()).len() && gavs(s.drop_last())[i] == g;
                            assert(gavs(s)[i] == g);
                        } else {
                            assert(gavs(s)[s.len() - 1] == g);
                        }
                    }
                }
            }
        }
    }
}

fn gav_set_of(deps: &Vec<&DependencyInfo>) -> (r: GavSet)
    requires
        gavs(derefs(deps@)).no_duplicates(),
    ensures
        r.wf(),
        r.view() == gavs(derefs(deps@)).to_set(),
{
    let mut items: Vec<String> = Vec::new();
    let mut i: usize = 0;
    while i < deps.len()
        invariant
            0 <= i <= deps@.len(),
            strs(items@) == gavs(derefs(deps@)).take(i as int),
        decreases deps@.len() - i,
    {
        let ghost before = strs(items@);
        items.push(deps[i].gav());
        assert(strs(items@) =~= before.push(spec_gav(*deps@[i as int])));
        assert(gavs(derefs(deps@)).take(i + 1) =~= gavs(derefs(deps@)).take(i as int).push(spec_gav(*deps@[i as int])));
        i = i + 1;
    }
    assert(gavs(derefs(deps@)).take(deps@.len() as int) =~= gavs(derefs(deps@)));
    GavSet { items }
}

fn select(from: &GavSet, other: &GavSet, keep_common: bool) -> (r: GavSet)
    requires
        from.wf(),
    ensures
        r.wf(),
        r.view() == (if keep_common { from.view().intersect(other.view()) } else { from.view().difference(other.view()) }),
{
    let ghost fv = strs(from.items@);
    let mut items: Vec<String> = Vec::new();
    let mut i: usize = 0;
    while i < from.items.len()
        invariant
            fv == strs(from.items@),
            fv.no_duplicates(),
            0 <= i <= from.items@.len(),
            strs(items@).no_duplicates(),
            forall|g: Seq<char>| #[trigger] strs(items@).contains(g) <==>
                (fv.take(i as int).contains(g) && (other.view().contains(g) == keep_common)),
        decreases from.items@.len() - i,
    {
        let g = &from.items[i];
        let ghost before = strs(items@);
        assert(forall|x: Seq<char>| before.contains(x) <==> (fv.take(i as int).contains(x) && (other.view().contains(x) == keep_common)));
        assert(fv[i as int] == g@);
        assert(fv.take(i + 1) =~= fv.take(i as int).push(g@));
        proof {
            lemma_push_contains(fv.take(i as int), g@);
            lemma_push_contains(before, g@);
        }
        if other.contains(g.as_str()) == keep_common {
            items.push(g.clone());
            assert(strs(items@) =~= before.push(g@));
            assert(!fv.take(i as int).contains(g@)) by {
                if fv.take(i as int).contains(g@) {
                    let j = choose|j: int| 0 <= j < i && fv.take(i as int)[j] == g@;
                    assert(fv[j] == fv[i as int]);
                }
            }
            assert(!before.contains(g@));
            assert forall|x: Seq<char>| #[trigger] strs(items@).contains(x) <==>
                (fv.take(i + 1).contains(x) && (other.view().contains(x) == keep_common)) by {
                assert(fv.take(i + 1).contains(x) <==> (fv.take(i as int).contains(x) || x == g@));
                assert(strs(items@).contains(x) <==> (before.contains(x) || x == g@));
                assert(before.contains(x) <==> (fv.take(i as int).contains(x) && (other.view().contains(x) == keep_common)));
            }
        } else {
            assert(strs(items@) =~= before);
            assert forall|x: Seq<char>| #[trigger] strs(items@).contains(x) <==>
                (fv.take(i + 1).contains(x) && (other.view().contains(x) == keep_common)) by {
                assert(fv.take(i + 1).contains(x) <==> (fv.take(i as int).contains(x) || x == g@));
                assert(before.contains(x) <==> (fv.take(i as int).contains(x) && (other.view().contains(x) == keep_common)));
            }
        }
        i = i + 1;
    }
    assert(fv.take(from.items@.len() as int) =~= fv);
    let r = GavSet { items };
    assert(r.view() =~= (if keep_common { from.view().intersect(other.view()) } else { from.view().difference(other.view()) })) by {
        assert forall|g: Seq<char>| r.view().contains(g) <==> (if keep_common { from.view().intersect(other.view()) } else { from.view().difference(other.view()) }).contains(g) by {
            assert(r.view().contains(g) <==> strs(r.items@).contains(g));
            assert(from.view().contains(g) <==> fv.contains(g));
        }
    }
    r
}

/// Compute the GAV-level diff between a `current` and `previous` manifest.
///
/// The diff drives incremental indexing: added GAVs are indexed, removed GAVs
/// are deleted from the index, and unchanged GAVs are left as-is.
pub fn compute_diff(current: &ClasspathManifest, previous: &ClasspathManifest) -> (r: ManifestDiff)
    ensures
        r.added.wf() && r.removed.wf() && r.unchanged.wf(),
        r.added.view() == manifest_gavs(*current).difference(manifest_gavs(*previous)),
        r.removed.view() == manifest_gavs(*previous).difference(manifest_gavs(*current)),
        r.unchanged.view() == manifest_gavs(*current).intersect(manifest_gavs(*previous)),
{
    let cur_deps = current.all_dependencies();
    let prev_deps = previous.all_dependencies();
    proof {
        lemma_first_per_gav_gavs(listed_deps(*current));
        lemma_first_per_gav_gavs(listed_deps(*previous));
    }
    let cur = gav_set_of(&cur_deps);
    let prev = gav_set_of(&prev_deps);
    ManifestDiff {
        added: select(&cur, &prev, false),
        removed: select(&prev, &cur, false),
        unchanged: select(&cur, &prev, true),
    }
}

/// The diff partitions both manifests: the current GAVs are exactly the
/// added and the unchanged ones, the previous GAVs exactly the removed and
/// the unchanged ones, and no GAV is both added and removed.
pub proof fn law_diff_partitions(current: ClasspathManifest, previous: ClasspathManifest, d: ManifestDiff)
    requires
        d.added.view() == manifest_gavs(current).difference(manifest_gavs(previous)),
        d.removed.view() == manifest_gavs(previous).difference(manifest_gavs(current)),
        d.unchanged.view() == manifest_gavs(current).intersect(manifest_gavs(previous)),
    ensures
        d.added.view().union(d.unchanged.view()) == manifest_gavs(current),
        d.removed.view().union(d.unchanged.view()) == manifest_gavs(previous),
        d.added.view().disjoint(d.removed.view()),
        d.added.view().disjoint(d.unchanged.view()),
{
    assert(d.added.view().union(d.unchanged.view()) =~= manifest_gavs(current));
    assert(d.removed.view().union(d.unchanged.view()) =~= manifest_gavs(previous));
}

/// A manifest compared with itself adds and removes nothing.
pub proof fn law_diff_with_itself(m: ClasspathManifest, d: ManifestDiff)
    requires
        d.added.view() == manifest_gavs(m).difference(manifest_gavs(m)),
        d.removed.view() == manifest_gavs(m).difference(manifest_gavs(m)),
        d.unchanged.view() == manifest_gavs(m).intersect(manifest_gavs(m)),
    ensures
        d.added.view() == Set::<Seq<char>>::empty(),
        d.removed.view() == Set::<Seq<char>>::empty(),
        d.unchanged.view() == manifest_gavs(m),
{
    assert(d.added.view() =~= Set::<Seq<char>>::empty());
    assert(d.removed.view() =~= Set::<Seq<char>>::empty());
    assert(d.unchanged.view() =~= manifest_gavs(m));
}

/// The unique dependencies keep exactly the GAVs of the manifest, each once.
pub proof fn law_all_dependencies_unique(m: ClasspathManifest)
    ensures
        gavs(first_per_gav(listed_deps(m))).no_duplicates(),
        gavs(first_per_gav(listed_deps(m))).to_set() == manifest_gavs(m),
{
    lemma_first_per_gav_gavs(listed_deps(m));
}

fn clone_dependency(d: &DependencyInfo) -> (r: DependencyInfo)
    ensures
        r == *d,
{
    DependencyInfo {
        group: d.group.clone(),
        artifact: d.artifact.clone(),
        version: d.version.clone(),
        jar_path: d.jar_path.clone(),
        source_jar_path: match &d.source_jar_path { Some(p) => Some(p.clone()), None => None },
        scope: d.scope.clone(),
    }
}

/// Deduplicate dependencies across all modules by GAV (first occurrence wins).
pub fn deduplicate(manifest: &ClasspathManifest) -> (r: Vec<DependencyInfo>)
    ensures
        r@ == first_per_gav(listed_deps(*manifest)),
{
    let deps = manifest.all_dependencies();
    let mut result: Vec<DependencyInfo> = Vec::new();
    let mut i: usize = 0;
    while i < deps.len()
        invariant
            0 <= i <= deps@.len(),
            result@ == derefs(deps@).take(i as int),
        decreases deps@.len() - i,
    {
        result.push(clone_dependency(deps[i]));
        assert(derefs(deps@).take(i + 1) =~= derefs(deps@).take(i as int).push(*deps@[i as int]));
        i = i + 1;
    }
    assert(derefs(deps@).take(deps@.len() as int) =~= derefs(deps@));
    result
}

proof fn lemma_push_contains(s: Seq<Seq<char>>, v: Seq<char>)
    ensures
        forall|x: Seq<char>| #![auto] s.push(v).contains(x) <==> (s.contains(x) || x == v),
{
    assert forall|x: Seq<char>| #![auto] s.push(v).contains(x) <==> (s.contains(x) || x == v) by {
        if s.push(v).contains(x) {
            let k = choose|k: int| 0 <= k < s.push(v).len() && s.push(v)[k] == x;
            if k < s.len() {
                assert(s[k] == x);
            }
        }
        if s.contains(x) {
            let k = choose|k: int| 0 <= k < s.len() && s[k] == x;
            assert(s.push(v)[k] == x);
        }
        if x == v {
            assert(s.push(v)[s.len() as int] == x);
        }
    }
}

/// Whether a file in the export directory is a module manifest (a `.json` file).
pub fn is_module_manifest_file(file_name: &str) -> (r: bool)
    ensures
        r == has_extension(file_name@, "json"@),
{
    file_has_extension(file_name, "json")
}

/// The message when the export directory is missing.
pub open spec fn output_missing_message(dir: Seq<char>) -> Seq<char> {
    "No classpath-surfer output found in "@ + dir + ". Did the Gradle task run?"@
}

/// The message when the export directory holds no module manifest.
pub open spec fn no_manifests_message(dir: Seq<char>) -> Seq<char> {
    "No module manifests found in "@ + dir
}

/// Merge the module manifests read from the export directory `dir` into one
/// manifest (no Gradle version, no timestamp).  Without the directory it is
/// the `GRADLE_OUTPUT_MISSING` error; without any module manifest in it the
/// `NO_MANIFESTS` error (both "not found", exit 3).
pub fn merged_manifest(dir_exists: bool, modules: Vec<ModuleManifest>, dir: &str) -> (r: Result<ClasspathManifest, CliError>)
    ensures
        !dir_exists ==> (r matches Err(e) && error_is(e, "GRADLE_OUTPUT_MISSING"@, 3, output_missing_message(dir@), false)),
        dir_exists && modules@.len() == 0 ==> (r matches Err(e) && error_is(e, "NO_MANIFESTS"@, 3, no_manifests_message(dir@), false)),
        dir_exists && modules@.len() > 0 ==> (r matches Ok(m)
            && m.modules@ == modules@ && m.gradle_version@.len() == 0 && m.extraction_timestamp@.len() == 0),
{
    if !dir_exists {
        let mut msg: Vec<char> = Vec::new();
        push_str(&mut msg, "No classpath-surfer output found in ");
        push_str(&mut msg, dir);
        push_str(&mut msg, ". Did the Gradle task run?");
        return Err(CliError::resource_not_found("GRADLE_OUTPUT_MISSING", string_of(&msg)));
    }
    if modules.len() == 0 {
        let mut msg: Vec<char> = Vec::new();
        push_str(&mut msg, "No module manifests found in ");
        push_str(&mut msg, dir);
        return Err(CliError::resource_not_found("NO_MANIFESTS", string_of(&msg)));
    }
    Ok(ClasspathManifest { gradle_version: String::new(), extraction_timestamp: String::new(), modules })
}

/// The short names (without `Classpath`) of the configurations among the
/// first `n` that list a dependency with GAV `gav`, in order.
pub open spec fn config_scopes(cfgs: Seq<ConfigurationManifest>, n: int, gav: Seq<char>) -> Seq<Seq<char>>
    decreases n,
{
    if n <= 0 || n > cfgs.len() {
        Seq::empty()
    } else {
        config_scopes(cfgs, n - 1, gav) + if gavs(cfgs[n - 1].dependencies@).contains(gav) {
            seq![crate::cli::short_scope(cfgs[n - 1].name@)]
        } else {
            Seq::empty()
        }
    }
}

/// The short configuration names listing `gav`, over the first `n` modules.
pub open spec fn module_scopes(mods: Seq<ModuleManifest>, n: int, gav: Seq<char>) -> Seq<Seq<char>>
    decreases n,
{
    if n <= 0 || n > mods.len() {
        Seq::empty()
    } else {
        module_scopes(mods, n - 1, gav) + config_scopes(mods[n - 1].configurations@, mods[n - 1].configurations@.len() as int, gav)
    }
}

/// Whether `r` is the distinct texts of `s` in text order.
pub open spec fn sorted_distinct_of(r: Seq<Seq<char>>, s: Seq<Seq<char>>) -> bool {
    &&& forall|i: int, j: int| 0 <= i < j < r.len() ==> crate::search::text_lt(#[trigger] r[i], #[trigger] r[j])
    &&& forall|i: int| 0 <= i < r.len() ==> s.contains(#[trigger] r[i])
    &&& forall|k: int| 0 <= k < s.len() ==> r.contains(#[trigger] s[k])
}

fn lists_gav(c: &ConfigurationManifest, gav: &str) -> (r: bool)
    ensures
        r == gavs(c.dependencies@).contains(gav@),
{
    let ghost gv = gavs(c.dependencies@);
    let mut i: usize = 0;
    while i < c.dependencies.len()
        invariant
            gv == gavs(c.dependencies@),
            0 <= i <= c.dependencies@.len(),
            forall|k: int| 0 <= k < i ==> gv[k] != gav@,
        decreases c.dependencies@.len() - i,
    {
        let g = c.dependencies[i].gav();
        if str_eq(g.as_str(), gav) {
            assert(gv[i as int] == gav@);
            return true;
        }
        i = i + 1;
    }
    false
}

/// The classpaths of a dependency: the short names of the configurations
/// that list its GAV, distinct, in text order.
pub fn gav_classpath_names(m: &ClasspathManifest, gav: &str) -> (r: Vec<String>)
    ensures
        sorted_distinct_of(strs(r@), module_scopes(m.modules@, m.modules@.len() as int, gav@)),
{
    let mut names: Vec<String> = Vec::new();
    let mut mi: usize = 0;
    while mi < m.modules.len()
        invariant
            0 <= mi <= m.modules@.len(),
            strs(names@) == module_scopes(m.modules@, mi as int, gav@),
        decreases m.modules@.len() - mi,
    {
        let module = &m.modules[mi];
        let ghost before = strs(names@);
        let mut ci: usize = 0;
        while ci < module.configurations.len()
            invariant
                0 <= ci <= module.configurations@.len(),
                strs(names@) == before + config_scopes(module.configurations@, ci as int, gav@),
            decreases module.configurations@.len() - ci,
        {
            let c = &module.configurations[ci];
            if lists_gav(c, gav) {
                let ghost prev = strs(names@);
                names.push(crate::cli::short_scope_name(c.name.as_str()));
                assert(strs(names@) =~= prev.push(crate::cli::short_scope(c.name@)));
            }
            assert(before + config_scopes(module.configurations@, ci + 1, gav@)
                =~= before + config_scopes(module.configurations@, ci as int, gav@)
                    + (if gavs(c.dependencies@).contains(gav@) { seq![crate::cli::short_scope(c.name@)] } else { Seq::empty() }));
            ci = ci + 1;
        }
        mi = mi + 1;
    }
    let counted = crate::search::count_packages(&names);
    let ghost cv = crate::search::count_views(counted@);
    let mut out: Vec<String> = Vec::new();
    let mut i: usize = 0;
    while i < counted.len()
        invariant
            cv == crate::search::count_views(counted@),
            0 <= i <= counted@.len(),
            out@.len() == i,
            forall|k: int| 0 <= k < i ==> out@[k]@ == cv[k].0,
        decreases counted@.len() - i,
    {
        out.push(string_of(&chars_of(counted[i].0.as_str())));
        i = i + 1;
    }
    let ghost keys = strs(out@);
    let ghost all = strs(names@);
    assert(crate::search::package_counts_of(cv, all));
    assert forall|a: int, b: int| 0 <= a < b < keys.len() implies crate::search::text_lt(#[trigger] keys[a], #[trigger] keys[b]) by {
        assert(keys[a] == cv[a].0 && keys[b] == cv[b].0);
    }
    assert forall|a: int| 0 <= a < keys.len() implies all.contains(#[trigger] keys[a]) by {
        assert(keys[a] == cv[a].0);
    }
    assert forall|k: int| 0 <= k < all.len() implies keys.contains(#[trigger] all[k]) by {
        let a = choose|a: int| 0 <= a < cv.len() && (#[trigger] cv[a]).0 == #[trigger] all[k];
        assert(keys[a] == all[k]);
    }
    out
}

/// The classpaths field of a dependency: its classpath names joined with `,`.
pub fn gav_classpaths(m: &ClasspathManifest, gav: &str) -> (r: String)
    ensures
        exists|names: Seq<Seq<char>>| sorted_distinct_of(names, module_scopes(m.modules@, m.modules@.len() as int, gav@))
            && r@ == crate::text::join(names, ","@),
{
    let names = gav_classpath_names(m, gav);
    let mut parts: Vec<Vec<char>> = Vec::new();
    let mut i: usize = 0;
    while i < names.len()
        invariant
            0 <= i <= names@.len(),
            parts@.map_values(|p: Vec<char>| p@) == strs(names@).take(i as int),
        decreases names@.len() - i,
    {
        let ghost before = parts@.map_values(|p: Vec<char>| p@);
        parts.push(chars_of(names[i].as_str()));
        assert(parts@.map_values(|p: Vec<char>| p@) =~= before.push(names@[i as int]@));
        assert(strs(names@).take(i + 1) =~= strs(names@).take(i as int).push(names@[i as int]@));
        i = i + 1;
    }
    assert(strs(names@).take(names@.len() as int) =~= strs(names@));
    string_of(&crate::text::join_vecs(&parts, ","))
}
} // verus!
