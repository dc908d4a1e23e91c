//! Structured output records of the CLI commands and the search query.
use vstd::prelude::*;
use crate::model::{AccessLevel, ResolvedSource, SearchResult, SourceLanguage, SourceOrigin, SourceProvider, SymbolKind, language_name};
use crate::text::{chars_of, first_index_of, string_of};

verus! {

/// Query parameters for symbol search.
///
/// Either `query` or `dependency` (or both) must be provided.  When `query`
/// is `None` and `dependency` is set, all symbols for the matching
/// dependencies are returned (sorted by kind then FQN).
#[derive(Debug)]
pub struct SearchQuery<'a> {
    /// Symbol name, FQN, or regex pattern.  `None` to list all symbols
    /// (requires `dependency` to be set).
    pub query: Option<&'a str>,
    /// Filter by symbol kind.  Empty slice = any (no filter).
    pub symbol_types: &'a [SymbolKind],
    /// Exact FQN match mode.
    pub fqn_mode: bool,
    /// Regex search mode.
    pub regex_mode: bool,
    /// Maximum number of results.
    pub limit: usize,
    /// Number of results to skip (for pagination).
    pub offset: usize,
    /// Restrict to dependencies matching a GAV pattern (glob, e.g. `"com.google.*:guava:*"`).
    pub dependency: Option<&'a str>,
    /// Filter by access level.  Empty slice = all (no filter).
    pub access_levels: &'a [AccessLevel],
    /// Filter results to a specific configuration scope (e.g. `"compileClasspath"`).
    pub scope: Option<&'a str>,
    /// Filter results by Java package pattern (glob with `*` wildcards, e.g. `"com.google.common.*"`).
    pub package: Option<&'a str>,
}

impl<'a> SearchQuery<'a> {
    /// Create a search query with default options: 20 results from the
    /// first, no filters, plain text mode.
    pub fn simple(query: &'a str) -> (r: Self)
        ensures
            r.query == Some(query),
            r.symbol_types@.len() == 0,
            !r.fqn_mode && !r.regex_mode,
            r.limit == 20 && r.offset == 0,
            r.dependency is None && r.scope is None && r.package is None,
            r.access_levels@.len() == 0,
    {
        SearchQuery {
            query: Some(query),
            symbol_types: &[],
            fqn_mode: false,
            regex_mode: false,
            limit: 20,
            offset: 0,
            dependency: None,
            access_levels: &[],
            scope: None,
            package: None,
        }
    }

    /// Create a search query filtered to specific symbol types, otherwise
    /// as [`SearchQuery::simple`].
    pub fn with_types(query: &'a str, symbol_types: &'a [SymbolKind]) -> (r: Self)
        ensures
            r.query == Some(query),
            r.symbol_types == symbol_types,
            !r.fqn_mode && !r.regex_mode,
            r.limit == 20 && r.offset == 0,
            r.dependency is None && r.scope is None && r.package is None,
            r.access_levels@.len() == 0,
    {
        let base = Self::simple(query);
        SearchQuery { symbol_types, ..base }
    }
}

/// Structured output for the `search` command.
#[derive(Debug)]
pub struct SearchOutput {
    /// The search query string (absent when listing a dependency).
    pub query: Option<String>,
    /// The dependency pattern, when given.
    pub dependency: Option<String>,
    /// The package pattern, when given.
    pub package: Option<String>,
    /// The GAVs the dependency pattern matched.
    pub matched_gavs: Option<Vec<String>>,
    /// Total number of matching symbols (before pagination).
    pub total_matches: usize,
    /// Number of results skipped.
    pub offset: usize,
    /// Maximum number of results returned.
    pub limit: usize,
    /// Whether more results exist beyond this page.
    pub has_more: bool,
    /// The matching symbols.
    pub results: Vec<SearchResult>,
}

/// Structured output for the `show` command.
#[derive(Debug)]
pub struct ShowOutput {
    /// Fully qualified name of the requested class or member.
    pub fqn: String,
    /// Maven GAV coordinates of the dependency.
    pub gav: String,
    /// The member the view focuses on, when one was asked for.
    pub symbol_name: Option<String>,
    /// Primary source view.
    pub primary: SourceView,
    /// Secondary view (decompiled Java for non-Java sources).
    pub secondary: Option<SourceView>,
}

/// Where a source view focuses.
#[derive(Debug, Clone, Copy)]
pub struct FocusInfo {
    /// 1-based line of the symbol.
    pub symbol_line: usize,
    /// First line shown.
    pub start_line: usize,
    /// Last line shown.
    pub end_line: usize,
    /// Number of lines of the source.
    pub total_lines: usize,
}

/// A source code view.
#[derive(Debug)]
pub struct SourceView {
    /// The source text.
    pub content: String,
    /// Language name (`java`, `kotlin`, ...).
    pub language: String,
    /// Source origin.
    pub source: SourceOrigin,
    /// Number of lines.
    pub line_count: usize,
    /// Focus of the view, when any.
    pub focus: Option<FocusInfo>,
}

/// Structured output for the `status` command.
#[derive(Debug)]
pub struct StatusOutput {
    /// Whether the project has a `.classpath-surfer` directory.
    pub initialized: bool,
    /// Whether an index exists.
    pub has_index: bool,
    /// Number of unique dependencies.
    pub dependency_count: usize,
    /// Dependencies with a source JAR.
    pub with_source_jars: usize,
    /// Dependencies without a source JAR.
    pub without_source_jars: usize,
    /// Number of indexed symbols, when there is an index.
    pub indexed_symbols: Option<usize>,
    /// Whether the index is stale.
    pub is_stale: bool,
    /// Human-readable index size, when there is an index directory.
    pub index_size: Option<String>,
}

/// Structured output for the `refresh` command.
#[derive(Debug)]
pub struct RefreshOutput {
    /// `full`, `incremental` or `up_to_date`.
    pub mode: String,
    /// Number of dependencies processed.
    pub dependencies_processed: usize,
    /// Number of symbols indexed.
    pub symbols_indexed: usize,
}

/// Structured output for the `init` command.
#[derive(Debug)]
pub struct InitOutput {
    /// Actions taken.
    pub actions: Vec<String>,
}

/// Structured output for the `clean` command.
#[derive(Debug)]
pub struct CleanOutput {
    /// Items removed.
    pub items_removed: Vec<String>,
}

/// Structured output for the `pkgs` command.
#[derive(Debug)]
pub struct PkgsOutput {
    /// The package filter, when given.
    pub filter: Option<String>,
    /// The dependency filter, when given.
    pub dependency: Option<String>,
    /// The GAVs the dependency filter matched.
    pub matched_gavs: Option<Vec<String>>,
    /// Number of packages before pagination.
    pub total_count: usize,
    /// Number of packages skipped.
    pub offset: usize,
    /// Maximum number of packages returned.
    pub limit: usize,
    /// Whether more packages exist beyond this page.
    pub has_more: bool,
    /// The packages of this page.
    pub packages: Vec<PkgInfo>,
}

/// A package with its symbol count.
#[derive(Debug, Clone)]
pub struct PkgInfo {
    /// Package name.
    pub package: String,
    /// Number of symbols in it.
    pub symbol_count: usize,
}

/// Structured output for the `deps` command.
#[derive(Debug)]
pub struct DepsOutput {
    /// The GAV filter, when given.
    pub filter: Option<String>,
    /// Number of dependencies before pagination.
    pub total_count: usize,
    /// Number of dependencies skipped.
    pub offset: usize,
    /// Maximum number of dependencies returned.
    pub limit: usize,
    /// Whether more dependencies exist beyond this page.
    pub has_more: bool,
    /// The dependencies of this page.
    pub dependencies: Vec<DepInfo>,
}

/// A dependency with its symbol count and scopes.
#[derive(Debug, Clone)]
pub struct DepInfo {
    /// Maven GAV coordinates.
    pub gav: String,
    /// Number of symbols indexed from it.
    pub symbol_count: usize,
    /// Gradle configurations that include it.
    pub scopes: Vec<String>,
}

/// The number of lines of a text, as `str::lines` counts them: a final
/// line ending adds no empty line.
pub open spec fn line_count_from(text: Seq<char>, start: int) -> nat
    decreases text.len() - start,
{
    if start < 0 || start >= text.len() {
        0
    } else {
        match first_index_of(text.skip(start), '\n') {
            Some(i) => if 0 <= i && start + i + 1 <= text.len() { 1 + line_count_from(text, start + i + 1) } else { 1 },
            None => 1,
        }
    }
}

/// Count the lines of a text.
pub fn count_lines(text: &str) -> (r: usize)
    ensures
        r == line_count_from(text@, 0),
{
    let v = chars_of(text);
    let mut start: usize = 0;
    let mut count: usize = 0;
    while start < v.len()
        invariant
            v@ == text@,
            0 <= start <= v@.len(),
            count <= start,
            count + line_count_from(v@, start as int) == line_count_from(v@, 0),
        decreases v@.len() - start,
    {
        proof { crate::text::lemma_first_index_props(v@.skip(start as int), '\n'); }
        match crate::text::find_char_from(&v, start, '\n') {
            Some(j) => {
                start = j + 1;
            },
            None => {
                start = v.len();
            },
        }
        count = count + 1;
    }
    count
}

/// Whether `v` is the view of source `p`: its text, language name, origin
/// and line count, with no focus.
pub open spec fn view_of(v: SourceView, p: SourceProvider) -> bool {
    &&& v.focus is None
    &&& match p {
        SourceProvider::SourceJar { content, path, language } => {
            &&& v.content@ == content@
            &&& v.language@ == language_name(language)
            &&& v.source matches SourceOrigin::SourceJar { source_path: Some(sp), source_language: Some(l), source_file_name: None }
                && sp@ == path@ && l == language
            &&& v.line_count == line_count_from(content@, 0)
        },
        SourceProvider::Decompiler { content } => {
            &&& v.content@ == content@
            &&& v.language@ == "java"@
            &&& v.source matches SourceOrigin::Decompiled { source_language: None, source_file_name: None }
            &&& v.line_count == line_count_from(content@, 0)
        },
    }
}

/// The view of a source: its text, language name, origin and line count.
pub fn source_code_to_view(source: &SourceProvider) -> (r: SourceView)
    ensures
        view_of(r, *source),
{
    match source {
        SourceProvider::SourceJar { content, path, language } => {
            let line_count = count_lines(content.as_str());
            SourceView {
                content: content.clone(),
                language: string_of(&chars_of(language.as_str())),
                source: SourceOrigin::SourceJar {
                    source_path: Some(path.clone()),
                    source_language: Some(*language),
                    source_file_name: None,
                },
                line_count,
                focus: None,
            }
        },
        SourceProvider::Decompiler { content } => {
            let line_count = count_lines(content.as_str());
            SourceView {
                content: content.clone(),
                language: string_of(&chars_of("java")),
                source: SourceOrigin::Decompiled { source_language: None, source_file_name: None },
                line_count,
                focus: None,
            }
        },
    }
}

/// The `show` output of a resolved source: the FQN and GAV, the view of the
/// primary source, and the view of the secondary one when there is one.
pub fn load_show_output(fqn: &str, resolved: &ResolvedSource) -> (r: ShowOutput)
    ensures
        r.fqn@ == fqn@,
        r.gav@ == resolved.gav@,
        r.symbol_name is None,
        view_of(r.primary, resolved.primary),
        match resolved.secondary {
            Some(sp) => r.secondary matches Some(v) && view_of(v, sp),
            None => r.secondary is None,
        },
{
    let primary = source_code_to_view(&resolved.primary);
    let secondary = match &resolved.secondary {
        Some(sp) => Some(source_code_to_view(sp)),
        None => None,
    };
    ShowOutput {
        fqn: string_of(&chars_of(fqn)),
        gav: resolved.gav.clone(),
        symbol_name: None,
        primary,
        secondary,
    }
}
} // verus!
