//! Per-project configuration, decompiler choice and output mode.
use vstd::prelude::*;
use crate::text::{chars_of, string_of};

verus! {

/// Decompiler backend used when no source JAR is available.
#[derive(Debug, Clone, Copy, PartialEq, Eq, Structural)]
pub enum Decompiler {
    /// CFR.
    Cfr,
    /// Vineflower.
    Vineflower,
}

impl Decompiler {
    /// The name passed to the decompiler runner (`cfr` or `vineflower`).
    pub fn as_str(&self) -> (r: &'static str)
        ensures
            r@ == (match *self { Decompiler::Cfr => "cfr"@, Decompiler::Vineflower => "vineflower"@ }),
    {
        match self {
            Decompiler::Cfr => "cfr",
            Decompiler::Vineflower => "vineflower",
        }
    }
}

/// Default Gradle configurations to resolve.
pub open spec fn spec_default_configurations() -> Seq<Seq<char>> {
    seq!["compileClasspath"@, "runtimeClasspath"@]
}

/// The default decompiler: CFR.
pub fn default_decompiler() -> (r: Decompiler)
    ensures
        r == Decompiler::Cfr,
{
    Decompiler::Cfr
}

/// The default Gradle configurations: `compileClasspath`, `runtimeClasspath`.
pub fn default_configurations() -> (r: Vec<String>)
    ensures
        r@.map_values(|s: String| s@) == spec_default_configurations(),
{
    let r = vec![string_of(&chars_of("compileClasspath")), string_of(&chars_of("runtimeClasspath"))];
    assert(r@.map_values(|s: String| s@) =~= spec_default_configurations());
    r
}

/// Per-project configuration stored in `.classpath-surfer/config.json`.
#[derive(Debug, Clone)]
pub struct Config {
    /// Decompiler backend to use when no source JAR is available.
    pub decompiler: Decompiler,
    /// Path to the decompiler JAR.
    pub decompiler_jar: Option<String>,
    /// Gradle configurations to resolve (e.g. `compileClasspath`, `runtimeClasspath`).
    pub configurations: Vec<String>,
    /// Override for `JAVA_HOME` used when running Gradle.
    pub java_home: Option<String>,
    /// Never decompile — fail if no source JAR is available.
    pub no_decompile: bool,
}

impl Default for Config {
    fn default() -> (r: Self)
        ensures
            r.decompiler == Decompiler::Cfr,
            r.decompiler_jar is None,
            r.configurations@.map_values(|s: String| s@) == spec_default_configurations(),
            r.java_home is None,
            !r.no_decompile,
    {
        Config {
            decompiler: default_decompiler(),
            decompiler_jar: None,
            configurations: default_configurations(),
            java_home: None,
            no_decompile: false,
        }
    }
}

/// How the CLI should render its output.
#[derive(Debug, Clone, Copy, PartialEq, Eq, Structural)]
pub enum OutputMode {
    /// Structured JSON to stdout (for AI agents / scripts).
    Agentic,
    /// Interactive alternate-screen TUI (TTY detected).
    Tui,
    /// Plain text tables / messages (non-TTY pipe or redirect).
    Plain,
}

impl OutputMode {
    /// Decide the output mode from the `--agentic` flag and whether stdout
    /// is a terminal: agentic wins, then a terminal gets the TUI, else plain.
    pub fn detect(agentic: bool, stdout_is_terminal: bool) -> (r: Self)
        ensures
            r == (if agentic { OutputMode::Agentic } else if stdout_is_terminal { OutputMode::Tui } else { OutputMode::Plain }),
    {
        if agentic {
            OutputMode::Agentic
        } else if stdout_is_terminal {
            OutputMode::Tui
        } else {
            OutputMode::Plain
        }
    }
}

/// Which column of the browser should receive initial focus.
#[derive(Debug, Clone, Copy, PartialEq, Eq, Structural)]
pub enum ColumnFocus {
    /// Dependencies column.
    Dep,
    /// Packages column.
    Pkg,
    /// Symbols column.
    Symbol,
}

impl Default for ColumnFocus {
    fn default() -> (r: Self)
        ensures
            r == ColumnFocus::Dep,
    {
        ColumnFocus::Dep
    }
}

/// Configuration for launching the browser.
#[derive(Debug)]
pub struct BrowserConfig<'a> {
    /// Which column gets focus on launch.
    pub initial_focus: ColumnFocus,
    /// GAV glob pattern filter for the deps column.
    pub dep_query: Option<&'a str>,
    /// Package glob pattern filter for the packages column.
    pub pkg_query: Option<&'a str>,
    /// Symbol name/FQN filter for the symbols column.
    pub symbol_query: Option<&'a str>,
    /// Classpath filter (e.g. `"compile"`, `"runtime"`).
    pub classpath: Option<&'a str>,
    /// Symbol type filters.
    pub symbol_types: &'a [crate::model::SymbolKind],
    /// Access level filters.
    pub access_levels: &'a [crate::model::AccessLevel],
}

/// The page size of a listing: the `--limit` given, else 50 for the
/// terminal browser and 20 for JSON and plain output.
pub fn effective_limit(limit: Option<usize>, mode: OutputMode) -> (r: usize)
    ensures
        r == (match limit { Some(l) => l, None => if mode == OutputMode::Tui { 50usize } else { 20usize } }),
{
    match limit {
        Some(l) => l,
        None => match mode {
            OutputMode::Tui => 50,
            _ => 20,
        },
    }
}
} // verus!
