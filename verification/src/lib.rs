//! Dependency symbol index for Gradle Java/Kotlin projects: descriptor and
//! metadata decoding, manifest bookkeeping, and the decisions around them.
use vstd::prelude::*;

/// Character-level text helpers.
pub mod text;
/// JVM type and method descriptor decoding.
pub mod descriptor;
/// Kotlin metadata model and signature formatting.
pub mod kotlin_metadata;
/// Stored index fields of a symbol and search results read back.
pub mod index_doc;
/// Query classification, filters and listing order.
pub mod search;
/// Gradle export task decisions.
pub mod gradle;
/// Source-JAR package declarations and the source table.
pub mod jar;
/// Classfile symbol extraction.
pub mod classfile;
/// Method start lines from classfile line tables.
pub mod locator;
/// Source resolution decisions.
pub mod resolver;
/// External decompiler runs: JAR choice, arguments, outcomes.
pub mod decompiler;
/// SHA-256 digests in hex.
pub mod digest;
/// Index staleness decisions.
pub mod staleness;
/// Browser navigation as a state machine.
pub mod browser;
/// Titles, rows and detail lines of the terminal views.
pub mod view;
/// Wrapping of highlighted source lines to the panel width.
pub mod wrap;
/// Command decisions: prerequisites, pagination, refresh planning.
pub mod cli;
/// Configuration, decompiler choice, output mode and browser settings.
pub mod config;
/// Glob patterns with `*` and `?`.
pub mod glob;
/// Classified CLI errors.
pub mod error;
/// Classpath manifest model, diffs and deduplication.
pub mod manifest;
/// Command output records and the search query.
pub mod output_model;
/// Plain-text output of the commands.
pub mod plain;
/// Shared domain types: symbols, signatures, source origins.
pub mod model;

verus! {
} // verus!
