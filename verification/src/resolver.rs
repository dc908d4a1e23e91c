//! Source resolution decisions: classfile paths, the source-JAR lookup,
//! the decompilation fallback, and the decompile cache name.
use vstd::prelude::*;
use crate::classfile::{package_from_fqn, spec_package_from_fqn};
use crate::digest::{sha256_hex, spec_sha256_hex};
use crate::error::{CliError, error_is};
use crate::jar::SourceTable;
use crate::model::SourceLanguage;
use crate::text::{chars_of, push_str, replace_char, replace_char_vec, string_of};

verus! {

/// The classfile path of a qualified name: dots become slashes, then `.class`.
pub open spec fn spec_fqn_to_class_path(fqn: Seq<char>) -> Seq<char> {
    replace_char(fqn, '.', '/') + ".class"@
}

/// Convert a fully qualified name to a classfile path.
///
/// `"com.google.common.collect.ImmutableList"` → `"com/google/common/collect/ImmutableList.class"`
pub fn fqn_to_class_path(fqn: &str) -> (r: String)
    ensures
        r@ == spec_fqn_to_class_path(fqn@),
{
    let v = chars_of(fqn);
    let mut out = replace_char_vec(&v, '.', '/');
    push_str(&mut out, ".class");
    string_of(&out)
}

/// Where the source of a class comes from.
#[derive(Debug)]
pub enum SourcePlan {
    /// Read this entry of the dependency's source JAR.
    SourceJar {
        /// Entry path inside the source JAR.
        path: String,
        /// Language of the source file.
        language: SourceLanguage,
    },
    /// Decompile the class.
    Decompile,
    /// Neither is possible.
    Unavailable(CliError),
}

/// The message when a class has no source JAR entry and decompiling is off.
pub open spec fn no_source_message(fqn: Seq<char>) -> Seq<char> {
    "No source JAR available for '"@ + fqn + "' and --no-decompile is set"@
}

/// Decide where the source of `fqn` comes from, given the SourceFile name
/// of its classfile and the source table of its dependency's source JAR
/// (each `None` when unavailable).
///
/// The source JAR entry keyed by the class's package and SourceFile name is
/// used when there is one; otherwise the class is decompiled, unless
/// decompiling is off, which gives a `NO_SOURCE` error.
pub fn resolve_source(
    fqn: &str,
    source_file_name: Option<&str>,
    table: Option<&SourceTable>,
    no_decompile: bool,
) -> (r: SourcePlan)
    requires
        table matches Some(t) ==> t.wf(),
    ensures
        match (source_file_name, table) {
            (Some(sfn), Some(t)) if t.view().contains_key((spec_package_from_fqn(fqn@), sfn@)) =>
                r matches SourcePlan::SourceJar { path, language }
                    && (path@, language) == t.view()[(spec_package_from_fqn(fqn@), sfn@)],
            _ => if no_decompile {
                r matches SourcePlan::Unavailable(e) && error_is(e, "NO_SOURCE"@, 3, no_source_message(fqn@), false)
            } else {
                r is Decompile
            },
        },
{
    if let (Some(sfn), Some(t)) = (source_file_name, table) {
        let package = package_from_fqn(fqn);
        if let Some(entry) = t.get(package.as_str(), sfn) {
            return SourcePlan::SourceJar { path: entry.path.clone(), language: entry.language };
        }
    }
    if no_decompile {
        let mut m: Vec<char> = Vec::new();
        push_str(&mut m, "No source JAR available for '");
        push_str(&mut m, fqn);
        push_str(&mut m, "' and --no-decompile is set");
        return SourcePlan::Unavailable(CliError::resource_not_found("NO_SOURCE", string_of(&m)));
    }
    SourcePlan::Decompile
}

/// The error when no dependency JAR holds a class.
pub fn class_not_found(class_path: &str) -> (r: CliError)
    ensures
        error_is(r, "CLASS_NOT_FOUND"@, 3, "Class '"@ + class_path@ + "' not found in any dependency JAR"@, false),
{
    let mut m: Vec<char> = Vec::new();
    push_str(&mut m, "Class '");
    push_str(&mut m, class_path);
    push_str(&mut m, "' not found in any dependency JAR");
    CliError::resource_not_found("CLASS_NOT_FOUND", string_of(&m))
}

/// The decompile cache key of a class: `{gav}:{fqn}:{decompiler}`.
pub open spec fn cache_key(gav: Seq<char>, fqn: Seq<char>, decompiler: Seq<char>) -> Seq<char> {
    gav + ":"@ + fqn + ":"@ + decompiler
}

/// The decompile cache file name: the lowercase hex SHA-256 of the UTF-8
/// bytes of the cache key, then `.java`.
pub fn decompile_cache_file_name(gav: &str, fqn: &str, decompiler: &str) -> (r: String)
    ensures
        r@ == spec_sha256_hex(vstd::utf8::encode_utf8(cache_key(gav@, fqn@, decompiler@))) + ".java"@,
{
    let mut k: Vec<char> = chars_of(gav);
    push_str(&mut k, ":");
    push_str(&mut k, fqn);
    push_str(&mut k, ":");
    push_str(&mut k, decompiler);
    let key = string_of(&k);
    let hash = sha256_hex(key.as_str().as_bytes());
    let mut out = chars_of(hash.as_str());
    push_str(&mut out, ".java");
    string_of(&out)
}

/// The class a search result belongs to: the result itself for a class,
/// else its FQN without `.` and its simple name at the end (the FQN as it
/// is when it does not end so).
pub open spec fn spec_class_fqn(kind: crate::model::SymbolKind, fqn: Seq<char>, simple: Seq<char>) -> Seq<char> {
    let suffix = "."@ + simple;
    if kind == crate::model::SymbolKind::Class {
        fqn
    } else if crate::text::has_suffix(fqn, suffix) {
        fqn.take(fqn.len() - suffix.len())
    } else {
        fqn
    }
}

/// The FQN of the class whose source shows a search result.
pub fn class_fqn_of(r: &crate::model::SearchResult) -> (s: String)
    ensures
        s@ == spec_class_fqn(r.symbol_kind, r.fqn@, r.simple_name@),
{
    match r.symbol_kind {
        crate::model::SymbolKind::Class => string_of(&chars_of(r.fqn.as_str())),
        _ => {
            let v = chars_of(r.fqn.as_str());
            let mut suffix: Vec<char> = Vec::new();
            push_str(&mut suffix, ".");
            push_str(&mut suffix, r.simple_name.as_str());
            let sfx = string_of(&suffix);
            if crate::text::ends_with_str(&v, sfx.as_str()) {
                let t = crate::text::slice_vec(&v, 0, v.len() - suffix.len());
                assert(t@ =~= v@.take(v@.len() - suffix@.len()));
                string_of(&t)
            } else {
                string_of(&v)
            }
        },
    }
}
} // verus!
