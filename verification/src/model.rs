//! Shared domain types: symbols, their signatures and source origins, and
//! search results.
use vstd::prelude::*;
use crate::text::str_eq;

verus! {

/// Grouped signature representations for a symbol.
///
/// Every symbol has a Java-style signature derived from the classfile.  Kotlin
/// classes additionally carry a Kotlin-style signature decoded from
/// `@kotlin.Metadata`.
#[derive(Debug, Clone)]
pub struct SignatureDisplay {
    /// Human-readable Java-style signature (e.g. `public static ImmutableList of(Object arg0)`).
    pub java: String,
    /// Kotlin-style signature (e.g. `suspend fun fetch(): Data`), present only for Kotlin classes.
    pub kotlin: Option<String>,
}

/// The signature shown for `lang`: the Kotlin one for `"kotlin"` when there
/// is one, else the Java one.
pub open spec fn spec_signature_for(sig: SignatureDisplay, lang: Seq<char>) -> Seq<char> {
    if lang == "kotlin"@ && sig.kotlin is Some {
        sig.kotlin->0@
    } else {
        sig.java@
    }
}

impl SignatureDisplay {
    /// Return the signature most appropriate for `lang`.
    ///
    /// When `lang` is `"kotlin"` and a Kotlin signature exists it is returned;
    /// otherwise the Java signature is used as a universal fallback.
    pub fn for_language(&self, lang: &str) -> (r: &str)
        ensures
            r@ == spec_signature_for(*self, lang@),
    {
        if str_eq(lang, "kotlin") {
            match &self.kotlin {
                Some(k) => k.as_str(),
                None => self.java.as_str(),
            }
        } else {
            self.java.as_str()
        }
    }
}

/// The source language of a symbol, detected from the classfile's SourceFile attribute.
#[derive(Debug, Clone, Copy, PartialEq, Eq, Structural)]
pub enum SourceLanguage {
    /// Java source (`.java`).
    Java,
    /// Kotlin source (`.kt`).
    Kotlin,
    /// Scala source (`.scala`).
    Scala,
    /// Groovy source (`.groovy`).
    Groovy,
    /// Clojure source (`.clj`).
    Clojure,
    /// Unknown source language (SourceFile attribute present but unrecognized extension).
    Unknown,
}

/// The lowercase name of a language.
pub open spec fn language_name(l: SourceLanguage) -> Seq<char> {
    match l {
        SourceLanguage::Java => "java"@,
        SourceLanguage::Kotlin => "kotlin"@,
        SourceLanguage::Scala => "scala"@,
        SourceLanguage::Groovy => "groovy"@,
        SourceLanguage::Clojure => "clojure"@,
        SourceLanguage::Unknown => "unknown"@,
    }
}

impl SourceLanguage {
    /// The lowercase name of the language (`"java"`, `"kotlin"`, ...).
    pub fn as_str(&self) -> (r: &'static str)
        ensures
            r@ == language_name(*self),
    {
        match self {
            SourceLanguage::Java => "java",
            SourceLanguage::Kotlin => "kotlin",
            SourceLanguage::Scala => "scala",
            SourceLanguage::Groovy => "groovy",
            SourceLanguage::Clojure => "clojure",
            SourceLanguage::Unknown => "unknown",
        }
    }
}

/// Source origin for a symbol — source JAR (with optional path) or decompiled.
#[derive(Debug, Clone)]
pub enum SourceOrigin {
    /// Source extracted from a source JAR.
    SourceJar {
        /// Path inside the source JAR (e.g. `com/google/common/collect/ImmutableList.java`).
        source_path: Option<String>,
        /// Source language detected from the SourceFile attribute.
        source_language: Option<SourceLanguage>,
        /// Original source file name (e.g. `"Foo.kt"`).
        source_file_name: Option<String>,
    },
    /// No source JAR available; source must be decompiled.
    Decompiled {
        /// Source language detected from the SourceFile attribute.
        source_language: Option<SourceLanguage>,
        /// Original source file name (e.g. `"Foo.kt"`).
        source_file_name: Option<String>,
    },
}

/// The language recorded in a source origin.
pub open spec fn origin_language(o: SourceOrigin) -> Option<SourceLanguage> {
    match o {
        SourceOrigin::SourceJar { source_language, .. } => source_language,
        SourceOrigin::Decompiled { source_language, .. } => source_language,
    }
}

/// The file name recorded in a source origin.
pub open spec fn origin_file_name(o: SourceOrigin) -> Option<String> {
    match o {
        SourceOrigin::SourceJar { source_file_name, .. } => source_file_name,
        SourceOrigin::Decompiled { source_file_name, .. } => source_file_name,
    }
}

impl SourceOrigin {
    /// Whether source is from a source JAR.
    pub fn has_source(&self) -> (r: bool)
        ensures
            r == (*self is SourceJar),
    {
        match self {
            SourceOrigin::SourceJar { .. } => true,
            SourceOrigin::Decompiled { .. } => false,
        }
    }

    /// Path inside the source JAR, if available.
    pub fn source_path(&self) -> (r: Option<&str>)
        ensures
            match *self {
                SourceOrigin::SourceJar { source_path: Some(p), .. } => r is Some && r->0@ == p@,
                _ => r is None,
            },
    {
        match self {
            SourceOrigin::SourceJar { source_path, .. } => match source_path {
                Some(p) => Some(p.as_str()),
                None => None,
            },
            SourceOrigin::Decompiled { .. } => None,
        }
    }

    /// Source language detected from the classfile SourceFile attribute.
    pub fn source_language(&self) -> (r: Option<SourceLanguage>)
        ensures
            r == origin_language(*self),
    {
        match self {
            SourceOrigin::SourceJar { source_language, .. } => *source_language,
            SourceOrigin::Decompiled { source_language, .. } => *source_language,
        }
    }

    /// Original source file name from the classfile SourceFile attribute.
    pub fn source_file_name(&self) -> (r: Option<&str>)
        ensures
            match origin_file_name(*self) {
                Some(n) => r is Some && r->0@ == n@,
                None => r is None,
            },
    {
        let name = match self {
            SourceOrigin::SourceJar { source_file_name, .. } => source_file_name,
            SourceOrigin::Decompiled { source_file_name, .. } => source_file_name,
        };
        match name {
            Some(n) => Some(n.as_str()),
            None => None,
        }
    }

    /// Tag string for index serialization (`"source_jar"` or `"decompiled"`).
    pub fn as_str(&self) -> (r: &'static str)
        ensures
            r@ == (if *self is SourceJar { "source_jar"@ } else { "decompiled"@ }),
    {
        match self {
            SourceOrigin::SourceJar { .. } => "source_jar",
            SourceOrigin::Decompiled { .. } => "decompiled",
        }
    }

    /// Promote to `SourceJar` with the given path, preserving language and file name.
    pub fn with_source_jar(self, source_path: String) -> (r: Self)
        ensures
            r == (SourceOrigin::SourceJar {
                source_path: Some(source_path),
                source_language: origin_language(self),
                source_file_name: origin_file_name(self),
            }),
    {
        let (sl, sfn) = match self {
            SourceOrigin::SourceJar { source_language, source_file_name, .. } => (source_language, source_file_name),
            SourceOrigin::Decompiled { source_language, source_file_name } => (source_language, source_file_name),
        };
        SourceOrigin::SourceJar { source_path: Some(source_path), source_language: sl, source_file_name: sfn }
    }
}

/// Display name of a lowercase language identifier; `Java` for any other.
pub open spec fn spec_lang_display(lang: Seq<char>) -> Seq<char> {
    if lang == "kotlin"@ { "Kotlin"@ }
    else if lang == "scala"@ { "Scala"@ }
    else if lang == "groovy"@ { "Groovy"@ }
    else if lang == "clojure"@ { "Clojure"@ }
    else if lang == "unknown"@ { "Unknown"@ }
    else { "Java"@ }
}

/// Format a source language string (lowercase) into a capitalized display name.
///
/// Returns `"Java"` for unrecognized or missing language identifiers.
pub fn format_lang_display(lang: &str) -> (r: &'static str)
    ensures
        r@ == spec_lang_display(lang@),
{
    if str_eq(lang, "kotlin") { "Kotlin" }
    else if str_eq(lang, "scala") { "Scala" }
    else if str_eq(lang, "groovy") { "Groovy" }
    else if str_eq(lang, "clojure") { "Clojure" }
    else if str_eq(lang, "unknown") { "Unknown" }
    else { "Java" }
}

/// The kind of symbol extracted from a classfile.
#[derive(Debug, Clone, Copy, PartialEq, Eq, Structural)]
pub enum SymbolKind {
    /// A class, interface, enum, or annotation type.
    Class,
    /// A method or constructor.
    Method,
    /// A field (instance or static).
    Field,
}

/// The lowercase name of a symbol kind.
pub open spec fn kind_name(k: SymbolKind) -> Seq<char> {
    match k {
        SymbolKind::Class => "class"@,
        SymbolKind::Method => "method"@,
        SymbolKind::Field => "field"@,
    }
}

impl SymbolKind {
    /// Returns the lowercase string representation (`"class"`, `"method"`, or `"field"`).
    pub fn as_str(&self) -> (r: &'static str)
        ensures
            r@ == kind_name(*self),
    {
        match self {
            SymbolKind::Class => "class",
            SymbolKind::Method => "method",
            SymbolKind::Field => "field",
        }
    }
}

/// Visibility level of a symbol.
#[derive(Debug, Clone, Copy, PartialEq, Eq, Structural)]
pub enum AccessLevel {
    /// `public`.
    Public,
    /// `protected`.
    Protected,
    /// Neither public, protected nor private.
    PackagePrivate,
    /// `private`.
    Private,
}

/// The index name of an access level.
pub open spec fn access_level_name(a: AccessLevel) -> Seq<char> {
    match a {
        AccessLevel::Public => "public"@,
        AccessLevel::Protected => "protected"@,
        AccessLevel::PackagePrivate => "package_private"@,
        AccessLevel::Private => "private"@,
    }
}

impl AccessLevel {
    /// The name stored in the index (`"public"`, `"protected"`, `"package_private"`, `"private"`).
    pub fn as_str(&self) -> (r: &'static str)
        ensures
            r@ == access_level_name(*self),
    {
        match self {
            AccessLevel::Public => "public",
            AccessLevel::Protected => "protected",
            AccessLevel::PackagePrivate => "package_private",
            AccessLevel::Private => "private",
        }
    }
}

/// A symbol extracted from a class file, ready to be indexed.
#[derive(Debug, Clone)]
pub struct SymbolDoc {
    /// Maven GAV coordinates (`group:artifact:version`).
    pub gav: String,
    /// Whether this symbol is a class, method, or field.
    pub symbol_kind: SymbolKind,
    /// Fully qualified name (e.g. `com.google.common.collect.ImmutableList`).
    pub fqn: String,
    /// Java package name (e.g. `com.google.common.collect`).
    pub package: String,
    /// Simple class name, with inner-class `$` replaced by `.` (e.g. `Map.Entry`).
    pub class_name: String,
    /// Simple (unqualified) name of the symbol itself.
    pub simple_name: String,
    /// CamelCase-split tokens for search (e.g. `"Immutable List"` for `ImmutableList`).
    pub name_parts: String,
    /// Raw JVM type/method descriptor (e.g. `(ILjava/lang/String;)V`).
    pub descriptor: String,
    /// Human-readable signatures (Java and optional Kotlin).
    pub signature: SignatureDisplay,
    /// Java access modifiers as a space-separated string (e.g. `"public static final"`).
    pub access_flags: String,
    /// Visibility level: `"public"`, `"protected"`, `"private"`, or `"package_private"`.
    pub access_level: String,
    /// Source origin and metadata (source JAR path, language, file name).
    pub source: SourceOrigin,
}

/// A search result returned to the user.
#[derive(Debug, Clone)]
pub struct SearchResult {
    /// Maven GAV coordinates of the dependency containing this symbol.
    pub gav: String,
    /// Whether this symbol is a class, method, or field.
    pub symbol_kind: SymbolKind,
    /// Fully qualified name of the symbol.
    pub fqn: String,
    /// Simple (unqualified) name of the symbol.
    pub simple_name: String,
    /// Human-readable signatures (Java and optional Kotlin).
    pub signature: SignatureDisplay,
    /// Java access modifiers as a space-separated string.
    pub access_flags: String,
    /// Source origin tag: `"source_jar"` or `"decompiled"`.
    pub source: String,
    /// Source language detected from the classfile SourceFile attribute.
    pub source_language: Option<SourceLanguage>,
    /// Classpaths (short configuration names) that include the dependency.
    pub classpaths: Vec<String>,
}

impl SearchResult {
    /// Whether a source JAR is available for this symbol.
    pub fn has_source(&self) -> (r: bool)
        ensures
            r == (self.source@ == "source_jar"@),
    {
        str_eq(self.source.as_str(), "source_jar")
    }
}

/// Source code provided by a source JAR or decompiler.
#[derive(Debug)]
pub enum SourceProvider {
    /// Source extracted from a source JAR (Java or Kotlin).
    SourceJar {
        /// The source file content.
        content: String,
        /// Path inside the source JAR (e.g. `com/google/common/collect/ImmutableList.java`).
        path: String,
        /// Source language.
        language: SourceLanguage,
    },
    /// Source produced by an external decompiler (CFR or Vineflower).
    Decompiler {
        /// The decompiled source content.
        content: String,
    },
}

/// Resolved source code with optional secondary view.
///
/// When the primary source is non-Java, a secondary decompiled Java view may be provided.
#[derive(Debug)]
pub struct ResolvedSource {
    /// Maven GAV coordinates of the dependency containing this class.
    pub gav: String,
    /// Primary source (source JAR preferred over decompiler).
    pub primary: SourceProvider,
    /// Secondary source view (e.g. decompiler Java for non-Java sources).
    pub secondary: Option<SourceProvider>,
}

} // verus!
