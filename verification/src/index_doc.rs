//! The stored fields of an indexed symbol, how a symbol is written to them
//! and how a search result is read back, and how a query picks its search
//! mode.
use vstd::prelude::*;
use crate::jar::SourceTable;
use crate::model::{
    SearchResult, SignatureDisplay, SourceLanguage, SourceOrigin, SymbolDoc, SymbolKind,
    access_level_name, kind_name, language_name, origin_file_name, origin_language,
};
use crate::error::CliError;
use crate::text::{chars_of, join, join_vecs, push_seq, push_str, split_chars, split_on, str_eq, string_of};

verus! {

/// The text fields stored for one symbol in the index.
#[derive(Debug, Clone)]
pub struct IndexedFields {
    /// Maven GAV coordinates.
    pub gav: String,
    /// `class`, `method` or `field`.
    pub symbol_kind: String,
    /// Fully qualified name.
    pub fqn: String,
    /// Java package.
    pub package: String,
    /// Simple class name.
    pub class_name: String,
    /// Simple name of the symbol.
    pub simple_name: String,
    /// CamelCase-split tokens.
    pub name_parts: String,
    /// The simple name reversed (for suffix queries).
    pub simple_name_rev: String,
    /// The package reversed (for suffix queries).
    pub package_rev: String,
    /// JVM descriptor.
    pub descriptor: String,
    /// Java signature.
    pub signature_java: String,
    /// Kotlin signature, empty when none.
    pub signature_kotlin: String,
    /// Java modifiers.
    pub access_flags: String,
    /// Access level name.
    pub access_level: String,
    /// `source_jar` or `decompiled`.
    pub source: String,
    /// Path inside the source JAR, empty when none.
    pub source_path: String,
    /// Source language name, empty when unknown.
    pub source_language: String,
    /// SourceFile name, empty when none.
    pub source_file_name: String,
    /// Comma-separated classpaths.
    pub classpaths: String,
}

/// A text reversed character by character.
pub open spec fn reversed(s: Seq<char>) -> Seq<char> {
    Seq::new(s.len(), |i: int| s[s.len() - 1 - i])
}

/// Reverse a text character by character.
pub fn reverse_str(s: &str) -> (r: String)
    ensures
        r@ == reversed(s@),
{
    let v = chars_of(s);
    let mut out: Vec<char> = Vec::new();
    let mut i: usize = v.len();
    while i > 0
        invariant
            0 <= i <= v@.len(),
            v@ == s@,
            out@.len() == v@.len() - i,
            forall|k: int| 0 <= k < out@.len() ==> out@[k] == v@[v@.len() - 1 - k],
        decreases i,
    {
        out.push(v[i - 1]);
        i = i - 1;
    }
    assert(out@ =~= reversed(s@));
    string_of(&out)
}

/// An optional text stored as a field: empty when absent.
pub open spec fn or_empty(o: Option<Seq<char>>) -> Seq<char> {
    match o { Some(s) => s, None => Seq::empty() }
}

/// The view of an optional string.
pub open spec fn opt_str(o: Option<String>) -> Option<Seq<char>> {
    match o { Some(s) => Some(s@), None => None }
}

/// The path of a source origin, when it is a source JAR with a path.
pub open spec fn origin_path(o: SourceOrigin) -> Option<Seq<char>> {
    match o {
        SourceOrigin::SourceJar { source_path: Some(p), .. } => Some(p@),
        _ => None,
    }
}

/// The fields stored for a symbol.
pub open spec fn fields_of(f: IndexedFields, d: SymbolDoc, classpaths: Seq<char>) -> bool {
    &&& f.gav@ == d.gav@
    &&& f.symbol_kind@ == kind_name(d.symbol_kind)
    &&& f.fqn@ == d.fqn@
    &&& f.package@ == d.package@
    &&& f.class_name@ == d.class_name@
    &&& f.simple_name@ == d.simple_name@
    &&& f.name_parts@ == d.name_parts@
    &&& f.simple_name_rev@ == reversed(d.simple_name@)
    &&& f.package_rev@ == reversed(d.package@)
    &&& f.descriptor@ == d.descriptor@
    &&& f.signature_java@ == d.signature.java@
    &&& f.signature_kotlin@ == or_empty(opt_str(d.signature.kotlin))
    &&& f.access_flags@ == d.access_flags@
    &&& f.access_level@ == d.access_level@
    &&& f.source@ == (if d.source is SourceJar { "source_jar"@ } else { "decompiled"@ })
    &&& f.source_path@ == or_empty(origin_path(d.source))
    &&& f.source_language@ == match origin_language(d.source) { Some(l) => language_name(l), None => Seq::empty() }
    &&& f.source_file_name@ == or_empty(opt_str(origin_file_name(d.source)))
    &&& f.classpaths@ == classpaths
}

fn text_or_empty(o: Option<&str>) -> (r: String)
    ensures
        r@ == (match o { Some(s) => s@, None => Seq::empty() }),
{
    match o {
        Some(s) => string_of(&chars_of(s)),
        None => String::new(),
    }
}

/// The fields stored in the index for a symbol.
pub fn symbol_fields(d: &SymbolDoc, classpaths: &str) -> (r: IndexedFields)
    ensures
        fields_of(r, *d, classpaths@),
{
    let lang: String = match d.source.source_language() {
        Some(l) => string_of(&chars_of(l.as_str())),
        None => String::new(),
    };
    let kotlin: Option<&str> = match &d.signature.kotlin {
        Some(k) => Some(k.as_str()),
        None => None,
    };
    IndexedFields {
        gav: d.gav.clone(),
        symbol_kind: string_of(&chars_of(d.symbol_kind.as_str())),
        fqn: d.fqn.clone(),
        package: d.package.clone(),
        class_name: d.class_name.clone(),
        simple_name: d.simple_name.clone(),
        name_parts: d.name_parts.clone(),
        simple_name_rev: reverse_str(d.simple_name.as_str()),
        package_rev: reverse_str(d.package.as_str()),
        descriptor: d.descriptor.clone(),
        signature_java: d.signature.java.clone(),
        signature_kotlin: text_or_empty(kotlin),
        access_flags: d.access_flags.clone(),
        access_level: d.access_level.clone(),
        source: string_of(&chars_of(d.source.as_str())),
        source_path: text_or_empty(d.source.source_path()),
        source_language: lang,
        source_file_name: text_or_empty(d.source.source_file_name()),
        classpaths: string_of(&chars_of(classpaths)),
    }
}

/// The kind named by a stored kind field; `class` for anything else.
pub open spec fn kind_of_name(s: Seq<char>) -> SymbolKind {
    if s == "method"@ { SymbolKind::Method } else if s == "field"@ { SymbolKind::Field } else { SymbolKind::Class }
}

/// The language named by a stored language field; none for anything else.
pub open spec fn language_of_name(s: Seq<char>) -> Option<SourceLanguage> {
    if s == "java"@ { Some(SourceLanguage::Java) }
    else if s == "kotlin"@ { Some(SourceLanguage::Kotlin) }
    else if s == "scala"@ { Some(SourceLanguage::Scala) }
    else if s == "groovy"@ { Some(SourceLanguage::Groovy) }
    else if s == "clojure"@ { Some(SourceLanguage::Clojure) }
    else if s == "unknown"@ { Some(SourceLanguage::Unknown) }
    else { None }
}

/// The classpaths stored for a symbol as a list: none when the field is
/// empty, else its comma-separated names.
pub open spec fn classpath_list(s: Seq<char>) -> Seq<Seq<char>> {
    if s.len() == 0 { Seq::empty() } else { split_on(s, ',') }
}

/// The search result read from stored fields.
pub open spec fn result_of(r: SearchResult, f: IndexedFields) -> bool {
    &&& r.gav@ == f.gav@
    &&& r.symbol_kind == kind_of_name(f.symbol_kind@)
    &&& r.fqn@ == f.fqn@
    &&& r.simple_name@ == f.simple_name@
    &&& r.signature.java@ == f.signature_java@
    &&& opt_str(r.signature.kotlin) == (if f.signature_kotlin@.len() == 0 { None } else { Some(f.signature_kotlin@) })
    &&& r.access_flags@ == f.access_flags@
    &&& r.source@ == f.source@
    &&& r.source_language == language_of_name(f.source_language@)
    &&& r.classpaths@.map_values(|c: String| c@) == classpath_list(f.classpaths@)
}

fn classpaths_of(s: &str) -> (r: Vec<String>)
    ensures
        r@.map_values(|c: String| c@) == classpath_list(s@),
{
    let v = chars_of(s);
    let mut out: Vec<String> = Vec::new();
    if v.len() == 0 {
        assert(out@.map_values(|c: String| c@) =~= classpath_list(s@));
        return out;
    }
    let parts = split_chars(&v, ',');
    let ghost pv = parts@.map_values(|p: Vec<char>| p@);
    let mut i: usize = 0;
    while i < parts.len()
        invariant
            0 <= i <= parts@.len(),
            pv == parts@.map_values(|p: Vec<char>| p@),
            out@.map_values(|c: String| c@) == pv.take(i as int),
        decreases parts@.len() - i,
    {
        let ghost before = out@.map_values(|c: String| c@);
        let name = string_of(parts[i].as_slice());
        assert(name@ == pv[i as int]);
        out.push(name);
        assert(out@.map_values(|c: String| c@) =~= before.push(pv[i as int]));
        assert(pv.take(i as int + 1) =~= pv.take(i as int).push(pv[i as int]));
        i = i + 1;
    }
    assert(pv.take(pv.len() as int) =~= pv);
    out
}

pub(crate) fn kind_from_name(s: &str) -> (r: SymbolKind)
    ensures
        r == kind_of_name(s@),
{
    if str_eq(s, "method") { SymbolKind::Method } else if str_eq(s, "field") { SymbolKind::Field } else { SymbolKind::Class }
}

fn language_from_name(s: &str) -> (r: Option<SourceLanguage>)
    ensures
        r == language_of_name(s@),
{
    if str_eq(s, "java") { Some(SourceLanguage::Java) }
    else if str_eq(s, "kotlin") { Some(SourceLanguage::Kotlin) }
    else if str_eq(s, "scala") { Some(SourceLanguage::Scala) }
    else if str_eq(s, "groovy") { Some(SourceLanguage::Groovy) }
    else if str_eq(s, "clojure") { Some(SourceLanguage::Clojure) }
    else if str_eq(s, "unknown") { Some(SourceLanguage::Unknown) }
    else { None }
}

/// Read a search result back from the stored fields of a symbol.
pub fn doc_to_search_result(f: &IndexedFields) -> (r: SearchResult)
    ensures
        result_of(r, *f),
{
    let kv = chars_of(f.signature_kotlin.as_str());
    let kotlin = if kv.len() == 0 { None } else { Some(f.signature_kotlin.clone()) };
    SearchResult {
        gav: f.gav.clone(),
        symbol_kind: kind_from_name(f.symbol_kind.as_str()),
        fqn: f.fqn.clone(),
        simple_name: f.simple_name.clone(),
        signature: SignatureDisplay { java: f.signature_java.clone(), kotlin },
        access_flags: f.access_flags.clone(),
        source: f.source.clone(),
        source_language: language_from_name(f.source_language.as_str()),
        classpaths: classpaths_of(f.classpaths.as_str()),
    }
}

/// What a search result read back from the index gives of the symbol that
/// was written: its GAV, kind, names, signatures (a Kotlin signature that
/// is present and not empty), modifiers, source tag and language.
pub proof fn law_index_round_trip(d: SymbolDoc, classpaths: Seq<char>, f: IndexedFields, r: SearchResult)
    requires
        fields_of(f, d, classpaths),
        result_of(r, f),
        d.signature.kotlin matches Some(k) ==> k@.len() > 0,
    ensures
        r.gav@ == d.gav@,
        r.symbol_kind == d.symbol_kind,
        r.fqn@ == d.fqn@,
        r.simple_name@ == d.simple_name@,
        r.signature.java@ == d.signature.java@,
        opt_str(r.signature.kotlin) == opt_str(d.signature.kotlin),
        r.access_flags@ == d.access_flags@,
        (r.source@ == "source_jar"@) == (d.source is SourceJar),
        r.source_language == origin_language(d.source),
        r.classpaths@.map_values(|c: String| c@) == classpath_list(classpaths),
{
    reveal_strlit("method");
    reveal_strlit("field");
    reveal_strlit("class");
    reveal_strlit("source_jar");
    reveal_strlit("decompiled");
    reveal_strlit("java");
    reveal_strlit("kotlin");
    reveal_strlit("scala");
    reveal_strlit("groovy");
    reveal_strlit("clojure");
    reveal_strlit("unknown");
    match d.symbol_kind {
        SymbolKind::Class => {
            assert("class"@ != "method"@) by { assert("class"@.len() != "method"@.len()); }
            assert("class"@ != "field"@) by { assert("class"@[0] != "field"@[0]); }
        },
        SymbolKind::Method => {},
        SymbolKind::Field => {
            assert("field"@ != "method"@) by { assert("field"@.len() != "method"@.len()); }
        },
    }
    assert("decompiled"@ != "source_jar"@) by { assert("decompiled"@[0] != "source_jar"@[0]); }
    if d.signature.kotlin is Some {
        assert(f.signature_kotlin@.len() > 0);
    }
    match origin_language(d.source) {
        Some(SourceLanguage::Java) => {},
        Some(SourceLanguage::Kotlin) => {
            assert("kotlin"@ != "java"@) by { assert("kotlin"@.len() != "java"@.len()); }
        },
        Some(SourceLanguage::Scala) => {
            assert("scala"@ != "java"@) by { assert("scala"@.len() != "java"@.len()); }
            assert("scala"@ != "kotlin"@) by { assert("scala"@.len() != "kotlin"@.len()); }
        },
        Some(SourceLanguage::Groovy) => {
            assert("groovy"@ != "java"@) by { assert("groovy"@.len() != "java"@.len()); }
            assert("groovy"@ != "kotlin"@) by { assert("groovy"@[0] != "kotlin"@[0]); }
            assert("groovy"@ != "scala"@) by { assert("groovy"@.len() != "scala"@.len()); }
        },
        Some(SourceLanguage::Clojure) => {
            assert("clojure"@ != "java"@) by { assert("clojure"@.len() != "java"@.len()); }
            assert("clojure"@ != "kotlin"@) by { assert("clojure"@.len() != "kotlin"@.len()); }
            assert("clojure"@ != "scala"@) by { assert("clojure"@.len() != "scala"@.len()); }
            assert("clojure"@ != "groovy"@) by { assert("clojure"@.len() != "groovy"@.len()); }
        },
        Some(SourceLanguage::Unknown) => {
            assert("unknown"@ != "java"@) by { assert("unknown"@.len() != "java"@.len()); }
            assert("unknown"@ != "kotlin"@) by { assert("unknown"@.len() != "kotlin"@.len()); }
            assert("unknown"@ != "scala"@) by { assert("unknown"@.len() != "scala"@.len()); }
            assert("unknown"@ != "groovy"@) by { assert("unknown"@.len() != "groovy"@.len()); }
            assert("unknown"@ != "clojure"@) by { assert("unknown"@[0] != "clojure"@[0]); }
        },
        None => {
            assert(Seq::<char>::empty() != "java"@) by { assert("java"@.len() != 0); }
            assert(Seq::<char>::empty() != "kotlin"@) by { assert("kotlin"@.len() != 0); }
            assert(Seq::<char>::empty() != "scala"@) by { assert("scala"@.len() != 0); }
            assert(Seq::<char>::empty() != "groovy"@) by { assert("groovy"@.len() != 0); }
            assert(Seq::<char>::empty() != "clojure"@) by { assert("clojure"@.len() != 0); }
            assert(Seq::<char>::empty() != "unknown"@) by { assert("unknown"@.len() != 0); }
        },
    }
}

/// The symbol with its source taken from the source JAR when the table
/// holds its package and SourceFile name.
pub open spec fn spec_attach_source(d: SymbolDoc, table: Map<(Seq<char>, Seq<char>), (Seq<char>, SourceLanguage)>) -> Option<Seq<char>> {
    match origin_file_name(d.source) {
        Some(sfn) => if table.contains_key((d.package@, sfn@)) { Some(table[(d.package@, sfn@)].0) } else { None },
        None => None,
    }
}

/// Whether `r` is `d` with its source promoted to the source-JAR entry
/// that the table holds for its package and SourceFile name (keeping its
/// language and file name), or `d` unchanged when the table holds none.
pub open spec fn attached(r: SymbolDoc, d: SymbolDoc, table: Map<(Seq<char>, Seq<char>), (Seq<char>, SourceLanguage)>) -> bool {
    &&& match spec_attach_source(d, table) {
        Some(path) => r.source matches SourceOrigin::SourceJar { source_path: Some(p), .. }
            && p@ == path
            && origin_language(r.source) == origin_language(d.source)
            && origin_file_name(r.source) == origin_file_name(d.source),
        None => r.source == d.source,
    }
    &&& r.gav == d.gav && r.fqn == d.fqn && r.package == d.package && r.simple_name == d.simple_name
    &&& r.symbol_kind == d.symbol_kind && r.signature == d.signature
    &&& r.class_name == d.class_name && r.name_parts == d.name_parts && r.descriptor == d.descriptor
    &&& r.access_flags == d.access_flags && r.access_level == d.access_level
}

/// Promote a symbol's source to its source JAR entry when the table has one
/// for its package and SourceFile name; otherwise leave it.
pub fn attach_source(d: SymbolDoc, table: &SourceTable) -> (r: SymbolDoc)
    requires
        table.wf(),
    ensures
        attached(r, d, table.view()),
{
    let found: Option<String> = match d.source.source_file_name() {
        Some(sfn) => match table.get(d.package.as_str(), sfn) {
            Some(entry) => Some(entry.path.clone()),
            None => None,
        },
        None => None,
    };
    match found {
        Some(path) => {
            let SymbolDoc {
                gav, symbol_kind, fqn, package, class_name, simple_name, name_parts, descriptor,
                signature, access_flags, access_level, source,
            } = d;
            SymbolDoc {
                gav, symbol_kind, fqn, package, class_name, simple_name, name_parts, descriptor,
                signature, access_flags, access_level, source: source.with_source_jar(path),
            }
        },
        None => d,
    }
}

/// The fields that a current index schema holds; an index without one of
/// them was built by an older version and is rebuilt.
pub open spec fn required_fields() -> Seq<Seq<char>> {
    seq!["gav"@, "symbol_kind"@, "fqn"@, "simple_name"@, "name_parts"@, "signature_java"@,
        "signature_kotlin"@, "access_flags"@, "access_level"@, "source"@, "source_language"@,
        "classpaths"@, "simple_name_rev"@, "package_rev"@]
}

/// The fields that a search needs; an index without one of them cannot be
/// read.
pub open spec fn searched_fields() -> Seq<Seq<char>> {
    required_fields().take(12)
}

/// The names of the fields a current index schema holds.
pub fn required_field_names() -> (r: Vec<&'static str>)
    ensures
        r@.map_values(|n: &'static str| n@) == required_fields(),
{
    let r = vec!["gav", "symbol_kind", "fqn", "simple_name", "name_parts", "signature_java",
        "signature_kotlin", "access_flags", "access_level", "source", "source_language",
        "classpaths", "simple_name_rev", "package_rev"];
    assert(r@.map_values(|n: &'static str| n@) =~= required_fields());
    r
}

/// The names of the fields a search needs.
pub fn searched_field_names() -> (r: Vec<&'static str>)
    ensures
        r@.map_values(|n: &'static str| n@) == searched_fields(),
{
    let r = vec!["gav", "symbol_kind", "fqn", "simple_name", "name_parts", "signature_java",
        "signature_kotlin", "access_flags", "access_level", "source", "source_language", "classpaths"];
    assert(r@.map_values(|n: &'static str| n@) =~= searched_fields());
    r
}

/// The names of `wanted` that `present` lacks, in order.
pub open spec fn lacking(wanted: Seq<Seq<char>>, present: Seq<Seq<char>>) -> Seq<Seq<char>>
    decreases wanted.len(),
{
    if wanted.len() == 0 {
        Seq::empty()
    } else {
        let rest = lacking(wanted.drop_last(), present);
        if present.contains(wanted.last()) { rest } else { rest.push(wanted.last()) }
    }
}

fn contains_name(present: &Vec<String>, name: &str) -> (r: bool)
    ensures
        r == present@.map_values(|p: String| p@).contains(name@),
{
    let ghost pv = present@.map_values(|p: String| p@);
    let mut i: usize = 0;
    while i < present.len()
        invariant
            pv == present@.map_values(|p: String| p@),
            0 <= i <= present@.len(),
            forall|k: int| 0 <= k < i ==> pv[k] != name@,
        decreases present@.len() - i,
    {
        if str_eq(present[i].as_str(), name) {
            assert(pv[i as int] == name@);
            return true;
        }
        i = i + 1;
    }
    false
}

/// The field names of `wanted` missing from the schema's field names `present`.
pub fn missing_fields(wanted: &Vec<&'static str>, present: &Vec<String>) -> (r: Vec<&'static str>)
    ensures
        r@.map_values(|n: &'static str| n@) == lacking(wanted@.map_values(|n: &'static str| n@), present@.map_values(|p: String| p@)),
{
    let ghost wv = wanted@.map_values(|n: &'static str| n@);
    let ghost pv = present@.map_values(|p: String| p@);
    let mut out: Vec<&'static str> = Vec::new();
    let mut i: usize = 0;
    while i < wanted.len()
        invariant
            wv == wanted@.map_values(|n: &'static str| n@),
            pv == present@.map_values(|p: String| p@),
            0 <= i <= wanted@.len(),
            out@.map_values(|n: &'static str| n@) == lacking(wv.take(i as int), pv),
        decreases wanted@.len() - i,
    {
        assert(wv.take(i + 1).drop_last() =~= wv.take(i as int));
        let name = wanted[i];
        if !contains_name(present, name) {
            let ghost before = out@.map_values(|n: &'static str| n@);
            out.push(name);
            assert(out@.map_values(|n: &'static str| n@) =~= before.push(name@));
        }
        i = i + 1;
    }
    assert(wv.take(wv.len() as int) =~= wv);
    out
}

/// Whether an index schema with the field names `present` is current: it
/// lacks none of the required fields.
pub fn is_schema_compatible(present: &Vec<String>) -> (r: bool)
    ensures
        r == (lacking(required_fields(), present@.map_values(|p: String| p@)).len() == 0),
{
    let missing = missing_fields(&required_field_names(), present);
    missing.len() == 0
}

/// The error for an index that lacks fields a search needs: `INDEX_OUTDATED`
/// (not found, exit 3), naming the missing fields joined with `, `, and
/// suggesting `classpath-surfer index refresh`.
pub fn index_outdated_error(missing: &Vec<&'static str>) -> (e: CliError)
    ensures
        e.error_code@ == "INDEX_OUTDATED"@,
        e.exit_code == 3,
        !e.retryable,
        e.message@ == "Index schema is outdated (missing fields: "@
            + join(missing@.map_values(|n: &'static str| n@), ", "@)
            + "). Run `classpath-surfer index refresh` to rebuild."@,
        e.suggested_command matches Some(c) && c@ == "classpath-surfer index refresh"@,
{
    let mut parts: Vec<Vec<char>> = Vec::new();
    let mut i: usize = 0;
    while i < missing.len()
        invariant
            0 <= i <= missing@.len(),
            parts@.map_values(|p: Vec<char>| p@) == missing@.map_values(|n: &'static str| n@).take(i as int),
        decreases missing@.len() - i,
    {
        let ghost before = parts@.map_values(|p: Vec<char>| p@);
        parts.push(chars_of(missing[i]));
        assert(parts@.map_values(|p: Vec<char>| p@) =~= before.push(missing@[i as int]@));
        assert(missing@.map_values(|n: &'static str| n@).take(i + 1)
            =~= missing@.map_values(|n: &'static str| n@).take(i as int).push(missing@[i as int]@));
        i = i + 1;
    }
    assert(missing@.map_values(|n: &'static str| n@).take(missing@.len() as int) =~= missing@.map_values(|n: &'static str| n@));
    let mut msg: Vec<char> = Vec::new();
    push_str(&mut msg, "Index schema is outdated (missing fields: ");
    push_seq(&mut msg, &join_vecs(&parts, ", "));
    push_str(&mut msg, "). Run `classpath-surfer index refresh` to rebuild.");
    CliError::resource_not_found("INDEX_OUTDATED", string_of(&msg))
        .with_suggested_command(string_of(&chars_of("classpath-surfer index refresh")))
}
/// Whether `f` is the index document of symbol `sym`: the fields stored for
/// it, its source promoted from the source table when `has_source`.
pub open spec fn document_of(f: IndexedFields, sym: SymbolDoc, table: Map<(Seq<char>, Seq<char>), (Seq<char>, SourceLanguage)>, has_source: bool, classpaths: Seq<char>) -> bool {
    exists|d: SymbolDoc| #[trigger] fields_of(f, d, classpaths)
        && (if has_source { attached(d, sym, table) } else { d == sym })
}

/// The index documents of a dependency's symbols, in order: each symbol,
/// with its source promoted from the source table when the dependency has a
/// source JAR, stored with the dependency's classpaths.
pub fn dependency_documents(symbols: Vec<SymbolDoc>, table: &SourceTable, has_source: bool, classpaths: &str) -> (r: Vec<IndexedFields>)
    requires
        table.wf(),
    ensures
        r@.len() == symbols@.len(),
        forall|i: int| 0 <= i < r@.len() ==> document_of(#[trigger] r@[i], symbols@[i], table.view(), has_source, classpaths@),
{
    let ghost syms = symbols@;
    let n = symbols.len();
    let mut rest = symbols;
    let mut backwards: Vec<SymbolDoc> = Vec::new();
    while rest.len() > 0
        invariant
            n == syms.len(),
            rest@.len() <= n,
            rest@ == syms.take(rest@.len() as int),
            backwards@.len() == n - rest@.len(),
            forall|j: int| 0 <= j < backwards@.len() ==> backwards@[j] == syms[n - 1 - j],
        decreases rest@.len(),
    {
        let ghost len0 = rest@.len();
        let sym = rest.pop().unwrap();
        assert(sym == syms[len0 - 1]);
        assert(rest@ =~= syms.take(rest@.len() as int));
        backwards.push(sym);
    }
    let mut out: Vec<IndexedFields> = Vec::new();
    while backwards.len() > 0
        invariant
            table.wf(),
            n == syms.len(),
            backwards@.len() + out@.len() == n,
            forall|j: int| 0 <= j < backwards@.len() ==> backwards@[j] == syms[n - 1 - j],
            forall|q: int| 0 <= q < out@.len() ==> document_of(#[trigger] out@[q], syms[q], table.view(), has_source, classpaths@),
        decreases backwards@.len(),
    {
        let ghost q = out@.len();
        let sym = backwards.pop().unwrap();
        assert(sym == syms[q as int]);
        let doc = if has_source { attach_source(sym, table) } else { sym };
        let f = symbol_fields(&doc, classpaths);
        assert(fields_of(f, doc, classpaths@));
        assert(document_of(f, syms[q as int], table.view(), has_source, classpaths@));
        out.push(f);
    }
    out
}
/// Reversing a text twice gives it back.
pub proof fn law_reverse_twice(s: Seq<char>)
    ensures
        reversed(reversed(s)) == s,
{
    assert(reversed(reversed(s)) =~= s);
}

/// A schema that holds every wanted field lacks none of them.
pub proof fn law_nothing_lacking_when_all_present(wanted: Seq<Seq<char>>, present: Seq<Seq<char>>)
    requires
        forall|i: int| 0 <= i < wanted.len() ==> present.contains(#[trigger] wanted[i]),
    ensures
        lacking(wanted, present).len() == 0,
    decreases wanted.len(),
{
    if wanted.len() > 0 {
        assert forall|i: int| 0 <= i < wanted.drop_last().len() implies present.contains(#[trigger] wanted.drop_last()[i]) by {
            assert(wanted.drop_last()[i] == wanted[i]);
        }
        law_nothing_lacking_when_all_present(wanted.drop_last(), present);
        assert(present.contains(wanted[wanted.len() - 1]));
    }
}
} // verus!
