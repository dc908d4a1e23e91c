use classpath_surfer::cli::deps_output;
use classpath_surfer::index_doc::dependency_documents;
use classpath_surfer::jar::{build_source_table, fqn_to_source_stem};
use classpath_surfer::output_model::SearchQuery;
use classpath_surfer::manifest::{
    ClasspathManifest, ConfigurationManifest, DependencyInfo, ModuleManifest, gav_classpath_names, gav_classpaths,
};
use classpath_surfer::model::{SearchResult, SignatureDisplay, SourceLanguage, SourceOrigin, SymbolDoc, SymbolKind};
use classpath_surfer::resolver::class_fqn_of;

fn dep(gav: &str) -> DependencyInfo {
    let parts: Vec<&str> = gav.split(':').collect();
    DependencyInfo {
        group: parts[0].to_string(),
        artifact: parts[1].to_string(),
        version: parts[2].to_string(),
        jar_path: format!("/jars/{}.jar", parts[1]),
        source_jar_path: None,
        scope: "compileClasspath".to_string(),
    }
}

fn config(name: &str, gavs: &[&str]) -> ConfigurationManifest {
    ConfigurationManifest { name: name.to_string(), dependencies: gavs.iter().map(|g| dep(g)).collect() }
}

fn manifest() -> ClasspathManifest {
    ClasspathManifest {
        gradle_version: "8.5".to_string(),
        extraction_timestamp: "2024-01-01T00:00:00Z".to_string(),
        modules: vec![
            ModuleManifest {
                project_path: ":app".to_string(),
                configurations: vec![
                    config("runtimeClasspath", &["com.google.guava:guava:33.0", "org.slf4j:slf4j-api:2.0"]),
                    config("compileClasspath", &["com.google.guava:guava:33.0"]),
                ],
            },
            ModuleManifest {
                project_path: ":lib".to_string(),
                configurations: vec![
                    config("compileClasspath", &["com.google.guava:guava:33.0"]),
                    config("testCompileClasspath", &["junit:junit:4.13"]),
                ],
            },
        ],
    }
}

#[test]
fn gav_classpath_names_are_sorted_and_distinct() {
    let m = manifest();
    assert_eq!(gav_classpath_names(&m, "com.google.guava:guava:33.0"), vec!["compile", "runtime"]);
    assert_eq!(gav_classpath_names(&m, "junit:junit:4.13"), vec!["testCompile"]);
    assert!(gav_classpath_names(&m, "x:y:1").is_empty());
}

#[test]
fn gav_classpaths_joins_names_with_commas() {
    let m = manifest();
    assert_eq!(gav_classpaths(&m, "com.google.guava:guava:33.0"), "compile,runtime");
    assert_eq!(gav_classpaths(&m, "org.slf4j:slf4j-api:2.0"), "runtime");
    assert_eq!(gav_classpaths(&m, "x:y:1"), "");
}

fn all_deps() -> (Vec<(String, usize)>, Vec<Vec<String>>) {
    let all = vec![
        ("com.google.guava:guava:33.0".to_string(), 120),
        ("org.slf4j:slf4j-api:2.0".to_string(), 30),
        ("com.google.code.gson:gson:2.10".to_string(), 80),
    ];
    let cps = vec![
        vec!["compileClasspath".to_string(), "runtimeClasspath".to_string()],
        vec!["runtimeClasspath".to_string()],
        vec!["compileClasspath".to_string()],
    ];
    (all, cps)
}

#[test]
fn deps_output_filters_by_glob_and_classpath() {
    let (all, cps) = all_deps();
    let out = deps_output(&all, &cps, Some("com.google.*"), None, 50, 0);
    assert_eq!(out.total_count, 2);
    assert_eq!(out.filter.as_deref(), Some("com.google.*"));
    let gavs: Vec<&str> = out.dependencies.iter().map(|d| d.gav.as_str()).collect();
    assert_eq!(gavs, vec!["com.google.guava:guava:33.0", "com.google.code.gson:gson:2.10"]);
    assert_eq!(out.dependencies[1].symbol_count, 80);
    assert!(!out.has_more);

    let out = deps_output(&all, &cps, None, Some("runtimeClasspath"), 50, 0);
    let gavs: Vec<&str> = out.dependencies.iter().map(|d| d.gav.as_str()).collect();
    assert_eq!(gavs, vec!["com.google.guava:guava:33.0", "org.slf4j:slf4j-api:2.0"]);
    assert_eq!(out.dependencies[0].scopes, vec!["compileClasspath", "runtimeClasspath"]);
    assert!(out.filter.is_none());
}

#[test]
fn deps_output_paginates() {
    let (all, cps) = all_deps();
    let out = deps_output(&all, &cps, None, None, 1, 1);
    assert_eq!(out.total_count, 3);
    assert_eq!(out.offset, 1);
    assert_eq!(out.limit, 1);
    assert_eq!(out.dependencies.len(), 1);
    assert_eq!(out.dependencies[0].gav, "org.slf4j:slf4j-api:2.0");
    assert!(out.has_more);

    let out = deps_output(&all, &cps, None, None, 10, 5);
    assert!(out.dependencies.is_empty());
    assert!(!out.has_more);
}

fn search_result(kind: SymbolKind, fqn: &str, simple: &str) -> SearchResult {
    SearchResult {
        gav: "g:a:1".to_string(),
        symbol_kind: kind,
        fqn: fqn.to_string(),
        simple_name: simple.to_string(),
        signature: SignatureDisplay { java: String::new(), kotlin: None },
        access_flags: "public".to_string(),
        source: "decompiled".to_string(),
        source_language: None,
        classpaths: Vec::new(),
    }
}

#[test]
fn class_fqn_of_strips_member_name() {
    assert_eq!(class_fqn_of(&search_result(SymbolKind::Class, "com.example.Foo", "Foo")), "com.example.Foo");
    assert_eq!(class_fqn_of(&search_result(SymbolKind::Method, "com.example.Foo.bar", "bar")), "com.example.Foo");
    assert_eq!(class_fqn_of(&search_result(SymbolKind::Field, "com.example.Foo.COUNT", "COUNT")), "com.example.Foo");
}

fn symbol(fqn: &str, package: &str, simple: &str, file: Option<&str>) -> SymbolDoc {
    SymbolDoc {
        gav: "g:a:1".to_string(),
        symbol_kind: SymbolKind::Class,
        fqn: fqn.to_string(),
        package: package.to_string(),
        class_name: simple.to_string(),
        simple_name: simple.to_string(),
        name_parts: simple.to_string(),
        descriptor: String::new(),
        signature: SignatureDisplay { java: format!("public class {simple}"), kotlin: None },
        access_flags: "public".to_string(),
        access_level: "public".to_string(),
        source: SourceOrigin::Decompiled {
            source_language: Some(SourceLanguage::Kotlin),
            source_file_name: file.map(|f| f.to_string()),
        },
    }
}

#[test]
fn dependency_documents_attach_sources_in_order() {
    let files = vec![(
        "jvmMain/com/example/Foo.kt".to_string(),
        b"package com.example\n\nclass Foo".to_vec(),
    )];
    let table = build_source_table(&files);
    let symbols = vec![
        symbol("com.example.Foo", "com.example", "Foo", Some("Foo.kt")),
        symbol("com.example.Bar", "com.example", "Bar", Some("Bar.kt")),
    ];
    let docs = dependency_documents(symbols.clone(), &table, true, "compileClasspath");
    assert_eq!(docs.len(), 2);
    assert_eq!(docs[0].fqn, "com.example.Foo");
    assert_eq!(docs[0].source, "source_jar");
    assert_eq!(docs[0].source_path, "jvmMain/com/example/Foo.kt");
    assert_eq!(docs[0].source_language, "kotlin");
    assert_eq!(docs[0].simple_name_rev, "ooF");
    assert_eq!(docs[0].package_rev, "elpmaxe.moc");
    assert_eq!(docs[0].classpaths, "compileClasspath");
    assert_eq!(docs[1].fqn, "com.example.Bar");
    assert_eq!(docs[1].source, "decompiled");
    assert_eq!(docs[1].source_path, "");

    let plain = dependency_documents(symbols, &table, false, "");
    assert_eq!(plain[0].source, "decompiled");
    assert_eq!(plain[0].source_file_name, "Foo.kt");
}

#[test]
fn signature_for_language_prefers_kotlin_when_present() {
    let both = SignatureDisplay { java: "public final int size()".to_string(), kotlin: Some("fun size(): Int".to_string()) };
    assert_eq!(both.for_language("kotlin"), "fun size(): Int");
    assert_eq!(both.for_language("java"), "public final int size()");
    let java_only = SignatureDisplay { java: "public int size()".to_string(), kotlin: None };
    assert_eq!(java_only.for_language("kotlin"), "public int size()");
}

#[test]
fn fqn_to_source_stem_uses_the_outer_class() {
    assert_eq!(
        fqn_to_source_stem("com.google.common.collect.ImmutableList.Builder"),
        "com/google/common/collect/ImmutableList"
    );
    assert_eq!(fqn_to_source_stem("com.example.Foo"), "com/example/Foo");
}

#[test]
fn search_query_constructors_set_defaults() {
    let q = SearchQuery::simple("ImmutableList");
    assert_eq!(q.query, Some("ImmutableList"));
    assert_eq!(q.limit, 20);
    assert_eq!(q.offset, 0);
    assert!(q.symbol_types.is_empty() && !q.fqn_mode && !q.regex_mode);
    let kinds = [SymbolKind::Class];
    let q = SearchQuery::with_types("List", &kinds);
    assert_eq!(q.query, Some("List"));
    assert_eq!(q.symbol_types, &[SymbolKind::Class]);
    assert_eq!(q.limit, 20);
}
