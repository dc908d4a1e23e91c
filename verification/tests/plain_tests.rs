use classpath_surfer::model::{SearchResult, SignatureDisplay, SourceLanguage, SourceOrigin, SymbolKind};
use classpath_surfer::output_model::{
    CleanOutput, DepInfo, DepsOutput, FocusInfo, InitOutput, PkgInfo, PkgsOutput, RefreshOutput, SearchOutput,
    ShowOutput, SourceView, StatusOutput,
};
use classpath_surfer::plain::{
    clean_text, deps_text, init_text, pkgs_text, refresh_text, search_list_text, search_text, show_text, status_text,
};

fn strings(items: &[&str]) -> Vec<String> {
    items.iter().map(|s| s.to_string()).collect()
}

fn deps_output(deps: Vec<DepInfo>, filter: Option<&str>, has_more: bool) -> DepsOutput {
    DepsOutput { filter: filter.map(|f| f.to_string()), total_count: 5, offset: 2, limit: 2, has_more, dependencies: deps }
}

#[test]
fn deps_text_lists_records_and_the_next_offset() {
    let deps = vec![
        DepInfo { gav: "g:a:1".to_string(), symbol_count: 12, scopes: strings(&["compileClasspath", "runtimeClasspath"]) },
        DepInfo { gav: "g:b:2".to_string(), symbol_count: 3, scopes: Vec::new() },
    ];
    let p = deps_text(&deps_output(deps, None, true));
    assert_eq!(p.out, strings(&["g:a:1\t12\tcompile+runtime", "g:b:2\t3\t"]));
    assert_eq!(p.err, strings(&["Showing 2 of 5 dependencies. Use --offset 4 to see more."]));
}

#[test]
fn deps_text_reports_an_empty_listing() {
    let p = deps_text(&deps_output(Vec::new(), Some("io.*"), false));
    assert_eq!(p.out, strings(&["No dependencies matching 'io.*'."]));
    assert!(p.err.is_empty());
    let p = deps_text(&deps_output(Vec::new(), None, false));
    assert_eq!(p.out, strings(&["No dependencies found."]));
}

fn pkgs_output(pkgs: Vec<PkgInfo>, filter: Option<&str>, dependency: Option<&str>) -> PkgsOutput {
    PkgsOutput {
        filter: filter.map(|f| f.to_string()),
        dependency: dependency.map(|d| d.to_string()),
        matched_gavs: None,
        total_count: pkgs.len(),
        offset: 0,
        limit: 50,
        has_more: false,
        packages: pkgs,
    }
}

#[test]
fn pkgs_text_lists_packages_and_empty_cases() {
    let p = pkgs_text(&pkgs_output(vec![PkgInfo { package: "com.example".to_string(), symbol_count: 7 }], None, None));
    assert_eq!(p.out, strings(&["com.example\t7"]));
    assert!(p.err.is_empty());
    assert_eq!(pkgs_text(&pkgs_output(Vec::new(), Some("a.*"), Some("g:a:1"))).out, strings(&["No packages matching 'a.*' in dependency 'g:a:1'."]));
    assert_eq!(pkgs_text(&pkgs_output(Vec::new(), Some("a.*"), None)).out, strings(&["No packages matching 'a.*'."]));
    assert_eq!(pkgs_text(&pkgs_output(Vec::new(), None, Some("g:a:1"))).out, strings(&["No packages found in dependency 'g:a:1'."]));
    assert_eq!(pkgs_text(&pkgs_output(Vec::new(), None, None)).out, strings(&["No packages found."]));
}

fn status(initialized: bool, has_index: bool, deps: usize) -> StatusOutput {
    StatusOutput {
        initialized,
        has_index,
        dependency_count: deps,
        with_source_jars: 2,
        without_source_jars: 1,
        indexed_symbols: if has_index { Some(1234) } else { None },
        is_stale: false,
        index_size: if has_index { Some("2.1 MB".to_string()) } else { None },
    }
}

#[test]
fn status_text_covers_each_state() {
    assert_eq!(status_text(&status(false, false, 0)), strings(&["Not initialized. Run `classpath-surfer index init` first."]));
    assert_eq!(status_text(&status(true, false, 0)), strings(&["No index built. Run `classpath-surfer index refresh` to build it."]));
    assert_eq!(
        status_text(&status(true, true, 3)),
        strings(&[
            "Dependencies: 3",
            "  with source JARs: 2",
            "  without source JARs: 1",
            "Indexed symbols: 1234",
            "Stale: no",
            "Index size: 2.1 MB",
        ])
    );
    assert_eq!(status_text(&status(true, false, 3))[3], "Index: not built");
}

#[test]
fn refresh_init_and_clean_texts() {
    let up = RefreshOutput { mode: "up_to_date".to_string(), dependencies_processed: 0, symbols_indexed: 0 };
    assert_eq!(refresh_text(&up), strings(&["Nothing to refresh. Index is up to date."]));
    let full = RefreshOutput { mode: "full".to_string(), dependencies_processed: 38, symbols_indexed: 77219 };
    assert_eq!(refresh_text(&full), strings(&["Refresh complete: full mode, 38 dependencies processed, 77219 symbols indexed."]));
    let init = InitOutput { actions: strings(&["Created config", "Updated .gitignore"]) };
    assert_eq!(init_text(&init), strings(&["  Created config", "  Updated .gitignore", "Initialization complete."]));
    assert_eq!(clean_text(&CleanOutput { items_removed: Vec::new() }), strings(&["Nothing to clean."]));
    let cleaned = CleanOutput { items_removed: strings(&["index directory"]) };
    assert_eq!(clean_text(&cleaned), strings(&["  index directory", "Clean complete."]));
}

fn result(kind: SymbolKind, fqn: &str, source: &str, lang: Option<SourceLanguage>, kotlin: Option<&str>) -> SearchResult {
    SearchResult {
        gav: "g:a:1".to_string(),
        symbol_kind: kind,
        fqn: fqn.to_string(),
        simple_name: fqn.rsplit('.').next().unwrap().to_string(),
        signature: SignatureDisplay { java: "public void f()".to_string(), kotlin: kotlin.map(|k| k.to_string()) },
        access_flags: "public".to_string(),
        source: source.to_string(),
        source_language: lang,
        classpaths: strings(&["compile", "runtime"]),
    }
}

fn search_output(query: Option<&str>, results: Vec<SearchResult>, total: usize, has_more: bool) -> SearchOutput {
    SearchOutput {
        query: query.map(|q| q.to_string()),
        dependency: None,
        package: None,
        matched_gavs: None,
        total_matches: total,
        offset: 0,
        limit: results.len(),
        has_more,
        results,
    }
}

#[test]
fn search_text_prints_eight_columns() {
    let results = vec![
        result(SymbolKind::Method, "a.B.f", "source_jar", Some(SourceLanguage::Kotlin), Some("fun f()")),
        result(SymbolKind::Class, "a.B", "decompiled", None, None),
    ];
    let p = search_text(&search_output(Some("f"), results, 2, false));
    assert_eq!(
        p.out,
        strings(&[
            "a.B.f\tmethod\tpublic void f()\tfun f()\tsource\tKotlin\tg:a:1\tcompile+runtime",
            "a.B\tclass\tpublic void f()\t\tdecompiled\t\tg:a:1\tcompile+runtime",
        ])
    );
    assert!(p.err.is_empty());
}

#[test]
fn search_text_notes_hidden_matches() {
    let one = vec![result(SymbolKind::Class, "a.B", "source_jar", None, None)];
    let p = search_text(&search_output(Some("B"), one.clone(), 9, true));
    assert_eq!(p.err, strings(&["Showing 1 of 9 matches for 'B'. Use --offset 1 to see more."]));
    assert_eq!(p.out[0], "a.B\tclass\tpublic void f()\t\tsource\tJava\tg:a:1\tcompile+runtime");
    let p = search_text(&search_output(Some("B"), one, 9, false));
    assert_eq!(p.err, strings(&["Showing 1 of 9 matches for 'B'."]));
    let p = search_text(&search_output(None, Vec::new(), 0, false));
    assert_eq!(p.out, strings(&["No matches found for '*'."]));
}

#[test]
fn search_list_text_prints_four_columns() {
    let mut o = search_output(None, vec![result(SymbolKind::Field, "a.B.X", "decompiled", None, None)], 3, true);
    o.dependency = Some("g:*".to_string());
    let p = search_list_text(&o);
    assert_eq!(p.out, strings(&["a.B.X\tfield\tpublic void f()\tg:a:1"]));
    assert_eq!(p.err, strings(&["Showing 1 of 3 symbols. Use --offset 1 to see more."]));
    let mut empty = search_output(None, Vec::new(), 0, false);
    empty.package = Some("a".to_string());
    assert_eq!(search_list_text(&empty).out, strings(&["No symbols found for '*' in package 'a'."]));
}

fn view(content: &str, source: SourceOrigin, focus: Option<FocusInfo>) -> SourceView {
    SourceView { content: content.to_string(), language: "kotlin".to_string(), source, line_count: 2, focus }
}

#[test]
fn show_text_prints_headers_and_sources() {
    let origin = SourceOrigin::SourceJar {
        source_path: Some("kotlinx/coroutines/CoroutineScope.kt".to_string()),
        source_language: Some(SourceLanguage::Kotlin),
        source_file_name: Some("CoroutineScope.kt".to_string()),
    };
    let decompiled = SourceOrigin::Decompiled { source_language: Some(SourceLanguage::Java), source_file_name: None };
    let output = ShowOutput {
        fqn: "kotlinx.coroutines.CoroutineScope".to_string(),
        gav: "org.jetbrains.kotlinx:kotlinx-coroutines-core:1.8.0".to_string(),
        symbol_name: None,
        primary: view("interface CoroutineScope\n", origin, None),
        secondary: Some(SourceView {
            content: "public interface CoroutineScope {}".to_string(),
            language: "java".to_string(),
            source: decompiled,
            line_count: 1,
            focus: None,
        }),
    };
    let (primary, secondary) = show_text(&output);
    assert_eq!(
        primary.err,
        strings(&[
            "// Source (Kotlin): kotlinx/coroutines/CoroutineScope.kt",
            "// GAV: org.jetbrains.kotlinx:kotlinx-coroutines-core:1.8.0",
        ])
    );
    assert_eq!(primary.out, strings(&["interface CoroutineScope\n"]));
    assert_eq!(secondary.err, strings(&["", "// Decompiled Java (secondary view):"]));
    assert_eq!(secondary.out, strings(&["public interface CoroutineScope {}"]));
}

#[test]
fn show_text_numbers_a_focused_view() {
    let decompiled = SourceOrigin::Decompiled { source_language: None, source_file_name: None };
    let focus = FocusInfo { symbol_line: 11, start_line: 10, end_line: 11, total_lines: 40 };
    let output = ShowOutput {
        fqn: "a.B.f".to_string(),
        gav: "g:a:1".to_string(),
        symbol_name: Some("f".to_string()),
        primary: view("fun f() {\r\n}\n", decompiled, Some(focus)),
        secondary: None,
    };
    let (primary, secondary) = show_text(&output);
    assert_eq!(
        primary.err,
        strings(&["// Decompiled (Kotlin, no source JAR available)", "// GAV: g:a:1", "// Lines 10-11 of 40 (focused on 'f')"])
    );
    assert_eq!(primary.out, strings(&["   10 | fun f() {", "   11 | }"]));
    assert!(secondary.out.is_empty() && secondary.err.is_empty());
}
