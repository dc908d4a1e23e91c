use classpath_surfer::model::{SearchResult, SignatureDisplay, SourceLanguage, SourceOrigin, SymbolKind};
use classpath_surfer::output_model::{ShowOutput, SourceView};
use classpath_surfer::view::{
    clamp_scroll, column_title, current_view, dep_detail_lines, deps_row, deps_title,
    format_classpaths, hint_text, kind_badge, marked_name, metadata_lines, metadata_panel_height,
    overflow_indicators, pkg_detail_lines, search_detail_height, search_detail_lines, search_row,
    search_title, short_source_label, show_hint, show_title, signature_text, source_label,
    symbol_detail_lines, symbol_row, symbols_title,
};

fn result(source: &str, lang: Option<SourceLanguage>, kotlin: Option<&str>) -> SearchResult {
    SearchResult {
        gav: "com.example:lib:1.0".to_string(),
        symbol_kind: SymbolKind::Method,
        fqn: "com.example.Foo.bar".to_string(),
        simple_name: "bar".to_string(),
        signature: SignatureDisplay {
            java: "public void bar()".to_string(),
            kotlin: kotlin.map(|k| k.to_string()),
        },
        access_flags: "public".to_string(),
        source: source.to_string(),
        source_language: lang,
        classpaths: vec!["compile".to_string()],
    }
}

fn view(source: SourceOrigin, language: &str) -> SourceView {
    SourceView {
        content: "class A\n".to_string(),
        language: language.to_string(),
        source,
        line_count: 1,
        focus: None,
    }
}

fn pairs(lines: Vec<(String, String)>) -> Vec<(String, String)> {
    lines
}

#[test]
fn source_labels() {
    assert_eq!(source_label(&result("source_jar", Some(SourceLanguage::Kotlin), None)), "Kotlin");
    assert_eq!(source_label(&result("source_jar", None, None)), "Java");
    assert_eq!(source_label(&result("decompiled", Some(SourceLanguage::Kotlin), None)), "Decompiled");
    assert_eq!(short_source_label(&result("decompiled", None, None)), "Decomp");
}

#[test]
fn badges_and_signatures() {
    assert_eq!(kind_badge(SymbolKind::Class), "C");
    assert_eq!(kind_badge(SymbolKind::Method), "M");
    assert_eq!(kind_badge(SymbolKind::Field), "F");
    assert_eq!(signature_text(&result("decompiled", None, Some("fun bar()"))), "fun bar()");
    assert_eq!(signature_text(&result("decompiled", None, None)), "public void bar()");
}

#[test]
fn search_titles() {
    assert_eq!(search_title("Foo", 2, 2), " Search: Foo (2 results) ");
    assert_eq!(search_title("Foo", 20, 135), " Search: Foo (20/135 results) ");
}

#[test]
fn search_detail_heights() {
    let plain = vec![result("decompiled", None, None)];
    let kotlin = vec![result("decompiled", None, None), result("decompiled", None, Some("fun bar()"))];
    assert_eq!(search_detail_height(&plain, true), 4);
    assert_eq!(search_detail_height(&kotlin, true), 4);
    assert_eq!(search_detail_height(&plain, false), 5);
    assert_eq!(search_detail_height(&kotlin, false), 6);
}

#[test]
fn search_rows() {
    let r = result("source_jar", Some(SourceLanguage::Scala), None);
    assert_eq!(search_row(&r, true), vec!["bar", "Scala"]);
    assert_eq!(
        search_row(&r, false),
        vec!["com.example.Foo.bar", "public void bar()", "Scala", "com.example:lib:1.0"]
    );
}

#[test]
fn search_detail_panel_lines() {
    let r = result("decompiled", None, Some("fun bar()"));
    assert_eq!(
        pairs(search_detail_lines(&r, false)),
        vec![
            (String::new(), "com.example.Foo.bar".to_string()),
            ("Signature(Java): ".to_string(), "public void bar()".to_string()),
            ("Signature(Kotlin): ".to_string(), "fun bar()".to_string()),
            ("Dep: ".to_string(), "com.example:lib:1.0".to_string()),
        ]
    );
    assert_eq!(search_detail_lines(&r, true).len(), 2);
}

#[test]
fn column_titles() {
    assert_eq!(column_title("Deps", None, 3), " Deps (3) ");
    assert_eq!(column_title("Packages", Some("com.*"), 12), " Packages 'com.*' (12) ");
    assert_eq!(symbols_title(None, 50, 120, true), " Symbols (50/120+) ");
    assert_eq!(symbols_title(Some("Foo"), 7, 7, false), " Symbols 'Foo' (7) ");
    assert_eq!(deps_title(None, 4), " Dependencies (4 total) ");
    assert_eq!(deps_title(Some("guava"), 1), " Dependencies matching 'guava' (1 total) ");
}

#[test]
fn marked_names() {
    assert_eq!(marked_name(true, false, "com.a"), "> com.a");
    assert_eq!(marked_name(true, true, "com.a"), "  com.a");
    assert_eq!(marked_name(false, false, "com.a"), "  com.a");
}

#[test]
fn symbol_rows_and_details() {
    let r = result("decompiled", None, None);
    assert_eq!(symbol_row(&r), vec!["M", "bar", "Decomp"]);
    assert_eq!(
        pairs(symbol_detail_lines(&r)),
        vec![
            (String::new(), "com.example.Foo.bar".to_string()),
            ("Signature: ".to_string(), "public void bar()".to_string()),
            ("Dep: ".to_string(), "com.example:lib:1.0".to_string()),
        ]
    );
}

#[test]
fn dependency_and_package_details() {
    let cps = vec!["compile".to_string(), "runtime".to_string()];
    assert_eq!(format_classpaths(&cps), "compile, runtime");
    assert_eq!(format_classpaths(&Vec::new()), "");
    assert_eq!(
        pairs(dep_detail_lines("g:a:1", 42, &cps)),
        vec![
            (String::new(), "g:a:1".to_string()),
            ("Symbols: ".to_string(), "42".to_string()),
            ("Classpaths: ".to_string(), "compile, runtime".to_string()),
        ]
    );
    assert_eq!(dep_detail_lines("g:a:1", 0, &Vec::new()).len(), 2);
    assert_eq!(
        pairs(pkg_detail_lines("com.a", 9)),
        vec![(String::new(), "com.a".to_string()), ("Symbols: ".to_string(), "9".to_string())]
    );
    assert_eq!(deps_row("g:a:1", 7, &cps), vec!["g:a:1", "7", "compile, runtime"]);
}

#[test]
fn hint_bars() {
    assert_eq!(hint_text(Some("boom"), true), " Error: boom ");
    assert_eq!(hint_text(None, false), " ↑↓ navigate | Enter show source | q/Esc quit ");
    assert_eq!(hint_text(None, true), " ←→ columns | ↑↓ navigate | Enter show source | q quit ");
    assert_eq!(show_hint(true, true), " ↑↓/PgUp/PgDn scroll | Tab switch view | Esc back | q quit ");
    assert_eq!(show_hint(false, false), " ↑↓/PgUp/PgDn scroll | q/Esc quit ");
}

#[test]
fn overflow_markers() {
    assert_eq!(overflow_indicators(0, 3, 10), (false, false));
    assert_eq!(overflow_indicators(5, 0, 0), (false, false));
    assert_eq!(overflow_indicators(5, 0, 10), (false, true));
    assert_eq!(overflow_indicators(5, 5, 10), (true, false));
    assert_eq!(overflow_indicators(5, 2, 10), (true, true));
}

#[test]
fn source_viewer_panels() {
    let jar = view(
        SourceOrigin::SourceJar {
            source_path: Some("com/example/Foo.kt".to_string()),
            source_language: Some(SourceLanguage::Kotlin),
            source_file_name: None,
        },
        "kotlin",
    );
    let decompiled = view(SourceOrigin::Decompiled { source_language: None, source_file_name: None }, "java");
    assert_eq!(metadata_panel_height(&jar), 5);
    assert_eq!(metadata_panel_height(&decompiled), 4);
    assert_eq!(
        metadata_lines("g:a:1", &jar),
        vec![" Language: Kotlin    Source: Source JAR", " GAV: g:a:1", " Path: com/example/Foo.kt"]
    );
    assert_eq!(metadata_lines("g:a:1", &decompiled), vec![" Language: Java (Decompiled)    Decompiled", " GAV: g:a:1"]);
    assert_eq!(show_title("com.example.Foo", &jar), " com.example.Foo — Source (kotlin) ");
    assert_eq!(show_title("com.example.Foo", &decompiled), " com.example.Foo — Decompiled (java) ");
    let out = ShowOutput {
        fqn: "com.example.Foo".to_string(),
        gav: "g:a:1".to_string(),
        symbol_name: None,
        primary: jar,
        secondary: Some(decompiled),
    };
    assert_eq!(current_view(&out, false).language, "kotlin");
    assert_eq!(current_view(&out, true).language, "java");
}

#[test]
fn scroll_is_clamped() {
    assert_eq!(clamp_scroll(0, 100, 22), 0);
    assert_eq!(clamp_scroll(90, 100, 22), 80);
    assert_eq!(clamp_scroll(10, 5, 22), 0);
    assert_eq!(clamp_scroll(3, 10, 1), 3);
}
