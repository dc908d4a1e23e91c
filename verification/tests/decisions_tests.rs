use classpath_surfer::browser::{
    ResultsAction, ResultsNav, ShowKey, ShowNav, ShowOutcome, TermKey, classify_browser_key,
    classify_show_key, on_show_key, results_on_key, results_show_opened, BrowserKey,
};
use classpath_surfer::cli::{
    format_scopes, gitignore_update, has_more, page_range, require_index, require_manifest, skip_refresh,
};
use classpath_surfer::config::{OutputMode, effective_limit};
use classpath_surfer::decompiler::{
    DecompilerBackend, decompile_plan, decompiler_args, decompiler_env_var, decompiler_run_outcome,
    is_java_output, vineflower_output,
};
use classpath_surfer::digest::sha256_hex;
use classpath_surfer::staleness::{FileState, check_build_files, saved_build_file_times};
use classpath_surfer::error::{CliError, error_report};
use classpath_surfer::glob::matches_glob_pattern;
use classpath_surfer::gradle::{PollEvent, PollStep, export_args, find_gradle, on_poll, submodule_paths};
use classpath_surfer::index_doc::{
    index_outdated_error, is_schema_compatible, missing_fields, required_field_names,
    reverse_str, searched_field_names,
};
use classpath_surfer::jar::is_class_entry;
use classpath_surfer::manifest::{
    ClasspathManifest, ConfigurationManifest, DependencyInfo, ModuleManifest, compute_diff,
    is_module_manifest_file, merged_manifest,
};
use classpath_surfer::resolver::{class_not_found, decompile_cache_file_name, fqn_to_class_path};

fn dep(group: &str, artifact: &str, version: &str) -> DependencyInfo {
    DependencyInfo {
        group: group.to_string(),
        artifact: artifact.to_string(),
        version: version.to_string(),
        jar_path: format!("/jars/{artifact}-{version}.jar"),
        source_jar_path: None,
        scope: "compileClasspath".to_string(),
    }
}

fn manifest(deps: Vec<DependencyInfo>) -> ClasspathManifest {
    ClasspathManifest {
        gradle_version: "8.5".to_string(),
        extraction_timestamp: String::new(),
        modules: vec![ModuleManifest {
            project_path: ":app".to_string(),
            configurations: vec![ConfigurationManifest { name: "compileClasspath".to_string(), dependencies: deps }],
        }],
    }
}

#[test]
fn glob_patterns_match_whole_texts() {
    assert!(matches_glob_pattern("com.google.guava:guava:33.0", "com.google.*"));
    assert!(matches_glob_pattern("abc", "a?c"));
    assert!(!matches_glob_pattern("abcd", "a?c"));
    assert!(matches_glob_pattern("anything", "*"));
    assert!(matches_glob_pattern("", "*"));
    assert!(matches_glob_pattern("exact", "exact"));
    assert!(!matches_glob_pattern("exact!", "exact"));
}

#[test]
fn diff_of_a_manifest_with_itself_changes_nothing() {
    let m = manifest(vec![dep("g", "a", "1"), dep("g", "b", "2")]);
    let d = compute_diff(&m, &m);
    assert!(d.added.is_empty());
    assert!(d.removed.is_empty());
    assert_eq!(d.unchanged.len(), 2);
}

#[test]
fn diff_partitions_added_removed_unchanged() {
    let current = manifest(vec![dep("g", "a", "1"), dep("g", "c", "3")]);
    let previous = manifest(vec![dep("g", "a", "1"), dep("g", "b", "2")]);
    let d = compute_diff(&current, &previous);
    assert!(d.added.contains("g:c:3"));
    assert!(d.removed.contains("g:b:2"));
    assert!(d.unchanged.contains("g:a:1"));
    assert_eq!(d.added.len() + d.removed.len() + d.unchanged.len(), 3);
}

#[test]
fn module_manifest_files_are_json() {
    assert!(is_module_manifest_file("app.json"));
    assert!(!is_module_manifest_file(".json"));
    assert!(!is_module_manifest_file("app.json.bak"));
    assert!(!is_module_manifest_file("json"));
}

#[test]
fn merging_needs_the_export_directory_and_a_manifest() {
    let e = merged_manifest(false, Vec::new(), "/p/build/classpath-surfer").unwrap_err();
    assert_eq!(e.error_code, "GRADLE_OUTPUT_MISSING");
    assert_eq!(e.exit_code, 3);
    assert_eq!(e.message, "No classpath-surfer output found in /p/build/classpath-surfer. Did the Gradle task run?");
    let e = merged_manifest(true, Vec::new(), "/d").unwrap_err();
    assert_eq!(e.error_code, "NO_MANIFESTS");
    assert_eq!(e.message, "No module manifests found in /d");
    let m = manifest(vec![dep("g", "a", "1")]);
    let merged = merged_manifest(true, m.modules.clone(), "/d").unwrap();
    assert_eq!(merged.modules.len(), 1);
    assert_eq!(merged.gradle_version, "");
}

#[test]
fn gitignore_gets_the_entry_once() {
    assert_eq!(gitignore_update(None), Some(".classpath-surfer/\n".to_string()));
    assert_eq!(gitignore_update(Some("target/")), Some("target/\n.classpath-surfer/\n".to_string()));
    assert_eq!(gitignore_update(Some("target/\n")), Some("target/\n.classpath-surfer/\n".to_string()));
    assert_eq!(gitignore_update(Some("")), Some("\n.classpath-surfer/\n".to_string()));
    assert_eq!(gitignore_update(Some("a\n  .classpath-surfer/  \nb\n")), None);
    let once = gitignore_update(Some("build/\n")).unwrap();
    assert_eq!(gitignore_update(Some(&once)), None);
}

#[test]
fn page_limits_follow_the_output_mode() {
    assert_eq!(effective_limit(Some(7), OutputMode::Tui), 7);
    assert_eq!(effective_limit(None, OutputMode::Tui), 50);
    assert_eq!(effective_limit(None, OutputMode::Agentic), 20);
    assert_eq!(effective_limit(None, OutputMode::Plain), 20);
}

#[test]
fn pages_and_remaining_items() {
    assert_eq!(page_range(10, 3, 4), (3, 7));
    assert_eq!(page_range(10, 8, 4), (8, 10));
    assert_eq!(page_range(10, 12, 4), (10, 10));
    assert!(has_more(0, 4, 10));
    assert!(!has_more(6, 4, 10));
}

#[test]
fn prerequisites() {
    assert_eq!(require_index(false, false).unwrap_err().error_code, "INDEX_NOT_FOUND");
    assert!(require_index(true, false).is_ok());
    let missing = require_index(false, false).unwrap_err();
    assert_eq!(missing.message, "No index found. Run `classpath-surfer index refresh` to build it.");
    assert_eq!(missing.suggested_command.as_deref(), Some("classpath-surfer index refresh"));
    let stale = require_manifest(true, true).unwrap_err();
    assert_eq!(stale.error_code, "INDEX_STALE");
    assert_eq!(stale.suggested_command.as_deref(), Some("classpath-surfer index refresh"));
    assert!(skip_refresh(false, true, false));
    assert!(!skip_refresh(true, true, false));
}

#[test]
fn scopes_are_shortened() {
    let scopes = vec!["compileClasspath".to_string(), "runtimeClasspath".to_string()];
    assert_eq!(format_scopes(&scopes), "compile+runtime");
}

#[test]
fn error_reports() {
    let e = CliError::transient("GRADLE_TIMEOUT", "slow".to_string()).with_suggested_command("retry".to_string());
    let r = error_report(Some(&e), "slow");
    assert!(!r.success);
    assert_eq!(r.error_code, "GRADLE_TIMEOUT");
    assert_eq!(r.exit_code, 1);
    assert!(r.retryable);
    assert_eq!(r.suggested_command.as_deref(), Some("retry"));
    let r = error_report(None, "boom");
    assert_eq!(r.error_code, "UNKNOWN");
    assert_eq!(r.error, "boom");
    assert_eq!(r.exit_code, 1);
    assert!(!r.retryable);
}

#[test]
fn decompiler_jar_and_backend() {
    assert_eq!(decompiler_env_var("cfr"), Some("CFR_JAR"));
    assert_eq!(decompiler_env_var("vineflower"), Some("VINEFLOWER_JAR"));
    assert_eq!(decompiler_env_var("jad"), None);
    let (b, jar) = decompile_plan("cfr", None, Some("/opt/cfr.jar")).unwrap();
    assert_eq!(b, DecompilerBackend::Cfr);
    assert_eq!(jar, "/opt/cfr.jar");
    let (b, jar) = decompile_plan("vineflower", Some("/x/vf.jar"), Some("/opt/vf.jar")).unwrap();
    assert_eq!(b, DecompilerBackend::Vineflower);
    assert_eq!(jar, "/x/vf.jar");
    let e = decompile_plan("cfr", None, None).unwrap_err();
    assert_eq!(e.error_code, "DECOMPILER_NOT_FOUND");
    assert_eq!(e.message, "Decompiler JAR not found. Set --decompiler-jar or install cfr.");
    let e = decompile_plan("jad", None, Some("/opt/jad.jar")).unwrap_err();
    assert_eq!(e.error_code, "DECOMPILER_NOT_FOUND");
    let e = decompile_plan("jad", Some("/opt/jad.jar"), None).unwrap_err();
    assert_eq!(e.error_code, "INVALID_ARGUMENT");
    assert_eq!(e.exit_code, 2);
    assert_eq!(e.message, "Unknown decompiler: 'jad'. Use 'cfr' or 'vineflower'.");
}

#[test]
fn decompiler_runs() {
    assert_eq!(decompiler_args(DecompilerBackend::Cfr, "c.jar", "A.class", "out"), vec!["-jar", "c.jar", "A.class"]);
    assert_eq!(
        decompiler_args(DecompilerBackend::Vineflower, "v.jar", "A.class", "out"),
        vec!["-jar", "v.jar", "A.class", "out"]
    );
    assert_eq!(
        decompiler_run_outcome(DecompilerBackend::Cfr, true, b"class A {}", b"").unwrap(),
        Some("class A {}".to_string())
    );
    assert_eq!(decompiler_run_outcome(DecompilerBackend::Vineflower, true, b"", b"").unwrap(), None);
    let e = decompiler_run_outcome(DecompilerBackend::Cfr, false, b"", b"bad \xFF").unwrap_err();
    assert_eq!(e.error_code, "DECOMPILATION_FAILED");
    assert_eq!(e.message, "CFR decompilation failed: bad \u{FFFD}");
    assert!(is_java_output("Foo.java"));
    assert!(!is_java_output("Foo.class"));
    assert_eq!(vineflower_output(Some("x".to_string())).unwrap(), "x");
    assert_eq!(vineflower_output(None).unwrap_err().message, "Vineflower did not produce output");
}

#[test]
fn digests_in_hex() {
    assert_eq!(
        sha256_hex(b"abc"),
        "ba7816bf8f01cfea414140de5dae2223b00361a396177a9cb410ff61f20015ad"
    );
    assert_eq!(
        sha256_hex(b""),
        "e3b0c44298fc1c149afbf4c8996fb92427ae41e4649b934ca495991b7852b855"
    );
    assert_eq!(sha256_hex(b"gradle.lockfile contents").len(), 64);
}

#[test]
fn resolver_names() {
    assert_eq!(fqn_to_class_path("com.google.common.collect.ImmutableList"), "com/google/common/collect/ImmutableList.class");
    let e = class_not_found("a/B.class");
    assert_eq!(e.error_code, "CLASS_NOT_FOUND");
    assert_eq!(e.message, "Class 'a/B.class' not found in any dependency JAR");
    let name = decompile_cache_file_name("g:a:1", "a.B", "cfr");
    assert_eq!(name, format!("{}.java", sha256_hex(b"g:a:1:a.B:cfr")));
    assert_eq!(name.len(), 64 + 5);
}

#[test]
fn gradle_command_and_arguments() {
    assert_eq!(find_gradle(Some("./gradlew")), "./gradlew");
    assert_eq!(find_gradle(None), "gradle");
    let configs = vec!["compileClasspath".to_string(), "runtimeClasspath".to_string()];
    assert_eq!(
        export_args("/tmp/init.gradle", &configs),
        vec![
            "--init-script",
            "/tmp/init.gradle",
            "-PclasspathSurfer.configurations=compileClasspath,runtimeClasspath",
            "classpathSurferExport",
            "--quiet",
            "--parallel",
        ]
    );
}

#[test]
fn gradle_polls() {
    assert!(matches!(on_poll(PollEvent::Interrupted, 10), PollStep::KillAndExit));
    assert!(matches!(
        on_poll(PollEvent::Exited { success: true, code: Some(0), stderr: String::new() }, 10),
        PollStep::Finished(Ok(()))
    ));
    match on_poll(PollEvent::Exited { success: false, code: Some(2), stderr: "  oops \n".to_string() }, 10) {
        PollStep::Finished(Err(e)) => {
            assert_eq!(e.error_code, "GRADLE_FAILED");
            assert!(e.retryable);
            assert_eq!(e.message, "Gradle task failed with exit code: 2\n\nGradle stderr:\noops");
        }
        other => panic!("unexpected {other:?}"),
    }
    match on_poll(PollEvent::Exited { success: false, code: None, stderr: String::new() }, 10) {
        PollStep::Finished(Err(e)) => assert_eq!(e.message, "Gradle task failed with exit code: -1"),
        other => panic!("unexpected {other:?}"),
    }
    match on_poll(PollEvent::Running { elapsed_nanos: 10_000_000_000 }, 10) {
        PollStep::KillAndFail(e) => {
            assert_eq!(e.error_code, "GRADLE_TIMEOUT");
            assert_eq!(e.message, "Gradle task timed out after 10 seconds. Use --timeout to increase the limit.");
        }
        other => panic!("unexpected {other:?}"),
    }
    assert!(matches!(on_poll(PollEvent::Running { elapsed_nanos: 9_999_999_999 }, 10), PollStep::Wait));
}

#[test]
fn settings_name_subprojects() {
    let settings = "rootProject.name = \"x\"\ninclude ':app'\n  include(\":lib:core\", ':util')\n// include ':nope'\n";
    assert_eq!(submodule_paths(settings), vec!["app", "lib/core", "util"]);
}

#[test]
fn class_entries_of_a_jar() {
    assert!(is_class_entry("com/example/Foo.class"));
    assert!(!is_class_entry("META-INF/versions/9/module-info.class"));
    assert!(!is_class_entry("com/example/Foo.java"));
}

#[test]
fn index_schemas() {
    let all: Vec<String> = required_field_names().iter().map(|s| s.to_string()).collect();
    assert!(is_schema_compatible(&all));
    let old: Vec<String> = searched_field_names().iter().map(|s| s.to_string()).collect();
    assert!(!is_schema_compatible(&old));
    assert_eq!(missing_fields(&required_field_names(), &old), vec!["simple_name_rev", "package_rev"]);
    assert!(missing_fields(&searched_field_names(), &old).is_empty());
    let e = index_outdated_error(&vec!["fqn", "gav"]);
    assert_eq!(e.error_code, "INDEX_OUTDATED");
    assert_eq!(e.exit_code, 3);
    assert_eq!(e.message, "Index schema is outdated (missing fields: fqn, gav). Run `classpath-surfer index refresh` to rebuild.");
    assert_eq!(e.suggested_command.as_deref(), Some("classpath-surfer index refresh"));
}

#[test]
fn reversing_twice_gives_the_text_back() {
    assert_eq!(reverse_str("ImmutableList"), "tsiLelbatummI");
    assert_eq!(reverse_str(&reverse_str("héllo")), "héllo");
    assert_eq!(reverse_str(""), "");
}

#[test]
fn key_classification() {
    assert_eq!(classify_browser_key(TermKey::Char('h')), BrowserKey::Back);
    assert_eq!(classify_browser_key(TermKey::Right), BrowserKey::Right);
    assert_eq!(classify_browser_key(TermKey::Char('x')), BrowserKey::Other);
    assert_eq!(classify_show_key(TermKey::Tab, true, false), ShowKey::ToggleSecondary);
    assert_eq!(classify_show_key(TermKey::Tab, false, false), ShowKey::Other);
    assert_eq!(classify_show_key(TermKey::Enter, true, true), ShowKey::Reload);
    assert_eq!(classify_show_key(TermKey::PageUp, true, true), ShowKey::Scroll(-20));
}

#[test]
fn source_view_scrolls_saturate() {
    let v = ShowNav { scroll: 5, showing_secondary: false };
    assert_eq!(on_show_key(v, ShowKey::Scroll(-20)), ShowOutcome::Stay(ShowNav { scroll: 0, showing_secondary: false }));
    let top = ShowNav { scroll: 65530, showing_secondary: true };
    assert_eq!(on_show_key(top, ShowKey::Scroll(20)), ShowOutcome::Stay(ShowNav { scroll: 65535, showing_secondary: true }));
    assert_eq!(on_show_key(top, ShowKey::ToggleSecondary), ShowOutcome::Stay(ShowNav { scroll: 0, showing_secondary: false }));
    assert_eq!(on_show_key(v, ShowKey::Close), ShowOutcome::Close);
}

#[test]
fn results_navigation_wraps_around() {
    let s = ResultsNav { selected: 0, count: 3, show: None };
    let (up, a) = results_on_key(s, TermKey::Up, false, false);
    assert_eq!(up.selected, 2);
    assert_eq!(a, ResultsAction::Nothing);
    let (down, _) = results_on_key(up, TermKey::Char('j'), false, false);
    assert_eq!(down.selected, 0);
    let (_, a) = results_on_key(s, TermKey::Enter, false, false);
    assert_eq!(a, ResultsAction::OpenShow(0));
    let (_, a) = results_on_key(s, TermKey::Esc, false, false);
    assert_eq!(a, ResultsAction::Exit);
}

#[test]
fn results_with_an_open_source_view() {
    let s = results_show_opened(ResultsNav { selected: 1, count: 3, show: None });
    assert_eq!(s.show, Some(ShowNav { scroll: 0, showing_secondary: false }));
    let (s2, a) = results_on_key(s, TermKey::Down, false, false);
    assert_eq!(a, ResultsAction::Nothing);
    assert_eq!(s2.show, Some(ShowNav { scroll: 1, showing_secondary: false }));
    assert_eq!(s2.selected, 1);
    let (_, a) = results_on_key(s2, TermKey::Enter, false, true);
    assert_eq!(a, ResultsAction::OpenShow(1));
    let (s3, _) = results_on_key(s2, TermKey::Esc, false, true);
    assert_eq!(s3.show, None);
    let (_, a) = results_on_key(s2, TermKey::Char('q'), false, true);
    assert_eq!(a, ResultsAction::Exit);
}

#[test]
fn next_page_starts_where_the_page_ended() {
    let (s, e) = page_range(5, 2, 2);
    assert_eq!((s, e), (2, 4));
    assert!(has_more(2, e - s, 5));
    let (s2, e2) = page_range(5, 2 + (e - s), 2);
    assert_eq!((s2, e2), (4, 5));
    assert!(!has_more(4, e2 - s2, 5));
}

#[test]
fn refresh_records() {
    let up = classpath_surfer::cli::up_to_date_output();
    assert_eq!((up.mode.as_str(), up.dependencies_processed, up.symbols_indexed), ("up_to_date", 0, 0));
    let full = classpath_surfer::cli::full_refresh_output(38, 77219);
    assert_eq!((full.mode.as_str(), full.dependencies_processed, full.symbols_indexed), ("full", 38, 77219));
}

#[test]
fn saved_build_file_times_keep_readable_files() {
    let observed = vec![
        ("build.gradle.kts".to_string(), Some(100u64)),
        ("build.gradle".to_string(), None),
        ("app/build.gradle.kts".to_string(), Some(200u64)),
    ];
    let saved = saved_build_file_times(&observed);
    let pairs: Vec<(String, u64)> = saved.iter().map(|m| (m.path.clone(), m.mtime)).collect();
    assert_eq!(pairs, vec![("build.gradle.kts".to_string(), 100), ("app/build.gradle.kts".to_string(), 200)]);
    let untouched: Vec<FileState> = saved.iter().map(|m| FileState { exists: true, mtime: Some(m.mtime) }).collect();
    let present = vec![false, true, false, false, false];
    assert!(!check_build_files(Some(&saved), &untouched, &present));
    let touched = vec![FileState { exists: true, mtime: Some(101) }, untouched[1]];
    assert!(check_build_files(Some(&saved), &touched, &present));
}

#[test]
fn refresh_outcome_follows_the_diff() {
    let previous = manifest(vec![dep("g", "a", "1"), dep("g", "b", "2")]);
    let same = compute_diff(&previous, &previous);
    let r = classpath_surfer::cli::refresh_outcome(&same, 0, 0);
    assert_eq!((r.mode.as_str(), r.dependencies_processed, r.symbols_indexed), ("up_to_date", 0, 0));
    let current = manifest(vec![dep("g", "a", "1"), dep("g", "c", "3")]);
    let changed = compute_diff(&current, &previous);
    let r = classpath_surfer::cli::refresh_outcome(&changed, 1, 42);
    assert_eq!((r.mode.as_str(), r.dependencies_processed, r.symbols_indexed), ("incremental", 1, 42));
}
