use classpath_surfer::index_doc::IndexedFields;
use classpath_surfer::model::{AccessLevel, SymbolKind};
use classpath_surfer::search::{
    SearchMode, access_level_terms, count_packages, filter_terms, glob_to_tantivy_regex,
    is_glob_pattern, is_on_classpath, listing_page, prefix_patterns,
    regex_escape_term, search_mode, search_page, split_words, symbol_type_terms, text_less,
};

fn doc(kind: &str, fqn: &str, classpaths: &str) -> IndexedFields {
    let simple = fqn.rsplit('.').next().unwrap_or(fqn).to_string();
    IndexedFields {
        gav: "g:a:1".to_string(),
        symbol_kind: kind.to_string(),
        fqn: fqn.to_string(),
        package: "p".to_string(),
        class_name: "C".to_string(),
        simple_name: simple,
        name_parts: String::new(),
        simple_name_rev: String::new(),
        package_rev: String::new(),
        descriptor: String::new(),
        signature_java: format!("sig {fqn}"),
        signature_kotlin: String::new(),
        access_flags: "public".to_string(),
        access_level: "public".to_string(),
        source: "decompiled".to_string(),
        source_path: String::new(),
        source_language: "java".to_string(),
        source_file_name: String::new(),
        classpaths: classpaths.to_string(),
    }
}

#[test]
fn search_mode_classifies_queries() {
    assert_eq!(search_mode(None), SearchMode::All);
    assert_eq!(search_mode(Some("com.google.*.Immutable*")), SearchMode::GlobFqn);
    assert_eq!(search_mode(Some("Immutable*")), SearchMode::GlobSimpleName);
    assert_eq!(search_mode(Some("a.B?")), SearchMode::GlobSimpleName);
    assert_eq!(search_mode(Some("com.google.common.ImmutableList")), SearchMode::FqnExact);
    assert_eq!(search_mode(Some("ImmutableList")), SearchMode::Smart);
    assert_eq!(search_mode(Some("Map.Entry")), SearchMode::Smart);
}

#[test]
fn glob_characters_are_detected() {
    assert!(is_glob_pattern("com.google.*:guava:*"));
    assert!(is_glob_pattern("a?c"));
    assert!(!is_glob_pattern("com.google.guava:guava:33.0"));
}

#[test]
fn regex_terms_are_escaped() {
    assert_eq!(regex_escape_term("a.b*c"), "a\\.b\\*c");
    assert_eq!(regex_escape_term("(x)|[y]{z}^$+?\\"), "\\(x\\)\\|\\[y\\]\\{z\\}\\^\\$\\+\\?\\\\");
    assert_eq!(regex_escape_term("plain"), "plain");
}

#[test]
fn globs_become_regexes() {
    assert_eq!(glob_to_tantivy_regex("com.google.*.Immutable?ist"), "com\\.google\\..*\\.Immutable.ist");
    assert_eq!(glob_to_tantivy_regex("*"), ".*");
}

#[test]
fn words_split_at_whitespace() {
    assert_eq!(split_words("  murmur  hash\tthree "), vec!["murmur", "hash", "three"]);
    assert!(split_words("   ").is_empty());
    assert_eq!(split_words("one"), vec!["one"]);
}

#[test]
fn prefix_patterns_lowercase_and_escape_each_word() {
    assert_eq!(prefix_patterns("Murmur3 Hash.Fn"), vec!["murmur3.*", "hash\\.fn.*"]);
}

#[test]
fn type_and_access_terms() {
    assert_eq!(symbol_type_terms(&[SymbolKind::Class, SymbolKind::Field]), vec!["class", "field"]);
    assert_eq!(
        access_level_terms(&[AccessLevel::Public, AccessLevel::PackagePrivate]),
        vec!["public", "package_private"]
    );
}

#[test]
fn filter_terms_match_globs_or_take_the_dependency() {
    let all = vec![
        ("com.google.guava:guava:33.0".to_string(), 10),
        ("org.jetbrains:annotations:24".to_string(), 3),
        ("com.google.code.gson:gson:2.10".to_string(), 5),
    ];
    assert_eq!(
        filter_terms("com.google.*", &all),
        vec!["com.google.guava:guava:33.0", "com.google.code.gson:gson:2.10"]
    );
    assert!(filter_terms("io.*", &all).is_empty());
    assert_eq!(filter_terms("x:y:1", &all), vec!["x:y:1"]);
}

#[test]
fn text_order_is_code_point_order() {
    assert!(text_less("abc", "abd"));
    assert!(text_less("ab", "abc"));
    assert!(!text_less("abc", "abc"));
    assert!(text_less("Z", "a"));
    assert!(!text_less("b", "abc"));
}

#[test]
fn classpath_membership_reads_the_comma_list() {
    assert!(is_on_classpath(&doc("class", "a.B", "compile,runtime"), "runtime"));
    assert!(!is_on_classpath(&doc("class", "a.B", "compile,runtime"), "test"));
    assert!(!is_on_classpath(&doc("class", "a.B", ""), ""));
}

#[test]
fn listing_orders_by_kind_then_fqn() {
    let docs = vec![
        doc("field", "a.A.f", "compile"),
        doc("method", "a.B.m", "compile"),
        doc("class", "a.B", "compile"),
        doc("method", "a.A.m", "runtime"),
        doc("class", "a.A", "compile"),
    ];
    let (page, total) = listing_page(&docs, None, 0, 10);
    let fqns: Vec<&str> = page.iter().map(|r| r.fqn.as_str()).collect();
    assert_eq!(fqns, vec!["a.A", "a.B", "a.A.m", "a.B.m", "a.A.f"]);
    assert_eq!(total, 5);
    assert_eq!(page[0].symbol_kind, SymbolKind::Class);
    assert_eq!(page[4].symbol_kind, SymbolKind::Field);
}

#[test]
fn listing_pages_after_ordering() {
    let docs = vec![
        doc("method", "a.B.m", "compile"),
        doc("class", "a.B", "compile"),
        doc("class", "a.A", "compile"),
    ];
    let (page, _) = listing_page(&docs, None, 1, 1);
    assert_eq!(page.len(), 1);
    assert_eq!(page[0].fqn, "a.B");
    let (page, _) = listing_page(&docs, None, 5, 10);
    assert!(page.is_empty());
}

#[test]
fn listing_with_classpath_counts_what_it_keeps() {
    let docs = vec![
        doc("class", "a.B", "compile"),
        doc("class", "a.A", "runtime"),
        doc("method", "a.A.m", "compile,runtime"),
    ];
    let (page, total) = listing_page(&docs, Some("runtime"), 0, 1);
    assert_eq!(total, 2);
    assert_eq!(page.len(), 1);
    assert_eq!(page[0].fqn, "a.A");
}

#[test]
fn listing_keeps_equal_keys_in_their_order() {
    let mut first = doc("class", "a.Same", "compile");
    first.gav = "first:x:1".to_string();
    let mut second = doc("class", "a.Same", "compile");
    second.gav = "second:x:1".to_string();
    let (page, _) = listing_page(&vec![first, second], None, 0, 10);
    assert_eq!(page[0].gav, "first:x:1");
    assert_eq!(page[1].gav, "second:x:1");
}

#[test]
fn search_results_keep_their_rank_order() {
    let docs = vec![
        doc("method", "z.Z.m", "compile"),
        doc("class", "a.A", "runtime"),
        doc("class", "b.B", "compile"),
    ];
    let all: Vec<String> = search_page(&docs, None).into_iter().map(|r| r.fqn).collect();
    assert_eq!(all, vec!["z.Z.m", "a.A", "b.B"]);
    let kept: Vec<String> = search_page(&docs, Some("compile")).into_iter().map(|r| r.fqn).collect();
    assert_eq!(kept, vec!["z.Z.m", "b.B"]);
}

#[test]
fn listing_pages_join_up() {
    let docs = vec![
        doc("field", "a.A.f", "compile"),
        doc("method", "a.B.m", "compile"),
        doc("class", "a.B", "compile"),
        doc("method", "a.A.m", "compile"),
        doc("class", "a.A", "compile"),
    ];
    let fqns = |o: usize, l: usize| -> Vec<String> { listing_page(&docs, None, o, l).0.into_iter().map(|r| r.fqn).collect() };
    let mut joined = fqns(0, 2);
    joined.extend(fqns(2, 2));
    assert_eq!(joined, fqns(0, 4));
    assert_eq!(fqns(2, 2), vec!["a.A.m", "a.B.m"]);
}

#[test]
fn packages_are_counted_in_order() {
    let pkgs: Vec<String> = ["com.b", "com.a", "com.b", "org.x", "com.a", "com.b"]
        .iter()
        .map(|s| s.to_string())
        .collect();
    assert_eq!(
        count_packages(&pkgs),
        vec![("com.a".to_string(), 2), ("com.b".to_string(), 3), ("org.x".to_string(), 1)]
    );
    assert!(count_packages(&Vec::new()).is_empty());
}

#[test]
fn search_results_carry_their_classpaths() {
    let docs = vec![doc("class", "a.B", "compile,runtime"), doc("class", "a.C", "")];
    let results = search_page(&docs, None);
    assert_eq!(results[0].classpaths, vec!["compile", "runtime"]);
    assert!(results[1].classpaths.is_empty());
}
