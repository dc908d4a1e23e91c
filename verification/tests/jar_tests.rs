use classpath_surfer::jar::{build_source_table, extract_package_declaration, filename_from_path};
use classpath_surfer::model::SourceLanguage;

#[test]
fn test_extract_package_java() {
    assert_eq!(
        extract_package_declaration(b"package com.example;"),
        "com.example"
    );
}

#[test]
fn test_extract_package_kotlin() {
    assert_eq!(
        extract_package_declaration(b"package kotlinx.coroutines"),
        "kotlinx.coroutines"
    );
}

#[test]
fn test_extract_package_after_line_comment() {
    assert_eq!(
        extract_package_declaration(b"// license\npackage foo"),
        "foo"
    );
}

#[test]
fn test_extract_package_after_block_comment() {
    assert_eq!(
        extract_package_declaration(b"/* long license block */\npackage foo.bar;"),
        "foo.bar"
    );
}

#[test]
fn test_extract_package_after_multiline_block_comment() {
    assert_eq!(
        extract_package_declaration(b"/*\n * line1\n * line2\n */\npackage baz"),
        "baz"
    );
}

#[test]
fn test_extract_package_after_annotation() {
    assert_eq!(
        extract_package_declaration(b"@file:JvmName(\"Utils\")\npackage foo"),
        "foo"
    );
}

#[test]
fn test_extract_package_no_package_import() {
    assert_eq!(extract_package_declaration(b"import foo\nclass Bar"), "");
}

#[test]
fn test_extract_package_empty() {
    assert_eq!(extract_package_declaration(b""), "");
}

#[test]
fn test_extract_package_bom() {
    assert_eq!(
        extract_package_declaration(b"\xEF\xBB\xBFpackage foo"),
        "foo"
    );
}

#[test]
fn test_extract_package_inline_block_comment() {
    // Single-line block comment followed by package on next line
    assert_eq!(
        extract_package_declaration(b"/* copyright */\npackage com.example;"),
        "com.example"
    );
}

#[test]
fn test_filename_from_path() {
    assert_eq!(
        filename_from_path("commonMain/CoroutineScope.kt"),
        "CoroutineScope.kt"
    );
    assert_eq!(
        filename_from_path("com/google/common/ImmutableList.java"),
        "ImmutableList.java"
    );
    assert_eq!(filename_from_path("Foo.kt"), "Foo.kt");
}

/// The entries of a source JAR as `(name, content)` pairs, in archive order.
fn entries(files: &[(&str, &[u8])]) -> Vec<(String, Vec<u8>)> {
    files.iter().map(|(n, c)| (n.to_string(), c.to_vec())).collect()
}

#[test]
fn test_build_source_table_from_zip() {
    let files = entries(&[
        // Standard Java source
        ("com/example/Foo.java", b"package com.example;\n\npublic class Foo {}"),
        // KMP flat source
        ("commonMain/Bar.kt", b"package kotlinx.coroutines\n\nclass Bar"),
        // KMP subpackage source
        ("commonMain/channels/Channel.kt", b"package kotlinx.coroutines.channels\n\ninterface Channel"),
    ]);
    let table = build_source_table(&files);

    // Standard Java
    let entry = table.get("com.example", "Foo.java").unwrap();
    assert_eq!(entry.path, "com/example/Foo.java");
    assert_eq!(entry.language, SourceLanguage::Java);

    // KMP flat
    let entry = table.get("kotlinx.coroutines", "Bar.kt").unwrap();
    assert_eq!(entry.path, "commonMain/Bar.kt");
    assert_eq!(entry.language, SourceLanguage::Kotlin);

    // KMP subpackage
    let entry = table.get("kotlinx.coroutines.channels", "Channel.kt").unwrap();
    assert_eq!(entry.path, "commonMain/channels/Channel.kt");
    assert_eq!(entry.language, SourceLanguage::Kotlin);
}

#[test]
fn test_build_source_table_jvm_priority() {
    let files = entries(&[
        // commonMain version
        ("commonMain/Scope.kt", b"package kotlinx.coroutines\n\nexpect class Scope"),
        // jvmMain version (should win)
        ("jvmMain/Scope.kt", b"package kotlinx.coroutines\n\nactual class Scope"),
    ]);
    let table = build_source_table(&files);
    let entry = table.get("kotlinx.coroutines", "Scope.kt").unwrap();
    assert_eq!(entry.path, "jvmMain/Scope.kt");
}
