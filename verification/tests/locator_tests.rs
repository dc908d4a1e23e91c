use classpath_surfer::classfile::{extract_symbols, read_class, source_file_name_from_bytes};
use classpath_surfer::locator::find_method_line_from_classfile;
use classpath_surfer::model::{SourceOrigin, SymbolKind};

fn u16be(out: &mut Vec<u8>, v: u16) {
    out.extend_from_slice(&v.to_be_bytes());
}

fn u32be(out: &mut Vec<u8>, v: u32) {
    out.extend_from_slice(&v.to_be_bytes());
}

fn utf8(out: &mut Vec<u8>, s: &str) {
    out.push(1);
    u16be(out, s.len() as u16);
    out.extend_from_slice(s.as_bytes());
}

/// A public class `com/example/Foo` from `Foo.java` with a method `run()V`
/// whose line table maps to lines 12 and 10, a second `run(I)V` at line 30,
/// and an abstract-like `noLines()V` without a line table.
fn sample_class() -> Vec<u8> {
    let mut b = Vec::new();
    u32be(&mut b, 0xCAFEBABE);
    u16be(&mut b, 0);
    u16be(&mut b, 52);
    u16be(&mut b, 14); // constant pool count
    utf8(&mut b, "com/example/Foo"); // 1
    b.push(7);
    u16be(&mut b, 1); // 2: class
    utf8(&mut b, "java/lang/Object"); // 3
    b.push(7);
    u16be(&mut b, 3); // 4: class
    utf8(&mut b, "run"); // 5
    utf8(&mut b, "()V"); // 6
    utf8(&mut b, "Code"); // 7
    utf8(&mut b, "LineNumberTable"); // 8
    utf8(&mut b, "SourceFile"); // 9
    utf8(&mut b, "Foo.java"); // 10
    utf8(&mut b, "(I)V"); // 11
    utf8(&mut b, "noLines"); // 12
    utf8(&mut b, "unused"); // 13
    u16be(&mut b, 0x0021); // public super
    u16be(&mut b, 2);
    u16be(&mut b, 4);
    u16be(&mut b, 0); // interfaces
    u16be(&mut b, 0); // fields
    u16be(&mut b, 3); // methods
    let method = |b: &mut Vec<u8>, name: u16, desc: u16, lines: &[u16]| {
        u16be(b, 0x0001);
        u16be(b, name);
        u16be(b, desc);
        u16be(b, 1);
        u16be(b, 7); // Code
        let lnt_len = if lines.is_empty() { 0 } else { 8 + 4 * lines.len() as u32 };
        u32be(b, 2 + 2 + 4 + 1 + 2 + 2 + lnt_len);
        u16be(b, 0); // max stack
        u16be(b, 2); // max locals
        u32be(b, 1);
        b.push(0xB1); // return
        u16be(b, 0); // exception table
        if lines.is_empty() {
            u16be(b, 0);
        } else {
            u16be(b, 1);
            u16be(b, 8); // LineNumberTable
            u32be(b, 2 + 4 * lines.len() as u32);
            u16be(b, lines.len() as u16);
            for l in lines {
                u16be(b, 0);
                u16be(b, *l);
            }
        }
    };
    method(&mut b, 5, 6, &[12, 10]);
    method(&mut b, 5, 11, &[30]);
    method(&mut b, 12, 6, &[]);
    u16be(&mut b, 1); // class attributes
    u16be(&mut b, 9);
    u32be(&mut b, 2);
    u16be(&mut b, 10);
    b
}

#[test]
fn method_line_is_the_smallest_of_its_overloads() {
    assert_eq!(find_method_line_from_classfile(&sample_class(), "run"), Some(10));
}

#[test]
fn method_without_line_table_has_no_line() {
    assert_eq!(find_method_line_from_classfile(&sample_class(), "noLines"), None);
}

#[test]
fn missing_method_has_no_line() {
    assert_eq!(find_method_line_from_classfile(&sample_class(), "absent"), None);
}

#[test]
fn garbage_bytes_have_no_line() {
    assert_eq!(find_method_line_from_classfile(b"not a class", "run"), None);
}

#[test]
fn read_class_reads_name_and_methods() {
    let (info, attrs) = read_class(&sample_class()).unwrap();
    assert_eq!(info.this_class, "com/example/Foo");
    assert_eq!(info.access_flags, 0x0021);
    assert_eq!(info.methods.len(), 3);
    assert_eq!(info.methods[1].descriptor, "(I)V");
    assert_eq!(attrs.len(), 1);
}

#[test]
fn read_class_rejects_garbage() {
    let err = read_class(b"\x00\x01\x02").unwrap_err();
    assert!(err.starts_with("failed to parse class: "));
}

#[test]
fn source_file_is_read_from_bytes() {
    assert_eq!(source_file_name_from_bytes(&sample_class()), Some("Foo.java".to_string()));
    assert_eq!(source_file_name_from_bytes(b"junk"), None);
}

#[test]
fn symbols_of_a_parsed_class() {
    let syms = extract_symbols(&sample_class(), "com.example:foo:1.0", None).unwrap();
    assert_eq!(syms.len(), 4);
    assert_eq!(syms[0].symbol_kind, SymbolKind::Class);
    assert_eq!(syms[0].fqn, "com.example.Foo");
    assert_eq!(syms[0].package, "com.example");
    assert_eq!(syms[1].fqn, "com.example.Foo.run");
    assert_eq!(syms[2].descriptor, "(I)V");
    assert_eq!(syms[3].simple_name, "noLines");
    assert_eq!(syms[0].gav, "com.example:foo:1.0");
    match &syms[0].source {
        SourceOrigin::Decompiled { source_file_name, .. } => {
            assert_eq!(source_file_name.as_deref(), Some("Foo.java"))
        }
        _ => panic!("expected a decompiled origin"),
    }
}

#[test]
fn symbols_of_garbage_are_an_error() {
    assert!(extract_symbols(b"nope", "g:a:1", None).is_err());
}
