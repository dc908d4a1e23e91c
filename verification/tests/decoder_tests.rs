use classpath_surfer::kotlin_metadata::decoder::{
    DecodedBody, DecodedMetadata, d1_to_bytes, decode_varint, extract_kotlin_signatures,
};
use classpath_surfer::kotlin_metadata::{
    Class, Function, KotlinMetadataRaw, Package, Property, StringTableTypes, Type,
};

/// Build a Type that references a class by qualified-name index.
fn class_type(class_name_idx: i32) -> Type {
    Type {
        class_name: Some(class_name_idx),
        nullable: Some(false),
        ..Default::default()
    }
}

/// A `d1` payload framing an empty string table and an empty body, after
/// the UTF-8 mode marker; the messages themselves are given decoded.
fn framed_d1() -> Vec<String> {
    vec!["\u{0}\u{0}".to_string()]
}

#[test]
fn decoder_test_d1_to_bytes() {
    let d1 = vec!["ABC".to_string()];
    assert_eq!(d1_to_bytes(&d1), vec![65, 66, 67]);
}

#[test]
fn decoder_test_d1_to_bytes_multiple() {
    let d1 = vec!["AB".to_string(), "CD".to_string()];
    assert_eq!(d1_to_bytes(&d1), vec![65, 66, 67, 68]);
}

#[test]
fn decoder_test_decode_varint() {
    assert_eq!(decode_varint(&[0x00]), Some((0, 1)));
    assert_eq!(decode_varint(&[0x01]), Some((1, 1)));
    assert_eq!(decode_varint(&[0x80, 0x01]), Some((128, 2)));
    assert_eq!(decode_varint(&[0xAC, 0x02]), Some((300, 2)));
}

#[test]
fn decoder_test_extract_signatures_class_e2e() {
    // Build a class with one function and one property, encode to protobuf, decode
    // d2: [0]=MyClass, [1]=greet, [2]=kotlin/Unit, [3]=count, [4]=kotlin/Int
    let d2: Vec<String> = vec!["MyClass", "greet", "kotlin/Unit", "count", "kotlin/Int"]
        .into_iter()
        .map(String::from)
        .collect();

    let stt = StringTableTypes {
        record: vec![],
        ..Default::default()
    };

    let class = Class {
        flags: Some(6), // public final class
        fq_name: Some(0),
        type_parameter: vec![],
        supertype: vec![],
        supertype_id: vec![],
        constructor: vec![],
        function: vec![Function {
            flags: Some(6),
            old_flags: None,
            name: 1,                          // "greet"
            return_type: Some(class_type(2)), // Unit
            return_type_id: None,
            type_parameter: vec![],
            value_parameter: vec![],
            receiver_type: None,
            receiver_type_id: None,
            ..Default::default()
        }],
        property: vec![Property {
            flags: Some(6), // val
            old_flags: None,
            name: 3,                          // "count"
            return_type: Some(class_type(4)), // Int
            return_type_id: None,
            receiver_type: None,
            receiver_type_id: None,
            ..Default::default()
        }],
        type_table: None,
        ..Default::default()
    };

    let d1 = framed_d1();
    let raw = KotlinMetadataRaw { k: 1, d1, d2 };
    let decoded = DecodedMetadata { string_table: stt, body: DecodedBody::Class(class) };
    let result = extract_kotlin_signatures(&raw, Some(decoded)).expect("should decode class");

    assert_eq!(result.class_display.as_deref(), Some("class MyClass"));

    let displays: Vec<&str> = result
        .members
        .iter()
        .map(|m| m.kotlin_display.as_str())
        .collect();
    assert!(
        displays.contains(&"fun greet()"),
        "should contain function: {displays:?}"
    );
    assert!(
        displays.contains(&"val count: Int"),
        "should contain property: {displays:?}"
    );
}

#[test]
fn decoder_test_extract_signatures_package_e2e() {
    // Package (k=2) with a top-level function
    // d2: [0]=doStuff, [1]=kotlin/Unit
    let d2: Vec<String> = vec!["doStuff", "kotlin/Unit"]
        .into_iter()
        .map(String::from)
        .collect();

    let stt = StringTableTypes {
        record: vec![],
        ..Default::default()
    };
    let pkg = Package {
        function: vec![Function {
            flags: Some(6),
            old_flags: None,
            name: 0,
            return_type: Some(class_type(1)),
            return_type_id: None,
            type_parameter: vec![],
            value_parameter: vec![],
            receiver_type: None,
            receiver_type_id: None,
            ..Default::default()
        }],
        property: vec![],
        type_table: None,
        ..Default::default()
    };

    let d1 = framed_d1();
    let raw = KotlinMetadataRaw { k: 2, d1, d2 };
    let decoded = DecodedMetadata { string_table: stt, body: DecodedBody::Package(pkg) };
    let result = extract_kotlin_signatures(&raw, Some(decoded)).expect("should decode package");

    assert!(
        result.class_display.is_none(),
        "package should have no class_display"
    );
    assert_eq!(result.members.len(), 1);
    assert_eq!(result.members[0].kotlin_display, "fun doStuff()");
}

#[test]
fn decoder_test_extract_signatures_unknown_kind() {
    let raw = KotlinMetadataRaw {
        k: 3, // synthetic class
        d1: vec!["x".to_string()],
        d2: vec![],
    };
    assert!(extract_kotlin_signatures(&raw, None).is_none());
}

#[test]
fn decoder_test_extract_signatures_empty_d1() {
    let raw = KotlinMetadataRaw {
        k: 1,
        d1: vec![],
        d2: vec![],
    };
    assert!(extract_kotlin_signatures(&raw, None).is_none());
}
