use classpath_surfer::kotlin_metadata::signatures::{build_signature_map, property_getter_name};
use classpath_surfer::kotlin_metadata::{KotlinMemberSignature, KotlinSignatures};

#[test]
fn signatures_test_property_getter_name() {
    assert_eq!(property_getter_name("name"), "getName");
    assert_eq!(property_getter_name("count"), "getCount");
    assert_eq!(property_getter_name("x"), "getX");
}

#[test]
fn signatures_test_build_signature_map() {
    let sigs = KotlinSignatures {
        class_display: Some("class Foo".to_string()),
        members: vec![
            KotlinMemberSignature {
                jvm_name: "bar".to_string(),
                jvm_descriptor: "params:0".to_string(),
                kotlin_display: "fun bar()".to_string(),
            },
            KotlinMemberSignature {
                jvm_name: "bar".to_string(),
                jvm_descriptor: "params:1".to_string(),
                kotlin_display: "fun bar(x: Int)".to_string(),
            },
            KotlinMemberSignature {
                jvm_name: "baz".to_string(),
                jvm_descriptor: "params:0".to_string(),
                kotlin_display: "fun baz()".to_string(),
            },
        ],
    };
    let map = build_signature_map(&sigs);
    // first-wins for overloaded "bar"
    assert_eq!(map.get("bar").unwrap(), "fun bar()");
    assert_eq!(map.get("baz").unwrap(), "fun baz()");
    assert_eq!(map.len(), 2);
}
