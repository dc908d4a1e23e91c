use classpath_surfer::classfile::{is_anonymous_class, package_from_fqn, simple_name_from_fqn, split_camel_case};

#[test]
fn test_split_camel_case() {
    assert_eq!(split_camel_case("ImmutableList"), "Immutable List");
    assert_eq!(split_camel_case("parseJSON"), "parse JSON");
    assert_eq!(split_camel_case("XMLParser"), "XML Parser");
    assert_eq!(split_camel_case("simple"), "simple");
    assert_eq!(split_camel_case("A"), "A");
    assert_eq!(split_camel_case("getHTTPSUrl"), "get HTTPS Url");
}

#[test]
fn test_simple_name_from_fqn() {
    assert_eq!(
        simple_name_from_fqn("com.google.common.collect.ImmutableList"),
        "ImmutableList"
    );
    assert_eq!(simple_name_from_fqn("java.util.Map$Entry"), "Map.Entry");
}

#[test]
fn test_package_from_fqn() {
    assert_eq!(
        package_from_fqn("com.google.common.collect.ImmutableList"),
        "com.google.common.collect"
    );
    assert_eq!(package_from_fqn("Foo"), "");
}

#[test]
fn test_is_anonymous() {
    assert!(is_anonymous_class("Foo$1"));
    assert!(is_anonymous_class("Foo$123"));
    assert!(!is_anonymous_class("Foo$Bar"));
    assert!(!is_anonymous_class("Foo"));
}

fn class_info(name: &str) -> classpath_surfer::classfile::ClassInfo {
    classpath_surfer::classfile::ClassInfo {
        this_class: name.to_string(),
        access_flags: 0x0001,
        methods: vec![classpath_surfer::classfile::MemberInfo {
            name: "run".to_string(),
            access_flags: 0x0001,
            descriptor: "()V".to_string(),
        }],
        fields: Vec::new(),
    }
}

#[test]
fn anonymous_classes_get_no_symbols() {
    let anon = classpath_surfer::classfile::class_symbols(&class_info("com/example/Foo$1"), &[], "g:a:1", None);
    assert!(anon.is_empty());
    let anon = classpath_surfer::classfile::class_symbols(&class_info("com/example/Foo$Bar$12"), &[], "g:a:1", None);
    assert!(anon.is_empty());
    let inner = classpath_surfer::classfile::class_symbols(&class_info("com/example/Foo$Bar"), &[], "g:a:1", None);
    assert_eq!(inner.len(), 2);
    assert_eq!(inner[0].class_name, "Foo.Bar");
}
