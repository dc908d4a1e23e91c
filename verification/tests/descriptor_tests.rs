use classpath_surfer::descriptor::{format_field_display, format_method_display, method_to_string, type_to_string};

#[test]
fn test_primitive_types() {
    assert_eq!(type_to_string("I"), "int");
    assert_eq!(type_to_string("Z"), "boolean");
    assert_eq!(type_to_string("V"), "void");
    assert_eq!(type_to_string("D"), "double");
}

#[test]
fn test_object_type() {
    assert_eq!(type_to_string("Ljava/lang/String;"), "String");
    assert_eq!(
        type_to_string("Lcom/google/common/collect/ImmutableList;"),
        "ImmutableList"
    );
}

#[test]
fn test_array_types() {
    assert_eq!(type_to_string("[B"), "byte[]");
    assert_eq!(type_to_string("[Ljava/lang/String;"), "String[]");
    assert_eq!(type_to_string("[[I"), "int[][]");
}

#[test]
fn test_method_descriptor() {
    assert_eq!(method_to_string("()V"), "() → void");
    assert_eq!(
        method_to_string("(ILjava/lang/String;)V"),
        "(int, String) → void"
    );
    assert_eq!(
        method_to_string("(Ljava/lang/Object;)Ljava/util/List;"),
        "(Object) → List"
    );
}

#[test]
fn test_format_method_display() {
    assert_eq!(
        format_method_display(
            "public static",
            "ImmutableList",
            "of",
            "(Ljava/lang/Object;)Lcom/google/common/collect/ImmutableList;"
        ),
        "public static ImmutableList of(Object arg0)"
    );
    assert_eq!(
        format_method_display("public", "ArrayList", "<init>", "()V"),
        "public ArrayList()"
    );
}

#[test]
fn test_format_field_display() {
    assert_eq!(
        format_field_display("public static final", "MAX_VALUE", "I"),
        "public static final int MAX_VALUE"
    );
}

#[test]
fn test_inner_class() {
    assert_eq!(type_to_string("Ljava/util/Map$Entry;"), "Map.Entry");
}
