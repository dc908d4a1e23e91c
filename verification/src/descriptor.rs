//! JVM type and method descriptor decoding into human-readable signatures.
use vstd::prelude::*;
use crate::text::{
    after_last, after_last_char, chars_of, decimal, find_char_from, first_index_of, join, join_vecs,
    lemma_first_index_props, push_decimal, push_seq, push_str, replace_char, replace_char_vec,
    slice_vec, str_eq, string_of,
};

verus! {

/// The Java name of a primitive descriptor character.
pub open spec fn primitive_name(c: char) -> Option<Seq<char>> {
    if c == 'V' { Some("void"@) }
    else if c == 'Z' { Some("boolean"@) }
    else if c == 'B' { Some("byte"@) }
    else if c == 'C' { Some("char"@) }
    else if c == 'S' { Some("short"@) }
    else if c == 'I' { Some("int"@) }
    else if c == 'J' { Some("long"@) }
    else if c == 'F' { Some("float"@) }
    else if c == 'D' { Some("double"@) }
    else { None }
}

/// The simple display name of an internal class name such as `java/util/Map$Entry`:
/// the part after the last `/`, with `$` shown as `.`.
pub open spec fn simple_class_display(internal: Seq<char>) -> Seq<char> {
    replace_char(after_last(internal, '/'), '$', '.')
}

/// Decodes the type descriptor at the start of `d`: the display name and the
/// number of characters it spans.  An object type without a closing `;` spans
/// one past the end of `d`; an empty descriptor is `void` and spans nothing;
/// an unknown leading character makes all of `d` the name.
pub open spec fn spec_parse_type(d: Seq<char>) -> (Seq<char>, nat)
    decreases d.len(),
{
    if d.len() == 0 {
        ("void"@, 0)
    } else if d[0] == '[' {
        let (inner, c) = spec_parse_type(d.drop_first());
        (inner + "[]"@, 1 + c)
    } else if d[0] == 'L' {
        let semi: int = match first_index_of(d, ';') {
            Some(i) => i,
            None => d.len() as int,
        };
        (simple_class_display(d.subrange(1, semi)), (semi + 1) as nat)
    } else {
        match primitive_name(d[0]) {
            Some(n) => (n, 1),
            None => (d, d.len()),
        }
    }
}

/// The display names of the consecutive type descriptors in `s`.
pub open spec fn spec_param_list(s: Seq<char>) -> Seq<Seq<char>>
    decreases s.len(),
{
    if s.len() == 0 {
        Seq::empty()
    } else {
        let (t, c) = spec_parse_type(s);
        if c == 0 || c >= s.len() {
            seq![t]
        } else {
            seq![t] + spec_param_list(s.skip(c as int))
        }
    }
}

/// How far the descriptor at the start of `d` reaches.
pub proof fn lemma_parse_type_span(d: Seq<char>)
    ensures
        d.len() > 0 ==> spec_parse_type(d).1 >= 1,
        spec_parse_type(d).1 <= d.len() + 1,
    decreases d.len(),
{
    if d.len() > 0 {
        if d[0] == '[' {
            lemma_parse_type_span(d.drop_first());
        } else if d[0] == 'L' {
            lemma_first_index_props(d, ';');
        }
    }
}

fn push_primitive(out: &mut Vec<char>, c: char) -> (found: bool)
    ensures
        match primitive_name(c) {
            Some(n) => found && final(out)@ == old(out)@ + n,
            None => !found && final(out)@ == old(out)@,
        },
{
    if c == 'V' { push_str(out, "void"); true }
    else if c == 'Z' { push_str(out, "boolean"); true }
    else if c == 'B' { push_str(out, "byte"); true }
    else if c == 'C' { push_str(out, "char"); true }
    else if c == 'S' { push_str(out, "short"); true }
    else if c == 'I' { push_str(out, "int"); true }
    else if c == 'J' { push_str(out, "long"); true }
    else if c == 'F' { push_str(out, "float"); true }
    else if c == 'D' { push_str(out, "double"); true }
    else { false }
}

/// The number of characters a descriptor spans, capped at what is left of
/// the input.
pub open spec fn capped_span(d: Seq<char>) -> nat {
    let c = spec_parse_type(d).1;
    if c <= d.len() { c } else { d.len() }
}

/// Decodes the type descriptor starting at `d[start]`; returns the display
/// name and the number of characters it spans, capped at what is left.
pub fn parse_type(d: &[char], start: usize) -> (r: (Vec<char>, usize))
    requires
        start <= d.len(),
    ensures
        r.0@ == spec_parse_type(d@.skip(start as int)).0,
        r.1 == capped_span(d@.skip(start as int)),
    decreases d.len() - start,
{
    let ghost rest = d@.skip(start as int);
    proof { lemma_parse_type_span(rest); }
    if start == d.len() {
        let mut out: Vec<char> = Vec::new();
        push_str(&mut out, "void");
        return (out, 0);
    }
    let c = d[start];
    assert(rest[0] == c);
    if c == '[' {
        assert(d@.skip(start + 1) =~= rest.drop_first());
        let (mut inner, consumed) = parse_type(d, start + 1);
        push_str(&mut inner, "[]");
        if consumed < d.len() - start - 1 {
            (inner, 1 + consumed)
        } else {
            (inner, d.len() - start)
        }
    } else if c == 'L' {
        let semi_abs = match find_char_from(d, start, ';') {
            Some(i) => i,
            None => d.len(),
        };
        proof { lemma_first_index_props(rest, ';'); }
        let ghost semi: int = semi_abs - start;
        let name = slice_vec(d, start + 1, semi_abs);
        assert(name@ =~= rest.subrange(1, semi));
        let last = after_last_char(&name, '/');
        let simple = replace_char_vec(&last, '$', '.');
        if semi_abs < d.len() {
            (simple, semi_abs - start + 1)
        } else {
            (simple, d.len() - start)
        }
    } else {
        let mut out: Vec<char> = Vec::new();
        if push_primitive(&mut out, c) {
            assert(out@ =~= primitive_name(c).unwrap());
            (out, 1)
        } else {
            let all = slice_vec(d, start, d.len());
            assert(all@ =~= rest);
            (all, d.len() - start)
        }
    }
}

/// Decodes the consecutive type descriptors of a parameter list.
pub fn parse_param_list(s: &[char]) -> (r: Vec<Vec<char>>)
    ensures
        r@.map_values(|p: Vec<char>| p@) == spec_param_list(s@),
{
    let mut params: Vec<Vec<char>> = Vec::new();
    let mut pos: usize = 0;
    assert(s@.skip(0) =~= s@);
    assert(params@.map_values(|p: Vec<char>| p@) + spec_param_list(s@) =~= spec_param_list(s@));
    while pos < s.len()
        invariant
            0 <= pos <= s.len(),
            params@.map_values(|p: Vec<char>| p@) + spec_param_list(s@.skip(pos as int))
                == spec_param_list(s@),
        decreases s.len() - pos,
    {
        let ghost rest = s@.skip(pos as int);
        proof { lemma_parse_type_span(rest); }
        let (t, consumed) = parse_type(s, pos);
        let ghost before = params@.map_values(|p: Vec<char>| p@);
        params.push(t);
        assert(params@.map_values(|p: Vec<char>| p@) =~= before.push(t@));
        if consumed >= s.len() - pos {
            assert(spec_param_list(rest) == seq![t@]);
            assert(s@.skip(s.len() as int) =~= Seq::<char>::empty());
            pos = s.len();
        } else {
            assert(rest.skip(consumed as int) =~= s@.skip(pos + consumed));
            assert(spec_param_list(rest) == seq![t@] + spec_param_list(rest.skip(consumed as int)));
            pos = pos + consumed;
        }
        assert(params@.map_values(|p: Vec<char>| p@) + spec_param_list(s@.skip(pos as int))
            =~= before + spec_param_list(rest));
    }
    assert(s@.skip(s.len() as int) =~= Seq::<char>::empty());
    assert(params@.map_values(|p: Vec<char>| p@) + Seq::<Seq<char>>::empty()
        =~= params@.map_values(|p: Vec<char>| p@));
    params
}

/// The display name of a type descriptor.
pub open spec fn spec_type_to_string(desc: Seq<char>) -> Seq<char> {
    spec_parse_type(desc).0
}

/// Parse a JVM type descriptor into a human-readable type name
/// (`"I"` is `int`, `"Ljava/lang/String;"` is `String`, `"[B"` is `byte[]`).
pub fn type_to_string(desc: &str) -> (r: String)
    ensures
        r@ == spec_type_to_string(desc@),
{
    let d = chars_of(desc);
    let (t, _) = parse_type(&d, 0);
    assert(d@.skip(0) =~= d@);
    string_of(&t)
}

/// The display of a method descriptor `(params)ret`: the parameter names
/// joined with `", "` in parentheses, then ` → ` and the return type.  A
/// descriptor that does not start with `(` or has no `)` is shown as is.
pub open spec fn spec_method_to_string(desc: Seq<char>) -> Seq<char> {
    if desc.len() == 0 || desc[0] != '(' {
        desc
    } else {
        match first_index_of(desc, ')') {
            None => desc,
            Some(close) => "("@ + join(spec_param_list(desc.subrange(1, close)), ", "@) + ") → "@
                + spec_type_to_string(desc.skip(close + 1)),
        }
    }
}

/// Parse a method descriptor into a human-readable signature
/// (`"(ILjava/lang/String;)V"` is `(int, String) → void`).
pub fn method_to_string(desc: &str) -> (r: String)
    ensures
        r@ == spec_method_to_string(desc@),
{
    let d = chars_of(desc);
    if d.len() == 0 || d[0] != '(' {
        return string_of(&d);
    }
    proof { lemma_first_index_props(d@, ')'); }
    let close = match find_char_from(&d, 0, ')') {
        Some(i) => i,
        None => {
            assert(d@.skip(0) =~= d@);
            return string_of(&d);
        },
    };
    assert(d@.skip(0) =~= d@);
    let params_str = slice_vec(&d, 1, close);
    let params = parse_param_list(&params_str);
    let (ret, _) = parse_type(&d, close + 1);
    let mut out: Vec<char> = Vec::new();
    push_str(&mut out, "(");
    let joined = join_vecs(&params, ", ");
    push_seq(&mut out, &joined);
    push_str(&mut out, ") → ");
    push_seq(&mut out, &ret);
    string_of(&out)
}

/// The `"{type} arg{i}"` parameter displays of a method.
pub open spec fn numbered_params(params: Seq<Seq<char>>) -> Seq<Seq<char>> {
    Seq::new(params.len(), |i: int| params[i] + " arg"@ + decimal(i as nat))
}

/// The parameter names and return type shown for a method descriptor: a
/// descriptor starting with `(` lists the types up to `)` (or to the end) and
/// returns the type after it (`void` when nothing follows); any other
/// descriptor has no parameters and is itself the return type.
pub open spec fn spec_method_parts(desc: Seq<char>) -> (Seq<Seq<char>>, Seq<char>) {
    if desc.len() > 0 && desc[0] == '(' {
        let close: int = match first_index_of(desc, ')') {
            Some(i) => i,
            None => desc.len() as int,
        };
        let ret = if close + 1 < desc.len() {
            spec_type_to_string(desc.skip(close + 1))
        } else {
            "void"@
        };
        (spec_param_list(desc.subrange(1, close)), ret)
    } else {
        (Seq::empty(), desc)
    }
}

/// Display signature of a method, e.g. `public static ImmutableList of(Object arg0)`;
/// a constructor (`<init>`) is shown under the class name without a return type.
pub open spec fn spec_method_display(
    access: Seq<char>,
    class_simple_name: Seq<char>,
    method_name: Seq<char>,
    descriptor: Seq<char>,
) -> Seq<char> {
    let is_ctor = method_name == "<init>"@;
    let name = if is_ctor { class_simple_name } else { method_name };
    let (params, ret) = spec_method_parts(descriptor);
    let call = name + "("@ + join(numbered_params(params), ", "@) + ")"@;
    if is_ctor {
        if access.len() == 0 { call } else { access + " "@ + call }
    } else if access.len() == 0 {
        ret + " "@ + call
    } else {
        access + " "@ + ret + " "@ + call
    }
}

/// The parameter names and return type shown for a method descriptor.
pub fn method_parts(d: &[char]) -> (r: (Vec<Vec<char>>, Vec<char>))
    ensures
        r.0@.map_values(|p: Vec<char>| p@) == spec_method_parts(d@).0,
        r.1@ == spec_method_parts(d@).1,
{
    if d.len() > 0 && d[0] == '(' {
        proof { lemma_first_index_props(d@, ')'); }
        let close = match find_char_from(d, 0, ')') {
            Some(i) => i,
            None => d.len(),
        };
        assert(d@.skip(0) =~= d@);
        let inner = slice_vec(d, 1, close);
        let params = parse_param_list(&inner);
        let ret = if close < d.len() && close + 1 < d.len() {
            let (t, _) = parse_type(d, close + 1);
            t
        } else {
            let mut v: Vec<char> = Vec::new();
            push_str(&mut v, "void");
            v
        };
        (params, ret)
    } else {
        (Vec::new(), slice_vec(d, 0, d.len()))
    }
}

/// Appends `" arg{i}"` to each parameter name and joins them with `", "`.
pub fn numbered_param_list(params: &Vec<Vec<char>>) -> (r: Vec<char>)
    ensures
        r@ == join(numbered_params(params@.map_values(|p: Vec<char>| p@)), ", "@),
{
    let ghost pviews = params@.map_values(|p: Vec<char>| p@);
    let mut shown: Vec<Vec<char>> = Vec::new();
    let mut i: usize = 0;
    while i < params.len()
        invariant
            0 <= i <= params.len(),
            pviews == params@.map_values(|p: Vec<char>| p@),
            shown@.map_values(|p: Vec<char>| p@) =~= numbered_params(pviews).take(i as int),
        decreases params.len() - i,
    {
        let mut one: Vec<char> = Vec::new();
        push_seq(&mut one, params[i].as_slice());
        push_str(&mut one, " arg");
        push_decimal(&mut one, i as u128);
        let ghost prev = shown@.map_values(|p: Vec<char>| p@);
        shown.push(one);
        assert(shown@.map_values(|p: Vec<char>| p@) =~= prev.push(one@));
        assert(numbered_params(pviews).take(i + 1) =~= numbered_params(pviews).take(i as int).push(
            pviews[i as int] + " arg"@ + decimal(i as nat)));
        i = i + 1;
    }
    assert(numbered_params(pviews).take(params.len() as int) =~= numbered_params(pviews));
    join_vecs(&shown, ", ")
}

/// Build a display signature for a method.
/// E.g. "public static ImmutableList of(Object arg0)"
pub fn format_method_display(
    access: &str,
    class_simple_name: &str,
    method_name: &str,
    descriptor: &str,
) -> (r: String)
    ensures
        r@ == spec_method_display(access@, class_simple_name@, method_name@, descriptor@),
{
    let is_constructor = str_eq(method_name, "<init>");
    let d = chars_of(descriptor);
    let (params, ret) = method_parts(&d);
    let params_str = numbered_param_list(&params);
    let mut out: Vec<char> = Vec::new();
    if !access.is_empty() {
        push_str(&mut out, access);
        push_str(&mut out, " ");
    }
    if !is_constructor {
        push_seq(&mut out, &ret);
        push_str(&mut out, " ");
    }
    if is_constructor {
        push_str(&mut out, class_simple_name);
    } else {
        push_str(&mut out, method_name);
    }
    push_str(&mut out, "(");
    push_seq(&mut out, &params_str);
    push_str(&mut out, ")");
    let r = string_of(&out);
    assert(r@ =~= spec_method_display(access@, class_simple_name@, method_name@, descriptor@));
    r
}

/// Display signature of a field, e.g. `public static final int MAX_VALUE`.
pub open spec fn spec_field_display(access: Seq<char>, field_name: Seq<char>, descriptor: Seq<char>) -> Seq<char> {
    let t = spec_type_to_string(descriptor);
    if access.len() == 0 {
        t + " "@ + field_name
    } else {
        access + " "@ + t + " "@ + field_name
    }
}

/// Build a display signature for a field.
/// E.g. "public static final int MAX_VALUE"
pub fn format_field_display(access: &str, field_name: &str, descriptor: &str) -> (r: String)
    ensures
        r@ == spec_field_display(access@, field_name@, descriptor@),
{
    let d = chars_of(descriptor);
    let (t, _) = parse_type(&d, 0);
    assert(d@.skip(0) =~= d@);
    let mut out: Vec<char> = Vec::new();
    if !access.is_empty() {
        push_str(&mut out, access);
        push_str(&mut out, " ");
    }
    push_seq(&mut out, &t);
    push_str(&mut out, " ");
    push_str(&mut out, field_name);
    let r = string_of(&out);
    assert(r@ =~= spec_field_display(access@, field_name@, descriptor@));
    r
}

/// The descriptor letter of a Java primitive type name, as the JVM
/// specification's table of base types gives it (`byte` B, `char` C,
/// `double` D, `float` F, `int` I, `long` J, `short` S, `boolean` Z, and
/// `void` V for a method's return).
pub open spec fn base_type_letter(name: Seq<char>) -> Option<char> {
    if name == "byte"@ { Some('B') }
    else if name == "char"@ { Some('C') }
    else if name == "double"@ { Some('D') }
    else if name == "float"@ { Some('F') }
    else if name == "int"@ { Some('I') }
    else if name == "long"@ { Some('J') }
    else if name == "short"@ { Some('S') }
    else if name == "boolean"@ { Some('Z') }
    else if name == "void"@ { Some('V') }
    else { None }
}

proof fn lemma_base_type_names_differ()
    ensures
        "byte"@ != "char"@, "byte"@ != "double"@, "byte"@ != "float"@, "byte"@ != "int"@,
        "byte"@ != "long"@, "byte"@ != "short"@, "byte"@ != "boolean"@, "byte"@ != "void"@,
        "char"@ != "double"@, "char"@ != "float"@, "char"@ != "int"@, "char"@ != "long"@,
        "char"@ != "short"@, "char"@ != "boolean"@, "char"@ != "void"@,
        "double"@ != "float"@, "double"@ != "int"@, "double"@ != "long"@, "double"@ != "short"@,
        "double"@ != "boolean"@, "double"@ != "void"@,
        "float"@ != "int"@, "float"@ != "long"@, "float"@ != "short"@, "float"@ != "boolean"@,
        "float"@ != "void"@,
        "int"@ != "long"@, "int"@ != "short"@, "int"@ != "boolean"@, "int"@ != "void"@,
        "long"@ != "short"@, "long"@ != "boolean"@, "long"@ != "void"@,
        "short"@ != "boolean"@, "short"@ != "void"@,
        "boolean"@ != "void"@,
{
    reveal_strlit("byte");
    reveal_strlit("char");
    reveal_strlit("double");
    reveal_strlit("float");
    reveal_strlit("int");
    reveal_strlit("long");
    reveal_strlit("short");
    reveal_strlit("boolean");
    reveal_strlit("void");
    assert("byte"@[0] != "char"@[0]);
    assert("byte"@[0] != "long"@[0]);
    assert("byte"@[0] != "void"@[0]);
    assert("char"@[0] != "long"@[0]);
    assert("char"@[0] != "void"@[0]);
    assert("long"@[0] != "void"@[0]);
    assert("float"@[0] != "short"@[0]);
    assert("byte"@.len() != "boolean"@.len());
    assert("double"@.len() != "int"@.len());
}

/// A one-letter descriptor decodes to the Java primitive type whose
/// descriptor letter it is: every Java primitive type name reads back from
/// its own letter, and a letter that decodes to a primitive type is that
/// type's letter, so no two letters decode to the same type.
pub proof fn law_primitive_letters_decode_to_their_types(name: Seq<char>, c: char)
    ensures
        base_type_letter(name) == Some(c) ==> spec_type_to_string(seq![c]) == name,
        primitive_name(c) is Some ==> base_type_letter(spec_type_to_string(seq![c])) == Some(c),
{
    lemma_base_type_names_differ();
    let d = seq![c];
    assert(d[0] == c);
}

/// An array descriptor shows its element type followed by `[]`.
pub proof fn law_array_type_display(elem: Seq<char>)
    ensures
        spec_type_to_string(seq!['['] + elem) == spec_type_to_string(elem) + "[]"@,
{
    assert((seq!['['] + elem).drop_first() =~= elem);
}

} // verus!
