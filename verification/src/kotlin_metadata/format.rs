//! Kotlin signature formatting from decoded metadata.
use vstd::prelude::*;
use super::{
    Constructor, Function, NameResolver, Property, ResolverView, Type, TypeArgument, TypeParameter, TypeTable,
    ValueParameter, spec_kotlin_simple_name,
};
use crate::text::{
    after_last_char, chars_of, decimal, join, join_vecs, push_decimal, push_seq, push_str, seq_eq,
    string_of,
};

verus! {

/// The character views of a vector of character vectors.
pub open spec fn views(parts: Seq<Vec<char>>) -> Seq<Seq<char>> {
    parts.map_values(|p: Vec<char>| p@)
}

/// `seq![s]` when `b` holds, else empty: an optional word of a signature.
pub open spec fn opt(b: bool, s: Seq<char>) -> Seq<Seq<char>> {
    if b { seq![s] } else { Seq::empty() }
}

/// Whether any bit of `mask` is set in `flags`.
pub open spec fn has_bit(flags: i32, mask: i32) -> bool {
    flags & mask != 0
}

fn bit(flags: i32, mask: i32) -> (r: bool)
    ensures
        r == has_bit(flags, mask),
{
    flags & mask != 0
}

/// Visibility field of the flags (bits 1 to 3).
pub open spec fn vis_no(flags: i32) -> i32 {
    (flags >> 1) & 7
}

/// Modality field of the flags (bits 4 and 5).
pub open spec fn modality_no(flags: i32) -> i32 {
    (flags >> 4) & 3
}

/// Class kind field of the flags (bits 6 to 8).
pub open spec fn kind_no(flags: i32) -> i32 {
    (flags >> 6) & 7
}

/// Name of a visibility value: internal, private, protected, public,
/// private (private-to-this), local; empty for other values.
pub open spec fn visibility_name(v: i32) -> Seq<char> {
    if v == 0 { "internal"@ }
    else if v == 1 { "private"@ }
    else if v == 2 { "protected"@ }
    else if v == 3 { "public"@ }
    else if v == 4 { "private"@ }
    else if v == 5 { "local"@ }
    else { ""@ }
}

/// Kotlin's visibilities (`INTERNAL` 0, `PRIVATE` 1, `PROTECTED` 2,
/// `PUBLIC` 3, `PRIVATE_TO_THIS` 4, `LOCAL` 5 in the metadata) are shown by
/// their Kotlin modifiers: `internal` exactly for `INTERNAL`, `private`
/// exactly for `PRIVATE` and `PRIVATE_TO_THIS`, `protected` exactly for
/// `PROTECTED`, and `public` exactly for `PUBLIC`.
pub proof fn law_visibility_modifiers(v: i32)
    ensures
        (visibility_name(v) == "internal"@) == (v == 0),
        (visibility_name(v) == "private"@) == (v == 1 || v == 4),
        (visibility_name(v) == "protected"@) == (v == 2),
        (visibility_name(v) == "public"@) == (v == 3),
{
    reveal_strlit("internal");
    reveal_strlit("private");
    reveal_strlit("protected");
    reveal_strlit("public");
    reveal_strlit("local");
    reveal_strlit("");
    assert("internal"@[0] != "private"@[0]);
    assert("internal"@[0] != "protected"@[0]);
    assert("internal"@[0] != "public"@[0]);
    assert("internal"@[0] != "local"@[0]);
    assert("private"@.len() != "protected"@.len());
    assert("private"@.len() != "public"@.len());
    assert("private"@[0] != "local"@[0]);
    assert("protected"@.len() != "public"@.len());
    assert("protected"@[0] != "local"@[0]);
    assert("public"@[0] != "local"@[0]);
    assert(""@.len() != "internal"@.len());
    assert(""@.len() != "private"@.len());
    assert(""@.len() != "protected"@.len());
    assert(""@.len() != "public"@.len());
}

/// Whether a visibility is written out: every named visibility but `public`.
pub open spec fn vis_shown(v: i32) -> bool {
    0 <= v <= 5 && v != 3
}

/// Name of a modality value: final, open, abstract, sealed.
pub open spec fn modality_name(m: i32) -> Seq<char> {
    if m == 0 { "final"@ }
    else if m == 1 { "open"@ }
    else if m == 2 { "abstract"@ }
    else if m == 3 { "sealed"@ }
    else { ""@ }
}

/// Name of a class kind value.
pub open spec fn class_kind_name(k: i32) -> Seq<char> {
    if k == 1 { "interface"@ }
    else if k == 2 { "enum class"@ }
    else if k == 3 { "enum entry"@ }
    else if k == 4 { "annotation class"@ }
    else if k == 5 { "object"@ }
    else if k == 6 { "companion object"@ }
    else { "class"@ }
}

/// The visibility word of the flags.
pub fn visibility_str(flags: i32) -> (r: &'static str)
    ensures
        r@ == visibility_name(vis_no(flags)),
{
    let v = (flags >> 1) & 7;
    if v == 0 { "internal" }
    else if v == 1 { "private" }
    else if v == 2 { "protected" }
    else if v == 3 { "public" }
    else if v == 4 { "private" }
    else if v == 5 { "local" }
    else { "" }
}

/// The modality word of the flags.
pub fn modality_str(flags: i32) -> (r: &'static str)
    ensures
        r@ == modality_name(modality_no(flags)),
{
    let m = (flags >> 4) & 3;
    if m == 0 { "final" }
    else if m == 1 { "open" }
    else if m == 2 { "abstract" }
    else if m == 3 { "sealed" }
    else { "" }
}

/// The class kind words of the flags.
pub fn class_kind(flags: i32) -> (r: &'static str)
    ensures
        r@ == class_kind_name(kind_no(flags)),
{
    let k = (flags >> 6) & 7;
    if k == 1 { "interface" }
    else if k == 2 { "enum class" }
    else if k == 3 { "enum entry" }
    else if k == 4 { "annotation class" }
    else if k == 5 { "object" }
    else if k == 6 { "companion object" }
    else { "class" }
}

fn push_part(parts: &mut Vec<Vec<char>>, s: &str)
    ensures
        views(final(parts)@) == views(old(parts)@).push(s@),
{
    let mut v: Vec<char> = Vec::new();
    push_str(&mut v, s);
    parts.push(v);
    assert(views(parts@) =~= views(old(parts)@).push(s@));
}

fn push_part_vec(parts: &mut Vec<Vec<char>>, v: Vec<char>)
    ensures
        views(final(parts)@) == views(old(parts)@).push(v@),
{
    let ghost w = v@;
    parts.push(v);
    assert(views(parts@) =~= views(old(parts)@).push(w));
}

/// Kotlin display of a class: the written-out visibility, the modality
/// unless final or an object, `inner` (bit 9), `data` (bit 10), `value`
/// (bit 13), `fun` (bit 14), the kind and the name, separated by spaces.
pub open spec fn spec_class_display(flags: i32, simple_name: Seq<char>) -> Seq<char> {
    let parts = opt(vis_shown(vis_no(flags)), visibility_name(vis_no(flags)))
        + opt(modality_no(flags) != 0 && kind_no(flags) != 5, modality_name(modality_no(flags)))
        + opt(has_bit(flags, 512), "inner"@)
        + opt(has_bit(flags, 1024), "data"@)
        + opt(has_bit(flags, 8192), "value"@)
        + opt(has_bit(flags, 16384), "fun"@)
        + seq![class_kind_name(kind_no(flags)), simple_name];
    join(parts, " "@)
}

proof fn lemma_join_starts_with_first(parts: Seq<Seq<char>>, sep: Seq<char>)
    requires
        parts.len() >= 2,
    ensures
        crate::text::has_prefix(join(parts, sep), parts[0] + sep),
    decreases parts.len(),
{
    if parts.len() == 2 {
        assert(parts.drop_last() =~= seq![parts[0]]);
        assert(join(parts.drop_last(), sep) == parts.drop_last()[0]);
        assert(join(parts, sep) == parts[0] + sep + parts.last());
        assert(join(parts, sep).take((parts[0] + sep).len() as int) =~= parts[0] + sep);
    } else {
        lemma_join_starts_with_first(parts.drop_last(), sep);
        assert(parts.drop_last()[0] == parts[0]);
        let j = join(parts.drop_last(), sep);
        assert(join(parts, sep) == j + sep + parts.last());
        assert((j + sep + parts.last()).take((parts[0] + sep).len() as int)
            =~= j.take((parts[0] + sep).len() as int));
    }
}

/// A class whose visibility is written out starts with that visibility's
/// modifier and a space (`internal class Foo` for an internal class).
pub proof fn law_class_display_starts_with_visibility(flags: i32, simple_name: Seq<char>)
    ensures
        vis_shown(vis_no(flags)) ==> crate::text::has_prefix(
            spec_class_display(flags, simple_name),
            visibility_name(vis_no(flags)) + " "@,
        ),
{
    if vis_shown(vis_no(flags)) {
        let parts = opt(vis_shown(vis_no(flags)), visibility_name(vis_no(flags)))
            + opt(modality_no(flags) != 0 && kind_no(flags) != 5, modality_name(modality_no(flags)))
            + opt(has_bit(flags, 512), "inner"@)
            + opt(has_bit(flags, 1024), "data"@)
            + opt(has_bit(flags, 8192), "value"@)
            + opt(has_bit(flags, 16384), "fun"@)
            + seq![class_kind_name(kind_no(flags)), simple_name];
        assert(parts[0] == visibility_name(vis_no(flags)));
        lemma_join_starts_with_first(parts, " "@);
    }
}

/// Format a Kotlin class signature from class flags.
pub fn format_class_display(flags: i32, simple_name: &str) -> (r: String)
    ensures
        r@ == spec_class_display(flags, simple_name@),
{
    let k = (flags >> 6) & 7;
    let mut parts: Vec<Vec<char>> = Vec::new();
    push_modifiers(&mut parts, flags, k == 5);
    push_flag_word(&mut parts, flags, 512, "inner");
    push_flag_word(&mut parts, flags, 1024, "data");
    push_flag_word(&mut parts, flags, 8192, "value");
    push_flag_word(&mut parts, flags, 16384, "fun");
    push_part(&mut parts, class_kind(flags));
    push_part(&mut parts, simple_name);
    assert(views(parts@) =~= opt(vis_shown(vis_no(flags)), visibility_name(vis_no(flags)))
        + opt(modality_no(flags) != 0 && kind_no(flags) != 5, modality_name(modality_no(flags)))
        + opt(has_bit(flags, 512), "inner"@)
        + opt(has_bit(flags, 1024), "data"@)
        + opt(has_bit(flags, 8192), "value"@)
        + opt(has_bit(flags, 16384), "fun"@)
        + seq![class_kind_name(kind_no(flags)), simple_name@]);
    string_of(&join_vecs(&parts, " "))
}

/// A decimal rendering of a signed number.
pub open spec fn signed_decimal(i: int) -> Seq<char> {
    if i < 0 { "-"@ + decimal((-i) as nat) } else { decimal(i as nat) }
}

pub fn push_signed(out: &mut Vec<char>, i: i32)
    ensures
        final(out)@ == old(out)@ + signed_decimal(i as int),
{
    if i < 0 {
        push_str(out, "-");
        let a: i64 = -(i as i64);
        push_decimal(out, a as u128);
        assert(old(out)@ + "-"@ + decimal((-i) as nat) =~= old(out)@ + ("-"@ + decimal((-i) as nat)));
    } else {
        push_decimal(out, i as u128);
    }
}

/// The first type parameter with the given id.
pub open spec fn find_type_param(tps: Seq<TypeParameter>, id: i32) -> Option<TypeParameter>
    decreases tps.len(),
{
    if tps.len() == 0 {
        None
    } else if tps[0].id == id {
        Some(tps[0])
    } else {
        find_type_param(tps.drop_first(), id)
    }
}

/// The base name of a type: the simple name of its class; else the name of
/// the type parameter with its id (`T{id}` when none has it); else its type
/// parameter name; else `Any`.
pub open spec fn type_base(ty: Type, res: ResolverView, tps: Seq<TypeParameter>) -> Seq<char> {
    match ty.class_name {
        Some(c) => spec_kotlin_simple_name(res.spec_qualified_name(c as int)),
        None => match ty.type_parameter {
            Some(id) => match find_type_param(tps, id) {
                Some(p) => res.spec_get_string(p.name as int),
                None => "T"@ + signed_decimal(id as int),
            },
            None => match ty.type_parameter_name {
                Some(n) => res.spec_get_string(n as int),
                None => "Any"@,
            },
        },
    }
}

/// Kotlin display of a type: an abbreviated type (type alias) shows as the
/// alias; otherwise the base name, the type arguments in `<...>` separated by
/// `", "`, and `?` when nullable.
pub open spec fn spec_format_type(ty: Type, res: ResolverView, tps: Seq<TypeParameter>) -> Seq<char>
    decreases ty, 1int, 0int,
{
    match ty.abbreviated_type {
        Some(a) => spec_format_type(*a, res, tps),
        None => {
            let args = if ty.argument@.len() == 0 {
                Seq::empty()
            } else {
                "<"@ + join(spec_format_args(ty, res, tps, ty.argument@.len() as int), ", "@) + ">"@
            };
            let nullable = if ty.nullable == Some(true) { "?"@ } else { Seq::empty() };
            type_base(ty, res, tps) + args + nullable
        },
    }
}

/// Displays of the first `n` type arguments of `ty`.
pub open spec fn spec_format_args(ty: Type, res: ResolverView, tps: Seq<TypeParameter>, n: int) -> Seq<Seq<char>>
    decreases ty, 0int, n,
{
    if n <= 0 || n > ty.argument@.len() {
        Seq::empty()
    } else {
        spec_format_args(ty, res, tps, n - 1).push(spec_type_argument(ty.argument@[n - 1], res, tps))
    }
}

/// Kotlin display of a type argument: `*` for a star projection; else the
/// type (`Any` when absent) prefixed by `in ` or `out ` for those projections.
pub open spec fn spec_type_argument(arg: TypeArgument, res: ResolverView, tps: Seq<TypeParameter>) -> Seq<char>
    decreases arg, 0int, 0int,
{
    let p: i32 = match arg.projection { Some(p) => p, None => 2 };
    if p == 3 {
        "*"@
    } else {
        let t = match arg.ty {
            Some(t) => spec_format_type(t, res, tps),
            None => "Any"@,
        };
        if p == 0 { "in "@ + t } else if p == 1 { "out "@ + t } else { t }
    }
}

fn type_param_name<'a>(tps: &'a [TypeParameter], res: &'a NameResolver, id: i32) -> (r: Option<&'a str>)
    ensures
        match find_type_param(tps@, id) {
            Some(p) => r is Some && r->0@ == res@.spec_get_string(p.name as int),
            None => r is None,
        },
{
    let mut i: usize = 0;
    assert(tps@.skip(0) =~= tps@);
    while i < tps.len()
        invariant
            0 <= i <= tps.len(),
            find_type_param(tps@, id) == find_type_param(tps@.skip(i as int), id),
        decreases tps.len() - i,
    {
        assert(tps@.skip(i as int)[0] == tps@[i as int]);
        if tps[i].id == id {
            return Some(res.get_string(tps[i].name));
        }
        assert(tps@.skip(i as int).drop_first() =~= tps@.skip(i + 1));
        i = i + 1;
    }
    None
}

/// Format a Kotlin type.
pub fn format_type(ty: &Type, res: &NameResolver, tps: &[TypeParameter]) -> (r: Vec<char>)
    ensures
        r@ == spec_format_type(*ty, res@, tps@),
    decreases *ty, 1int, 0int,
{
    if let Some(a) = &ty.abbreviated_type {
        return format_type(a, res, tps);
    }
    let mut out: Vec<char> = Vec::new();
    if let Some(c) = ty.class_name {
        let q = res.get_qualified_name(c);
        let qv = chars_of(q.as_str());
        push_seq(&mut out, &after_last_char(&qv, '/'));
    } else if let Some(id) = ty.type_parameter {
        match type_param_name(tps, res, id) {
            Some(n) => push_str(&mut out, n),
            None => {
                push_str(&mut out, "T");
                push_signed(&mut out, id);
            },
        }
    } else if let Some(n) = ty.type_parameter_name {
        push_str(&mut out, res.get_string(n));
    } else {
        push_str(&mut out, "Any");
    }
    assert(out@ =~= type_base(*ty, res@, tps@));
    if ty.argument.len() > 0 {
        let args = format_args(ty, res, tps);
        push_str(&mut out, "<");
        push_seq(&mut out, &join_vecs(&args, ", "));
        push_str(&mut out, ">");
    }
    if ty.nullable == Some(true) {
        push_str(&mut out, "?");
    }
    assert(out@ =~= spec_format_type(*ty, res@, tps@));
    out
}

fn format_args(ty: &Type, res: &NameResolver, tps: &[TypeParameter]) -> (r: Vec<Vec<char>>)
    ensures
        views(r@) == spec_format_args(*ty, res@, tps@, ty.argument@.len() as int),
    decreases *ty, 0int, ty.argument@.len(),
{
    let mut out: Vec<Vec<char>> = Vec::new();
    let mut i: usize = 0;
    while i < ty.argument.len()
        invariant
            0 <= i <= ty.argument.len(),
            views(out@) == spec_format_args(*ty, res@, tps@, i as int),
        decreases ty.argument.len() - i,
    {
        let a = format_type_argument(&ty.argument[i], res, tps);
        push_part_vec(&mut out, a);
        i = i + 1;
    }
    out
}

/// Format a Kotlin type argument.
pub fn format_type_argument(arg: &TypeArgument, res: &NameResolver, tps: &[TypeParameter]) -> (r: Vec<char>)
    ensures
        r@ == spec_type_argument(*arg, res@, tps@),
    decreases *arg, 0int, 0int,
{
    let p: i32 = match arg.projection { Some(p) => p, None => 2 };
    let mut out: Vec<char> = Vec::new();
    if p == 3 {
        push_str(&mut out, "*");
        return out;
    }
    if p == 0 {
        push_str(&mut out, "in ");
    } else if p == 1 {
        push_str(&mut out, "out ");
    }
    match &arg.ty {
        Some(t) => {
            let s = format_type(t, res, tps);
            push_seq(&mut out, &s);
        },
        None => push_str(&mut out, "Any"),
    }
    assert(out@ =~= spec_type_argument(*arg, res@, tps@));
    out
}

/// The variance prefix of a type parameter: `in `, `out `, or nothing.
pub open spec fn variance_prefix(v: i32) -> Seq<char> {
    if v == 0 { "in "@ } else if v == 1 { "out "@ } else { Seq::empty() }
}

/// Display of one type parameter: variance prefix and name.
pub open spec fn spec_type_param(p: TypeParameter, res: ResolverView) -> Seq<char> {
    variance_prefix(match p.variance { Some(v) => v, None => 2 }) + res.spec_get_string(p.name as int)
}

/// Display of a type parameter list: empty when there are none, else the
/// parameters in `<...>` separated by `", "`.
pub open spec fn spec_type_params(params: Seq<TypeParameter>, res: ResolverView) -> Seq<char> {
    if params.len() == 0 {
        Seq::empty()
    } else {
        "<"@ + join(params.map_values(|p: TypeParameter| spec_type_param(p, res)), ", "@) + ">"@
    }
}

/// Format the type parameters of a declaration.
pub fn format_type_params(params: &[TypeParameter], res: &NameResolver) -> (r: Vec<char>)
    ensures
        r@ == spec_type_params(params@, res@),
{
    let mut out: Vec<char> = Vec::new();
    if params.len() == 0 {
        return out;
    }
    let ghost want = params@.map_values(|p: TypeParameter| spec_type_param(p, res@));
    let mut parts: Vec<Vec<char>> = Vec::new();
    let mut i: usize = 0;
    while i < params.len()
        invariant
            0 <= i <= params.len(),
            want == params@.map_values(|p: TypeParameter| spec_type_param(p, res@)),
            views(parts@) =~= want.take(i as int),
        decreases params.len() - i,
    {
        let mut one: Vec<char> = Vec::new();
        let v = match params[i].variance { Some(v) => v, None => 2 };
        if v == 0 {
            push_str(&mut one, "in ");
        } else if v == 1 {
            push_str(&mut one, "out ");
        }
        push_str(&mut one, res.get_string(params[i].name));
        assert(one@ =~= want[i as int]);
        push_part_vec(&mut parts, one);
        assert(want.take(i + 1) =~= want.take(i as int).push(want[i as int]));
        i = i + 1;
    }
    assert(want.take(params.len() as int) =~= want);
    push_str(&mut out, "<");
    push_seq(&mut out, &join_vecs(&parts, ", "));
    push_str(&mut out, ">");
    out
}

/// The type a declaration refers to: the direct type if present, else the
/// type table entry with the given index.
pub open spec fn spec_resolve_type(direct: Option<Type>, type_id: Option<i32>, table: Option<TypeTable>) -> Option<Type> {
    match direct {
        Some(t) => Some(t),
        None => match (type_id, table) {
            (Some(id), Some(tt)) => if 0 <= id < tt.ty@.len() { Some(tt.ty@[id as int]) } else { None },
            _ => None,
        },
    }
}

/// Resolve a type reference (direct, or by index into the type table).
pub fn resolve_type_ref<'a>(
    direct: &'a Option<Type>,
    type_id: Option<i32>,
    type_table: Option<&'a TypeTable>,
) -> (r: Option<&'a Type>)
    ensures
        match spec_resolve_type(*direct, type_id, match type_table { Some(t) => Some(*t), None => None }) {
            Some(t) => r is Some && *r->0 == t,
            None => r is None,
        },
{
    if let Some(t) = direct {
        return Some(t);
    }
    if let (Some(id), Some(table)) = (type_id, type_table) {
        if id >= 0 && (id as usize) < table.ty.len() {
            return Some(&table.ty[id as usize]);
        }
    }
    None
}

/// The type table as a plain option.
pub open spec fn table_of(t: Option<&TypeTable>) -> Option<TypeTable> {
    match t { Some(t) => Some(*t), None => None }
}

/// Display of a value parameter: `crossinline ` (bit 2), `noinline ` (bit 3),
/// `vararg ` when it has a vararg element type, then `name: Type` (the vararg
/// element type, else its resolved type, else `Any`), then ` = ...` when it
/// has a default value (bit 1).
pub open spec fn spec_value_param(param: ValueParameter, res: ResolverView, tt: Option<TypeTable>, tps: Seq<TypeParameter>) -> Seq<char> {
    let flags: i32 = match param.flags { Some(f) => f, None => 0 };
    let ty = if param.vararg_element_type is Some {
        param.vararg_element_type
    } else {
        spec_resolve_type(param.ty, param.type_id, tt)
    };
    let type_str = match ty { Some(t) => spec_format_type(t, res, tps), None => "Any"@ };
    (if has_bit(flags, 4) { "crossinline "@ } else { Seq::empty() })
        + (if has_bit(flags, 8) { "noinline "@ } else { Seq::empty() })
        + (if param.vararg_element_type is Some { "vararg "@ } else { Seq::empty() })
        + res.spec_get_string(param.name as int) + ": "@ + type_str
        + (if has_bit(flags, 2) { " = ..."@ } else { Seq::empty() })
}

/// Format a value parameter.
pub fn format_value_param(
    param: &ValueParameter,
    res: &NameResolver,
    type_table: Option<&TypeTable>,
    tps: &[TypeParameter],
) -> (r: Vec<char>)
    ensures
        r@ == spec_value_param(*param, res@, table_of(type_table), tps@),
{
    let flags: i32 = match param.flags { Some(f) => f, None => 0 };
    let type_ref: Option<&Type> = if param.vararg_element_type.is_some() {
        param.vararg_element_type.as_ref()
    } else {
        resolve_type_ref(&param.ty, param.type_id, type_table)
    };
    let mut out: Vec<char> = Vec::new();
    if bit(flags, 4) {
        push_str(&mut out, "crossinline ");
    }
    if bit(flags, 8) {
        push_str(&mut out, "noinline ");
    }
    if param.vararg_element_type.is_some() {
        push_str(&mut out, "vararg ");
    }
    push_str(&mut out, res.get_string(param.name));
    push_str(&mut out, ": ");
    match type_ref {
        Some(t) => {
            let s = format_type(t, res, tps);
            push_seq(&mut out, &s);
        },
        None => push_str(&mut out, "Any"),
    }
    if bit(flags, 2) {
        push_str(&mut out, " = ...");
    }
    assert(out@ =~= spec_value_param(*param, res@, table_of(type_table), tps@));
    out
}

/// Displays of a parameter list joined with `", "`.
pub open spec fn spec_params(params: Seq<ValueParameter>, res: ResolverView, tt: Option<TypeTable>, tps: Seq<TypeParameter>) -> Seq<char> {
    join(params.map_values(|p: ValueParameter| spec_value_param(p, res, tt, tps)), ", "@)
}

fn format_params(
    params: &[ValueParameter],
    res: &NameResolver,
    type_table: Option<&TypeTable>,
    tps: &[TypeParameter],
) -> (r: Vec<char>)
    ensures
        r@ == spec_params(params@, res@, table_of(type_table), tps@),
{
    let ghost want = params@.map_values(|p: ValueParameter| spec_value_param(p, res@, table_of(type_table), tps@));
    let mut parts: Vec<Vec<char>> = Vec::new();
    let mut i: usize = 0;
    while i < params.len()
        invariant
            0 <= i <= params.len(),
            want == params@.map_values(|p: ValueParameter| spec_value_param(p, res@, table_of(type_table), tps@)),
            views(parts@) =~= want.take(i as int),
        decreases params.len() - i,
    {
        let one = format_value_param(&params[i], res, type_table, tps);
        push_part_vec(&mut parts, one);
        assert(want.take(i + 1) =~= want.take(i as int).push(want[i as int]));
        i = i + 1;
    }
    assert(want.take(params.len() as int) =~= want);
    join_vecs(&parts, ", ")
}

/// Format a Kotlin constructor signature: `constructor(params)`.
pub open spec fn spec_constructor_display(ctor: Constructor, res: ResolverView, tt: Option<TypeTable>, tps: Seq<TypeParameter>) -> Seq<char> {
    "constructor("@ + spec_params(ctor.value_parameter@, res, tt, tps) + ")"@
}

/// Format a Kotlin constructor signature.
pub fn format_constructor_display(
    ctor: &Constructor,
    resolver: &NameResolver,
    type_table: Option<&TypeTable>,
    type_params: &[TypeParameter],
) -> (r: String)
    ensures
        r@ == spec_constructor_display(*ctor, resolver@, table_of(type_table), type_params@),
{
    let mut out: Vec<char> = Vec::new();
    push_str(&mut out, "constructor(");
    push_seq(&mut out, &format_params(ctor.value_parameter.as_slice(), resolver, type_table, type_params));
    push_str(&mut out, ")");
    string_of(&out)
}

/// The flags of a function: `flags`, else `old_flags`, else 6.
pub open spec fn function_flags(f: Function) -> i32 {
    match f.flags { Some(x) => x, None => match f.old_flags { Some(x) => x, None => 6 } }
}

/// The flags of a property: `flags`, else `old_flags`, else 518.
pub open spec fn property_flags(p: Property) -> i32 {
    match p.flags { Some(x) => x, None => match p.old_flags { Some(x) => x, None => 518 } }
}

/// `recv.name` for an extension with a receiver type, else the name.
pub open spec fn with_receiver(receiver: Option<Type>, name: Seq<char>, res: ResolverView, tps: Seq<TypeParameter>) -> Seq<char> {
    match receiver {
        Some(t) => spec_format_type(t, res, tps) + "."@ + name,
        None => name,
    }
}

/// Kotlin display of a function: written-out visibility, non-final modality,
/// `inline` (bit 11), `suspend` (bit 14), `infix` (bit 10), `operator`
/// (bit 9), `fun`, its type parameters, then `recv.name(params)`; followed by
/// `: Ret` unless the return type shows as `Unit` (or is absent).
pub open spec fn spec_function_display(func: Function, res: ResolverView, tt: Option<TypeTable>, tps: Seq<TypeParameter>) -> Seq<char> {
    let flags = function_flags(func);
    let name = res.spec_get_string(func.name as int);
    let receiver = spec_resolve_type(func.receiver_type, func.receiver_type_id, tt);
    let call = with_receiver(receiver, name, res, tps) + "("@ + spec_params(func.value_parameter@, res, tt, tps) + ")"@;
    let parts = function_head(func, res) + seq![call];
    let prefix = join(parts, " "@);
    let ret = match spec_resolve_type(func.return_type, func.return_type_id, tt) {
        Some(t) => spec_format_type(t, res, tps),
        None => "Unit"@,
    };
    if ret == "Unit"@ { prefix } else { prefix + ": "@ + ret }
}

fn receiver_prefix(
    receiver: Option<&Type>,
    name: &str,
    res: &NameResolver,
    tps: &[TypeParameter],
) -> (r: Vec<char>)
    ensures
        r@ == with_receiver(match receiver { Some(t) => Some(*t), None => None }, name@, res@, tps@),
{
    let mut out: Vec<char> = Vec::new();
    if let Some(t) = receiver {
        let s = format_type(t, res, tps);
        push_seq(&mut out, &s);
        push_str(&mut out, ".");
    }
    push_str(&mut out, name);
    assert(out@ =~= with_receiver(match receiver { Some(t) => Some(*t), None => None }, name@, res@, tps@));
    out
}

fn push_modifiers(parts: &mut Vec<Vec<char>>, flags: i32, hide_modality: bool)
    ensures
        views(final(parts)@) == views(old(parts)@)
            + opt(vis_shown(vis_no(flags)), visibility_name(vis_no(flags)))
            + opt(modality_no(flags) != 0 && !hide_modality, modality_name(modality_no(flags))),
{
    let ghost start = views(parts@);
    let v = (flags >> 1) & 7;
    let m = (flags >> 4) & 3;
    if v >= 0 && v <= 5 && v != 3 {
        push_part(parts, visibility_str(flags));
    }
    assert(views(parts@) =~= start + opt(vis_shown(vis_no(flags)), visibility_name(vis_no(flags))));
    let ghost mid = views(parts@);
    if m != 0 && !hide_modality {
        push_part(parts, modality_str(flags));
    }
    assert(views(parts@) =~= mid + opt(modality_no(flags) != 0 && !hide_modality, modality_name(modality_no(flags))));
}

fn push_flag_word(parts: &mut Vec<Vec<char>>, flags: i32, mask: i32, word: &str)
    ensures
        views(final(parts)@) == views(old(parts)@) + opt(has_bit(flags, mask), word@),
{
    if bit(flags, mask) {
        push_part(parts, word);
    }
    assert(views(parts@) =~= views(old(parts)@) + opt(has_bit(flags, mask), word@));
}

/// The words of a function display before its call: modifiers, `fun` and
/// the type parameters.
pub open spec fn function_head(func: Function, res: ResolverView) -> Seq<Seq<char>> {
    let flags = function_flags(func);
    opt(vis_shown(vis_no(flags)), visibility_name(vis_no(flags)))
        + opt(modality_no(flags) != 0, modality_name(modality_no(flags)))
        + opt(has_bit(flags, 2048), "inline"@)
        + opt(has_bit(flags, 16384), "suspend"@)
        + opt(has_bit(flags, 1024), "infix"@)
        + opt(has_bit(flags, 512), "operator"@)
        + seq!["fun"@]
        + opt(func.type_parameter@.len() > 0, spec_type_params(func.type_parameter@, res))
}

fn function_head_parts(func: &Function, resolver: &NameResolver) -> (r: Vec<Vec<char>>)
    ensures
        views(r@) == function_head(*func, resolver@),
{
    let flags: i32 = match func.flags {
        Some(x) => x,
        None => match func.old_flags { Some(x) => x, None => 6 },
    };
    let mut parts: Vec<Vec<char>> = Vec::new();
    push_modifiers(&mut parts, flags, false);
    push_flag_word(&mut parts, flags, 2048, "inline");
    push_flag_word(&mut parts, flags, 16384, "suspend");
    push_flag_word(&mut parts, flags, 1024, "infix");
    push_flag_word(&mut parts, flags, 512, "operator");
    push_part(&mut parts, "fun");
    let ghost before_tp = views(parts@);
    if func.type_parameter.len() > 0 {
        let tp = format_type_params(func.type_parameter.as_slice(), resolver);
        push_part_vec(&mut parts, tp);
    }
    assert(views(parts@) =~= before_tp + opt(func.type_parameter@.len() > 0, spec_type_params(func.type_parameter@, resolver@)));
    assert(views(parts@) =~= function_head(*func, resolver@));
    parts
}

fn function_call(
    func: &Function,
    resolver: &NameResolver,
    type_table: Option<&TypeTable>,
    type_params: &[TypeParameter],
) -> (r: Vec<char>)
    ensures
        r@ == with_receiver(spec_resolve_type(func.receiver_type, func.receiver_type_id, table_of(type_table)),
            resolver@.spec_get_string(func.name as int), resolver@, type_params@)
            + "("@ + spec_params(func.value_parameter@, resolver@, table_of(type_table), type_params@) + ")"@,
{
    let name = resolver.get_string(func.name);
    let receiver = resolve_type_ref(&func.receiver_type, func.receiver_type_id, type_table);
    let mut call = receiver_prefix(receiver, name, resolver, type_params);
    push_str(&mut call, "(");
    push_seq(&mut call, &format_params(func.value_parameter.as_slice(), resolver, type_table, type_params));
    push_str(&mut call, ")");
    call
}

/// Format a Kotlin function signature.
pub fn format_function_display(
    func: &Function,
    resolver: &NameResolver,
    type_table: Option<&TypeTable>,
    type_params: &[TypeParameter],
) -> (r: String)
    ensures
        r@ == spec_function_display(*func, resolver@, table_of(type_table), type_params@),
{
    let mut parts = function_head_parts(func, resolver);
    let call = function_call(func, resolver, type_table, type_params);
    let ghost head = views(parts@);
    let ghost call_view = call@;
    push_part_vec(&mut parts, call);
    assert(views(parts@) =~= function_head(*func, resolver@) + seq![call_view]);
    let mut out = join_vecs(&parts, " ");
    let ret_type = resolve_type_ref(&func.return_type, func.return_type_id, type_table);
    let ret = match ret_type {
        Some(t) => format_type(t, resolver, type_params),
        None => chars_of("Unit"),
    };
    let unit = chars_of("Unit");
    if !seq_eq(&ret, &unit) {
        push_str(&mut out, ": ");
        push_seq(&mut out, &ret);
    }
    string_of(&out)
}

/// Kotlin display of a property: written-out visibility, non-final modality,
/// `const` (bit 12), `lateinit` (bit 13), `var` (bit 9) or `val`, then
/// `recv.name: Type` (`Any` when the type is absent).
pub open spec fn spec_property_display(prop: Property, res: ResolverView, tt: Option<TypeTable>, tps: Seq<TypeParameter>) -> Seq<char> {
    let flags = property_flags(prop);
    let name = res.spec_get_string(prop.name as int);
    let receiver = spec_resolve_type(prop.receiver_type, prop.receiver_type_id, tt);
    let type_str = match spec_resolve_type(prop.return_type, prop.return_type_id, tt) {
        Some(t) => spec_format_type(t, res, tps),
        None => "Any"@,
    };
    let parts = opt(vis_shown(vis_no(flags)), visibility_name(vis_no(flags)))
        + opt(modality_no(flags) != 0, modality_name(modality_no(flags)))
        + opt(has_bit(flags, 4096), "const"@)
        + opt(has_bit(flags, 8192), "lateinit"@)
        + seq![if has_bit(flags, 512) { "var"@ } else { "val"@ }]
        + seq![with_receiver(receiver, name, res, tps) + ": "@ + type_str];
    join(parts, " "@)
}

/// Format a Kotlin property signature.
pub fn format_property_display(
    prop: &Property,
    resolver: &NameResolver,
    type_table: Option<&TypeTable>,
    type_params: &[TypeParameter],
) -> (r: String)
    ensures
        r@ == spec_property_display(*prop, resolver@, table_of(type_table), type_params@),
{
    let flags: i32 = match prop.flags {
        Some(x) => x,
        None => match prop.old_flags { Some(x) => x, None => 518 },
    };
    let name = resolver.get_string(prop.name);
    let mut parts: Vec<Vec<char>> = Vec::new();
    push_modifiers(&mut parts, flags, false);
    push_flag_word(&mut parts, flags, 4096, "const");
    push_flag_word(&mut parts, flags, 8192, "lateinit");
    if bit(flags, 512) {
        push_part(&mut parts, "var");
    } else {
        push_part(&mut parts, "val");
    }
    let receiver = resolve_type_ref(&prop.receiver_type, prop.receiver_type_id, type_table);
    let mut last = receiver_prefix(receiver, name, resolver, type_params);
    push_str(&mut last, ": ");
    match resolve_type_ref(&prop.return_type, prop.return_type_id, type_table) {
        Some(t) => {
            let s = format_type(t, resolver, type_params);
            push_seq(&mut last, &s);
        },
        None => push_str(&mut last, "Any"),
    }
    let ghost last_view = last@;
    push_part_vec(&mut parts, last);
    assert(views(parts@) =~= opt(vis_shown(vis_no(flags)), visibility_name(vis_no(flags)))
        + opt(modality_no(flags) != 0, modality_name(modality_no(flags)))
        + opt(has_bit(flags, 4096), "const"@)
        + opt(has_bit(flags, 8192), "lateinit"@)
        + seq![if has_bit(flags, 512) { "var"@ } else { "val"@ }]
        + seq![last_view]);
    string_of(&join_vecs(&parts, " "))
}

} // verus!
