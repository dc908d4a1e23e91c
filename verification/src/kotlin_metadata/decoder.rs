//! Byte-level framing of the metadata payload and signature extraction from
//! the decoded messages.
//!
//! The `d1` strings of `@kotlin.Metadata` carry a length-delimited
//! `StringTableTypes` message followed by the class or package message.
//! [`metadata_payload`] frames those bytes; once the two messages are
//! decoded, [`extract_kotlin_signatures`] turns them into signatures.
use vstd::prelude::*;
use super::{
    Class, Constructor, Function, KotlinMemberSignature, KotlinMetadataRaw, KotlinSignatures,
    NameResolver, Package, Property, ResolverView, StringTableTypes, TypeParameter, TypeTable,
    kotlin_simple_name, owned, spec_kotlin_simple_name,
};
use super::format::{
    format_class_display, format_constructor_display, format_function_display,
    format_property_display, spec_class_display, spec_constructor_display, spec_function_display,
    spec_property_display, table_of,
};
use super::signatures::{
    build_jvm_descriptor_hint, property_getter_name, spec_descriptor_hint, spec_getter_name,
};
use crate::text::chars_of;

verus! {

/// The characters of all `d1` strings, in order.
pub open spec fn d1_chars(d1: Seq<String>) -> Seq<char> {
    d1.map_values(|s: String| s@).flatten()
}

/// The byte of a character: its code point modulo 256.
pub open spec fn char_byte(c: char) -> u8 {
    (c as u32 % 256) as u8
}

/// The bytes of the `d1` strings: one byte per character, without the
/// UTF-8 mode marker `\0` when it is the very first character.
pub open spec fn spec_d1_bytes(d1: Seq<String>) -> Seq<u8> {
    let cs = d1_chars(d1);
    let body = if cs.len() > 0 && cs[0] == '\0' { cs.drop_first() } else { cs };
    body.map_values(|c: char| char_byte(c))
}

/// Decode raw bytes from d1 strings.
///
/// The Kotlin compiler encodes protobuf data into annotation string arrays.
/// In UTF-8 mode (marker = `\0` at position 0), each subsequent character's
/// code point (0–255) maps directly to one byte.
pub fn d1_to_bytes(d1: &[String]) -> (r: Vec<u8>)
    ensures
        r@ == spec_d1_bytes(d1@),
{
    let mut bytes: Vec<u8> = Vec::new();
    let mut first = true;
    let ghost mut seen: Seq<char> = Seq::empty();
    let mut i: usize = 0;
    while i < d1.len()
        invariant
            0 <= i <= d1@.len(),
            seen == d1@.take(i as int).map_values(|s: String| s@).flatten(),
            first <==> seen.len() == 0,
            bytes@ == (if seen.len() > 0 && seen[0] == '\0' { seen.drop_first() } else { seen }).map_values(|c: char| char_byte(c)),
        decreases d1@.len() - i,
    {
        let cs = chars_of(d1[i].as_str());
        proof {
            assert(d1@.take(i + 1).map_values(|s: String| s@) =~= d1@.take(i as int).map_values(|s: String| s@).push(cs@));
            d1@.take(i as int).map_values(|s: String| s@).lemma_flatten_push(cs@);
        }
        let ghost before = seen;
        let mut j: usize = 0;
        while j < cs.len()
            invariant
                0 <= j <= cs@.len(),
                seen == before + cs@.take(j as int),
                first <==> seen.len() == 0,
                bytes@ == (if seen.len() > 0 && seen[0] == '\0' { seen.drop_first() } else { seen }).map_values(|c: char| char_byte(c)),
            decreases cs@.len() - j,
        {
            let c = cs[j];
            let ghost prev = seen;
            proof {
                seen = before + cs@.take(j + 1);
                assert(seen =~= prev.push(c));
            }
            if first {
                first = false;
                if c != '\0' {
                    bytes.push((c as u32 % 256) as u8);
                }
                assert(bytes@ =~= (if seen.len() > 0 && seen[0] == '\0' { seen.drop_first() } else { seen }).map_values(|c: char| char_byte(c)));
            } else {
                bytes.push((c as u32 % 256) as u8);
                proof {
                    let pb = if prev.len() > 0 && prev[0] == '\0' { prev.drop_first() } else { prev };
                    let sb = if seen.len() > 0 && seen[0] == '\0' { seen.drop_first() } else { seen };
                    assert(sb =~= pb.push(c));
                }
                assert(bytes@ =~= (if seen.len() > 0 && seen[0] == '\0' { seen.drop_first() } else { seen }).map_values(|c: char| char_byte(c)));
            }
            j = j + 1;
        }
        assert(cs@.take(cs@.len() as int) =~= cs@);
        i = i + 1;
    }
    assert(d1@.take(d1@.len() as int) =~= d1@);
    bytes
}

/// Weight of the `i`-th 7-bit group of a varint (2 to the power 7i).
pub open spec fn varint_weight(i: int) -> int {
    if i <= 0 { 1 }
    else if i == 1 { 0x80 }
    else if i == 2 { 0x4000 }
    else if i == 3 { 0x20_0000 }
    else if i == 4 { 0x1000_0000 }
    else if i == 5 { 0x8_0000_0000 }
    else if i == 6 { 0x400_0000_0000 }
    else if i == 7 { 0x2_0000_0000_0000 }
    else if i == 8 { 0x100_0000_0000_0000 }
    else { 0x8000_0000_0000_0000 }
}

/// The 64-bit value of the first `n` bytes (at most 10) read as varint
/// groups, little-endian: each byte adds its low 7 bits times the weight of
/// its position; of the tenth byte only the lowest bit fits in 64 bits.
pub open spec fn varint_value(buf: Seq<u8>, n: int) -> int
    decreases n,
{
    if n <= 0 || n > buf.len() {
        0
    } else {
        let b = buf[n - 1] as int;
        let group = if n - 1 < 9 { b % 128 } else { b % 2 };
        varint_value(buf, n - 1) + group * varint_weight(n - 1)
    }
}

/// The index of the first byte below 0x80 at or after `i` (the last byte of
/// a varint that starts at or before `i`).
pub open spec fn varint_last_from(buf: Seq<u8>, i: int) -> Option<int>
    decreases buf.len() - i,
{
    if i < 0 || i >= buf.len() {
        None
    } else if buf[i] < 128 {
        Some(i)
    } else {
        varint_last_from(buf, i + 1)
    }
}

/// The index of the first byte below 0x80.
pub open spec fn varint_last(buf: Seq<u8>) -> Option<int> {
    varint_last_from(buf, 0)
}

/// A varint: decoded when its last byte is among the first ten, giving the
/// value and the number of bytes read.
pub open spec fn spec_decode_varint(buf: Seq<u8>) -> Option<(u64, usize)> {
    match varint_last(buf) {
        Some(j) => if j < 10 { Some((varint_value(buf, j + 1) as u64, (j + 1) as usize)) } else { None },
        None => None,
    }
}

proof fn lemma_varint_value_bound(buf: Seq<u8>, n: int)
    requires
        0 <= n <= 9,
    ensures
        0 <= varint_value(buf, n) < varint_weight(n),
    decreases n,
{
    if n > 0 {
        lemma_varint_value_bound(buf, n - 1);
    }
}

proof fn lemma_varint_last_from_bound(buf: Seq<u8>, i: int)
    requires
        0 <= i,
    ensures
        varint_last_from(buf, i) matches Some(j) ==> i <= j < buf.len(),
    decreases buf.len() - i,
{
    if i < buf.len() && buf[i] >= 128 {
        lemma_varint_last_from_bound(buf, i + 1);
    }
}

/// Decode a varint from raw bytes, returning (value, bytes_consumed).
pub fn decode_varint(buf: &[u8]) -> (r: Option<(u64, usize)>)
    ensures
        r == spec_decode_varint(buf@),
{
    let mut result: u64 = 0;
    let mut i: usize = 0;
    let mut weight: u64 = 1;
    while i < buf.len()
        invariant
            0 <= i <= buf.len(),
            i <= 9,
            varint_last(buf@) == varint_last_from(buf@, i as int),
            result == varint_value(buf@, i as int),
            weight == varint_weight(i as int),
        decreases buf.len() - i,
    {
        let byte = buf[i];
        proof { lemma_varint_value_bound(buf@, i as int); }
        let group: u64 = if i < 9 { (byte % 128) as u64 } else { (byte % 2) as u64 };
        assert(group * weight <= 127 * varint_weight(i as int)) by (nonlinear_arith)
            requires group <= 127, weight == varint_weight(i as int), weight >= 1;
        result = result + group * weight;
        if byte < 128 {
            return Some((result, i + 1));
        }
        if i == 9 {
            proof { lemma_varint_last_from_bound(buf@, 10); }
            return None;
        }
        i = i + 1;
        weight = weight * 128;
    }
    None
}

/// Which message follows the string table in the payload.
#[derive(Debug, Clone, Copy, PartialEq, Eq, Structural)]
pub enum MetadataKind {
    /// A class message (kind 1).
    Class,
    /// A package message (kinds 2 and 5).
    Package,
}

/// The message kind of a metadata kind: 1 is a class; 2 (file facade) and
/// 5 (multi-file part) are packages; others carry no signatures.
pub open spec fn spec_metadata_kind(k: i32) -> Option<MetadataKind> {
    if k == 1 {
        Some(MetadataKind::Class)
    } else if k == 2 || k == 5 {
        Some(MetadataKind::Package)
    } else {
        None
    }
}

fn metadata_kind(k: i32) -> (r: Option<MetadataKind>)
    ensures
        r == spec_metadata_kind(k),
{
    if k == 1 {
        Some(MetadataKind::Class)
    } else if k == 2 || k == 5 {
        Some(MetadataKind::Package)
    } else {
        None
    }
}

/// The two encoded messages of a metadata payload.
#[derive(Debug, Clone)]
pub struct MetadataPayload {
    /// Which message `body` holds.
    pub kind: MetadataKind,
    /// The encoded `StringTableTypes` message.
    pub string_table: Vec<u8>,
    /// The encoded class or package message.
    pub body: Vec<u8>,
}

/// The framing of a payload: the kind and the string table's bounds
/// `(start, end)`; `None` when `d1` is empty, the kind carries no
/// signatures, the length prefix is not a varint or runs past the end.
pub open spec fn spec_payload_frame(raw: KotlinMetadataRaw) -> Option<(MetadataKind, int, int)> {
    let bytes = spec_d1_bytes(raw.d1@);
    if bytes.len() == 0 {
        None
    } else {
        match spec_metadata_kind(raw.k) {
            None => None,
            Some(kind) => match spec_decode_varint(bytes) {
                None => None,
                Some((len, size)) => if size + len > bytes.len() {
                    None
                } else {
                    Some((kind, size as int, size + len))
                },
            },
        }
    }
}

/// Split the `d1` payload into the string table message and the body
/// message.
pub fn metadata_payload(raw: &KotlinMetadataRaw) -> (r: Option<MetadataPayload>)
    ensures
        match spec_payload_frame(*raw) {
            None => r is None,
            Some((kind, start, end)) => r is Some && r->0.kind == kind
                && r->0.string_table@ == spec_d1_bytes(raw.d1@).subrange(start, end)
                && r->0.body@ == spec_d1_bytes(raw.d1@).subrange(end, spec_d1_bytes(raw.d1@).len() as int),
        },
{
    let bytes = d1_to_bytes(raw.d1.as_slice());
    if bytes.len() == 0 {
        return None;
    }
    let kind = match metadata_kind(raw.k) {
        Some(kind) => kind,
        None => return None,
    };
    let (len, size) = match decode_varint(bytes.as_slice()) {
        Some(v) => v,
        None => return None,
    };
    proof { lemma_varint_last_from_bound(bytes@, 0); }
    if len > (bytes.len() - size) as u64 {
        return None;
    }
    let end = size + len as usize;
    let string_table = crate::text::slice_vec(&bytes, size, end);
    let body = crate::text::slice_vec(&bytes, end, bytes.len());
    Some(MetadataPayload { kind, string_table, body })
}

/// The decoded message that follows the string table.
#[derive(Debug)]
pub enum DecodedBody {
    /// A class message.
    Class(Class),
    /// A package message.
    Package(Package),
}

/// The two decoded messages of a payload.
#[derive(Debug)]
pub struct DecodedMetadata {
    /// The string table types.
    pub string_table: StringTableTypes,
    /// The class or package message.
    pub body: DecodedBody,
}

/// The resolver view of decoded string table types and `d2` strings.
pub open spec fn resolver_view(stt: StringTableTypes, d2: Seq<String>) -> ResolverView {
    ResolverView { records: stt.record@, strings: d2.map_values(|s: String| s@) }
}

/// A member signature holds the given name, descriptor hint and display.
pub open spec fn member_is(m: KotlinMemberSignature, name: Seq<char>, desc: Seq<char>, display: Seq<char>) -> bool {
    m.jvm_name@ == name && m.jvm_descriptor@ == desc && m.kotlin_display@ == display
}

/// The members of a class or package: one per function (its name, its
/// descriptor hint and display), two per property (the getter name, then
/// the property name, both with the property display and no hint), and one
/// per constructor (`<init>` with its display), in that order.
pub open spec fn members_are(
    members: Seq<KotlinMemberSignature>,
    functions: Seq<Function>,
    properties: Seq<Property>,
    constructors: Seq<Constructor>,
    res: ResolverView,
    tt: Option<TypeTable>,
    tps: Seq<TypeParameter>,
) -> bool {
    let nf = functions.len();
    let np = properties.len();
    &&& members.len() == nf + 2 * np + constructors.len()
    &&& forall|i: int| 0 <= i < nf ==> #[trigger] member_is(members[i],
            res.spec_get_string(functions[i].name as int),
            spec_descriptor_hint(functions[i]),
            spec_function_display(functions[i], res, tt, tps))
    &&& forall|j: int| 0 <= j < np ==> #[trigger] member_is(members[nf + 2 * j],
            spec_getter_name(res.spec_get_string(properties[j].name as int)),
            Seq::empty(),
            spec_property_display(properties[j], res, tt, tps))
    &&& forall|j: int| 0 <= j < np ==> #[trigger] member_is(members[nf + 2 * j + 1],
            res.spec_get_string(properties[j].name as int),
            Seq::empty(),
            spec_property_display(properties[j], res, tt, tps))
    &&& forall|c: int| 0 <= c < constructors.len() ==> #[trigger] member_is(members[nf + 2 * np + c],
            "<init>"@,
            Seq::empty(),
            spec_constructor_display(constructors[c], res, tt, tps))
}

/// Every function has fewer than `usize::MAX` value parameters.
pub open spec fn params_fit(functions: Seq<Function>) -> bool {
    forall|i: int| 0 <= i < functions.len() ==> (#[trigger] functions[i]).value_parameter@.len() < usize::MAX
}

fn member(name: String, desc: String, display: String) -> (r: KotlinMemberSignature)
    ensures
        member_is(r, name@, desc@, display@),
{
    KotlinMemberSignature { jvm_name: name, jvm_descriptor: desc, kotlin_display: display }
}

fn push_function_members(
    members: &mut Vec<KotlinMemberSignature>,
    functions: &Vec<Function>,
    resolver: &NameResolver,
    type_table: Option<&TypeTable>,
    type_params: &[TypeParameter],
)
    requires
        params_fit(functions@),
    ensures
        final(members)@.len() == old(members)@.len() + functions@.len(),
        forall|k: int| 0 <= k < old(members)@.len() ==> final(members)@[k] == old(members)@[k],
        forall|i: int| 0 <= i < functions@.len() ==> #[trigger] member_is(final(members)@[old(members)@.len() + i],
            resolver@.spec_get_string(functions@[i].name as int),
            spec_descriptor_hint(functions@[i]),
            spec_function_display(functions@[i], resolver@, table_of(type_table), type_params@)),
{
    let ghost start = old(members)@;
    let mut i: usize = 0;
    while i < functions.len()
        invariant
            0 <= i <= functions@.len(),
            params_fit(functions@),
            members@.len() == start.len() + i,
            forall|k: int| 0 <= k < start.len() ==> members@[k] == start[k],
            forall|f: int| 0 <= f < i ==> #[trigger] member_is(members@[start.len() + f],
                resolver@.spec_get_string(functions@[f].name as int),
                spec_descriptor_hint(functions@[f]),
                spec_function_display(functions@[f], resolver@, table_of(type_table), type_params@)),
        decreases functions@.len() - i,
    {
        let func = &functions[i];
        let name = owned(resolver.get_string(func.name));
        let display = format_function_display(func, resolver, type_table, type_params);
        let hint = build_jvm_descriptor_hint(func, resolver, type_table);
        let m = member(name, hint, display);
        members.push(m);
        i = i + 1;
    }
}

fn push_property_members(
    members: &mut Vec<KotlinMemberSignature>,
    properties: &Vec<Property>,
    resolver: &NameResolver,
    type_table: Option<&TypeTable>,
    type_params: &[TypeParameter],
)
    ensures
        final(members)@.len() == old(members)@.len() + 2 * properties@.len(),
        forall|k: int| 0 <= k < old(members)@.len() ==> final(members)@[k] == old(members)@[k],
        forall|j: int| 0 <= j < properties@.len() ==> #[trigger] member_is(final(members)@[old(members)@.len() + 2 * j],
            spec_getter_name(resolver@.spec_get_string(properties@[j].name as int)),
            Seq::empty(),
            spec_property_display(properties@[j], resolver@, table_of(type_table), type_params@)),
        forall|j: int| 0 <= j < properties@.len() ==> #[trigger] member_is(final(members)@[old(members)@.len() + 2 * j + 1],
            resolver@.spec_get_string(properties@[j].name as int),
            Seq::empty(),
            spec_property_display(properties@[j], resolver@, table_of(type_table), type_params@)),
{
    let ghost start = old(members)@;
    let mut i: usize = 0;
    while i < properties.len()
        invariant
            0 <= i <= properties@.len(),
            members@.len() == start.len() + 2 * i,
            forall|k: int| 0 <= k < start.len() ==> members@[k] == start[k],
            forall|j: int| 0 <= j < i ==> #[trigger] member_is(members@[start.len() + 2 * j],
                spec_getter_name(resolver@.spec_get_string(properties@[j].name as int)),
                Seq::empty(),
                spec_property_display(properties@[j], resolver@, table_of(type_table), type_params@)),
            forall|j: int| 0 <= j < i ==> #[trigger] member_is(members@[start.len() + 2 * j + 1],
                resolver@.spec_get_string(properties@[j].name as int),
                Seq::empty(),
                spec_property_display(properties@[j], resolver@, table_of(type_table), type_params@)),
        decreases properties@.len() - i,
    {
        let prop = &properties[i];
        let name = owned(resolver.get_string(prop.name));
        let display = format_property_display(prop, resolver, type_table, type_params);
        let getter = property_getter_name(name.as_str());
        let display_copy = display.clone();
        let g = member(getter, String::new(), display_copy);
        members.push(g);
        let f = member(name, String::new(), display);
        members.push(f);
        proof {
            assert(start.len() + 2 * (i + 1) == start.len() + 2 * i + 2);
            assert forall|j: int| 0 <= j < i + 1 implies #[trigger] member_is(members@[start.len() + 2 * j],
                spec_getter_name(resolver@.spec_get_string(properties@[j].name as int)),
                Seq::empty(),
                spec_property_display(properties@[j], resolver@, table_of(type_table), type_params@)) by {
                if j < i {
                    assert(start.len() + 2 * j < start.len() + 2 * i);
                }
            }
            assert forall|j: int| 0 <= j < i + 1 implies #[trigger] member_is(members@[start.len() + 2 * j + 1],
                resolver@.spec_get_string(properties@[j].name as int),
                Seq::empty(),
                spec_property_display(properties@[j], resolver@, table_of(type_table), type_params@)) by {
                if j < i {
                    assert(start.len() + 2 * j + 1 < start.len() + 2 * i);
                }
            }
        }
        i = i + 1;
    }
}

fn push_constructor_members(
    members: &mut Vec<KotlinMemberSignature>,
    constructors: &Vec<Constructor>,
    resolver: &NameResolver,
    type_table: Option<&TypeTable>,
    type_params: &[TypeParameter],
)
    ensures
        final(members)@.len() == old(members)@.len() + constructors@.len(),
        forall|k: int| 0 <= k < old(members)@.len() ==> final(members)@[k] == old(members)@[k],
        forall|c: int| 0 <= c < constructors@.len() ==> #[trigger] member_is(final(members)@[old(members)@.len() + c],
            "<init>"@,
            Seq::empty(),
            spec_constructor_display(constructors@[c], resolver@, table_of(type_table), type_params@)),
{
    let ghost start = old(members)@;
    let mut i: usize = 0;
    while i < constructors.len()
        invariant
            0 <= i <= constructors@.len(),
            members@.len() == start.len() + i,
            forall|k: int| 0 <= k < start.len() ==> members@[k] == start[k],
            forall|c: int| 0 <= c < i ==> #[trigger] member_is(members@[start.len() + c],
                "<init>"@,
                Seq::empty(),
                spec_constructor_display(constructors@[c], resolver@, table_of(type_table), type_params@)),
        decreases constructors@.len() - i,
    {
        let display = format_constructor_display(&constructors[i], resolver, type_table, type_params);
        let m = member(owned("<init>"), String::new(), display);
        members.push(m);
        i = i + 1;
    }
}

/// The class display of a decoded class: its flags (6 when absent) and the
/// simple name of its qualified name (empty when it has none).
pub open spec fn spec_class_header(class: Class, res: ResolverView) -> Seq<char> {
    let flags: i32 = match class.flags { Some(f) => f, None => 6 };
    let name = match class.fq_name {
        Some(idx) => spec_kotlin_simple_name(res.spec_qualified_name(idx as int)),
        None => Seq::empty(),
    };
    spec_class_display(flags, name)
}

/// Signatures of a decoded class (kind 1).
pub fn decode_class_signatures(stt: StringTableTypes, class: &Class, d2: &Vec<String>) -> (r: KotlinSignatures)
    requires
        params_fit(class.function@),
    ensures
        r.class_display is Some,
        r.class_display->0@ == spec_class_header(*class, resolver_view(stt, d2@)),
        members_are(r.members@, class.function@, class.property@, class.constructor@,
            resolver_view(stt, d2@), class.type_table, class.type_parameter@),
{
    let ghost view = resolver_view(stt, d2@);
    let strings = d2.clone();
    proof {
        assert(strings@.map_values(|s: String| s@) =~= d2@.map_values(|s: String| s@)) by {
            assert forall|i: int| 0 <= i < d2@.len() implies strings@[i]@ == d2@[i]@ by {
                assert(vstd::pervasive::cloned(d2@[i], strings@[i]));
            }
        }
    }
    let resolver = NameResolver::new(stt, strings);
    assert(resolver@ == view);
    let type_table = class.type_table.as_ref();
    let flags: i32 = match class.flags { Some(f) => f, None => 6 };
    let name: String = match class.fq_name {
        Some(idx) => {
            let qn = resolver.get_qualified_name(idx);
            kotlin_simple_name(qn.as_str())
        },
        None => String::new(),
    };
    let class_display = Some(format_class_display(flags, name.as_str()));
    let mut members: Vec<KotlinMemberSignature> = Vec::new();
    push_function_members(&mut members, &class.function, &resolver, type_table, class.type_parameter.as_slice());
    let ghost after_functions = members@;
    push_property_members(&mut members, &class.property, &resolver, type_table, class.type_parameter.as_slice());
    let ghost after_properties = members@;
    push_constructor_members(&mut members, &class.constructor, &resolver, type_table, class.type_parameter.as_slice());
    proof {
        let nf = class.function@.len();
        let np = class.property@.len();
        assert forall|i: int| 0 <= i < nf implies #[trigger] member_is(members@[i],
            view.spec_get_string(class.function@[i].name as int),
            spec_descriptor_hint(class.function@[i]),
            spec_function_display(class.function@[i], view, table_of(type_table), class.type_parameter@)) by {
            assert(members@[i] == after_properties[i]);
            assert(after_properties[i] == after_functions[0 + i]);
        }
        assert forall|j: int| 0 <= j < np implies #[trigger] member_is(members@[nf + 2 * j],
            spec_getter_name(view.spec_get_string(class.property@[j].name as int)),
            Seq::empty(),
            spec_property_display(class.property@[j], view, table_of(type_table), class.type_parameter@)) by {
            assert(members@[nf + 2 * j] == after_properties[nf + 2 * j]);
        }
        assert forall|j: int| 0 <= j < np implies #[trigger] member_is(members@[nf + 2 * j + 1],
            view.spec_get_string(class.property@[j].name as int),
            Seq::empty(),
            spec_property_display(class.property@[j], view, table_of(type_table), class.type_parameter@)) by {
            assert(members@[nf + 2 * j + 1] == after_properties[nf + 2 * j + 1]);
        }
    }
    KotlinSignatures { class_display, members }
}

/// Signatures of a decoded file facade or multi-file part (kinds 2 and 5).
pub fn decode_package_signatures(stt: StringTableTypes, pkg: &Package, d2: &Vec<String>) -> (r: KotlinSignatures)
    requires
        params_fit(pkg.function@),
    ensures
        r.class_display is None,
        members_are(r.members@, pkg.function@, pkg.property@, Seq::empty(),
            resolver_view(stt, d2@), pkg.type_table, Seq::empty()),
{
    let ghost view = resolver_view(stt, d2@);
    let strings = d2.clone();
    proof {
        assert(strings@.map_values(|s: String| s@) =~= d2@.map_values(|s: String| s@)) by {
            assert forall|i: int| 0 <= i < d2@.len() implies strings@[i]@ == d2@[i]@ by {
                assert(vstd::pervasive::cloned(d2@[i], strings@[i]));
            }
        }
    }
    let resolver = NameResolver::new(stt, strings);
    assert(resolver@ == view);
    let type_table = pkg.type_table.as_ref();
    let empty_type_params: Vec<TypeParameter> = Vec::new();
    let mut members: Vec<KotlinMemberSignature> = Vec::new();
    push_function_members(&mut members, &pkg.function, &resolver, type_table, empty_type_params.as_slice());
    let ghost after_functions = members@;
    push_property_members(&mut members, &pkg.property, &resolver, type_table, empty_type_params.as_slice());
    proof {
        let nf = pkg.function@.len();
        assert(empty_type_params@ =~= Seq::<TypeParameter>::empty());
        assert forall|i: int| 0 <= i < nf implies #[trigger] member_is(members@[i],
            view.spec_get_string(pkg.function@[i].name as int),
            spec_descriptor_hint(pkg.function@[i]),
            spec_function_display(pkg.function@[i], view, table_of(type_table), Seq::empty())) by {
            assert(members@[i] == after_functions[0 + i]);
        }
    }
    KotlinSignatures { class_display: None, members }
}

/// Whether a decoded body matches the kind its payload was framed for.
pub open spec fn body_matches(kind: MetadataKind, body: DecodedBody) -> bool {
    match body {
        DecodedBody::Class(_) => kind == MetadataKind::Class,
        DecodedBody::Package(_) => kind == MetadataKind::Package,
    }
}

/// The functions a decoded body declares.
pub open spec fn body_functions(body: DecodedBody) -> Seq<Function> {
    match body {
        DecodedBody::Class(c) => c.function@,
        DecodedBody::Package(p) => p.function@,
    }
}

/// Extract Kotlin signatures from the `@kotlin.Metadata` annotation fields,
/// given the decoding of the payload that [`metadata_payload`] framed
/// (`None` when it did not decode).
///
/// Returns `None` when the payload has no signatures (empty `d1`, a kind
/// other than 1, 2 or 5, a broken length prefix), when decoding failed, or
/// when the decoded message is not of the framed kind.
pub fn extract_kotlin_signatures(raw: &KotlinMetadataRaw, decoded: Option<DecodedMetadata>) -> (r: Option<KotlinSignatures>)
    requires
        decoded matches Some(d) ==> params_fit(body_functions(d.body)),
    ensures
        r is Some <==> (spec_payload_frame(*raw) is Some && decoded is Some
            && body_matches((spec_payload_frame(*raw)->0).0, decoded->0.body)),
        r is Some ==> match decoded->0.body {
            DecodedBody::Class(c) =>
                r->0.class_display is Some
                && r->0.class_display->0@ == spec_class_header(c, resolver_view(decoded->0.string_table, raw.d2@))
                && members_are(r->0.members@, c.function@, c.property@, c.constructor@,
                    resolver_view(decoded->0.string_table, raw.d2@), c.type_table, c.type_parameter@),
            DecodedBody::Package(p) =>
                r->0.class_display is None
                && members_are(r->0.members@, p.function@, p.property@, Seq::empty(),
                    resolver_view(decoded->0.string_table, raw.d2@), p.type_table, Seq::empty()),
        },
{
    let payload = match metadata_payload(raw) {
        Some(p) => p,
        None => return None,
    };
    let d = match decoded {
        Some(d) => d,
        None => return None,
    };
    match d.body {
        DecodedBody::Class(c) => {
            if payload.kind == MetadataKind::Class {
                Some(decode_class_signatures(d.string_table, &c, &raw.d2))
            } else {
                None
            }
        },
        DecodedBody::Package(p) => {
            if payload.kind == MetadataKind::Package {
                Some(decode_package_signatures(d.string_table, &p, &raw.d2))
            } else {
                None
            }
        },
    }
}

} // verus!
