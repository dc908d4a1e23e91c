//! Kotlin metadata model, name resolution, and Kotlin-style signature generation.
//!
//! The `@kotlin.Metadata` annotation carries a protobuf-encoded description
//! of a Kotlin class or file facade.  The message types below hold the
//! decoded fields that signature formatting reads; `format`, `signatures`
//! and `decoder` turn them into Kotlin-style signatures.
use vstd::prelude::*;
use crate::text::{chars_of, push_str, replace_char, replace_char_vec, string_of};

/// Kotlin signature formatting from decoded metadata.
pub mod format;
/// JVM descriptor hints and the signature lookup map.
pub mod signatures;
/// Byte-level decoding of the metadata payload and signature extraction.
pub mod decoder;

verus! {

/// A record of the metadata string table.
#[derive(Debug, Clone, Default)]
pub struct StringTableRecord {
    /// Number of consecutive string indices this record covers (default 1).
    pub range: Option<i32>,
    /// Index into the predefined qualified names.
    pub predefined_index: Option<i32>,
    /// Literal string value.
    pub string: Option<String>,
    /// Operation applied to the literal string (0 none, 1 internal-to-class-id, 2 desc-to-class-id).
    pub operation: Option<i32>,
    /// Substring indices (not used for display).
    pub substring_index: Vec<i32>,
    /// Replaced characters (not used for display).
    pub replace_char: Vec<i32>,
}

/// The string table types of a metadata payload.
#[derive(Debug, Clone, Default)]
pub struct StringTableTypes {
    /// Records covering consecutive string indices.
    pub record: Vec<StringTableRecord>,
    /// Local names (not used for display).
    pub local_name: Vec<i32>,
}

/// Projection of a type argument.  `In`, `Out`, `Inv`, `Star` are numbered 0 to 3.
#[derive(Debug, Clone, Copy, PartialEq, Eq)]
pub enum TypeProjection {
    /// `in T`.
    In,
    /// `out T`.
    Out,
    /// Invariant `T`.
    Inv,
    /// `*`.
    Star,
}

/// Variance of a type parameter.  `In`, `Out`, `Inv` are numbered 0 to 2.
#[derive(Debug, Clone, Copy, PartialEq, Eq)]
pub enum TypeVariance {
    /// `in T`.
    In,
    /// `out T`.
    Out,
    /// Invariant.
    Inv,
}

/// A Kotlin type.
#[derive(Debug, Default)]
pub struct Type {
    /// Type arguments.
    pub argument: Vec<TypeArgument>,
    /// Whether the type is nullable.
    pub nullable: Option<bool>,
    /// Qualified-name index of the class, if the type is a class type.
    pub class_name: Option<i32>,
    /// Id of the type parameter, if the type is a type parameter.
    pub type_parameter: Option<i32>,
    /// Name index of the type parameter.
    pub type_parameter_name: Option<i32>,
    /// The type alias this type is abbreviated as.
    pub abbreviated_type: Option<Box<Type>>,
    /// Type flags.
    pub flags: Option<i32>,
}

/// A type argument.
#[derive(Debug, Default)]
pub struct TypeArgument {
    /// Projection (numbered as in [`TypeProjection`], default `Inv`).
    pub projection: Option<i32>,
    /// The argument type.
    pub ty: Option<Type>,
    /// Index of the argument type in the type table.
    pub type_id: Option<i32>,
}

/// A type parameter.
#[derive(Debug, Default)]
pub struct TypeParameter {
    /// Id referenced by types.
    pub id: i32,
    /// Name index.
    pub name: i32,
    /// Whether the parameter is reified.
    pub reified: Option<bool>,
    /// Variance (numbered as in [`TypeVariance`], default `Inv`).
    pub variance: Option<i32>,
    /// Upper bounds.
    pub upper_bound: Vec<Type>,
}

/// A value parameter of a function or constructor.
#[derive(Debug, Default)]
pub struct ValueParameter {
    /// Flags: bit 1 has-default, bit 2 crossinline, bit 3 noinline.
    pub flags: Option<i32>,
    /// Name index.
    pub name: i32,
    /// Parameter type.
    pub ty: Option<Type>,
    /// Index of the parameter type in the type table.
    pub type_id: Option<i32>,
    /// Element type of a `vararg` parameter.
    pub vararg_element_type: Option<Type>,
}

/// A Kotlin function.
#[derive(Debug, Default)]
pub struct Function {
    /// Flags (visibility, modality, suspend, operator, infix, inline, ...).
    pub flags: Option<i32>,
    /// Flags in the older layout, used when `flags` is absent.
    pub old_flags: Option<i32>,
    /// Name index.
    pub name: i32,
    /// Return type.
    pub return_type: Option<Type>,
    /// Index of the return type in the type table.
    pub return_type_id: Option<i32>,
    /// Type parameters.
    pub type_parameter: Vec<TypeParameter>,
    /// Value parameters.
    pub value_parameter: Vec<ValueParameter>,
    /// Receiver type of an extension function.
    pub receiver_type: Option<Type>,
    /// Index of the receiver type in the type table.
    pub receiver_type_id: Option<i32>,
}

/// A Kotlin property.
#[derive(Debug, Default)]
pub struct Property {
    /// Flags (visibility, modality, var, const, lateinit, ...).
    pub flags: Option<i32>,
    /// Flags in the older layout, used when `flags` is absent.
    pub old_flags: Option<i32>,
    /// Name index.
    pub name: i32,
    /// Property type.
    pub return_type: Option<Type>,
    /// Index of the property type in the type table.
    pub return_type_id: Option<i32>,
    /// Receiver type of an extension property.
    pub receiver_type: Option<Type>,
    /// Index of the receiver type in the type table.
    pub receiver_type_id: Option<i32>,
}

/// A Kotlin constructor.
#[derive(Debug, Default)]
pub struct Constructor {
    /// Flags.
    pub flags: Option<i32>,
    /// Value parameters.
    pub value_parameter: Vec<ValueParameter>,
}

/// Table of types referenced by index.
#[derive(Debug, Default)]
pub struct TypeTable {
    /// The types.
    pub ty: Vec<Type>,
    /// Index of the first nullable type.
    pub first_nullable: Option<i32>,
}

/// A Kotlin class (metadata kind 1).
#[derive(Debug, Default)]
pub struct Class {
    /// Class flags (default 6: public final class).
    pub flags: Option<i32>,
    /// Qualified-name index of the class.
    pub fq_name: Option<i32>,
    /// Type parameters of the class.
    pub type_parameter: Vec<TypeParameter>,
    /// Supertypes.
    pub supertype: Vec<Type>,
    /// Supertype indices in the type table.
    pub supertype_id: Vec<i32>,
    /// Constructors.
    pub constructor: Vec<Constructor>,
    /// Functions.
    pub function: Vec<Function>,
    /// Properties.
    pub property: Vec<Property>,
    /// Type table.
    pub type_table: Option<TypeTable>,
}

/// A Kotlin file facade or multi-file part (metadata kinds 2 and 5).
#[derive(Debug, Default)]
pub struct Package {
    /// Top-level functions.
    pub function: Vec<Function>,
    /// Top-level properties.
    pub property: Vec<Property>,
    /// Type table.
    pub type_table: Option<TypeTable>,
}

/// Raw fields extracted from the `@kotlin.Metadata` annotation.
#[derive(Debug, Clone)]
pub struct KotlinMetadataRaw {
    /// Metadata kind: 1=class, 2=file facade, 3=synthetic, 4=multi-file facade, 5=multi-file part.
    pub k: i32,
    /// Protobuf-encoded metadata (concatenated string chars → bytes).
    pub d1: Vec<String>,
    /// String table for name lookups.
    pub d2: Vec<String>,
}

/// Extracted Kotlin signatures for a class and its members.
#[derive(Debug, Clone)]
pub struct KotlinSignatures {
    /// Kotlin-style class display (e.g. "data class Foo").
    pub class_display: Option<String>,
    /// Member signatures in declaration order.
    pub members: Vec<KotlinMemberSignature>,
}

/// A single Kotlin member signature matched to its JVM counterpart.
#[derive(Debug, Clone)]
pub struct KotlinMemberSignature {
    /// JVM method/field name.
    pub jvm_name: String,
    /// JVM descriptor hint (for disambiguation of overloads).
    pub jvm_descriptor: String,
    /// Kotlin-style signature string.
    pub kotlin_display: String,
}

/// Well-known qualified name `i` of the metadata string table (0 to 29).
pub open spec fn spec_predefined_name(i: int) -> Option<Seq<char>> {
    if i == 0 { Some("kotlin/Any"@) }
    else if i == 1 { Some("kotlin/Nothing"@) }
    else if i == 2 { Some("kotlin/Unit"@) }
    else if i == 3 { Some("kotlin/Byte"@) }
    else if i == 4 { Some("kotlin/Short"@) }
    else if i == 5 { Some("kotlin/Int"@) }
    else if i == 6 { Some("kotlin/Long"@) }
    else if i == 7 { Some("kotlin/Float"@) }
    else if i == 8 { Some("kotlin/Double"@) }
    else if i == 9 { Some("kotlin/Char"@) }
    else if i == 10 { Some("kotlin/Boolean"@) }
    else if i == 11 { Some("kotlin/String"@) }
    else if i == 12 { Some("kotlin/Enum"@) }
    else if i == 13 { Some("kotlin/Array"@) }
    else if i == 14 { Some("kotlin/collections/Iterable"@) }
    else if i == 15 { Some("kotlin/collections/MutableIterable"@) }
    else if i == 16 { Some("kotlin/collections/Collection"@) }
    else if i == 17 { Some("kotlin/collections/MutableCollection"@) }
    else if i == 18 { Some("kotlin/collections/List"@) }
    else if i == 19 { Some("kotlin/collections/MutableList"@) }
    else if i == 20 { Some("kotlin/collections/Set"@) }
    else if i == 21 { Some("kotlin/collections/MutableSet"@) }
    else if i == 22 { Some("kotlin/collections/Map"@) }
    else if i == 23 { Some("kotlin/collections/MutableMap"@) }
    else if i == 24 { Some("kotlin/collections/Map.Entry"@) }
    else if i == 25 { Some("kotlin/collections/MutableMap.MutableEntry"@) }
    else if i == 26 { Some("kotlin/collections/Iterator"@) }
    else if i == 27 { Some("kotlin/collections/MutableIterator"@) }
    else if i == 28 { Some("kotlin/collections/ListIterator"@) }
    else if i == 29 { Some("kotlin/collections/MutableListIterator"@) }
    else { None }
}

fn predefined_name(i: i64) -> (r: Option<&'static str>)
    ensures
        match spec_predefined_name(i as int) {
            Some(n) => r is Some && r->0@ == n,
            None => r is None,
        },
{
    if i == 0 { Some("kotlin/Any") }
    else if i == 1 { Some("kotlin/Nothing") }
    else if i == 2 { Some("kotlin/Unit") }
    else if i == 3 { Some("kotlin/Byte") }
    else if i == 4 { Some("kotlin/Short") }
    else if i == 5 { Some("kotlin/Int") }
    else if i == 6 { Some("kotlin/Long") }
    else if i == 7 { Some("kotlin/Float") }
    else if i == 8 { Some("kotlin/Double") }
    else if i == 9 { Some("kotlin/Char") }
    else if i == 10 { Some("kotlin/Boolean") }
    else if i == 11 { Some("kotlin/String") }
    else if i == 12 { Some("kotlin/Enum") }
    else if i == 13 { Some("kotlin/Array") }
    else if i == 14 { Some("kotlin/collections/Iterable") }
    else if i == 15 { Some("kotlin/collections/MutableIterable") }
    else if i == 16 { Some("kotlin/collections/Collection") }
    else if i == 17 { Some("kotlin/collections/MutableCollection") }
    else if i == 18 { Some("kotlin/collections/List") }
    else if i == 19 { Some("kotlin/collections/MutableList") }
    else if i == 20 { Some("kotlin/collections/Set") }
    else if i == 21 { Some("kotlin/collections/MutableSet") }
    else if i == 22 { Some("kotlin/collections/Map") }
    else if i == 23 { Some("kotlin/collections/MutableMap") }
    else if i == 24 { Some("kotlin/collections/Map.Entry") }
    else if i == 25 { Some("kotlin/collections/MutableMap.MutableEntry") }
    else if i == 26 { Some("kotlin/collections/Iterator") }
    else if i == 27 { Some("kotlin/collections/MutableIterator") }
    else if i == 28 { Some("kotlin/collections/ListIterator") }
    else if i == 29 { Some("kotlin/collections/MutableListIterator") }
    else { None }
}

/// Result of a string table operation on a literal: 1 replaces `.` with `/`,
/// 2 strips a leading `L` and a trailing `;`, anything else keeps the literal.
pub open spec fn spec_apply_operation(s: Seq<char>, operation: int) -> Seq<char> {
    if operation == 1 {
        replace_char(s, '.', '/')
    } else if operation == 2 {
        let a = if s.len() > 0 && s[0] == 'L' { s.drop_first() } else { s };
        if a.len() > 0 && a.last() == ';' { a.drop_last() } else { a }
    } else {
        s
    }
}

/// Apply a string table operation to a literal string.
pub fn apply_operation(s: &str, operation: i32) -> (r: String)
    ensures
        r@ == spec_apply_operation(s@, operation as int),
{
    let v = chars_of(s);
    if operation == 1 {
        let w = replace_char_vec(&v, '.', '/');
        string_of(&w)
    } else if operation == 2 {
        let mut from: usize = 0;
        let mut to: usize = v.len();
        if v.len() > 0 && v[0] == 'L' {
            from = 1;
        }
        if to > from && v[to - 1] == ';' {
            to = to - 1;
        }
        let w = crate::text::slice_vec(&v, from, to);
        let ghost a = if v@.len() > 0 && v@[0] == 'L' { v@.drop_first() } else { v@ };
        assert(a =~= v@.subrange(from as int, v@.len() as int));
        assert(w@ =~= spec_apply_operation(s@, operation as int));
        string_of(&w)
    } else {
        string_of(&v)
    }
}

/// Resolver for looking up names from the Kotlin metadata string table.
pub struct NameResolver {
    string_table_types: StringTableTypes,
    strings: Vec<String>,
}

/// Where the qualified name of an index comes from.
pub enum NameSource {
    /// A predefined name.
    Predefined(int),
    /// A record's literal with its operation.
    Literal(Seq<char>, int),
    /// The `d2` string with the same index.
    Plain,
}

/// What a resolver reads: the string table records and the `d2` strings.
pub struct ResolverView {
    /// Records covering consecutive string indices.
    pub records: Seq<StringTableRecord>,
    /// The `d2` strings.
    pub strings: Seq<Seq<char>>,
}

impl View for NameResolver {
    type V = ResolverView;

    closed spec fn view(&self) -> ResolverView {
        ResolverView {
            records: self.string_table_types.record@,
            strings: self.strings@.map_values(|s: String| s@),
        }
    }
}

impl ResolverView {
    /// The d2 string at `index`, or `<unknown>` when there is none.
    pub open spec fn spec_get_string(self, index: int) -> Seq<char> {
        if 0 <= index < self.strings.len() {
            self.strings[index]
        } else {
            "<unknown>"@
        }
    }

    /// The source of the qualified name at `index`, searching the records
    /// from the `k`-th on, whose first index is `current`.
    pub open spec fn name_source_from(self, index: int, k: int, current: int) -> NameSource
        decreases self.records.len() - k,
    {
        if k < 0 || k >= self.records.len() {
            NameSource::Plain
        } else {
            let rec = self.records[k];
            let range: int = match rec.range { Some(r) => range_width(r), None => 1 };
            if index < current + range {
                let offset = index - current;
                let predef = match rec.predefined_index {
                    Some(p) => spec_predefined_name(p + offset),
                    None => None,
                };
                if predef is Some {
                    NameSource::Predefined(rec.predefined_index.unwrap() + offset)
                } else {
                    match rec.string {
                        Some(lit) => NameSource::Literal(lit@, match rec.operation { Some(o) => o as int, None => 0 }),
                        None => NameSource::Plain,
                    }
                }
            } else {
                self.name_source_from(index, k + 1, current + range)
            }
        }
    }

    /// The qualified name at `index`: the first record whose index range
    /// covers it decides — a predefined name when the record names one for
    /// this index, else the record's literal with its operation, else the
    /// d2 string; an index no record covers is the d2 string.
    pub open spec fn spec_qualified_name(self, index: int) -> Seq<char> {
        match self.name_source_from(index_as_usize(index), 0, 0) {
            NameSource::Predefined(i) => spec_predefined_name(i).unwrap(),
            NameSource::Literal(s, op) => spec_apply_operation(s, op),
            NameSource::Plain => self.spec_get_string(index),
        }
    }
}

impl NameResolver {
    /// Create a resolver from string table types and d2 strings.
    pub fn new(stt: StringTableTypes, d2: Vec<String>) -> (r: Self)
        ensures
            r@ == (ResolverView { records: stt.record@, strings: d2@.map_values(|s: String| s@) }),
    {
        Self { string_table_types: stt, strings: d2 }
    }

    /// Get a plain string by index from the d2 table.
    pub fn get_string(&self, index: i32) -> (r: &str)
        ensures
            r@ == self@.spec_get_string(index as int),
    {
        if index >= 0 && (index as usize) < self.strings.len() {
            self.strings[index as usize].as_str()
        } else {
            "<unknown>"
        }
    }

    /// Get a qualified name by index, resolving through the string table types.
    pub fn get_qualified_name(&self, index: i32) -> (r: String)
        ensures
            r@ == self@.spec_qualified_name(index as int),
    {
        let idx: u128 = if index >= 0 { index as u128 } else { (index as i128 + 0x1_0000_0000_0000_0000i128) as u128 };
        let mut current: u128 = 0;
        let mut k: usize = 0;
        let n = self.string_table_types.record.len();
        while k < n
            invariant
                n == self@.records.len(),
                0 <= k <= n,
                current <= idx,
                idx == index_as_usize(index as int),
                idx < 0x1_0000_0000_0000_0000,
                self@.name_source_from(idx as int, 0, 0) == self@.name_source_from(idx as int, k as int, current as int),
            decreases n - k,
        {
            let record = &self.string_table_types.record[k];
            let range: u128 = match record.range {
                Some(r) => if r >= 0 { r as u128 } else { (r as i128 + 0x1_0000_0000_0000_0000i128) as u128 },
                None => 1,
            };
            if idx < current + range {
                let offset = idx - current;
                if let Some(predef) = record.predefined_index {
                    let p = predef as i128 + offset as i128;
                    if p >= 0 && p < 30 {
                        if let Some(name) = predefined_name(p as i64) {
                            return string_of(&chars_of(name));
                        }
                    }
                }
                if let Some(literal) = &record.string {
                    let op = match record.operation { Some(o) => o, None => 0 };
                    return apply_operation(literal.as_str(), op);
                }
                return string_of(&chars_of(self.get_string(index)));
            }
            current = current + range;
            k = k + 1;
        }
        string_of(&chars_of(self.get_string(index)))
    }
}

/// The width of a record's index range: an `i32` taken as a 64-bit unsigned
/// index width.
pub open spec fn range_width(r: i32) -> int {
    if r >= 0 { r as int } else { r + 0x1_0000_0000_0000_0000 }
}

/// A string index taken as a 64-bit unsigned index.
pub open spec fn index_as_usize(i: int) -> int {
    if i >= 0 { i } else { i + 0x1_0000_0000_0000_0000 }
}

/// The simple name of a Kotlin qualified name (the part after the last `/`).
pub open spec fn spec_kotlin_simple_name(qname: Seq<char>) -> Seq<char> {
    crate::text::after_last(qname, '/')
}

/// Convert a Kotlin qualified name to its simple name.
///
/// "kotlin/collections/List" → "List"
/// "kotlin/Int" → "Int"
pub fn kotlin_simple_name(qname: &str) -> (r: String)
    ensures
        r@ == spec_kotlin_simple_name(qname@),
{
    let v = chars_of(qname);
    string_of(&crate::text::after_last_char(&v, '/'))
}

/// A literal `&str` as an owned `String`.
pub fn owned(s: &str) -> (r: String)
    ensures
        r@ == s@,
{
    string_of(&chars_of(s))
}

} // verus!
