//! Locate method definitions through the classfile `LineNumberTable`.
//!
//! A method's `Code` attribute may hold `LineNumberTable` attributes that
//! map bytecode offsets to source lines; the smallest line over all the
//! methods of a name is where that method starts in the source.  Abstract
//! and native methods (no `Code`) and classes compiled without line
//! information give no line.
use vstd::prelude::*;
use cafebabe::attributes::AttributeData;
use crate::classfile::parsed_class;
use crate::text::chars_of;

verus! {

/// An attribute inside a method's `Code` attribute.
#[derive(Debug)]
pub enum CodeAttributeInfo {
    /// `LineNumberTable`, with the line number of each entry.
    LineNumbers(Vec<u16>),
    /// Any other attribute.
    Other,
}

/// An attribute of a method.
#[derive(Debug)]
pub enum MethodAttributeInfo {
    /// `Code`, with its own attributes.
    Code(Vec<CodeAttributeInfo>),
    /// Any other attribute.
    Other,
}

/// A method's name and attributes.
#[derive(Debug)]
pub struct MethodLines {
    /// The method name.
    pub name: String,
    /// The method attributes.
    pub attributes: Vec<MethodAttributeInfo>,
}

/// The methods, with their attributes, that `cafebabe::parse_class` reads
/// from classfile bytes.
pub uninterp spec fn parsed_method_lines(bytes: Seq<u8>) -> Seq<MethodLines>;

/// Calls `cafebabe::parse_class` and copies out, for each method, its name
/// and attributes: `Code` with its inner attributes (`LineNumberTable` with
/// each entry's line number, any other as `Other`), any other as `Other`.
#[verifier::external_body]
fn method_line_tables(bytes: &[u8]) -> (r: Option<Vec<MethodLines>>)
    ensures
        r is Some <==> parsed_class(bytes@) is Some,
        r matches Some(v) ==> v@ == parsed_method_lines(bytes@),
{
    let c = cafebabe::parse_class(bytes).ok()?;
    Some(c.methods.iter().map(|m| MethodLines {
        name: m.name.to_string(),
        attributes: m.attributes.iter().map(|a| match &a.data {
            AttributeData::Code(code) => MethodAttributeInfo::Code(code.attributes.iter().map(|ca| match &ca.data {
                AttributeData::LineNumberTable(es) => CodeAttributeInfo::LineNumbers(es.iter().map(|e| e.line_number).collect()),
                _ => CodeAttributeInfo::Other,
            }).collect()),
            _ => MethodAttributeInfo::Other,
        }).collect(),
    }).collect())
}

/// The line numbers of the line tables among a `Code` attribute's attributes.
pub open spec fn code_lines(attrs: Seq<CodeAttributeInfo>) -> Seq<u16>
    decreases attrs.len(),
{
    if attrs.len() == 0 {
        Seq::empty()
    } else {
        code_lines(attrs.drop_last()) + match attrs.last() {
            CodeAttributeInfo::LineNumbers(v) => v@,
            CodeAttributeInfo::Other => Seq::empty(),
        }
    }
}

/// The line numbers of a method's `Code` attributes.
pub open spec fn method_lines(attrs: Seq<MethodAttributeInfo>) -> Seq<u16>
    decreases attrs.len(),
{
    if attrs.len() == 0 {
        Seq::empty()
    } else {
        method_lines(attrs.drop_last()) + match attrs.last() {
            MethodAttributeInfo::Code(cs) => code_lines(cs@),
            MethodAttributeInfo::Other => Seq::empty(),
        }
    }
}

/// The line numbers of all the methods named `name`.
pub open spec fn lines_named(ms: Seq<MethodLines>, name: Seq<char>) -> Seq<u16>
    decreases ms.len(),
{
    if ms.len() == 0 {
        Seq::empty()
    } else {
        lines_named(ms.drop_last(), name) + if ms.last().name@ == name {
            method_lines(ms.last().attributes@)
        } else {
            Seq::empty()
        }
    }
}

/// The smaller of a running minimum and `x`.
pub open spec fn min_with(a: Option<u16>, x: u16) -> Option<u16> {
    match a {
        Some(b) => Some(if x < b { x } else { b }),
        None => Some(x),
    }
}

/// The running minimum `a` carried over `s`.
pub open spec fn fold_min(a: Option<u16>, s: Seq<u16>) -> Option<u16>
    decreases s.len(),
{
    if s.len() == 0 {
        a
    } else {
        min_with(fold_min(a, s.drop_last()), s.last())
    }
}

proof fn lemma_fold_min_concat(a: Option<u16>, s1: Seq<u16>, s2: Seq<u16>)
    ensures
        fold_min(a, s1 + s2) == fold_min(fold_min(a, s1), s2),
    decreases s2.len(),
{
    if s2.len() == 0 {
        assert(s1 + s2 =~= s1);
    } else {
        lemma_fold_min_concat(a, s1, s2.drop_last());
        assert((s1 + s2).drop_last() =~= s1 + s2.drop_last());
    }
}

/// Without a start, the running minimum is the least element, when there is one.
pub proof fn lemma_fold_min_is_least(s: Seq<u16>)
    ensures
        fold_min(None, s) is None <==> s.len() == 0,
        fold_min(None, s) matches Some(m) ==> s.contains(m) && forall|i: int| 0 <= i < s.len() ==> m <= #[trigger] s[i],
    decreases s.len(),
{
    if s.len() > 0 {
        let p = s.drop_last();
        lemma_fold_min_is_least(p);
        match fold_min(None, s) {
            Some(m) => {
                if m == s.last() {
                    assert(s[s.len() - 1] == m);
                } else {
                    let k = choose|k: int| 0 <= k < p.len() && p[k] == m;
                    assert(s[k] == m);
                }
                assert forall|i: int| 0 <= i < s.len() implies m <= #[trigger] s[i] by {
                    if i < p.len() {
                        assert(p[i] == s[i]);
                    }
                }
            },
            None => {},
        }
    }
}

fn min_in_code(attrs: &Vec<CodeAttributeInfo>, start: Option<u16>) -> (r: Option<u16>)
    ensures
        r == fold_min(start, code_lines(attrs@)),
{
    let mut acc = start;
    let mut i: usize = 0;
    while i < attrs.len()
        invariant
            0 <= i <= attrs@.len(),
            acc == fold_min(start, code_lines(attrs@.take(i as int))),
        decreases attrs@.len() - i,
    {
        let ghost before = code_lines(attrs@.take(i as int));
        assert(attrs@.take(i + 1).drop_last() =~= attrs@.take(i as int));
        match &attrs[i] {
            CodeAttributeInfo::LineNumbers(v) => {
                let ghost acc0 = acc;
                let mut j: usize = 0;
                assert(v@.take(0) =~= Seq::<u16>::empty());
                while j < v.len()
                    invariant
                        0 <= j <= v@.len(),
                        acc == fold_min(acc0, v@.take(j as int)),
                    decreases v@.len() - j,
                {
                    assert(v@.take(j + 1).drop_last() =~= v@.take(j as int));
                    let x = v[j];
                    acc = match acc { Some(b) => Some(if x < b { x } else { b }), None => Some(x) };
                    j = j + 1;
                }
                assert(v@.take(v@.len() as int) =~= v@);
                proof { lemma_fold_min_concat(start, before, v@); }
            },
            CodeAttributeInfo::Other => {
                assert(before + Seq::<u16>::empty() =~= before);
            },
        }
        i = i + 1;
    }
    assert(attrs@.take(attrs@.len() as int) =~= attrs@);
    acc
}

fn min_in_method(attrs: &Vec<MethodAttributeInfo>, start: Option<u16>) -> (r: Option<u16>)
    ensures
        r == fold_min(start, method_lines(attrs@)),
{
    let mut acc = start;
    let mut i: usize = 0;
    while i < attrs.len()
        invariant
            0 <= i <= attrs@.len(),
            acc == fold_min(start, method_lines(attrs@.take(i as int))),
        decreases attrs@.len() - i,
    {
        let ghost before = method_lines(attrs@.take(i as int));
        assert(attrs@.take(i + 1).drop_last() =~= attrs@.take(i as int));
        match &attrs[i] {
            MethodAttributeInfo::Code(cs) => {
                acc = min_in_code(cs, acc);
                proof { lemma_fold_min_concat(start, before, code_lines(cs@)); }
            },
            MethodAttributeInfo::Other => {
                assert(before + Seq::<u16>::empty() =~= before);
            },
        }
        i = i + 1;
    }
    assert(attrs@.take(attrs@.len() as int) =~= attrs@);
    acc
}

/// The smallest line number of the methods named `name`, when any of them
/// has a line table.
pub fn min_method_line(methods: &Vec<MethodLines>, name: &str) -> (r: Option<u16>)
    ensures
        r == fold_min(None, lines_named(methods@, name@)),
{
    let want = chars_of(name);
    let mut acc: Option<u16> = None;
    let mut i: usize = 0;
    while i < methods.len()
        invariant
            want@ == name@,
            0 <= i <= methods@.len(),
            acc == fold_min(None, lines_named(methods@.take(i as int), name@)),
        decreases methods@.len() - i,
    {
        let ghost before = lines_named(methods@.take(i as int), name@);
        assert(methods@.take(i + 1).drop_last() =~= methods@.take(i as int));
        let m = &methods[i];
        if crate::text::seq_eq(chars_of(m.name.as_str()).as_slice(), want.as_slice()) {
            acc = min_in_method(&m.attributes, acc);
            proof { lemma_fold_min_concat(None, before, method_lines(m.attributes@)); }
        } else {
            assert(before + Seq::<u16>::empty() =~= before);
        }
        i = i + 1;
    }
    assert(methods@.take(methods@.len() as int) =~= methods@);
    acc
}

/// The 1-based source line where method `method_name` starts: the smallest
/// line number in the line tables of the methods of that name.  `None` when
/// the bytes are not a classfile, no method has that name, or none of them
/// has line information.
pub fn find_method_line_from_classfile(class_bytes: &[u8], method_name: &str) -> (r: Option<usize>)
    ensures
        parsed_class(class_bytes@) is None ==> r is None,
        parsed_class(class_bytes@) is Some ==> ({
            let lines = lines_named(parsed_method_lines(class_bytes@), method_name@);
            &&& (r is Some <==> lines.len() > 0)
            &&& (r matches Some(n) ==> lines.contains(n as u16)
                    && forall|i: int| 0 <= i < lines.len() ==> n <= #[trigger] lines[i])
        }),
{
    let methods = match method_line_tables(class_bytes) {
        Some(m) => m,
        None => return None,
    };
    let m = min_method_line(&methods, method_name);
    proof { lemma_fold_min_is_least(lines_named(methods@, method_name@)); }
    match m {
        Some(n) => Some(n as usize),
        None => None,
    }
}

} // verus!
