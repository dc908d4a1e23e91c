//! `.class` file symbol extraction.
//!
//! A classfile is parsed with the `cafebabe` crate into [`ClassInfo`] (name,
//! access flags, methods, fields) and a list of [`AttributeInfo`]; the
//! functions here turn those into class, method and field symbols.  Each
//! symbol carries the SourceFile attribute value, which with the package
//! forms the join key for source-JAR matching.
use vstd::prelude::*;
use cafebabe::attributes::{AnnotationElementValue, AttributeData};
use crate::kotlin_metadata::KotlinSignatures;
use crate::kotlin_metadata::owned;
use crate::kotlin_metadata::signatures::{SignatureMap, build_signature_map, first_display};
use crate::model::{SignatureDisplay, SourceLanguage, SourceOrigin, SymbolDoc, SymbolKind};
use crate::text::{
    after_last, after_last_char, before_last, chars_of, ends_with_str, has_suffix, join, last_index_of,
    lemma_last_index_props, push_seq, push_str, replace_char, replace_char_vec, rfind_char,
    slice_vec, str_eq, string_of,
};

verus! {

/// Whether `c` has the Unicode `Uppercase` property, as `char::is_uppercase` reports.
pub uninterp spec fn char_is_uppercase(c: char) -> bool;

/// Whether `c` has the Unicode `Lowercase` property, as `char::is_lowercase` reports.
pub uninterp spec fn char_is_lowercase(c: char) -> bool;

/// Calls `char::is_uppercase`.  Which characters have the property, the
/// Unicode tables decide; this contract leaves that to the name.
#[verifier::external_body]
pub(crate) fn is_upper_char(c: char) -> (r: bool)
    ensures
        r == char_is_uppercase(c),
{
    c.is_uppercase()
}

/// Calls `char::is_lowercase`.  Which characters have the property, the
/// Unicode tables decide; this contract leaves that to the name.
#[verifier::external_body]
fn is_lower(c: char) -> (r: bool)
    ensures
        r == char_is_lowercase(c),
{
    c.is_lowercase()
}

/// Whether a word boundary falls before position `i` of `s`: an uppercase
/// character after a lowercase one, or an uppercase character after an
/// uppercase one and before a lowercase one (`"parseJSON"`, `"XMLParser"`).
pub open spec fn camel_boundary(s: Seq<char>, i: int) -> bool {
    &&& 0 < i < s.len()
    &&& char_is_uppercase(s[i])
    &&& (char_is_lowercase(s[i - 1])
        || (char_is_uppercase(s[i - 1]) && i + 1 < s.len() && char_is_lowercase(s[i + 1])))
}

/// The first `n` characters of `s` with a space before every word boundary.
pub open spec fn camel_split_prefix(s: Seq<char>, n: int) -> Seq<char>
    decreases n,
{
    if n <= 0 || n > s.len() {
        Seq::empty()
    } else {
        camel_split_prefix(s, n - 1)
            + (if camel_boundary(s, n - 1) { seq![' '] } else { Seq::empty() })
            + seq![s[n - 1]]
    }
}

/// `s` split into words at CamelCase boundaries, joined with single spaces.
pub open spec fn spec_split_camel_case(s: Seq<char>) -> Seq<char> {
    camel_split_prefix(s, s.len() as int)
}

/// Split a CamelCase identifier into space-separated words.
///
/// `"ImmutableList"` gives `"Immutable List"`, `"parseJSON"` gives `"parse JSON"`.
pub fn split_camel_case(name: &str) -> (r: String)
    ensures
        r@ == spec_split_camel_case(name@),
{
    let chars = chars_of(name);
    let mut out: Vec<char> = Vec::new();
    let mut i: usize = 0;
    while i < chars.len()
        invariant
            0 <= i <= chars@.len(),
            chars@ == name@,
            out@ == camel_split_prefix(chars@, i as int),
        decreases chars@.len() - i,
    {
        let c = chars[i];
        if i > 0 && is_upper_char(c) {
            let prev = chars[i - 1];
            let next_is_lower = i + 1 < chars.len() && is_lower(chars[i + 1]);
            if is_lower(prev) || (is_upper_char(prev) && next_is_lower) {
                out.push(' ');
            }
        }
        out.push(c);
        i = i + 1;
        assert(out@ =~= camel_split_prefix(chars@, i as int));
    }
    string_of(&out)
}

/// The predicate "is not a space".
pub open spec fn not_space() -> spec_fn(char) -> bool {
    |c: char| c != ' '
}

/// The non-space characters of a text.
pub open spec fn without_spaces(s: Seq<char>) -> Seq<char> {
    s.filter(not_space())
}

/// Splitting CamelCase only inserts spaces: with the spaces taken out, the
/// split name is the name with its spaces taken out.
pub proof fn law_split_camel_case_keeps_characters(s: Seq<char>)
    ensures
        without_spaces(spec_split_camel_case(s)) == without_spaces(s),
{
    lemma_camel_prefix_chars(s, s.len() as int);
    assert(s.take(s.len() as int) =~= s);
}

proof fn lemma_camel_prefix_chars(s: Seq<char>, n: int)
    requires
        0 <= n <= s.len(),
    ensures
        without_spaces(camel_split_prefix(s, n)) == without_spaces(s.take(n)),
    decreases n,
{
    if n == 0 {
        assert(s.take(0) =~= Seq::<char>::empty());
        Seq::<char>::empty().lemma_filter_len(not_space());
    } else {
        lemma_camel_prefix_chars(s, n - 1);
        let a = camel_split_prefix(s, n - 1);
        let sp: Seq<char> = if camel_boundary(s, n - 1) { seq![' '] } else { Seq::empty() };
        Seq::filter_distributes_over_add(a, sp, not_space());
        Seq::<char>::empty().lemma_filter_len(not_space());
        Seq::<char>::empty().lemma_filter_push(' ', not_space());
        assert(seq![' '] =~= Seq::<char>::empty().push(' '));
        assert(sp.filter(not_space()) =~= Seq::<char>::empty());
        (a + sp).lemma_filter_push(s[n - 1], not_space());
        s.take(n - 1).lemma_filter_push(s[n - 1], not_space());
        assert(camel_split_prefix(s, n) =~= (a + sp).push(s[n - 1]));
        assert(s.take(n) =~= s.take(n - 1).push(s[n - 1]));
    }
}

/// Whether no space of a text is followed by another.
pub open spec fn no_double_spaces(r: Seq<char>) -> bool {
    forall|k: int| 0 <= k < r.len() - 1 && #[trigger] r[k] == ' ' ==> r[k + 1] != ' '
}

proof fn lemma_camel_prefix_spacing(s: Seq<char>, n: int)
    requires
        0 <= n <= s.len(),
        forall|i: int| 0 <= i < s.len() ==> s[i] != ' ',
    ensures
        camel_split_prefix(s, n).len() >= n,
        n > 0 ==> camel_split_prefix(s, n)[0] == s[0],
        n > 0 ==> camel_split_prefix(s, n).last() == s[n - 1],
        no_double_spaces(camel_split_prefix(s, n)),
    decreases n,
{
    if n > 0 {
        lemma_camel_prefix_spacing(s, n - 1);
        let a = camel_split_prefix(s, n - 1);
        let sp: Seq<char> = if camel_boundary(s, n - 1) { seq![' '] } else { Seq::empty() };
        let p = camel_split_prefix(s, n);
        assert(p == a + sp + seq![s[n - 1]]);
        if n == 1 {
            assert(a.len() == 0);
            assert(sp.len() == 0);
            assert(p =~= seq![s[0]]);
        } else {
            assert(p[0] == a[0]);
        }
        assert forall|k: int| 0 <= k < p.len() - 1 && #[trigger] p[k] == ' ' implies p[k + 1] != ' ' by {
            if k < a.len() - 1 {
                assert(p[k] == a[k]);
                assert(p[k + 1] == a[k + 1]);
            } else if k == a.len() - 1 {
                assert(p[k] == a.last());
                assert(a.last() == s[n - 2]);
            } else {
                assert(sp.len() == 1 && k == a.len());
                assert(p[k + 1] == s[n - 1]);
            }
        }
    }
}

/// Splitting a name without spaces spaces its words singly: the result is
/// empty only for the empty name, and neither starts nor ends with a space
/// nor holds two spaces in a row.
pub proof fn law_split_camel_case_spacing(s: Seq<char>)
    requires
        forall|i: int| 0 <= i < s.len() ==> s[i] != ' ',
    ensures
        (spec_split_camel_case(s).len() == 0) == (s.len() == 0),
        spec_split_camel_case(s).len() > 0 ==> spec_split_camel_case(s)[0] != ' ' && spec_split_camel_case(s).last() != ' ',
        no_double_spaces(spec_split_camel_case(s)),
{
    lemma_camel_prefix_spacing(s, s.len() as int);
}

/// Whether every character of `s` is an ASCII digit (true of the empty text).
pub open spec fn all_ascii_digits(s: Seq<char>) -> bool {
    forall|i: int| 0 <= i < s.len() ==> '0' <= #[trigger] s[i] <= '9'
}

/// An anonymous or numbered class: the part after the last `$` is all digits.
pub open spec fn spec_is_anonymous_class(simple_name: Seq<char>) -> bool {
    all_ascii_digits(after_last(simple_name, '$'))
}

/// Whether a simple class name names an anonymous class (`Foo$1`, `Foo$23`).
pub fn is_anonymous_class(simple_name: &str) -> (r: bool)
    ensures
        r == spec_is_anonymous_class(simple_name@),
{
    let v = chars_of(simple_name);
    let last = after_last_char(&v, '$');
    let mut i: usize = 0;
    while i < last.len()
        invariant
            0 <= i <= last@.len(),
            last@ == after_last(simple_name@, '$'),
            forall|k: int| 0 <= k < i ==> '0' <= #[trigger] last@[k] <= '9',
        decreases last@.len() - i,
    {
        let c = last[i];
        if !('0' <= c && c <= '9') {
            return false;
        }
        i = i + 1;
    }
    true
}

/// The simple name of a class: the part after the last `.`, with inner-class
/// `$` written as `.`.
pub open spec fn spec_simple_name_from_fqn(fqn: Seq<char>) -> Seq<char> {
    replace_char(after_last(fqn, '.'), '$', '.')
}

/// The simple class name of a fully qualified name (`java.util.Map$Entry` gives `Map.Entry`).
pub fn simple_name_from_fqn(fqn: &str) -> (r: String)
    ensures
        r@ == spec_simple_name_from_fqn(fqn@),
{
    let v = chars_of(fqn);
    let last = after_last_char(&v, '.');
    string_of(&replace_char_vec(&last, '$', '.'))
}

/// The package of a fully qualified name: the part before the last `.`,
/// empty when there is none.
pub open spec fn spec_package_from_fqn(fqn: Seq<char>) -> Seq<char> {
    before_last(fqn, '.')
}

/// Extract the package name from a fully qualified class name.
///
/// `"com.google.common.collect.ImmutableList"` gives `"com.google.common.collect"`;
/// `"Foo"` gives `""`.
pub fn package_from_fqn(fqn: &str) -> (r: String)
    ensures
        r@ == spec_package_from_fqn(fqn@),
{
    let v = chars_of(fqn);
    proof { lemma_last_index_props(v@, '.'); }
    match rfind_char(&v, '.') {
        Some(i) => {
            let p = slice_vec(&v, 0, i);
            assert(p@ =~= v@.take(i as int));
            string_of(&p)
        },
        None => String::new(),
    }
}

/// A qualified name is its package, a `.`, and the last segment (when it
/// has a package): the package and the simple name put the name back together.
pub proof fn law_package_and_last_segment(fqn: Seq<char>)
    requires
        last_index_of(fqn, '.') is Some,
    ensures
        spec_package_from_fqn(fqn) + seq!['.'] + after_last(fqn, '.') == fqn,
{
    lemma_last_index_props(fqn, '.');
    let i = last_index_of(fqn, '.')->0;
    assert(fqn.take(i) + seq!['.'] + fqn.skip(i + 1) =~= fqn);
}

/// A method or field of a classfile: what symbol extraction reads of it.
#[derive(Debug, Clone)]
pub struct MemberInfo {
    /// The member's name (`<init>` for constructors).
    pub name: String,
    /// The raw access flags.
    pub access_flags: u16,
    /// The JVM descriptor.
    pub descriptor: String,
}

/// The parts of a classfile that symbol extraction reads, besides attributes.
#[derive(Debug, Clone)]
pub struct ClassInfo {
    /// Internal name of the class (`com/google/common/collect/ImmutableList`).
    pub this_class: String,
    /// The raw class access flags.
    pub access_flags: u16,
    /// The methods, in classfile order.
    pub methods: Vec<MemberInfo>,
    /// The fields, in classfile order.
    pub fields: Vec<MemberInfo>,
}

/// The value of an annotation element.
#[derive(Debug)]
pub enum ElementValue {
    /// An `int` constant.
    Int(i32),
    /// A string constant.
    Str(String),
    /// An array of values.
    Array(Vec<ElementValue>),
    /// Any other kind of value.
    Other,
}

/// A named element of an annotation.
#[derive(Debug)]
pub struct ElementInfo {
    /// Element name.
    pub name: String,
    /// Element value.
    pub value: ElementValue,
}

/// A runtime-visible annotation.
#[derive(Debug)]
pub struct AnnotationInfo {
    /// Type descriptor of the annotation (`Lkotlin/Metadata;`).
    pub type_descriptor: String,
    /// Its elements, in order.
    pub elements: Vec<ElementInfo>,
}

/// A class-level attribute.
#[derive(Debug)]
pub enum AttributeInfo {
    /// `SourceFile`, with the file name.
    SourceFile(String),
    /// `RuntimeVisibleAnnotations`.
    Annotations(Vec<AnnotationInfo>),
    /// Any other attribute.
    Other,
}

/// Whether bit `mask` is set in access flags.
pub open spec fn flag_set(flags: u16, mask: u16) -> bool {
    flags & mask != 0
}

fn flag(flags: u16, mask: u16) -> (r: bool)
    ensures
        r == flag_set(flags, mask),
{
    flags & mask != 0
}

/// `seq![w]` when `b` holds, else empty.
pub open spec fn word_if(b: bool, w: Seq<char>) -> Seq<Seq<char>> {
    if b { seq![w] } else { Seq::empty() }
}

/// The views of a vector of character vectors.
pub open spec fn word_views(parts: Seq<Vec<char>>) -> Seq<Seq<char>> {
    parts.map_values(|p: Vec<char>| p@)
}

fn push_word_if(parts: &mut Vec<Vec<char>>, b: bool, w: &str)
    ensures
        word_views(final(parts)@) == word_views(old(parts)@) + word_if(b, w@),
{
    if b {
        let v = chars_of(w);
        parts.push(v);
    }
    assert(word_views(parts@) =~= word_views(old(parts)@) + word_if(b, w@));
}

/// Java modifiers of a class: `public`, `abstract` (unless an interface), `final`.
pub open spec fn class_access_words(f: u16) -> Seq<Seq<char>> {
    word_if(flag_set(f, 0x0001), "public"@)
        + word_if(flag_set(f, 0x0400) && !flag_set(f, 0x0200), "abstract"@)
        + word_if(flag_set(f, 0x0010), "final"@)
}

/// The class modifiers joined with spaces.
pub fn format_class_access(flags: u16) -> (r: String)
    ensures
        r@ == join(class_access_words(flags), " "@),
{
    let mut parts: Vec<Vec<char>> = Vec::new();
    push_word_if(&mut parts, flag(flags, 0x0001), "public");
    push_word_if(&mut parts, flag(flags, 0x0400) && !flag(flags, 0x0200), "abstract");
    push_word_if(&mut parts, flag(flags, 0x0010), "final");
    assert(word_views(parts@) =~= class_access_words(flags));
    string_of(&crate::text::join_vecs(&parts, " "))
}

/// The visibility word among `public`, `protected`, `private`, in that
/// order of precedence; none when none is set.
pub open spec fn visibility_words(f: u16) -> Seq<Seq<char>> {
    if flag_set(f, 0x0001) { seq!["public"@] }
    else if flag_set(f, 0x0004) { seq!["protected"@] }
    else if flag_set(f, 0x0002) { seq!["private"@] }
    else { Seq::empty() }
}

/// Java modifiers of a method: visibility, `static`, `final`, `abstract`,
/// `native`, `synchronized`.
pub open spec fn method_access_words(f: u16) -> Seq<Seq<char>> {
    visibility_words(f)
        + word_if(flag_set(f, 0x0008), "static"@)
        + word_if(flag_set(f, 0x0010), "final"@)
        + word_if(flag_set(f, 0x0400), "abstract"@)
        + word_if(flag_set(f, 0x0100), "native"@)
        + word_if(flag_set(f, 0x0020), "synchronized"@)
}

proof fn lemma_modifier_words_differ()
    ensures
        ({
            let ws = seq!["public"@, "protected"@, "private"@, "static"@, "final"@, "abstract"@,
                "native"@, "synchronized"@, "volatile"@, "transient"@];
            forall|i: int, j: int| 0 <= i < ws.len() && 0 <= j < ws.len() && i != j ==> #[trigger] ws[i] != #[trigger] ws[j]
        }),
{
    reveal_strlit("public");
    reveal_strlit("protected");
    reveal_strlit("private");
    reveal_strlit("static");
    reveal_strlit("final");
    reveal_strlit("abstract");
    reveal_strlit("native");
    reveal_strlit("synchronized");
    reveal_strlit("volatile");
    reveal_strlit("transient");
    let ws = seq!["public"@, "protected"@, "private"@, "static"@, "final"@, "abstract"@,
        "native"@, "synchronized"@, "volatile"@, "transient"@];
    assert forall|i: int, j: int| 0 <= i < ws.len() && 0 <= j < ws.len() && i != j implies #[trigger] ws[i] != #[trigger] ws[j] by {
        if ws[i].len() == ws[j].len() {
            assert(ws[i][0] != ws[j][0]);
        }
    }
}

/// Whether `w` is one of the words of `words`.
pub open spec fn has_word(words: Seq<Seq<char>>, w: Seq<char>) -> bool {
    exists|i: int| 0 <= i < words.len() && words[i] == w
}

/// A method's modifiers name exactly the access flags it has: `static`
/// (`ACC_STATIC`, 0x0008), `final` (0x0010), `abstract` (0x0400),
/// `native` (0x0100) and `synchronized` (0x0020) each appear exactly when
/// their flag is set, and `static` comes right after the visibility word.
pub proof fn law_method_modifiers_follow_flags(f: u16)
    ensures
        has_word(method_access_words(f), "static"@) == flag_set(f, 0x0008),
        has_word(method_access_words(f), "final"@) == flag_set(f, 0x0010),
        has_word(method_access_words(f), "abstract"@) == flag_set(f, 0x0400),
        has_word(method_access_words(f), "native"@) == flag_set(f, 0x0100),
        has_word(method_access_words(f), "synchronized"@) == flag_set(f, 0x0020),
        flag_set(f, 0x0008) ==> method_access_words(f)[visibility_words(f).len() as int] == "static"@,
{
    lemma_modifier_words_differ();
    let ws = seq!["public"@, "protected"@, "private"@, "static"@, "final"@, "abstract"@,
        "native"@, "synchronized"@, "volatile"@, "transient"@];
    assert(ws[0] == "public"@ && ws[1] == "protected"@ && ws[2] == "private"@ && ws[3] == "static"@
        && ws[4] == "final"@ && ws[5] == "abstract"@ && ws[6] == "native"@ && ws[7] == "synchronized"@);
    let v = visibility_words(f);
    let s1 = word_if(flag_set(f, 0x0008), "static"@);
    let s2 = word_if(flag_set(f, 0x0010), "final"@);
    let s3 = word_if(flag_set(f, 0x0400), "abstract"@);
    let s4 = word_if(flag_set(f, 0x0100), "native"@);
    let s5 = word_if(flag_set(f, 0x0020), "synchronized"@);
    let all = method_access_words(f);
    assert(all == v + s1 + s2 + s3 + s4 + s5);
    let o1 = v.len() as int;
    let o2 = o1 + s1.len();
    let o3 = o2 + s2.len();
    let o4 = o3 + s3.len();
    let o5 = o4 + s4.len();
    assert forall|i: int| 0 <= i < all.len() implies
        (#[trigger] all[i] == "static"@ ==> i == o1 && flag_set(f, 0x0008))
        && (all[i] == "final"@ ==> i == o2 && flag_set(f, 0x0010))
        && (all[i] == "abstract"@ ==> i == o3 && flag_set(f, 0x0400))
        && (all[i] == "native"@ ==> i == o4 && flag_set(f, 0x0100))
        && (all[i] == "synchronized"@ ==> i == o5 && flag_set(f, 0x0020)) by {
        if i < o1 {
            assert(all[i] == v[i]);
        } else if i < o2 {
            assert(all[i] == s1[i - o1]);
        } else if i < o3 {
            assert(all[i] == s2[i - o2]);
        } else if i < o4 {
            assert(all[i] == s3[i - o3]);
        } else if i < o5 {
            assert(all[i] == s4[i - o4]);
        } else {
            assert(all[i] == s5[i - o5]);
        }
    }
    if flag_set(f, 0x0008) { assert(all[o1] == "static"@); }
    if flag_set(f, 0x0010) { assert(all[o2] == "final"@); }
    if flag_set(f, 0x0400) { assert(all[o3] == "abstract"@); }
    if flag_set(f, 0x0100) { assert(all[o4] == "native"@); }
    if flag_set(f, 0x0020) { assert(all[o5] == "synchronized"@); }
}

/// Java modifiers of a field: visibility, `static`, `final`, `volatile`, `transient`.
pub open spec fn field_access_words(f: u16) -> Seq<Seq<char>> {
    visibility_words(f)
        + word_if(flag_set(f, 0x0008), "static"@)
        + word_if(flag_set(f, 0x0010), "final"@)
        + word_if(flag_set(f, 0x0040), "volatile"@)
        + word_if(flag_set(f, 0x0080), "transient"@)
}

/// A field's modifiers name exactly the access flags it has: `static`
/// (0x0008), `final` (0x0010), `volatile` (0x0040) and `transient`
/// (0x0080) each appear exactly when their flag is set; the visibility
/// word is `public` for `ACC_PUBLIC`, else `protected` for `ACC_PROTECTED`,
/// else `private` for `ACC_PRIVATE`, and comes first.
pub proof fn law_field_modifiers_follow_flags(f: u16)
    ensures
        has_word(field_access_words(f), "static"@) == flag_set(f, 0x0008),
        has_word(field_access_words(f), "final"@) == flag_set(f, 0x0010),
        has_word(field_access_words(f), "volatile"@) == flag_set(f, 0x0040),
        has_word(field_access_words(f), "transient"@) == flag_set(f, 0x0080),
        has_word(field_access_words(f), "public"@) == flag_set(f, 0x0001),
        has_word(field_access_words(f), "protected"@) == (flag_set(f, 0x0004) && !flag_set(f, 0x0001)),
        has_word(field_access_words(f), "private"@)
            == (flag_set(f, 0x0002) && !flag_set(f, 0x0001) && !flag_set(f, 0x0004)),
{
    lemma_modifier_words_differ();
    let ws = seq!["public"@, "protected"@, "private"@, "static"@, "final"@, "abstract"@,
        "native"@, "synchronized"@, "volatile"@, "transient"@];
    assert(ws[0] == "public"@ && ws[1] == "protected"@ && ws[2] == "private"@ && ws[3] == "static"@
        && ws[4] == "final"@ && ws[8] == "volatile"@ && ws[9] == "transient"@);
    let v = visibility_words(f);
    let s1 = word_if(flag_set(f, 0x0008), "static"@);
    let s2 = word_if(flag_set(f, 0x0010), "final"@);
    let s3 = word_if(flag_set(f, 0x0040), "volatile"@);
    let s4 = word_if(flag_set(f, 0x0080), "transient"@);
    let all = field_access_words(f);
    assert(all == v + s1 + s2 + s3 + s4);
    let o1 = v.len() as int;
    let o2 = o1 + s1.len();
    let o3 = o2 + s2.len();
    let o4 = o3 + s3.len();
    assert forall|i: int| 0 <= i < all.len() implies
        (#[trigger] all[i] == "static"@ ==> flag_set(f, 0x0008))
        && (all[i] == "final"@ ==> flag_set(f, 0x0010))
        && (all[i] == "volatile"@ ==> flag_set(f, 0x0040))
        && (all[i] == "transient"@ ==> flag_set(f, 0x0080))
        && (all[i] == "public"@ ==> flag_set(f, 0x0001))
        && (all[i] == "protected"@ ==> flag_set(f, 0x0004) && !flag_set(f, 0x0001))
        && (all[i] == "private"@ ==> flag_set(f, 0x0002) && !flag_set(f, 0x0001) && !flag_set(f, 0x0004)) by {
        if i < o1 {
            assert(all[i] == v[i]);
        } else if i < o2 {
            assert(all[i] == s1[i - o1]);
        } else if i < o3 {
            assert(all[i] == s2[i - o2]);
        } else if i < o4 {
            assert(all[i] == s3[i - o3]);
        } else {
            assert(all[i] == s4[i - o4]);
        }
    }
    if o1 > 0 { assert(all[0] == v[0]); }
    if flag_set(f, 0x0008) { assert(all[o1] == "static"@); }
    if flag_set(f, 0x0010) { assert(all[o2] == "final"@); }
    if flag_set(f, 0x0040) { assert(all[o3] == "volatile"@); }
    if flag_set(f, 0x0080) { assert(all[o4] == "transient"@); }
}

/// A class's modifiers name exactly the access flags it has: `public` for
/// `ACC_PUBLIC` (0x0001), `final` for `ACC_FINAL` (0x0010), and `abstract`
/// for `ACC_ABSTRACT` (0x0400) on a class that is not an interface (0x0200).
pub proof fn law_class_modifiers_follow_flags(f: u16)
    ensures
        has_word(class_access_words(f), "public"@) == flag_set(f, 0x0001),
        has_word(class_access_words(f), "final"@) == flag_set(f, 0x0010),
        has_word(class_access_words(f), "abstract"@) == (flag_set(f, 0x0400) && !flag_set(f, 0x0200)),
{
    lemma_modifier_words_differ();
    let ws = seq!["public"@, "protected"@, "private"@, "static"@, "final"@, "abstract"@,
        "native"@, "synchronized"@, "volatile"@, "transient"@];
    assert(ws[0] == "public"@ && ws[4] == "final"@ && ws[5] == "abstract"@);
    let s1 = word_if(flag_set(f, 0x0001), "public"@);
    let s2 = word_if(flag_set(f, 0x0400) && !flag_set(f, 0x0200), "abstract"@);
    let s3 = word_if(flag_set(f, 0x0010), "final"@);
    let all = class_access_words(f);
    assert(all == s1 + s2 + s3);
    let o2 = s1.len() as int;
    let o3 = o2 + s2.len();
    assert forall|i: int| 0 <= i < all.len() implies
        (#[trigger] all[i] == "public"@ ==> flag_set(f, 0x0001))
        && (all[i] == "abstract"@ ==> flag_set(f, 0x0400) && !flag_set(f, 0x0200))
        && (all[i] == "final"@ ==> flag_set(f, 0x0010)) by {
        if i < o2 {
            assert(all[i] == s1[i]);
        } else if i < o3 {
            assert(all[i] == s2[i - o2]);
        } else {
            assert(all[i] == s3[i - o3]);
        }
    }
    if flag_set(f, 0x0001) { assert(all[0] == "public"@); }
    if flag_set(f, 0x0400) && !flag_set(f, 0x0200) { assert(all[o2] == "abstract"@); }
    if flag_set(f, 0x0010) { assert(all[o3] == "final"@); }
}

fn push_visibility(parts: &mut Vec<Vec<char>>, flags: u16)
    ensures
        word_views(final(parts)@) == word_views(old(parts)@) + visibility_words(flags),
{
    if flag(flags, 0x0001) {
        push_word_if(parts, true, "public");
    } else if flag(flags, 0x0004) {
        push_word_if(parts, true, "protected");
    } else if flag(flags, 0x0002) {
        push_word_if(parts, true, "private");
    }
    assert(word_views(parts@) =~= word_views(old(parts)@) + visibility_words(flags));
}

/// The method modifiers joined with spaces.
pub fn format_method_access(flags: u16) -> (r: String)
    ensures
        r@ == join(method_access_words(flags), " "@),
{
    let mut parts: Vec<Vec<char>> = Vec::new();
    push_visibility(&mut parts, flags);
    push_word_if(&mut parts, flag(flags, 0x0008), "static");
    push_word_if(&mut parts, flag(flags, 0x0010), "final");
    push_word_if(&mut parts, flag(flags, 0x0400), "abstract");
    push_word_if(&mut parts, flag(flags, 0x0100), "native");
    push_word_if(&mut parts, flag(flags, 0x0020), "synchronized");
    assert(word_views(parts@) =~= method_access_words(flags));
    string_of(&crate::text::join_vecs(&parts, " "))
}

/// The field modifiers joined with spaces.
pub fn format_field_access(flags: u16) -> (r: String)
    ensures
        r@ == join(field_access_words(flags), " "@),
{
    let mut parts: Vec<Vec<char>> = Vec::new();
    push_visibility(&mut parts, flags);
    push_word_if(&mut parts, flag(flags, 0x0008), "static");
    push_word_if(&mut parts, flag(flags, 0x0010), "final");
    push_word_if(&mut parts, flag(flags, 0x0040), "volatile");
    push_word_if(&mut parts, flag(flags, 0x0080), "transient");
    assert(word_views(parts@) =~= field_access_words(flags));
    string_of(&crate::text::join_vecs(&parts, " "))
}

/// Access level of a class: `public` or `package_private`.
pub open spec fn class_level(f: u16) -> Seq<char> {
    if flag_set(f, 0x0001) { "public"@ } else { "package_private"@ }
}

/// Access level of a method or field: `public`, `protected`, `private`, or
/// `package_private`.
pub open spec fn member_level(f: u16) -> Seq<char> {
    if flag_set(f, 0x0001) { "public"@ }
    else if flag_set(f, 0x0004) { "protected"@ }
    else if flag_set(f, 0x0002) { "private"@ }
    else { "package_private"@ }
}

/// The access level name of a class.
pub fn class_access_level(flags: u16) -> (r: &'static str)
    ensures
        r@ == class_level(flags),
{
    if flag(flags, 0x0001) { "public" } else { "package_private" }
}

/// The access level name of a method.
pub fn method_access_level(flags: u16) -> (r: &'static str)
    ensures
        r@ == member_level(flags),
{
    if flag(flags, 0x0001) { "public" }
    else if flag(flags, 0x0004) { "protected" }
    else if flag(flags, 0x0002) { "private" }
    else { "package_private" }
}

/// The access level name of a field.
pub fn field_access_level(flags: u16) -> (r: &'static str)
    ensures
        r@ == member_level(flags),
{
    if flag(flags, 0x0001) { "public" }
    else if flag(flags, 0x0004) { "protected" }
    else if flag(flags, 0x0002) { "private" }
    else { "package_private" }
}

/// The kind word of a class: `interface`, `enum`, `@interface` or `class`.
pub open spec fn class_kind_word(f: u16) -> Seq<char> {
    if flag_set(f, 0x0200) { "interface"@ }
    else if flag_set(f, 0x4000) { "enum"@ }
    else if flag_set(f, 0x2000) { "@interface"@ }
    else { "class"@ }
}

/// Java display of a class: modifiers (when any), kind and simple name.
pub open spec fn spec_java_class_display(flags: u16, access: Seq<char>, simple_name: Seq<char>) -> Seq<char> {
    if access.len() == 0 {
        class_kind_word(flags) + " "@ + simple_name
    } else {
        access + " "@ + class_kind_word(flags) + " "@ + simple_name
    }
}

/// Format the Java display of a class.
pub fn format_java_class_display(flags: u16, access: &str, simple_name: &str) -> (r: String)
    ensures
        r@ == spec_java_class_display(flags, access@, simple_name@),
{
    let kind = if flag(flags, 0x0200) { "interface" }
        else if flag(flags, 0x4000) { "enum" }
        else if flag(flags, 0x2000) { "@interface" }
        else { "class" };
    let mut out: Vec<char> = Vec::new();
    let a = chars_of(access);
    if a.len() > 0 {
        push_seq(&mut out, &a);
        push_str(&mut out, " ");
    }
    push_str(&mut out, kind);
    push_str(&mut out, " ");
    push_str(&mut out, simple_name);
    string_of(&out)
}

/// Language of a source file name, by its extension.
pub open spec fn spec_language_of_file(name: Seq<char>) -> crate::model::SourceLanguage {
    if has_suffix(name, ".kt"@) { crate::model::SourceLanguage::Kotlin }
    else if has_suffix(name, ".java"@) { crate::model::SourceLanguage::Java }
    else if has_suffix(name, ".scala"@) { crate::model::SourceLanguage::Scala }
    else if has_suffix(name, ".groovy"@) { crate::model::SourceLanguage::Groovy }
    else if has_suffix(name, ".clj"@) { crate::model::SourceLanguage::Clojure }
    else { crate::model::SourceLanguage::Unknown }
}

/// The source language of a SourceFile name.
pub fn language_of_file(name: &str) -> (r: crate::model::SourceLanguage)
    ensures
        r == spec_language_of_file(name@),
{
    let v = chars_of(name);
    if crate::text::ends_with_str(&v, ".kt") { crate::model::SourceLanguage::Kotlin }
    else if crate::text::ends_with_str(&v, ".java") { crate::model::SourceLanguage::Java }
    else if crate::text::ends_with_str(&v, ".scala") { crate::model::SourceLanguage::Scala }
    else if crate::text::ends_with_str(&v, ".groovy") { crate::model::SourceLanguage::Groovy }
    else if crate::text::ends_with_str(&v, ".clj") { crate::model::SourceLanguage::Clojure }
    else { crate::model::SourceLanguage::Unknown }
}

/// The first SourceFile attribute's file name.
pub open spec fn spec_source_file(attrs: Seq<AttributeInfo>) -> Option<Seq<char>>
    decreases attrs.len(),
{
    if attrs.len() == 0 {
        None
    } else {
        match attrs[0] {
            AttributeInfo::SourceFile(n) => Some(n@),
            _ => spec_source_file(attrs.drop_first()),
        }
    }
}

/// Extract the SourceFile attribute value from a class's attributes.
pub fn extract_source_file_name(attrs: &[AttributeInfo]) -> (r: Option<String>)
    ensures
        match spec_source_file(attrs@) {
            Some(n) => r is Some && r->0@ == n,
            None => r is None,
        },
{
    let mut i: usize = 0;
    assert(attrs@.skip(0) =~= attrs@);
    while i < attrs.len()
        invariant
            0 <= i <= attrs@.len(),
            spec_source_file(attrs@) == spec_source_file(attrs@.skip(i as int)),
        decreases attrs@.len() - i,
    {
        assert(attrs@.skip(i as int)[0] == attrs@[i as int]);
        if let AttributeInfo::SourceFile(n) = &attrs[i] {
            return Some(string_of(&chars_of(n.as_str())));
        }
        assert(attrs@.skip(i as int).drop_first() =~= attrs@.skip(i + 1));
        i = i + 1;
    }
    None
}

/// The first `@kotlin.Metadata` annotation among `anns`.
pub open spec fn metadata_in(anns: Seq<AnnotationInfo>) -> Option<AnnotationInfo>
    decreases anns.len(),
{
    if anns.len() == 0 {
        None
    } else if anns[0].type_descriptor@ == "Lkotlin/Metadata;"@ {
        Some(anns[0])
    } else {
        metadata_in(anns.drop_first())
    }
}

/// The first `@kotlin.Metadata` annotation of the runtime-visible
/// annotation attributes, searched in attribute order.
pub open spec fn spec_find_metadata(attrs: Seq<AttributeInfo>) -> Option<AnnotationInfo>
    decreases attrs.len(),
{
    if attrs.len() == 0 {
        None
    } else {
        match attrs[0] {
            AttributeInfo::Annotations(anns) => match metadata_in(anns@) {
                Some(a) => Some(a),
                None => spec_find_metadata(attrs.drop_first()),
            },
            _ => spec_find_metadata(attrs.drop_first()),
        }
    }
}

fn find_metadata_in(anns: &Vec<AnnotationInfo>) -> (r: Option<&AnnotationInfo>)
    ensures
        match metadata_in(anns@) {
            Some(a) => r is Some && *r->0 == a,
            None => r is None,
        },
{
    let mut i: usize = 0;
    assert(anns@.skip(0) =~= anns@);
    while i < anns.len()
        invariant
            0 <= i <= anns@.len(),
            metadata_in(anns@) == metadata_in(anns@.skip(i as int)),
        decreases anns@.len() - i,
    {
        assert(anns@.skip(i as int)[0] == anns@[i as int]);
        if str_eq(anns[i].type_descriptor.as_str(), "Lkotlin/Metadata;") {
            return Some(&anns[i]);
        }
        assert(anns@.skip(i as int).drop_first() =~= anns@.skip(i + 1));
        i = i + 1;
    }
    None
}

/// The strings among array items.
pub open spec fn string_items(items: Seq<ElementValue>) -> Seq<Seq<char>>
    decreases items.len(),
{
    if items.len() == 0 {
        Seq::empty()
    } else {
        let rest = string_items(items.drop_last());
        match items.last() {
            ElementValue::Str(s) => rest.push(s@),
            _ => rest,
        }
    }
}

/// The `k`, `d1` and `d2` fields read from the first `n` elements: the last
/// `int` named `k`, and the strings of every array named `d1` (or `d2`), in order.
pub open spec fn metadata_fields(elements: Seq<ElementInfo>, n: int) -> (Option<i32>, Seq<Seq<char>>, Seq<Seq<char>>)
    decreases n,
{
    if n <= 0 || n > elements.len() {
        (None, Seq::empty(), Seq::empty())
    } else {
        let (k, d1, d2) = metadata_fields(elements, n - 1);
        let e = elements[n - 1];
        if e.name@ == "k"@ {
            match e.value {
                ElementValue::Int(v) => (Some(v), d1, d2),
                _ => (k, d1, d2),
            }
        } else if e.name@ == "d1"@ {
            match e.value {
                ElementValue::Array(items) => (k, d1 + string_items(items@), d2),
                _ => (k, d1, d2),
            }
        } else if e.name@ == "d2"@ {
            match e.value {
                ElementValue::Array(items) => (k, d1, d2 + string_items(items@)),
                _ => (k, d1, d2),
            }
        } else {
            (k, d1, d2)
        }
    }
}

/// The string views of a vector of strings.
pub open spec fn string_views(v: Seq<String>) -> Seq<Seq<char>> {
    v.map_values(|s: String| s@)
}

fn push_string_items(out: &mut Vec<String>, items: &Vec<ElementValue>)
    ensures
        string_views(final(out)@) == string_views(old(out)@) + string_items(items@),
{
    let mut i: usize = 0;
    while i < items.len()
        invariant
            0 <= i <= items@.len(),
            string_views(out@) == string_views(old(out)@) + string_items(items@.take(i as int)),
        decreases items@.len() - i,
    {
        let ghost t = items@.take(i + 1);
        assert(t.drop_last() =~= items@.take(i as int));
        assert(t.last() == items@[i as int]);
        let ghost before = string_views(out@);
        if let ElementValue::Str(s) = &items[i] {
            out.push(string_of(&chars_of(s.as_str())));
            assert(string_views(out@) =~= before.push(s@));
        } else {
            assert(string_views(out@) =~= before);
        }
        i = i + 1;
        assert(string_views(out@) =~= string_views(old(out)@) + string_items(items@.take(i as int)));
    }
    assert(items@.take(items@.len() as int) =~= items@);
}

/// The metadata fields of an annotation, with `k` defaulting to 1.
pub open spec fn metadata_raw_is(r: crate::kotlin_metadata::KotlinMetadataRaw, ann: AnnotationInfo) -> bool {
    let (k, d1, d2) = metadata_fields(ann.elements@, ann.elements@.len() as int);
    &&& r.k == (match k { Some(v) => v, None => 1 })
    &&& string_views(r.d1@) == d1
    &&& string_views(r.d2@) == d2
}

/// Extract the `k`, `d1`, `d2` fields of a Kotlin Metadata annotation.
pub fn extract_metadata_fields(ann: &AnnotationInfo) -> (r: crate::kotlin_metadata::KotlinMetadataRaw)
    ensures
        metadata_raw_is(r, *ann),
{
    let mut k: Option<i32> = None;
    let mut d1: Vec<String> = Vec::new();
    let mut d2: Vec<String> = Vec::new();
    let mut i: usize = 0;
    while i < ann.elements.len()
        invariant
            0 <= i <= ann.elements@.len(),
            (k, string_views(d1@), string_views(d2@)) == metadata_fields(ann.elements@, i as int),
        decreases ann.elements@.len() - i,
    {
        let e = &ann.elements[i];
        if str_eq(e.name.as_str(), "k") {
            if let ElementValue::Int(v) = &e.value {
                k = Some(*v);
            }
        } else if str_eq(e.name.as_str(), "d1") {
            if let ElementValue::Array(items) = &e.value {
                push_string_items(&mut d1, items);
            }
        } else if str_eq(e.name.as_str(), "d2") {
            if let ElementValue::Array(items) = &e.value {
                push_string_items(&mut d2, items);
            }
        }
        i = i + 1;
    }
    let k = match k { Some(v) => v, None => 1 };
    crate::kotlin_metadata::KotlinMetadataRaw { k, d1, d2 }
}

/// Find and extract the `@kotlin.Metadata` fields of a class.
pub fn find_kotlin_metadata(attrs: &[AttributeInfo]) -> (r: Option<crate::kotlin_metadata::KotlinMetadataRaw>)
    ensures
        match spec_find_metadata(attrs@) {
            Some(a) => r is Some && metadata_raw_is(r->0, a),
            None => r is None,
        },
{
    let mut i: usize = 0;
    assert(attrs@.skip(0) =~= attrs@);
    while i < attrs.len()
        invariant
            0 <= i <= attrs@.len(),
            spec_find_metadata(attrs@) == spec_find_metadata(attrs@.skip(i as int)),
        decreases attrs@.len() - i,
    {
        assert(attrs@.skip(i as int)[0] == attrs@[i as int]);
        if let AttributeInfo::Annotations(anns) = &attrs[i] {
            if let Some(a) = find_metadata_in(anns) {
                return Some(extract_metadata_fields(a));
            }
        }
        assert(attrs@.skip(i as int).drop_first() =~= attrs@.skip(i + 1));
        i = i + 1;
    }
    None
}

/// Whether a method is left out: the static initializer, synthetic and
/// bridge methods.
pub open spec fn skip_method(m: MemberInfo) -> bool {
    m.name@ == "<clinit>"@ || flag_set(m.access_flags, 0x1000) || flag_set(m.access_flags, 0x0040)
}

/// Whether a field is left out: synthetic fields.
pub open spec fn skip_field(m: MemberInfo) -> bool {
    flag_set(m.access_flags, 0x1000)
}

/// The methods that get a symbol, in order.
pub open spec fn kept_methods(ms: Seq<MemberInfo>) -> Seq<MemberInfo>
    decreases ms.len(),
{
    if ms.len() == 0 {
        Seq::empty()
    } else if skip_method(ms.last()) {
        kept_methods(ms.drop_last())
    } else {
        kept_methods(ms.drop_last()).push(ms.last())
    }
}

/// The fields that get a symbol, in order.
pub open spec fn kept_fields(fs: Seq<MemberInfo>) -> Seq<MemberInfo>
    decreases fs.len(),
{
    if fs.len() == 0 {
        Seq::empty()
    } else if skip_field(fs.last()) {
        kept_fields(fs.drop_last())
    } else {
        kept_fields(fs.drop_last()).push(fs.last())
    }
}

/// Whether a method gets no symbol.
pub fn should_skip_method(m: &MemberInfo) -> (r: bool)
    ensures
        r == skip_method(*m),
{
    str_eq(m.name.as_str(), "<clinit>") || flag(m.access_flags, 0x1000) || flag(m.access_flags, 0x0040)
}

/// Whether a field gets no symbol.
pub fn should_skip_field(f: &MemberInfo) -> (r: bool)
    ensures
        r == skip_field(*f),
{
    flag(f.access_flags, 0x1000)
}

/// The qualified name of a class: its internal name with `/` written as `.`.
pub open spec fn class_fqn(info: ClassInfo) -> Seq<char> {
    replace_char(info.this_class@, '/', '.')
}

/// Whether a class gets no symbols: `module-info`, `package-info`,
/// anonymous classes (the last segment of the name, `$` kept, ends in a
/// `$` and digits, as `Foo$1`) and synthetic classes.
pub open spec fn class_skipped(info: ClassInfo) -> bool {
    let fqn = class_fqn(info);
    ||| has_suffix(fqn, ".module-info"@)
    ||| has_suffix(fqn, ".package-info"@)
    ||| spec_is_anonymous_class(after_last(fqn, '.'))
    ||| flag_set(info.access_flags, 0x1000)
}

/// What every symbol of a class shares.
pub struct ClassContext {
    /// The class's qualified name.
    pub fqn: Seq<char>,
    /// Its package.
    pub package: Seq<char>,
    /// Its simple name.
    pub simple: Seq<char>,
    /// The language of its SourceFile.
    pub lang: Option<crate::model::SourceLanguage>,
    /// Its SourceFile name.
    pub file: Option<Seq<char>>,
    /// Its Kotlin signatures, for a Kotlin class.
    pub kotlin: Option<crate::kotlin_metadata::KotlinSignatures>,
}

/// The context of a class: names from its internal name, language from its
/// SourceFile, and the Kotlin signatures only when the source is Kotlin.
pub open spec fn class_context(
    info: ClassInfo,
    attrs: Seq<AttributeInfo>,
    kotlin: Option<crate::kotlin_metadata::KotlinSignatures>,
) -> ClassContext {
    let fqn = class_fqn(info);
    let file = spec_source_file(attrs);
    let lang = match file { Some(n) => Some(spec_language_of_file(n)), None => None };
    ClassContext {
        fqn,
        package: spec_package_from_fqn(fqn),
        simple: spec_simple_name_from_fqn(fqn),
        lang,
        file,
        kotlin: if lang == Some(crate::model::SourceLanguage::Kotlin) { kotlin } else { None },
    }
}

/// The view of an optional string.
pub open spec fn opt_view(o: Option<String>) -> Option<Seq<char>> {
    match o { Some(s) => Some(s@), None => None }
}

/// The Kotlin display recorded for a JVM member name.
pub open spec fn kotlin_for(ctx: ClassContext, name: Seq<char>) -> Option<Seq<char>> {
    match ctx.kotlin {
        Some(s) => crate::kotlin_metadata::signatures::first_display(s, name),
        None => None,
    }
}

/// A symbol holds the given fields, shares the class's package, class name
/// and decompiled source origin, and its name parts split its simple name.
pub open spec fn symbol_is(
    d: crate::model::SymbolDoc,
    gav: Seq<char>,
    kind: crate::model::SymbolKind,
    ctx: ClassContext,
    simple: Seq<char>,
    fqn: Seq<char>,
    descriptor: Seq<char>,
    java: Seq<char>,
    kotlin: Option<Seq<char>>,
    access: Seq<char>,
    level: Seq<char>,
) -> bool {
    &&& d.gav@ == gav
    &&& d.symbol_kind == kind
    &&& d.fqn@ == fqn
    &&& d.package@ == ctx.package
    &&& d.class_name@ == ctx.simple
    &&& d.simple_name@ == simple
    &&& d.name_parts@ == spec_split_camel_case(simple)
    &&& d.descriptor@ == descriptor
    &&& d.signature.java@ == java
    &&& opt_view(d.signature.kotlin) == kotlin
    &&& d.access_flags@ == access
    &&& d.access_level@ == level
    &&& d.source matches crate::model::SourceOrigin::Decompiled { source_language, source_file_name }
    &&& crate::model::origin_language(d.source) == ctx.lang
    &&& opt_view(crate::model::origin_file_name(d.source)) == ctx.file
}

/// The class symbol.
pub open spec fn class_symbol_is(d: crate::model::SymbolDoc, info: ClassInfo, ctx: ClassContext, gav: Seq<char>) -> bool {
    let access = join(class_access_words(info.access_flags), " "@);
    symbol_is(d, gav, crate::model::SymbolKind::Class, ctx, ctx.simple, ctx.fqn, Seq::empty(),
        spec_java_class_display(info.access_flags, access, ctx.simple),
        match ctx.kotlin { Some(s) => opt_view(s.class_display), None => None },
        access, class_level(info.access_flags))
}

/// The name a method is shown under: the class name for a constructor.
pub open spec fn method_display_name(m: MemberInfo, ctx: ClassContext) -> Seq<char> {
    if m.name@ == "<init>"@ { ctx.simple } else { m.name@ }
}

/// The symbol of a method.
pub open spec fn method_symbol_is(d: crate::model::SymbolDoc, m: MemberInfo, ctx: ClassContext, gav: Seq<char>) -> bool {
    let access = join(method_access_words(m.access_flags), " "@);
    let display = method_display_name(m, ctx);
    symbol_is(d, gav, crate::model::SymbolKind::Method, ctx, display, ctx.fqn + "."@ + display, m.descriptor@,
        crate::descriptor::spec_method_display(access, ctx.simple, m.name@, m.descriptor@),
        kotlin_for(ctx, m.name@), access, member_level(m.access_flags))
}

/// The symbol of a field.
pub open spec fn field_symbol_is(d: crate::model::SymbolDoc, f: MemberInfo, ctx: ClassContext, gav: Seq<char>) -> bool {
    let access = join(field_access_words(f.access_flags), " "@);
    symbol_is(d, gav, crate::model::SymbolKind::Field, ctx, f.name@, ctx.fqn + "."@ + f.name@, f.descriptor@,
        crate::descriptor::spec_field_display(access, f.name@, f.descriptor@),
        kotlin_for(ctx, f.name@), access, member_level(f.access_flags))
}

/// The symbols of a class that is not left out: the class symbol, then one
/// per kept method, then one per kept field, in classfile order.
pub open spec fn symbols_are(r: Seq<crate::model::SymbolDoc>, info: ClassInfo, ctx: ClassContext, gav: Seq<char>) -> bool {
    let km = kept_methods(info.methods@);
    let kf = kept_fields(info.fields@);
    &&& r.len() == 1 + km.len() + kf.len()
    &&& class_symbol_is(r[0], info, ctx, gav)
    &&& forall|i: int| 0 <= i < km.len() ==> #[trigger] method_symbol_is(r[1 + i], km[i], ctx, gav)
    &&& forall|i: int| 0 <= i < kf.len() ==> #[trigger] field_symbol_is(r[1 + km.len() + i], kf[i], ctx, gav)
}

/// The lookup map holds the first display of every member name of `sigs`.
pub open spec fn map_matches(m: SignatureMap, sigs: KotlinSignatures) -> bool {
    &&& m.wf()
    &&& forall|k: Seq<char>| #![auto] m.view().dom().contains(k) <==> first_display(sigs, k) is Some
    &&& forall|k: Seq<char>| #![auto] m.view().dom().contains(k) ==> m.view()[k] == first_display(sigs, k)->0
}

fn lookup(map: &Option<SignatureMap>, name: &str, ghost_sigs: Ghost<Option<KotlinSignatures>>) -> (r: Option<String>)
    requires
        match ghost_sigs@ {
            Some(s) => map matches Some(m) && map_matches(*m, s),
            None => map is None,
        },
    ensures
        opt_view(r) == match ghost_sigs@ { Some(s) => first_display(s, name@), None => None },
{
    match map {
        Some(m) => match m.get(name) {
            Some(v) => Some(v.clone()),
            None => None,
        },
        None => None,
    }
}

fn clone_opt(o: &Option<String>) -> (r: Option<String>)
    ensures
        r == *o,
{
    match o {
        Some(s) => Some(s.clone()),
        None => None,
    }
}

fn make_symbol(
    gav: &str,
    kind: SymbolKind,
    fqn: String,
    package: &String,
    class_name: &String,
    simple: String,
    descriptor: String,
    java: String,
    kotlin: Option<String>,
    access: String,
    level: &str,
    lang: Option<SourceLanguage>,
    file: &Option<String>,
) -> (d: SymbolDoc)
    ensures
        d.gav@ == gav@,
        d.symbol_kind == kind,
        d.fqn@ == fqn@,
        d.package@ == package@,
        d.class_name@ == class_name@,
        d.simple_name@ == simple@,
        d.name_parts@ == spec_split_camel_case(simple@),
        d.descriptor@ == descriptor@,
        d.signature.java@ == java@,
        d.signature.kotlin == kotlin,
        d.access_flags@ == access@,
        d.access_level@ == level@,
        d.source == (SourceOrigin::Decompiled { source_language: lang, source_file_name: *file }),
{
    let name_parts = split_camel_case(simple.as_str());
    SymbolDoc {
        gav: owned(gav),
        symbol_kind: kind,
        fqn,
        package: package.clone(),
        class_name: class_name.clone(),
        simple_name: simple,
        name_parts,
        descriptor,
        signature: SignatureDisplay { java, kotlin },
        access_flags: access,
        access_level: owned(level),
        source: SourceOrigin::Decompiled { source_language: lang, source_file_name: clone_opt(file) },
    }
}

fn dotted(fqn: &String, name: &str) -> (r: String)
    ensures
        r@ == fqn@ + "."@ + name@,
{
    let mut v = chars_of(fqn.as_str());
    push_str(&mut v, ".");
    push_str(&mut v, name);
    string_of(&v)
}

/// Symbols (class, methods, fields) of a parsed classfile, given the Kotlin
/// signatures decoded from its `@kotlin.Metadata` (used only when its
/// SourceFile is a Kotlin file).
///
/// A `module-info`, `package-info`, anonymous or synthetic class gives no
/// symbols; otherwise the class symbol comes first, then one symbol per
/// method (static initializers, synthetic and bridge methods left out),
/// then one per non-synthetic field.
#[verifier::rlimit(50)]
pub fn class_symbols(
    info: &ClassInfo,
    attrs: &[AttributeInfo],
    gav: &str,
    kotlin: Option<&KotlinSignatures>,
) -> (r: Vec<SymbolDoc>)
    ensures
        class_skipped(*info) ==> r@.len() == 0,
        !class_skipped(*info) ==> symbols_are(r@, *info,
            class_context(*info, attrs@, match kotlin { Some(k) => Some(*k), None => None }), gav@),
{
    let ghost ctx = class_context(*info, attrs@, match kotlin { Some(k) => Some(*k), None => None });
    let this_chars = chars_of(info.this_class.as_str());
    let fqn_v = replace_char_vec(&this_chars, '/', '.');
    if ends_with_str(&fqn_v, ".module-info") || ends_with_str(&fqn_v, ".package-info") {
        return Vec::new();
    }
    let raw_last = string_of(&after_last_char(&fqn_v, '.'));
    if is_anonymous_class(raw_last.as_str()) {
        return Vec::new();
    }
    let fqn = string_of(&fqn_v);
    let simple_class = simple_name_from_fqn(fqn.as_str());
    if flag(info.access_flags, 0x1000) {
        return Vec::new();
    }
    let package = package_from_fqn(fqn.as_str());
    let class_access = format_class_access(info.access_flags);
    let level = class_access_level(info.access_flags);
    let source_file_name = extract_source_file_name(attrs);
    let source_language: Option<SourceLanguage> = match &source_file_name {
        Some(n) => Some(language_of_file(n.as_str())),
        None => None,
    };
    let is_kotlin = match source_language { Some(SourceLanguage::Kotlin) => true, _ => false };
    let kotlin = if is_kotlin { kotlin } else { None };
    let ghost ksigs: Option<KotlinSignatures> = match kotlin { Some(k) => Some(*k), None => None };
    assert(ksigs == ctx.kotlin);
    let map: Option<SignatureMap> = match kotlin {
        Some(s) => Some(build_signature_map(s)),
        None => None,
    };
    let kotlin_class_display: Option<String> = match kotlin {
        Some(s) => clone_opt(&s.class_display),
        None => None,
    };
    let java = format_java_class_display(info.access_flags, class_access.as_str(), simple_class.as_str());
    let class_doc = make_symbol(gav, SymbolKind::Class, fqn.clone(), &package, &simple_class,
        simple_class.clone(), String::new(), java, kotlin_class_display, class_access, level,
        source_language, &source_file_name);
    let mut symbols: Vec<SymbolDoc> = Vec::new();
    symbols.push(class_doc);
    assert(class_symbol_is(symbols@[0], *info, ctx, gav@));
    let mut i: usize = 0;
    assert(info.methods@.take(0) =~= Seq::<MemberInfo>::empty());
    while i < info.methods.len()
        invariant
            0 <= i <= info.methods@.len(),
            fqn@ == ctx.fqn,
            simple_class@ == ctx.simple,
            package@ == ctx.package,
            source_language == ctx.lang,
            opt_view(source_file_name) == ctx.file,
            ksigs == ctx.kotlin,
            match ksigs { Some(s) => map matches Some(m) && map_matches(m, s), None => map is None },
            symbols@.len() == 1 + kept_methods(info.methods@.take(i as int)).len(),
            class_symbol_is(symbols@[0], *info, ctx, gav@),
            forall|j: int| 0 <= j < kept_methods(info.methods@.take(i as int)).len() ==>
                #[trigger] method_symbol_is(symbols@[1 + j], kept_methods(info.methods@.take(i as int))[j], ctx, gav@),
        decreases info.methods@.len() - i,
    {
        let m = &info.methods[i];
        let ghost t = info.methods@.take(i + 1);
        assert(t.drop_last() =~= info.methods@.take(i as int));
        assert(t.last() == info.methods@[i as int]);
        if !should_skip_method(m) {
            let is_ctor = str_eq(m.name.as_str(), "<init>");
            let display_name: String = if is_ctor { simple_class.clone() } else { owned(m.name.as_str()) };
            let method_fqn = dotted(&fqn, display_name.as_str());
            let access = format_method_access(m.access_flags);
            let m_level = method_access_level(m.access_flags);
            let kotlin_sig = lookup(&map, m.name.as_str(), Ghost(ksigs));
            let java = crate::descriptor::format_method_display(access.as_str(), simple_class.as_str(),
                m.name.as_str(), m.descriptor.as_str());
            let doc = make_symbol(gav, SymbolKind::Method, method_fqn, &package, &simple_class,
                display_name, owned(m.descriptor.as_str()), java, kotlin_sig, access, m_level,
                source_language, &source_file_name);
            let ghost before = symbols@;
            symbols.push(doc);
            proof {
                let k = kept_methods(t);
                assert(k == kept_methods(info.methods@.take(i as int)).push(*m));
                assert forall|j: int| 0 <= j < k.len() implies #[trigger] method_symbol_is(symbols@[1 + j], k[j], ctx, gav@) by {
                    if j < k.len() - 1 {
                        assert(symbols@[1 + j] == before[1 + j]);
                    }
                }
            }
        }
        i = i + 1;
    }
    assert(info.methods@.take(info.methods@.len() as int) =~= info.methods@);
    let ghost nm = kept_methods(info.methods@).len();
    let mut i: usize = 0;
    assert(info.fields@.take(0) =~= Seq::<MemberInfo>::empty());
    while i < info.fields.len()
        invariant
            0 <= i <= info.fields@.len(),
            fqn@ == ctx.fqn,
            simple_class@ == ctx.simple,
            package@ == ctx.package,
            source_language == ctx.lang,
            opt_view(source_file_name) == ctx.file,
            ksigs == ctx.kotlin,
            match ksigs { Some(s) => map matches Some(m) && map_matches(m, s), None => map is None },
            nm == kept_methods(info.methods@).len(),
            symbols@.len() == 1 + nm + kept_fields(info.fields@.take(i as int)).len(),
            class_symbol_is(symbols@[0], *info, ctx, gav@),
            forall|j: int| 0 <= j < nm ==>
                #[trigger] method_symbol_is(symbols@[1 + j], kept_methods(info.methods@)[j], ctx, gav@),
            forall|j: int| 0 <= j < kept_fields(info.fields@.take(i as int)).len() ==>
                #[trigger] field_symbol_is(symbols@[1 + nm + j], kept_fields(info.fields@.take(i as int))[j], ctx, gav@),
        decreases info.fields@.len() - i,
    {
        let f = &info.fields[i];
        let ghost t = info.fields@.take(i + 1);
        assert(t.drop_last() =~= info.fields@.take(i as int));
        assert(t.last() == info.fields@[i as int]);
        if !should_skip_field(f) {
            let field_name = owned(f.name.as_str());
            let field_fqn = dotted(&fqn, field_name.as_str());
            let access = format_field_access(f.access_flags);
            let f_level = field_access_level(f.access_flags);
            let kotlin_sig = lookup(&map, field_name.as_str(), Ghost(ksigs));
            let java = crate::descriptor::format_field_display(access.as_str(), field_name.as_str(), f.descriptor.as_str());
            let doc = make_symbol(gav, SymbolKind::Field, field_fqn, &package, &simple_class,
                field_name, owned(f.descriptor.as_str()), java, kotlin_sig, access, f_level,
                source_language, &source_file_name);
            let ghost before = symbols@;
            symbols.push(doc);
            proof {
                let k = kept_fields(t);
                assert(k == kept_fields(info.fields@.take(i as int)).push(*f));
                assert forall|j: int| 0 <= j < k.len() implies #[trigger] field_symbol_is(symbols@[1 + nm + j], k[j], ctx, gav@) by {
                    if j < k.len() - 1 {
                        assert(symbols@[1 + nm + j] == before[1 + nm + j]);
                    }
                }
                assert forall|j: int| 0 <= j < nm implies #[trigger] method_symbol_is(symbols@[1 + j], kept_methods(info.methods@)[j], ctx, gav@) by {
                    assert(symbols@[1 + j] == before[1 + j]);
                }
            }
        }
        i = i + 1;
    }
    assert(info.fields@.take(info.fields@.len() as int) =~= info.fields@);
    symbols
}

/// The `AnnotationElementValue` type of the `cafebabe` crate.
#[verifier::external_type_specification]
#[verifier::external_body]
pub struct ExAnnotationElementValue<'a>(AnnotationElementValue<'a>);

/// What `cafebabe::parse_class` reads from classfile bytes, when they parse:
/// the class name, its access flags, and the name, access flags and
/// descriptor of each method and field.
pub uninterp spec fn parsed_class(bytes: Seq<u8>) -> Option<ClassInfo>;

/// The class attributes that `cafebabe::parse_class` reads from classfile
/// bytes (none when they do not parse).
pub uninterp spec fn parsed_attributes(bytes: Seq<u8>) -> Seq<AttributeInfo>;

/// Calls `cafebabe::parse_class` and copies out the class name
/// (`ClassName` as text), the access flag bits, and for each method and
/// field its name, access flag bits and descriptor (as `Display` writes it).
/// On failure it returns the parse error's message, which this contract
/// leaves unsaid.
#[verifier::external_body]
fn parse_class_info(bytes: &[u8]) -> (r: Result<ClassInfo, String>)
    ensures
        r is Ok <==> parsed_class(bytes@) is Some,
        r is Ok ==> r->Ok_0 == parsed_class(bytes@)->0,
{
    match cafebabe::parse_class(bytes) {
        Ok(c) => Ok(ClassInfo {
            this_class: c.this_class.to_string(),
            access_flags: c.access_flags.bits(),
            methods: c.methods.iter().map(|m| MemberInfo { name: m.name.to_string(), access_flags: m.access_flags.bits(), descriptor: m.descriptor.to_string() }).collect(),
            fields: c.fields.iter().map(|f| MemberInfo { name: f.name.to_string(), access_flags: f.access_flags.bits(), descriptor: f.descriptor.to_string() }).collect(),
        }),
        Err(e) => Err(e.to_string()),
    }
}

/// Calls `cafebabe::parse_class` and copies out its class attributes:
/// `SourceFile` with its name, `RuntimeVisibleAnnotations` with each
/// annotation's type descriptor and elements, any other as `Other`.
#[verifier::external_body]
fn class_attributes(bytes: &[u8]) -> (r: Vec<AttributeInfo>)
    ensures
        r@ == parsed_attributes(bytes@),
{
    let c = match cafebabe::parse_class(bytes) { Ok(c) => c, Err(_) => return Vec::new() };
    c.attributes.iter().map(|a| match &a.data {
        AttributeData::SourceFile(n) => AttributeInfo::SourceFile(n.to_string()),
        AttributeData::RuntimeVisibleAnnotations(anns) => AttributeInfo::Annotations(anns.iter().map(|an| AnnotationInfo {
            type_descriptor: an.type_descriptor.to_string(),
            elements: an.elements.iter().map(|e| ElementInfo { name: e.name.to_string(), value: element_value(&e.value) }).collect(),
        }).collect()),
        _ => AttributeInfo::Other,
    }).collect()
}

/// Copies a `cafebabe` annotation element value: `int` and string
/// constants and arrays (item by item); any other kind becomes `Other`.
#[verifier::external_body]
fn element_value(v: &AnnotationElementValue) -> ElementValue {
    match v {
        AnnotationElementValue::IntConstant(i) => ElementValue::Int(*i),
        AnnotationElementValue::StringConstant(s) => ElementValue::Str(s.to_string()),
        AnnotationElementValue::ArrayValue(items) => ElementValue::Array(items.iter().map(element_value).collect()),
        _ => ElementValue::Other,
    }
}

/// Parse a classfile into what symbol extraction reads: its class info and
/// class attributes; an error when the bytes are not a valid classfile.
pub fn read_class(class_bytes: &[u8]) -> (r: Result<(ClassInfo, Vec<AttributeInfo>), String>)
    ensures
        r is Ok <==> parsed_class(class_bytes@) is Some,
        r matches Ok((info, attrs)) ==> info == parsed_class(class_bytes@)->0 && attrs@ == parsed_attributes(class_bytes@),
        r matches Err(e) ==> has_prefix_str(e@, "failed to parse class: "@),
{
    match parse_class_info(class_bytes) {
        Ok(info) => {
            let attrs = class_attributes(class_bytes);
            Ok((info, attrs))
        },
        Err(msg) => {
            let mut v: Vec<char> = Vec::new();
            push_str(&mut v, "failed to parse class: ");
            let ghost head = v@;
            push_str(&mut v, msg.as_str());
            assert(v@.subrange(0, head.len() as int) =~= head);
            Err(string_of(&v))
        },
    }
}

/// The symbols of a classfile, given the Kotlin signatures decoded from its
/// `@kotlin.Metadata` (used only when its SourceFile is a Kotlin file): an
/// error when the bytes do not parse; none for a `module-info`,
/// `package-info`, anonymous or synthetic class; else the class symbol,
/// then its methods, then its fields.
pub fn extract_symbols(class_bytes: &[u8], gav: &str, kotlin: Option<&KotlinSignatures>) -> (r: Result<Vec<SymbolDoc>, String>)
    ensures
        r is Ok <==> parsed_class(class_bytes@) is Some,
        r matches Err(e) ==> has_prefix_str(e@, "failed to parse class: "@),
        r matches Ok(syms) ==> ({
            let info = parsed_class(class_bytes@)->0;
            let ctx = class_context(info, parsed_attributes(class_bytes@), match kotlin { Some(k) => Some(*k), None => None });
            &&& class_skipped(info) ==> syms@.len() == 0
            &&& !class_skipped(info) ==> symbols_are(syms@, info, ctx, gav@)
        }),
{
    match read_class(class_bytes) {
        Ok((info, attrs)) => Ok(class_symbols(&info, attrs.as_slice(), gav, kotlin)),
        Err(e) => Err(e),
    }
}

/// Whether `p` starts `s`.
pub open spec fn has_prefix_str(s: Seq<char>, p: Seq<char>) -> bool {
    p.len() <= s.len() && s.subrange(0, p.len() as int) == p
}

/// Extract the SourceFile attribute from raw class bytes.
pub fn source_file_name_from_bytes(class_bytes: &[u8]) -> (r: Option<String>)
    ensures
        match parsed_class(class_bytes@) {
            None => r is None,
            Some(_) => match spec_source_file(parsed_attributes(class_bytes@)) {
                Some(n) => r is Some && r->0@ == n,
                None => r is None,
            },
        },
{
    match read_class(class_bytes) {
        Ok((_, attrs)) => extract_source_file_name(attrs.as_slice()),
        Err(_) => None,
    }
}

/// The `@kotlin.Metadata` fields of a class whose symbols are extracted and
/// whose SourceFile is a Kotlin file; `None` otherwise.
pub fn kotlin_metadata_for(info: &ClassInfo, attrs: &[AttributeInfo]) -> (r: Option<crate::kotlin_metadata::KotlinMetadataRaw>)
    ensures
        (class_skipped(*info) || class_context(*info, attrs@, None).lang != Some(SourceLanguage::Kotlin)) ==> r is None,
        !(class_skipped(*info) || class_context(*info, attrs@, None).lang != Some(SourceLanguage::Kotlin)) ==>
            match spec_find_metadata(attrs@) {
                Some(a) => r is Some && metadata_raw_is(r->0, a),
                None => r is None,
            },
{
    let this_chars = chars_of(info.this_class.as_str());
    let fqn_v = replace_char_vec(&this_chars, '/', '.');
    if ends_with_str(&fqn_v, ".module-info") || ends_with_str(&fqn_v, ".package-info") {
        return None;
    }
    let raw_last = string_of(&after_last_char(&fqn_v, '.'));
    if is_anonymous_class(raw_last.as_str()) || flag(info.access_flags, 0x1000) {
        return None;
    }
    let is_kotlin = match extract_source_file_name(attrs) {
        Some(n) => match language_of_file(n.as_str()) { SourceLanguage::Kotlin => true, _ => false },
        None => false,
    };
    if is_kotlin { find_kotlin_metadata(attrs) } else { None }
}

} // verus!
