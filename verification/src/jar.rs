//! Source-JAR logic: package declarations, source file names, and the
//! `(package, filename)` source table.
//!
//! The source table maps the `(package, filename)` pair, taken from the
//! `package` declaration inside each source file and the file's name, to
//! the entry path in the JAR.  This is the join key that unifies all
//! source-JAR layouts (standard Java package paths, KMP source-set
//! prefixes, file facades).  When the same pair appears under several
//! source-set directories, a `jvmMain/` path is preferred.
use vstd::prelude::*;
use crate::model::SourceLanguage;
use crate::text::{
    after_last, after_last_char, chars_of, ends_with_str, find_char_from, first_index_of,
    has_prefix, has_suffix, join, push_seq, seq_eq, slice_vec, starts_with_str_at, string_of,
};

verus! {

/// Whether `c` has the Unicode White_Space property: tab through carriage
/// return, space, next line, no-break space, ogham space mark, the spaces
/// from en quad to hair space, line and paragraph separators, narrow
/// no-break space, medium mathematical space and ideographic space.
pub open spec fn char_is_whitespace(c: char) -> bool {
    let u = c as u32;
    ||| 0x09 <= u <= 0x0D
    ||| u == 0x20 || u == 0x85 || u == 0xA0 || u == 0x1680
    ||| 0x2000 <= u <= 0x200A
    ||| u == 0x2028 || u == 0x2029 || u == 0x202F || u == 0x205F || u == 0x3000
}

/// Whether `c` is whitespace, as `char::is_whitespace` reports it: the
/// Unicode White_Space property.
pub(crate) fn is_whitespace(c: char) -> (r: bool)
    ensures
        r == char_is_whitespace(c),
{
    let u = c as u32;
    (0x09 <= u && u <= 0x0D) || u == 0x20 || u == 0x85 || u == 0xA0 || u == 0x1680
        || (0x2000 <= u && u <= 0x200A)
        || u == 0x2028 || u == 0x2029 || u == 0x202F || u == 0x205F || u == 0x3000
}

/// The text `String::from_utf8_lossy` decodes from bytes.
pub uninterp spec fn utf8_lossy(bytes: Seq<u8>) -> Seq<char>;

/// Calls `String::from_utf8_lossy`: the bytes as UTF-8, with each invalid
/// sequence replaced by U+FFFD.  Valid UTF-8 decodes to its characters;
/// where the replacements fall in other input is left to the name.
#[verifier::external_body]
pub(crate) fn decode_utf8_lossy(bytes: &[u8]) -> (r: String)
    ensures
        r@ == utf8_lossy(bytes@),
        vstd::utf8::valid_utf8(bytes@) ==> r@ == vstd::utf8::decode_utf8(bytes@),
{
    String::from_utf8_lossy(bytes).into_owned()
}

/// `s` without leading whitespace.
pub open spec fn trim_start(s: Seq<char>) -> Seq<char>
    decreases s.len(),
{
    if s.len() > 0 && char_is_whitespace(s[0]) { trim_start(s.drop_first()) } else { s }
}

/// `s` without trailing whitespace.
pub open spec fn trim_end(s: Seq<char>) -> Seq<char>
    decreases s.len(),
{
    if s.len() > 0 && char_is_whitespace(s.last()) { trim_end(s.drop_last()) } else { s }
}

/// `s` without leading and trailing whitespace.
pub open spec fn spec_trim(s: Seq<char>) -> Seq<char> {
    trim_end(trim_start(s))
}

/// `s` without trailing `c` characters.
pub open spec fn trim_end_char(s: Seq<char>, c: char) -> Seq<char>
    decreases s.len(),
{
    if s.len() > 0 && s.last() == c { trim_end_char(s.drop_last(), c) } else { s }
}

/// Trim leading and trailing whitespace.
pub fn trim(s: &[char]) -> (r: Vec<char>)
    ensures
        r@ == spec_trim(s@),
{
    let mut a: usize = 0;
    assert(s@.skip(0) =~= s@);
    while a < s.len() && is_whitespace(s[a])
        invariant
            0 <= a <= s.len(),
            trim_start(s@) == trim_start(s@.skip(a as int)),
        decreases s.len() - a,
    {
        assert(s@.skip(a as int).drop_first() =~= s@.skip(a + 1));
        a = a + 1;
    }
    let mut b: usize = s.len();
    assert(trim_start(s@) == s@.subrange(a as int, b as int));
    while b > a && is_whitespace(s[b - 1])
        invariant
            a <= b <= s.len(),
            trim_end(trim_start(s@)) == trim_end(s@.subrange(a as int, b as int)),
        decreases b - a,
    {
        assert(s@.subrange(a as int, b as int).drop_last() =~= s@.subrange(a as int, b - 1));
        b = b - 1;
    }
    slice_vec(s, a, b)
}

/// Trim trailing occurrences of `c`.
pub fn trim_end_matches(s: &[char], c: char) -> (r: Vec<char>)
    ensures
        r@ == trim_end_char(s@, c),
{
    let mut b: usize = s.len();
    assert(s@.subrange(0, b as int) =~= s@);
    while b > 0 && s[b - 1] == c
        invariant
            b <= s.len(),
            trim_end_char(s@, c) == trim_end_char(s@.subrange(0, b as int), c),
        decreases b,
    {
        assert(s@.subrange(0, b as int).drop_last() =~= s@.subrange(0, b - 1));
        b = b - 1;
    }
    slice_vec(s, 0, b)
}

/// The first index at or after `i` where `p` occurs in `s`.
pub open spec fn find_sub_from(s: Seq<char>, p: Seq<char>, i: int) -> Option<int>
    decreases s.len() + 1 - i,
{
    if i < 0 || i + p.len() > s.len() {
        None
    } else if s.subrange(i, i + p.len()) == p {
        Some(i)
    } else {
        find_sub_from(s, p, i + 1)
    }
}

/// The first index where `p` occurs in `s`.
pub open spec fn find_sub(s: Seq<char>, p: Seq<char>) -> Option<int> {
    find_sub_from(s, p, 0)
}

proof fn lemma_find_sub_bound(s: Seq<char>, p: Seq<char>, i: int)
    requires
        0 <= i,
    ensures
        find_sub_from(s, p, i) matches Some(j) ==> i <= j && j + p.len() <= s.len(),
    decreases s.len() + 1 - i,
{
    if i + p.len() <= s.len() && s.subrange(i, i + p.len()) != p {
        lemma_find_sub_bound(s, p, i + 1);
    }
}

/// Index of the first occurrence of `p` in `s`.
pub fn find_str(s: &[char], p: &str) -> (r: Option<usize>)
    ensures
        match find_sub(s@, p@) {
            Some(i) => r == Some(i as usize),
            None => r is None,
        },
{
    let pv = chars_of(p);
    if pv.len() > s.len() {
        return None;
    }
    let limit = s.len() - pv.len();
    let mut i: usize = 0;
    loop
        invariant
            pv@ == p@,
            pv.len() <= s.len(),
            limit == s.len() - pv.len(),
            0 <= i <= limit,
            find_sub(s@, p@) == find_sub_from(s@, p@, i as int),
        decreases limit - i,
    {
        assert(s@.skip(i as int).take(p@.len() as int) =~= s@.subrange(i as int, i + p@.len()));
        if starts_with_str_at(s, i, p) {
            return Some(i);
        }
        if i == limit {
            assert(find_sub_from(s@, p@, i + 1) is None);
            return None;
        }
        i = i + 1;
    }
}

/// `package X`: the name after `package `, without trailing `;` and
/// surrounding whitespace; none when the line does not start with `package `.
pub open spec fn spec_try_parse_package(line: Seq<char>) -> Option<Seq<char>> {
    if has_prefix(line, "package "@) {
        Some(spec_trim(trim_end_char(line.skip(8), ';')))
    } else {
        None
    }
}

/// Try to parse a `package ...` declaration from a line.
pub fn try_parse_package(line: &[char]) -> (r: Option<Vec<char>>)
    ensures
        match spec_try_parse_package(line@) {
            Some(p) => r is Some && r->0@ == p,
            None => r is None,
        },
{
    if starts_with_str_at(line, 0, "package ") {
        assert(line@.skip(0) =~= line@);
        proof { reveal_strlit("package "); }
        let rest = slice_vec(line, 8, line.len());
        assert(rest@ =~= line@.skip(8));
        let t = trim_end_matches(&rest, ';');
        Some(trim(&t))
    } else {
        assert(line@.skip(0) =~= line@);
        None
    }
}

/// The keywords that start code other than a package declaration.
pub open spec fn spec_is_code_start(line: Seq<char>) -> bool {
    ||| has_prefix(line, "import "@)
    ||| has_prefix(line, "class "@)
    ||| has_prefix(line, "interface "@)
    ||| has_prefix(line, "fun "@)
    ||| has_prefix(line, "object "@)
    ||| has_prefix(line, "enum "@)
    ||| has_prefix(line, "abstract "@)
    ||| has_prefix(line, "public "@)
    ||| has_prefix(line, "private "@)
    ||| has_prefix(line, "protected "@)
    ||| has_prefix(line, "internal "@)
    ||| has_prefix(line, "open "@)
    ||| has_prefix(line, "sealed "@)
    ||| has_prefix(line, "data "@)
    ||| has_prefix(line, "typealias "@)
}

/// Check if a line starts actual code (not a package declaration).
pub fn is_code_start(line: &[char]) -> (r: bool)
    ensures
        r == spec_is_code_start(line@),
{
    assert(line@.skip(0) =~= line@);
    starts_with_str_at(line, 0, "import ")
        || starts_with_str_at(line, 0, "class ")
        || starts_with_str_at(line, 0, "interface ")
        || starts_with_str_at(line, 0, "fun ")
        || starts_with_str_at(line, 0, "object ")
        || starts_with_str_at(line, 0, "enum ")
        || starts_with_str_at(line, 0, "abstract ")
        || starts_with_str_at(line, 0, "public ")
        || starts_with_str_at(line, 0, "private ")
        || starts_with_str_at(line, 0, "protected ")
        || starts_with_str_at(line, 0, "internal ")
        || starts_with_str_at(line, 0, "open ")
        || starts_with_str_at(line, 0, "sealed ")
        || starts_with_str_at(line, 0, "data ")
        || starts_with_str_at(line, 0, "typealias ")
}

/// What one line of a source file tells the package search.
pub enum LineOutcome {
    /// The search ends with this package name (empty: there is none).
    Found(Seq<char>),
    /// Go on with the next line, inside a block comment or not.
    Continue(bool),
}

/// What follows a closed block comment on its line: nothing (go on), a
/// package declaration, code (no package), or anything else (go on).
pub open spec fn after_comment(rest_raw: Seq<char>) -> LineOutcome {
    let rest = spec_trim(rest_raw);
    if rest.len() == 0 {
        LineOutcome::Continue(false)
    } else if spec_try_parse_package(rest) is Some {
        LineOutcome::Found(spec_try_parse_package(rest)->0)
    } else if spec_is_code_start(rest) {
        LineOutcome::Found(Seq::empty())
    } else {
        LineOutcome::Continue(false)
    }
}

/// One step of the package search on a trimmed line.  Inside a block
/// comment only its end matters; a line opening a block comment is read
/// after the comment when it closes there; blank lines, line comments and
/// annotations are skipped; a package declaration ends the search with its
/// name, other code ends it with none.
pub open spec fn package_step(line: Seq<char>, in_block: bool) -> LineOutcome {
    if in_block {
        match find_sub(line, "*/"@) {
            Some(pos) => after_comment(line.skip(pos + 2)),
            None => LineOutcome::Continue(true),
        }
    } else if has_prefix(line, "/*"@) {
        let after = line.skip(2);
        match find_sub(after, "*/"@) {
            Some(pos) => after_comment(after.skip(pos + 2)),
            None => LineOutcome::Continue(true),
        }
    } else if line.len() == 0 || has_prefix(line, "//"@) || has_prefix(line, "@"@) {
        LineOutcome::Continue(false)
    } else if spec_try_parse_package(line) is Some {
        LineOutcome::Found(spec_try_parse_package(line)->0)
    } else if spec_is_code_start(line) {
        LineOutcome::Found(Seq::empty())
    } else {
        LineOutcome::Continue(false)
    }
}

/// The line of `text` that starts at `start` (up to the next `\n`), and
/// where the following line starts.
pub open spec fn line_at(text: Seq<char>, start: int) -> (Seq<char>, int) {
    match first_index_of(text.skip(start), '\n') {
        Some(i) => (text.subrange(start, start + i), start + i + 1),
        None => (text.skip(start), text.len() as int),
    }
}

/// The package search over the lines of `text` from position `start`.
pub open spec fn package_scan(text: Seq<char>, start: int, in_block: bool) -> Seq<char>
    decreases text.len() - start,
{
    if start < 0 || start >= text.len() {
        Seq::empty()
    } else {
        let (raw, next) = line_at(text, start);
        if next <= start || next > text.len() {
            Seq::empty()
        } else {
            match package_step(spec_trim(raw), in_block) {
                LineOutcome::Found(p) => p,
                LineOutcome::Continue(b) => package_scan(text, next, b),
            }
        }
    }
}

/// The text of source file content: UTF-8 (lossy), without a leading BOM.
pub open spec fn source_text(content: Seq<u8>) -> Seq<char> {
    if content.len() >= 3 && content[0] == 0xEF && content[1] == 0xBB && content[2] == 0xBF {
        utf8_lossy(content.skip(3))
    } else {
        utf8_lossy(content)
    }
}

/// The package declared in source file content, empty when none.
pub open spec fn spec_package_declaration(content: Seq<u8>) -> Seq<char> {
    package_scan(source_text(content), 0, false)
}

fn after_comment_exec(rest_raw: &[char]) -> (r: Result<Vec<char>, bool>)
    ensures
        match after_comment(rest_raw@) {
            LineOutcome::Found(p) => r matches Ok(v) && v@ == p,
            LineOutcome::Continue(b) => r == Err::<Vec<char>, bool>(b),
        },
{
    let rest = trim(rest_raw);
    if rest.len() == 0 {
        return Err(false);
    }
    match try_parse_package(&rest) {
        Some(p) => Ok(p),
        None => if is_code_start(&rest) { Ok(Vec::new()) } else { Err(false) },
    }
}

fn package_step_exec(line: &[char], in_block: bool) -> (r: Result<Vec<char>, bool>)
    ensures
        match package_step(line@, in_block) {
            LineOutcome::Found(p) => r matches Ok(v) && v@ == p,
            LineOutcome::Continue(b) => r == Err::<Vec<char>, bool>(b),
        },
{
    assert(line@.skip(0) =~= line@);
    if in_block {
        match find_str(line, "*/") {
            Some(pos) => {
                proof { lemma_find_sub_bound(line@, "*/"@, 0); reveal_strlit("*/"); }
                let n = line.len();
                assert(pos + 2 <= n);
                let rest = slice_vec(line, pos + 2, n);
                assert(rest@ =~= line@.skip(pos + 2));
                after_comment_exec(&rest)
            },
            None => Err(true),
        }
    } else if starts_with_str_at(line, 0, "/*") {
        proof { reveal_strlit("/*"); }
        let after = slice_vec(line, 2, line.len());
        assert(after@ =~= line@.skip(2));
        match find_str(&after, "*/") {
            Some(pos) => {
                proof { lemma_find_sub_bound(after@, "*/"@, 0); reveal_strlit("*/"); }
                assert(pos + 2 <= after@.len());
                let rest = slice_vec(&after, pos + 2, after.len());
                assert(rest@ =~= after@.skip(pos + 2));
                after_comment_exec(&rest)
            },
            None => Err(true),
        }
    } else if line.len() == 0 || starts_with_str_at(line, 0, "//") || starts_with_str_at(line, 0, "@") {
        Err(false)
    } else {
        match try_parse_package(line) {
            Some(p) => Ok(p),
            None => if is_code_start(line) { Ok(Vec::new()) } else { Err(false) },
        }
    }
}

/// Extract a package declaration from source file content.
///
/// Handles block comments, line comments, `@file:` annotations, and BOM.
/// Returns an empty string if no package declaration is found.
pub fn extract_package_declaration(content: &[u8]) -> (r: String)
    ensures
        r@ == spec_package_declaration(content@),
{
    let decoded = if content.len() >= 3 && content[0] == 0xEF && content[1] == 0xBB && content[2] == 0xBF {
        let body = slice_vec(content, 3, content.len());
        assert(body@ =~= content@.skip(3));
        decode_utf8_lossy(&body)
    } else {
        decode_utf8_lossy(content)
    };
    let text = chars_of(decoded.as_str());
    let ghost t = text@;
    let mut start: usize = 0;
    let mut in_block = false;
    while start < text.len()
        invariant
            t == text@,
            t == source_text(content@),
            0 <= start <= text.len(),
            package_scan(t, 0, false) == package_scan(t, start as int, in_block),
        decreases text.len() - start,
    {
        proof {
            crate::text::lemma_first_index_props(t.skip(start as int), '\n');
        }
        let (end, next) = match find_char_from(&text, start, '\n') {
            Some(j) => (j, j + 1),
            None => (text.len(), text.len()),
        };
        let raw = slice_vec(&text, start, end);
        assert(raw@ =~= line_at(t, start as int).0);
        assert(next == line_at(t, start as int).1);
        let line = trim(&raw);
        match package_step_exec(&line, in_block) {
            Ok(p) => return string_of(&p),
            Err(b) => {
                in_block = b;
            },
        }
        start = next;
    }
    String::new()
}

/// Whether a name has a recognized source extension.
pub open spec fn spec_is_source_file(name: Seq<char>) -> bool {
    has_suffix(name, ".java"@) || has_suffix(name, ".kt"@) || has_suffix(name, ".scala"@)
        || has_suffix(name, ".groovy"@) || has_suffix(name, ".clj"@)
}

/// Check if a file name has a recognized source extension.
pub fn is_source_file(name: &str) -> (r: bool)
    ensures
        r == spec_is_source_file(name@),
{
    let v = chars_of(name);
    ends_with_str(&v, ".java") || ends_with_str(&v, ".kt") || ends_with_str(&v, ".scala")
        || ends_with_str(&v, ".groovy") || ends_with_str(&v, ".clj")
}

/// The language of a source file by its extension; none for other files.
pub open spec fn spec_language_from_extension(name: Seq<char>) -> Option<SourceLanguage> {
    if has_suffix(name, ".kt"@) { Some(SourceLanguage::Kotlin) }
    else if has_suffix(name, ".java"@) { Some(SourceLanguage::Java) }
    else if has_suffix(name, ".scala"@) { Some(SourceLanguage::Scala) }
    else if has_suffix(name, ".groovy"@) { Some(SourceLanguage::Groovy) }
    else if has_suffix(name, ".clj"@) { Some(SourceLanguage::Clojure) }
    else { None }
}

/// Determine the source language from a file extension.
pub fn language_from_extension(name: &str) -> (r: Option<SourceLanguage>)
    ensures
        r == spec_language_from_extension(name@),
{
    let v = chars_of(name);
    if ends_with_str(&v, ".kt") { Some(SourceLanguage::Kotlin) }
    else if ends_with_str(&v, ".java") { Some(SourceLanguage::Java) }
    else if ends_with_str(&v, ".scala") { Some(SourceLanguage::Scala) }
    else if ends_with_str(&v, ".groovy") { Some(SourceLanguage::Groovy) }
    else if ends_with_str(&v, ".clj") { Some(SourceLanguage::Clojure) }
    else { None }
}

/// A file gets a language exactly when it has a source extension.
pub proof fn law_language_iff_source_file(name: Seq<char>)
    ensures
        spec_language_from_extension(name) is Some <==> spec_is_source_file(name),
{
}

/// The file extension of a language's source files: `.java`, `.kt`,
/// `.scala`, `.groovy`, `.clj` (none for an unknown language).
pub open spec fn source_extension(l: SourceLanguage) -> Seq<char> {
    match l {
        SourceLanguage::Java => ".java"@,
        SourceLanguage::Kotlin => ".kt"@,
        SourceLanguage::Scala => ".scala"@,
        SourceLanguage::Groovy => ".groovy"@,
        SourceLanguage::Clojure => ".clj"@,
        SourceLanguage::Unknown => Seq::empty(),
    }
}

/// Whether `p` is a suffix of `stem + e`'s tail of the same length as `p`,
/// compared character by character from the end.
proof fn lemma_suffix_of_extended(stem: Seq<char>, e: Seq<char>, p: Seq<char>)
    requires
        p.len() <= e.len(),
    ensures
        has_suffix(stem + e, p) == has_suffix(e, p),
{
    let s = stem + e;
    assert(s.skip(s.len() - p.len()) =~= e.skip(e.len() - p.len()));
}

proof fn lemma_longer_suffix_of_extended(stem: Seq<char>, e: Seq<char>, p: Seq<char>)
    requires
        p.len() > e.len(),
        p.skip(p.len() - e.len()) != e,
    ensures
        !has_suffix(stem + e, p),
{
    let s = stem + e;
    if has_suffix(s, p) {
        assert(s.skip(s.len() - p.len()).skip(p.len() - e.len()) =~= e);
    }
}

/// A file gets the language whose extension it has: every file named with
/// a language's source extension gets that language, and every language a
/// file gets is the one whose extension ends its name.
pub proof fn law_language_matches_extension(stem: Seq<char>, name: Seq<char>, l: SourceLanguage)
    ensures
        l != SourceLanguage::Unknown ==> spec_language_from_extension(stem + source_extension(l)) == Some(l),
        spec_language_from_extension(name) == Some(l) ==> has_suffix(name, source_extension(l)),
{
    reveal_strlit(".kt");
    reveal_strlit(".java");
    reveal_strlit(".scala");
    reveal_strlit(".groovy");
    reveal_strlit(".clj");
    let e = source_extension(l);
    if l != SourceLanguage::Unknown {
        let n = stem + e;
        match l {
            SourceLanguage::Kotlin => {
                lemma_suffix_of_extended(stem, e, ".kt"@);
                assert(has_suffix(e, ".kt"@)) by { assert(e.skip(0) =~= e); }
            },
            SourceLanguage::Java => {
                lemma_suffix_of_extended(stem, e, ".kt"@);
                lemma_suffix_of_extended(stem, e, ".java"@);
                assert(e.skip(e.len() - 3) != ".kt"@) by { assert(e.skip(e.len() - 3)[1] != ".kt"@[1]); }
                assert(has_suffix(e, ".java"@)) by { assert(e.skip(0) =~= e); }
            },
            SourceLanguage::Scala => {
                lemma_suffix_of_extended(stem, e, ".kt"@);
                lemma_suffix_of_extended(stem, e, ".java"@);
                lemma_suffix_of_extended(stem, e, ".scala"@);
                assert(e.skip(e.len() - 3) != ".kt"@) by { assert(e.skip(e.len() - 3)[1] != ".kt"@[1]); }
                assert(e.skip(e.len() - 5) != ".java"@) by { assert(e.skip(e.len() - 5)[1] != ".java"@[1]); }
                assert(has_suffix(e, ".scala"@)) by { assert(e.skip(0) =~= e); }
            },
            SourceLanguage::Groovy => {
                lemma_suffix_of_extended(stem, e, ".kt"@);
                lemma_suffix_of_extended(stem, e, ".java"@);
                lemma_suffix_of_extended(stem, e, ".scala"@);
                lemma_suffix_of_extended(stem, e, ".groovy"@);
                assert(e.skip(e.len() - 3) != ".kt"@) by { assert(e.skip(e.len() - 3)[1] != ".kt"@[1]); }
                assert(e.skip(e.len() - 5) != ".java"@) by { assert(e.skip(e.len() - 5)[1] != ".java"@[1]); }
                assert(e.skip(e.len() - 6) != ".scala"@) by { assert(e.skip(e.len() - 6)[0] != ".scala"@[0]); }
                assert(has_suffix(e, ".groovy"@)) by { assert(e.skip(0) =~= e); }
            },
            SourceLanguage::Clojure => {
                lemma_suffix_of_extended(stem, e, ".kt"@);
                lemma_suffix_of_extended(stem, e, ".clj"@);
                assert(e.skip(e.len() - 3) != ".kt"@) by { assert(e.skip(e.len() - 3)[1] != ".kt"@[1]); }
                assert(".java"@.skip(1) != e) by { assert(".java"@.skip(1)[0] != e[0]); }
                assert(".scala"@.skip(2) != e) by { assert(".scala"@.skip(2)[0] != e[0]); }
                assert(".groovy"@.skip(3) != e) by { assert(".groovy"@.skip(3)[0] != e[0]); }
                lemma_longer_suffix_of_extended(stem, e, ".java"@);
                lemma_longer_suffix_of_extended(stem, e, ".scala"@);
                lemma_longer_suffix_of_extended(stem, e, ".groovy"@);
                assert(has_suffix(e, ".clj"@)) by { assert(e.skip(0) =~= e); }
            },
            SourceLanguage::Unknown => {},
        }
    }
}

/// The language a source JAR's file gets is the one a SourceFile attribute
/// of that name gives (and a file without a source extension is of an
/// unknown language there).
pub proof fn law_source_table_and_classfile_agree(name: Seq<char>)
    ensures
        crate::classfile::spec_language_of_file(name) == match spec_language_from_extension(name) {
            Some(l) => l,
            None => SourceLanguage::Unknown,
        },
{
}

/// Extract the filename from a JAR entry path (the part after the last `/`).
pub fn filename_from_path(path: &str) -> (r: String)
    ensures
        r@ == after_last(path@, '/'),
{
    let v = chars_of(path);
    string_of(&after_last_char(&v, '/'))
}

/// A source file entry in a source JAR, keyed by `(package, filename)`.
#[derive(Debug, Clone)]
pub struct SourceEntry {
    /// Full path inside the JAR (e.g. `"commonMain/CoroutineScope.kt"`).
    pub path: String,
    /// Source language.
    pub language: SourceLanguage,
}

/// Source table mapping `(package, filename)` to JAR entry paths.
#[derive(Debug, Clone)]
pub struct SourceTable {
    entries: Vec<(String, String, SourceEntry)>,
}

/// The key and value of a table entry as plain values.
pub open spec fn entry_key(e: (String, String, SourceEntry)) -> (Seq<char>, Seq<char>) {
    (e.0@, e.1@)
}

/// What the source table holds after adding a source JAR entry: a file
/// without a source extension changes nothing; a new `(package, filename)`
/// pair is added; an existing one is replaced only by a `jvmMain/` path
/// when its path is not one.
pub open spec fn spec_add_source(
    table: Map<(Seq<char>, Seq<char>), (Seq<char>, SourceLanguage)>,
    name: Seq<char>,
    content: Seq<u8>,
) -> Map<(Seq<char>, Seq<char>), (Seq<char>, SourceLanguage)> {
    match spec_language_from_extension(name) {
        None => table,
        Some(lang) => {
            let key = (spec_package_declaration(content), after_last(name, '/'));
            if table.contains_key(key) {
                if !has_prefix(table[key].0, "jvmMain/"@) && has_prefix(name, "jvmMain/"@) {
                    table.insert(key, (name, lang))
                } else {
                    table
                }
            } else {
                table.insert(key, (name, lang))
            }
        },
    }
}

impl SourceTable {
    /// The table as a map from `(package, filename)` to `(path, language)`.
    pub closed spec fn view(&self) -> Map<(Seq<char>, Seq<char>), (Seq<char>, SourceLanguage)> {
        Map::new(
            |k: (Seq<char>, Seq<char>)| exists|i: int| 0 <= i < self.entries@.len() && entry_key(self.entries@[i]) == k,
            |k: (Seq<char>, Seq<char>)| {
                let e = self.entries@[choose|i: int| 0 <= i < self.entries@.len() && entry_key(self.entries@[i]) == k];
                (e.2.path@, e.2.language)
            },
        )
    }

    /// No key occurs twice.
    pub closed spec fn wf(&self) -> bool {
        forall|i: int, j: int| 0 <= i < j < self.entries@.len() ==> entry_key(self.entries@[i]) != entry_key(self.entries@[j])
    }

    /// An empty table.
    pub fn new() -> (r: Self)
        ensures
            r.wf(),
            r.view() == Map::<(Seq<char>, Seq<char>), (Seq<char>, SourceLanguage)>::empty(),
    {
        let r = SourceTable { entries: Vec::new() };
        assert(r.view() =~= Map::<(Seq<char>, Seq<char>), (Seq<char>, SourceLanguage)>::empty());
        r
    }

    fn index_of(&self, package: &str, filename: &str) -> (r: Option<usize>)
        requires
            self.wf(),
        ensures
            match r {
                Some(i) => i < self.entries@.len() && entry_key(self.entries@[i as int]) == (package@, filename@),
                None => !self.view().contains_key((package@, filename@)),
            },
    {
        let mut i: usize = 0;
        while i < self.entries.len()
            invariant
                0 <= i <= self.entries@.len(),
                forall|j: int| 0 <= j < i ==> entry_key(self.entries@[j]) != (package@, filename@),
            decreases self.entries@.len() - i,
        {
            let e = &self.entries[i];
            if crate::text::str_eq(e.0.as_str(), package) && crate::text::str_eq(e.1.as_str(), filename) {
                return Some(i);
            }
            i = i + 1;
        }
        None
    }

    /// Look up the entry of a `(package, filename)` pair.
    pub fn get(&self, package: &str, filename: &str) -> (r: Option<&SourceEntry>)
        requires
            self.wf(),
        ensures
            match r {
                Some(e) => self.view().contains_key((package@, filename@))
                    && self.view()[(package@, filename@)] == (e.path@, e.language),
                None => !self.view().contains_key((package@, filename@)),
            },
    {
        match self.index_of(package, filename) {
            Some(i) => {
                proof { self.lemma_view_at(i as int); }
                Some(&self.entries[i].2)
            },
            None => None,
        }
    }

    proof fn lemma_view_at(&self, i: int)
        requires
            self.wf(),
            0 <= i < self.entries@.len(),
        ensures
            self.view().contains_key(entry_key(self.entries@[i])),
            self.view()[entry_key(self.entries@[i])] == (self.entries@[i].2.path@, self.entries@[i].2.language),
    {
        let k = entry_key(self.entries@[i]);
        let c = choose|j: int| 0 <= j < self.entries@.len() && entry_key(self.entries@[j]) == k;
        if c != i {
            if c < i {
                assert(entry_key(self.entries@[c]) != entry_key(self.entries@[i]));
            } else {
                assert(entry_key(self.entries@[i]) != entry_key(self.entries@[c]));
            }
        }
    }

    /// Number of `(package, filename)` pairs.
    pub fn len(&self) -> (r: usize)
        requires
            self.wf(),
        ensures
            r == self.view().len(),
    {
        proof { self.lemma_len(); }
        self.entries.len()
    }

    proof fn lemma_len(&self)
        requires
            self.wf(),
        ensures
            self.view().len() == self.entries@.len(),
            self.view().dom().finite(),
    {
        let keys = self.entries@.map_values(|e: (String, String, SourceEntry)| entry_key(e));
        assert(self.view().dom() =~= keys.to_set()) by {
            assert forall|k| self.view().dom().contains(k) <==> keys.to_set().contains(k) by {
                if keys.to_set().contains(k) {
                    let i = choose|i: int| 0 <= i < keys.len() && keys[i] == k;
                    assert(entry_key(self.entries@[i]) == k);
                }
                if self.view().dom().contains(k) {
                    let i = choose|i: int| 0 <= i < self.entries@.len() && entry_key(self.entries@[i]) == k;
                    assert(keys[i] == k);
                }
            }
        }
        assert(keys.no_duplicates()) by {
            assert forall|i: int, j: int| 0 <= i < keys.len() && 0 <= j < keys.len() && i != j implies keys[i] != keys[j] by {
                if i < j {
                    assert(entry_key(self.entries@[i]) != entry_key(self.entries@[j]));
                } else {
                    assert(entry_key(self.entries@[j]) != entry_key(self.entries@[i]));
                }
            }
        }
        keys.unique_seq_to_set();
        broadcast use vstd::seq_lib::seq_to_set_is_finite;
    }

    /// Add a source JAR entry: its `(package, filename)` pair maps to its
    /// path unless the pair is taken; a `jvmMain/` path replaces a taken
    /// pair whose path is not under `jvmMain/`.  Entries without a source
    /// extension are ignored.
    pub fn add_source(&mut self, name: &str, content: &[u8])
        requires
            old(self).wf(),
        ensures
            final(self).wf(),
            final(self).view() == spec_add_source(old(self).view(), name@, content@),
    {
        let language = match language_from_extension(name) {
            Some(lang) => lang,
            None => return,
        };
        let filename = filename_from_path(name);
        let package = extract_package_declaration(content);
        let name_v = chars_of(name);
        let ghost key = (package@, filename@);
        match self.index_of(package.as_str(), filename.as_str()) {
            Some(i) => {
                proof { self.lemma_view_at(i as int); }
                let existing = chars_of(self.entries[i].2.path.as_str());
                assert(existing@.skip(0) =~= existing@);
                assert(name_v@.skip(0) =~= name_v@);
                if !starts_with_str_at(&existing, 0, "jvmMain/") && starts_with_str_at(&name_v, 0, "jvmMain/") {
                    let ghost old_entries = self.entries@;
                    let entry = SourceEntry { path: crate::kotlin_metadata::owned(name), language };
                    self.entries.set(i, (package, filename, entry));
                    proof {
                        assert forall|a: int, b: int| 0 <= a < b < self.entries@.len() implies
                            entry_key(self.entries@[a]) != entry_key(self.entries@[b]) by {
                            assert(entry_key(old_entries[a]) != entry_key(old_entries[b]));
                        }
                        assert(self.view() =~= spec_add_source(old(self).view(), name@, content@)) by {
                            self.lemma_view_at(i as int);
                            assert forall|k| #![auto] self.view().dom().contains(k) <==> spec_add_source(old(self).view(), name@, content@).dom().contains(k) by {
                                if self.view().dom().contains(k) {
                                    let j = choose|j: int| 0 <= j < self.entries@.len() && entry_key(self.entries@[j]) == k;
                                    if j != i {
                                        assert(entry_key(old_entries[j]) == k);
                                    }
                                }
                                if old(self).view().dom().contains(k) {
                                    let j = choose|j: int| 0 <= j < old_entries.len() && entry_key(old_entries[j]) == k;
                                    if j != i {
                                        assert(entry_key(self.entries@[j]) == k);
                                    }
                                }
                            }
                            assert forall|k| #![auto] self.view().dom().contains(k) implies self.view()[k] == spec_add_source(old(self).view(), name@, content@)[k] by {
                                let j = choose|j: int| 0 <= j < self.entries@.len() && entry_key(self.entries@[j]) == k;
                                self.lemma_view_at(j);
                                if j != i {
                                    old(self).lemma_view_at(j);
                                }
                            }
                        }
                    }
                }
            },
            None => {
                let ghost old_entries = self.entries@;
                let entry = SourceEntry { path: crate::kotlin_metadata::owned(name), language };
                self.entries.push((package, filename, entry));
                proof {
                    assert forall|a: int, b: int| 0 <= a < b < self.entries@.len() implies
                        entry_key(self.entries@[a]) != entry_key(self.entries@[b]) by {
                        if b < old_entries.len() {
                            assert(entry_key(old_entries[a]) != entry_key(old_entries[b]));
                        } else {
                            assert(entry_key(old_entries[a]) != key);
                        }
                    }
                    let n = old_entries.len() as int;
                    assert(self.view() =~= spec_add_source(old(self).view(), name@, content@)) by {
                        self.lemma_view_at(n);
                        assert forall|k| #![auto] self.view().dom().contains(k) <==> spec_add_source(old(self).view(), name@, content@).dom().contains(k) by {
                            if self.view().dom().contains(k) {
                                let j = choose|j: int| 0 <= j < self.entries@.len() && entry_key(self.entries@[j]) == k;
                                if j != n {
                                    assert(entry_key(old_entries[j]) == k);
                                }
                            }
                            if old(self).view().dom().contains(k) {
                                let j = choose|j: int| 0 <= j < old_entries.len() && entry_key(old_entries[j]) == k;
                                assert(entry_key(self.entries@[j]) == k);
                            }
                        }
                        assert forall|k| #![auto] self.view().dom().contains(k) implies self.view()[k] == spec_add_source(old(self).view(), name@, content@)[k] by {
                            let j = choose|j: int| 0 <= j < self.entries@.len() && entry_key(self.entries@[j]) == k;
                            self.lemma_view_at(j);
                            if j != n {
                                old(self).lemma_view_at(j);
                            }
                        }
                    }
                }
            },
        }
    }
}

/// Build a `(package, filename) → entry` table from the entries of a
/// source JAR, given as `(entry name, content)` pairs in archive order.
pub fn build_source_table(files: &Vec<(String, Vec<u8>)>) -> (r: SourceTable)
    ensures
        r.wf(),
        r.view() == source_table_of(files@, files@.len() as int),
{
    let mut table = SourceTable::new();
    let mut i: usize = 0;
    while i < files.len()
        invariant
            0 <= i <= files@.len(),
            table.wf(),
            table.view() == source_table_of(files@, i as int),
        decreases files@.len() - i,
    {
        table.add_source(files[i].0.as_str(), files[i].1.as_slice());
        i = i + 1;
    }
    table
}

/// The table built from the first `n` files.
pub open spec fn source_table_of(files: Seq<(String, Vec<u8>)>, n: int) -> Map<(Seq<char>, Seq<char>), (Seq<char>, SourceLanguage)>
    decreases n,
{
    if n <= 0 || n > files.len() {
        Map::empty()
    } else {
        spec_add_source(source_table_of(files, n - 1), files[n - 1].0@, files[n - 1].1@)
    }
}

/// Once a pair maps to a `jvmMain/` path, adding entries never changes it.
pub proof fn law_jvm_main_entry_stays(
    table: Map<(Seq<char>, Seq<char>), (Seq<char>, SourceLanguage)>,
    key: (Seq<char>, Seq<char>),
    name: Seq<char>,
    content: Seq<u8>,
)
    requires
        table.contains_key(key),
        has_prefix(table[key].0, "jvmMain/"@),
    ensures
        spec_add_source(table, name, content).contains_key(key),
        spec_add_source(table, name, content)[key] == table[key],
{
}

/// A `jvmMain/` source file takes over its pair unless a `jvmMain/` path
/// already holds it.
pub proof fn law_jvm_main_entry_wins(
    table: Map<(Seq<char>, Seq<char>), (Seq<char>, SourceLanguage)>,
    name: Seq<char>,
    content: Seq<u8>,
)
    requires
        spec_language_from_extension(name) is Some,
        has_prefix(name, "jvmMain/"@),
    ensures
        ({
            let key = (spec_package_declaration(content), after_last(name, '/'));
            let after = spec_add_source(table, name, content);
            &&& after.contains_key(key)
            &&& has_prefix(after[key].0, "jvmMain/"@)
            &&& (table.contains_key(key) && has_prefix(table[key].0, "jvmMain/"@) ==> after[key] == table[key])
        }),
{
}

/// Entries other than the added one keep their paths.
pub proof fn law_other_entries_unchanged(
    table: Map<(Seq<char>, Seq<char>), (Seq<char>, SourceLanguage)>,
    key: (Seq<char>, Seq<char>),
    name: Seq<char>,
    content: Seq<u8>,
)
    requires
        key != (spec_package_declaration(content), after_last(name, '/')),
    ensures
        spec_add_source(table, name, content).contains_key(key) == table.contains_key(key),
        table.contains_key(key) ==> spec_add_source(table, name, content)[key] == table[key],
{
}

/// The index of the first part that starts with an uppercase character, at
/// or after `i`; the last part when none does.
pub open spec fn class_part_from(parts: Seq<Seq<char>>, i: int) -> int
    decreases parts.len() - i,
{
    if i < 0 || i >= parts.len() {
        parts.len() - 1
    } else if parts[i].len() > 0 && crate::classfile::char_is_uppercase(parts[i][0]) {
        i
    } else {
        class_part_from(parts, i + 1)
    }
}

/// The source path stem of a qualified name: the parts before the first
/// capitalised part joined with `/`, then `/` and that part (the outer
/// class); just the part when nothing comes before it.
pub open spec fn spec_fqn_to_source_stem(fqn: Seq<char>) -> Seq<char> {
    let parts = crate::text::split_on(fqn, '.');
    let k = class_part_from(parts, 0);
    let package_path = join(parts.take(k), "/"@);
    if package_path.len() == 0 { parts[k] } else { package_path + "/"@ + parts[k] }
}

proof fn lemma_class_part_bound(parts: Seq<Seq<char>>, i: int)
    requires
        parts.len() >= 1,
        0 <= i,
    ensures
        0 <= class_part_from(parts, i) < parts.len(),
    decreases parts.len() - i,
{
    if i < parts.len() && !(parts[i].len() > 0 && crate::classfile::char_is_uppercase(parts[i][0])) {
        lemma_class_part_bound(parts, i + 1);
    }
}

fn first_class_part(parts: &Vec<Vec<char>>) -> (r: usize)
    requires
        parts@.len() >= 1,
    ensures
        r == class_part_from(parts@.map_values(|p: Vec<char>| p@), 0),
{
    let ghost views = parts@.map_values(|p: Vec<char>| p@);
    let mut i: usize = 0;
    while i < parts.len()
        invariant
            views == parts@.map_values(|p: Vec<char>| p@),
            0 <= i <= parts@.len(),
            class_part_from(views, 0) == class_part_from(views, i as int),
        decreases parts@.len() - i,
    {
        assert(views[i as int] == parts@[i as int]@);
        if parts[i].len() > 0 && crate::classfile::is_upper_char(parts[i][0]) {
            return i;
        }
        i = i + 1;
    }
    parts.len() - 1
}

/// Convert a fully qualified name to a source path stem (without extension).
///
/// For inner classes, returns the outer class path:
/// `com.google.common.collect.ImmutableList.Builder` gives
/// `com/google/common/collect/ImmutableList`.
pub fn fqn_to_source_stem(fqn: &str) -> (r: String)
    ensures
        r@ == spec_fqn_to_source_stem(fqn@),
{
    let v = chars_of(fqn);
    let parts = crate::text::split_chars(&v, '.');
    let ghost views = parts@.map_values(|p: Vec<char>| p@);
    proof { lemma_class_part_bound(views, 0); }
    let class_start = first_class_part(&parts);
    let mut prefix: Vec<Vec<char>> = Vec::new();
    let mut j: usize = 0;
    while j < class_start
        invariant
            views == parts@.map_values(|p: Vec<char>| p@),
            class_start < parts@.len(),
            0 <= j <= class_start,
            prefix@.map_values(|p: Vec<char>| p@) =~= views.take(j as int),
        decreases class_start - j,
    {
        assert(views[j as int] == parts@[j as int]@);
        let ghost before = prefix@.map_values(|p: Vec<char>| p@);
        let piece = crate::text::slice_vec(parts[j].as_slice(), 0, parts[j].len());
        assert(piece@ =~= views[j as int]);
        prefix.push(piece);
        assert(prefix@.map_values(|p: Vec<char>| p@) =~= before.push(views[j as int]));
        assert(views.take(j + 1) =~= views.take(j as int).push(views[j as int]));
        j = j + 1;
    }
    let package_path = crate::text::join_vecs(&prefix, "/");
    let mut out: Vec<char> = Vec::new();
    if package_path.len() > 0 {
        push_seq(&mut out, &package_path);
        crate::text::push_str(&mut out, "/");
    }
    push_seq(&mut out, parts[class_start].as_slice());
    assert(views[class_start as int] == parts@[class_start as int]@);
    string_of(&out)
}

/// Whether a JAR entry is a classfile whose symbols are extracted: a
/// `.class` name outside `META-INF/`.
pub fn is_class_entry(name: &str) -> (r: bool)
    ensures
        r == (has_suffix(name@, ".class"@) && !has_prefix(name@, "META-INF/"@)),
{
    let v = chars_of(name);
    assert(v@.skip(0) =~= v@);
    ends_with_str(&v, ".class") && !starts_with_str_at(&v, 0, "META-INF/")
}
} // verus!
