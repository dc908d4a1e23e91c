//! Search decisions that do not touch the index: the search mode of a
//! query, the regular expressions built from it, the dependency and type
//! filters, and how a listing (no query) is ordered and paged.
use vstd::prelude::*;
use crate::cli::page_bounds;
use crate::glob::{glob_match, matches_glob_pattern};
use crate::jar::{char_is_whitespace, is_whitespace};
use crate::index_doc::{IndexedFields, doc_to_search_result, kind_from_name, kind_of_name, result_of};
use crate::model::{AccessLevel, SearchResult, SymbolKind, access_level_name, kind_name};
use crate::text::{chars_of, seq_eq, split_chars, split_on, str_eq, string_of};

verus! {

/// Text order: character by character by code point, a proper prefix
/// first. (On `String` this is the order of `Ord`, which compares the
/// UTF-8 bytes; UTF-8 keeps code point order.)
pub open spec fn text_lt(a: Seq<char>, b: Seq<char>) -> bool
    decreases a.len(),
{
    if a.len() == 0 {
        b.len() > 0
    } else if b.len() == 0 {
        false
    } else if (a[0] as u32) < (b[0] as u32) {
        true
    } else if a[0] == b[0] {
        text_lt(a.drop_first(), b.drop_first())
    } else {
        false
    }
}

/// No text is before itself.
pub proof fn lemma_text_lt_irreflexive(a: Seq<char>)
    ensures
        !text_lt(a, a),
    decreases a.len(),
{
    if a.len() > 0 {
        lemma_text_lt_irreflexive(a.drop_first());
    }
}

/// Of two different texts, one is before the other, and not both.
pub proof fn lemma_text_lt_total(a: Seq<char>, b: Seq<char>)
    ensures
        a != b ==> (text_lt(a, b) || text_lt(b, a)),
        !(text_lt(a, b) && text_lt(b, a)),
    decreases a.len(),
{
    if a.len() > 0 && b.len() > 0 {
        lemma_text_lt_total(a.drop_first(), b.drop_first());
        if a[0] == b[0] && a != b {
            assert(a.drop_first() != b.drop_first()) by {
                if a.drop_first() == b.drop_first() {
                    assert(a =~= seq![a[0]] + a.drop_first());
                    assert(b =~= seq![b[0]] + b.drop_first());
                }
            }
        }
        if a[0] != b[0] {
            vstd::utf8::char_u32_cast(a[0], a[0] as u32);
            vstd::utf8::char_u32_cast(b[0], b[0] as u32);
            assert((a[0] as u32) != (b[0] as u32));
        }
    } else if a.len() == 0 && b.len() == 0 {
        assert(a =~= b);
    }
}

/// The text order is transitive.
pub proof fn lemma_text_lt_transitive(a: Seq<char>, b: Seq<char>, c: Seq<char>)
    requires
        text_lt(a, b),
        text_lt(b, c),
    ensures
        text_lt(a, c),
    decreases a.len(),
{
    if a.len() > 0 && b.len() > 0 && c.len() > 0 {
        if a[0] == b[0] && b[0] == c[0] {
            lemma_text_lt_transitive(a.drop_first(), b.drop_first(), c.drop_first());
        }
    }
}

/// Whether `a` comes before `b` in text order.
pub fn text_less(a: &str, b: &str) -> (r: bool)
    ensures
        r == text_lt(a@, b@),
{
    let av = chars_of(a);
    let bv = chars_of(b);
    let mut i: usize = 0;
    assert(a@.skip(0) =~= a@ && b@.skip(0) =~= b@);
    while i < av.len() && i < bv.len()
        invariant
            av@ == a@,
            bv@ == b@,
            0 <= i <= av@.len(),
            i <= bv@.len(),
            forall|k: int| 0 <= k < i ==> av@[k] == bv@[k],
            text_lt(a@, b@) == text_lt(a@.skip(i as int), b@.skip(i as int)),
        decreases av@.len() - i,
    {
        let x = av[i];
        let y = bv[i];
        let ghost sa = a@.skip(i as int);
        let ghost sb = b@.skip(i as int);
        assert(sa[0] == x && sb[0] == y);
        if (x as u32) < (y as u32) {
            return true;
        }
        if x != y {
            return false;
        }
        assert(sa.drop_first() =~= a@.skip(i + 1));
        assert(sb.drop_first() =~= b@.skip(i + 1));
        i = i + 1;
    }
    assert(a@.skip(i as int).len() == av@.len() - i);
    assert(b@.skip(i as int).len() == bv@.len() - i);
    i == av.len() && i < bv.len()
}

/// The place of a kind in a listing: classes, then methods, then fields.
pub open spec fn kind_rank(k: SymbolKind) -> int {
    match k {
        SymbolKind::Class => 0,
        SymbolKind::Method => 1,
        SymbolKind::Field => 2,
    }
}

/// Whether stored symbol `a` may stand before `b` in a listing: a lower
/// kind rank, or the same rank and an FQN not after that of `b`.
pub open spec fn listed_before(a: IndexedFields, b: IndexedFields) -> bool {
    let ra = kind_rank(kind_of_name(a.symbol_kind@));
    let rb = kind_rank(kind_of_name(b.symbol_kind@));
    ra < rb || (ra == rb && !text_lt(b.fqn@, a.fqn@))
}

/// `x` inserted into the ordered indices `s` after every index whose
/// document may stand before it (a stable insertion).
pub open spec fn insert_listed(docs: Seq<IndexedFields>, s: Seq<usize>, x: usize) -> Seq<usize>
    decreases s.len(),
{
    if s.len() == 0 {
        seq![x]
    } else if listed_before(docs[s.last() as int], docs[x as int]) {
        s.push(x)
    } else {
        insert_listed(docs, s.drop_last(), x).push(s.last())
    }
}

/// The indices `ks` ordered by kind then FQN, equal keys in their first order.
pub open spec fn listing_order(docs: Seq<IndexedFields>, ks: Seq<usize>) -> Seq<usize>
    decreases ks.len(),
{
    if ks.len() == 0 {
        ks
    } else {
        insert_listed(docs, listing_order(docs, ks.drop_last()), ks.last())
    }
}

/// Whether a stored symbol is on the classpath `cp`: one of the
/// comma-separated names of its (non-empty) classpaths field.
pub open spec fn on_classpath(f: IndexedFields, cp: Seq<char>) -> bool {
    f.classpaths@.len() > 0 && split_on(f.classpaths@, ',').contains(cp)
}

/// The indices below `n` of the documents that a classpath filter keeps,
/// in increasing order (all of them without a filter).
pub open spec fn kept_indices(docs: Seq<IndexedFields>, cp: Option<Seq<char>>, n: int) -> Seq<usize>
    decreases n,
{
    if n <= 0 {
        Seq::empty()
    } else {
        let rest = kept_indices(docs, cp, n - 1);
        let keep = match cp { Some(c) => on_classpath(docs[n - 1], c), None => true };
        if keep { rest.push((n - 1) as usize) } else { rest }
    }
}

/// The ordered indices of a listing.
pub open spec fn listing_indices(docs: Seq<IndexedFields>, cp: Option<Seq<char>>) -> Seq<usize> {
    listing_order(docs, kept_indices(docs, cp, docs.len() as int))
}

/// The rank of a stored kind name.
fn rank_of(k: SymbolKind) -> (r: u8)
    ensures
        r as int == kind_rank(k),
{
    match k {
        SymbolKind::Class => 0,
        SymbolKind::Method => 1,
        SymbolKind::Field => 2,
    }
}

fn listed_before_exec(a: &IndexedFields, b: &IndexedFields) -> (r: bool)
    ensures
        r == listed_before(*a, *b),
{
    let ra = rank_of(kind_from_name(a.symbol_kind.as_str()));
    let rb = rank_of(kind_from_name(b.symbol_kind.as_str()));
    ra < rb || (ra == rb && !text_less(b.fqn.as_str(), a.fqn.as_str()))
}

/// Whether a stored symbol is on the classpath `cp`.
pub fn is_on_classpath(f: &IndexedFields, cp: &str) -> (r: bool)
    ensures
        r == on_classpath(*f, cp@),
{
    let v = chars_of(f.classpaths.as_str());
    if v.len() == 0 {
        return false;
    }
    let want = chars_of(cp);
    let parts = split_chars(&v, ',');
    let ghost pv = parts@.map_values(|p: Vec<char>| p@);
    let mut i: usize = 0;
    while i < parts.len()
        invariant
            pv == parts@.map_values(|p: Vec<char>| p@),
            pv == split_on(f.classpaths@, ','),
            f.classpaths@.len() > 0,
            want@ == cp@,
            0 <= i <= parts@.len(),
            forall|k: int| 0 <= k < i ==> pv[k] != cp@,
        decreases parts@.len() - i,
    {
        if seq_eq(parts[i].as_slice(), want.as_slice()) {
            assert(pv[i as int] == cp@);
            assert(pv.contains(cp@));
            return true;
        }
        i = i + 1;
    }
    assert(!pv.contains(cp@));
    false
}

fn insert_in_order(docs: &Vec<IndexedFields>, order: &mut Vec<usize>, x: usize)
    requires
        x < docs@.len(),
        forall|k: int| 0 <= k < old(order)@.len() ==> old(order)@[k] < docs@.len(),
    ensures
        final(order)@ == insert_listed(docs@, old(order)@, x),
        forall|k: int| 0 <= k < final(order)@.len() ==> final(order)@[k] < docs@.len(),
{
    let ghost s = order@;
    let mut j: usize = order.len();
    assert(s.take(j as int) =~= s);
    assert(s.skip(j as int) =~= Seq::<usize>::empty());
    while j > 0 && !listed_before_exec(&docs[order[j - 1]], &docs[x])
        invariant
            order@ == s,
            0 <= j <= s.len(),
            x < docs@.len(),
            forall|k: int| 0 <= k < s.len() ==> s[k] < docs@.len(),
            insert_listed(docs@, s, x) == insert_listed(docs@, s.take(j as int), x) + s.skip(j as int),
        decreases j,
    {
        let ghost t = s.take(j as int);
        assert(t.drop_last() =~= s.take(j - 1));
        assert(t.last() == s[j - 1]);
        assert(seq![s[j - 1]] + s.skip(j as int) =~= s.skip(j - 1));
        assert(insert_listed(docs@, t, x) == insert_listed(docs@, s.take(j - 1), x).push(s[j - 1]));
        assert(insert_listed(docs@, s.take(j - 1), x).push(s[j - 1]) + s.skip(j as int)
            =~= insert_listed(docs@, s.take(j - 1), x) + s.skip(j - 1));
        j = j - 1;
    }
    if j > 0 {
        assert(s.take(j as int).drop_last() =~= s.take(j - 1));
    }
    assert(insert_listed(docs@, s.take(j as int), x) =~= s.take(j as int).push(x));
    order.insert(j, x);
    assert(order@ =~= s.take(j as int).push(x) + s.skip(j as int));
}

/// A page of a listing (no text query), given every document that matches
/// the listing's filters: those kept by the classpath filter, ordered by
/// kind (classes, methods, fields) then FQN, skipping `offset` and taking
/// at most `limit`, each read back as a search result; with the number of
/// documents kept.  The order is over all matches, so the pages at
/// consecutive offsets join up.
pub fn listing_page(
    docs: &Vec<IndexedFields>,
    classpath: Option<&str>,
    offset: usize,
    limit: usize,
) -> (r: (Vec<SearchResult>, usize))
    ensures
        ({
            let cp = match classpath { Some(c) => Some(c@), None => None };
            let li = listing_indices(docs@, cp);
            let (start, end) = page_bounds(li.len() as int, offset as int, limit as int);
            &&& r.0@.len() == end - start
            &&& forall|i: int| 0 <= i < r.0@.len() ==> result_of(#[trigger] r.0@[i], docs@[li[start + i] as int])
            &&& r.1 == li.len()
        }),
{
    let ghost cp = match classpath { Some(c) => Some(c@), None => None };
    let mut kept: Vec<usize> = Vec::new();
    let mut i: usize = 0;
    while i < docs.len()
        invariant
            0 <= i <= docs@.len(),
            cp == (match classpath { Some(c) => Some(c@), None => None::<Seq<char>> }),
            kept@ == kept_indices(docs@, cp, i as int),
            forall|k: int| 0 <= k < kept@.len() ==> kept@[k] < i,
        decreases docs@.len() - i,
    {
        let keep = match classpath { Some(c) => is_on_classpath(&docs[i], c), None => true };
        if keep {
            kept.push(i);
        }
        i = i + 1;
    }
    let mut order: Vec<usize> = Vec::new();
    let mut k: usize = 0;
    while k < kept.len()
        invariant
            0 <= k <= kept@.len(),
            forall|q: int| 0 <= q < kept@.len() ==> kept@[q] < docs@.len(),
            forall|q: int| 0 <= q < order@.len() ==> order@[q] < docs@.len(),
            order@ == listing_order(docs@, kept@.take(k as int)),
        decreases kept@.len() - k,
    {
        assert(kept@.take(k + 1).drop_last() =~= kept@.take(k as int));
        insert_in_order(docs, &mut order, kept[k]);
        k = k + 1;
    }
    assert(kept@.take(kept@.len() as int) =~= kept@);
    let (start, end) = crate::cli::page_range(order.len(), offset, limit);
    let mut out: Vec<SearchResult> = Vec::new();
    let mut j: usize = start;
    while j < end
        invariant
            start <= j <= end <= order@.len(),
            forall|q: int| 0 <= q < order@.len() ==> order@[q] < docs@.len(),
            out@.len() == j - start,
            forall|q: int| 0 <= q < out@.len() ==> result_of(#[trigger] out@[q], docs@[order@[start + q] as int]),
        decreases end - j,
    {
        let r = doc_to_search_result(&docs[order[j]]);
        out.push(r);
        j = j + 1;
    }
    proof { lemma_listing_order_len(docs@, kept@); }
    let total = kept.len();
    (out, total)
}

/// Inserting into a listing adds one document.
proof fn lemma_insert_listed_len(docs: Seq<IndexedFields>, s: Seq<usize>, x: usize)
    ensures
        insert_listed(docs, s, x).len() == s.len() + 1,
    decreases s.len(),
{
    if s.len() > 0 {
        lemma_insert_listed_len(docs, s.drop_last(), x);
    }
}

/// The part of an ordered listing that the page at `offset` with at most
/// `limit` entries shows.
pub open spec fn page_of(s: Seq<usize>, offset: int, limit: int) -> Seq<usize> {
    let (start, end) = page_bounds(s.len() as int, offset, limit);
    s.subrange(start, end)
}

/// The pages of a listing join up: the page at an offset followed by the
/// page at the offset its note names (the offset plus the page's length)
/// is the page of twice the length, all cut from the one order over every
/// matching document.
pub proof fn law_listing_pages_join(docs: Seq<IndexedFields>, cp: Option<Seq<char>>, offset: int, limit: int)
    requires
        0 <= offset,
        0 <= limit,
    ensures
        ({
            let li = listing_indices(docs, cp);
            let first = page_of(li, offset, limit);
            first + page_of(li, offset + first.len(), limit) == page_of(li, offset, 2 * limit)
        }),
{
    let li = listing_indices(docs, cp);
    let first = page_of(li, offset, limit);
    assert(first + page_of(li, offset + first.len(), limit) =~= page_of(li, offset, 2 * limit));
}

/// Ordering keeps the number of documents.
proof fn lemma_listing_order_len(docs: Seq<IndexedFields>, ks: Seq<usize>)
    ensures
        listing_order(docs, ks).len() == ks.len(),
    decreases ks.len(),
{
    if ks.len() > 0 {
        lemma_listing_order_len(docs, ks.drop_last());
        lemma_insert_listed_len(docs, listing_order(docs, ks.drop_last()), ks.last());
    }
}

/// Two stored symbols are always comparable in a listing.
pub proof fn lemma_listed_before_total(a: IndexedFields, b: IndexedFields)
    ensures
        !listed_before(a, b) ==> listed_before(b, a),
{
    lemma_text_lt_total(a.fqn@, b.fqn@);
}

/// The listing order is transitive.
pub proof fn lemma_listed_before_transitive(a: IndexedFields, b: IndexedFields, c: IndexedFields)
    requires
        listed_before(a, b),
        listed_before(b, c),
    ensures
        listed_before(a, c),
{
    lemma_text_lt_total(a.fqn@, b.fqn@);
    lemma_text_lt_total(b.fqn@, c.fqn@);
    lemma_text_lt_total(a.fqn@, c.fqn@);
    lemma_text_lt_irreflexive(a.fqn@);
    if text_lt(a.fqn@, b.fqn@) && text_lt(b.fqn@, c.fqn@) {
        lemma_text_lt_transitive(a.fqn@, b.fqn@, c.fqn@);
    }
}

/// Whether the indices are in listing order.
pub open spec fn in_listing_order(docs: Seq<IndexedFields>, s: Seq<usize>) -> bool {
    forall|i: int, j: int| 0 <= i < j < s.len() ==> listed_before(#[trigger] docs[s[i] as int], #[trigger] docs[s[j] as int])
}

/// Inserting keeps the order, and adds just the inserted index.
pub proof fn lemma_insert_listed(docs: Seq<IndexedFields>, s: Seq<usize>, x: usize)
    requires
        in_listing_order(docs, s),
    ensures
        in_listing_order(docs, insert_listed(docs, s, x)),
        insert_listed(docs, s, x).to_multiset() == s.to_multiset().insert(x),
        forall|k: int| 0 <= k < insert_listed(docs, s, x).len() ==>
            (#[trigger] insert_listed(docs, s, x)[k] == x || s.contains(insert_listed(docs, s, x)[k])),
    decreases s.len(),
{
    broadcast use vstd::seq_lib::group_to_multiset_ensures;
    let r = insert_listed(docs, s, x);
    if s.len() == 0 {
        assert(r =~= seq![x]);
        assert(seq![x] =~= Seq::<usize>::empty().push(x));
    } else if listed_before(docs[s.last() as int], docs[x as int]) {
        assert forall|i: int, j: int| 0 <= i < j < r.len() implies listed_before(#[trigger] docs[r[i] as int], #[trigger] docs[r[j] as int]) by {
            if j == s.len() {
                if i < s.len() - 1 {
                    assert(listed_before(docs[s[i] as int], docs[s[s.len() - 1] as int]));
                    lemma_listed_before_transitive(docs[s[i] as int], docs[s.last() as int], docs[x as int]);
                }
            }
        }
        assert forall|k: int| 0 <= k < r.len() implies (#[trigger] r[k] == x || s.contains(r[k])) by {
            if k < s.len() {
                assert(s[k] == r[k]);
            }
        }
    } else {
        let p = s.drop_last();
        assert(in_listing_order(docs, p));
        lemma_insert_listed(docs, p, x);
        let q = insert_listed(docs, p, x);
        assert(r == q.push(s.last()));
        lemma_listed_before_total(docs[s.last() as int], docs[x as int]);
        assert forall|i: int, j: int| 0 <= i < j < r.len() implies listed_before(#[trigger] docs[r[i] as int], #[trigger] docs[r[j] as int]) by {
            if j == q.len() {
                assert(r[i] == q[i]);
                if q[i] != x {
                    assert(p.contains(q[i]));
                    let m = choose|m: int| 0 <= m < p.len() && p[m] == q[i];
                    assert(s[m] == q[i]);
                    assert(listed_before(docs[s[m] as int], docs[s[s.len() - 1] as int]));
                }
            } else {
                assert(r[i] == q[i] && r[j] == q[j]);
            }
        }
        assert(s.to_multiset() == p.to_multiset().insert(s.last())) by {
            assert(s =~= p.push(s.last()));
        }
        assert forall|k: int| 0 <= k < r.len() implies (#[trigger] r[k] == x || s.contains(r[k])) by {
            if k < q.len() {
                assert(r[k] == q[k]);
                if q[k] != x {
                    let m = choose|m: int| 0 <= m < p.len() && p[m] == q[k];
                    assert(s[m] == q[k]);
                }
            } else {
                assert(s[s.len() - 1] == r[k]);
            }
        }
    }
}

/// A listing is ordered by kind (classes, methods, fields) then FQN, and it
/// holds each document that the classpath filter keeps, once.
pub proof fn law_listing_is_ordered(docs: Seq<IndexedFields>, cp: Option<Seq<char>>)
    ensures
        in_listing_order(docs, listing_indices(docs, cp)),
        listing_indices(docs, cp).to_multiset() == kept_indices(docs, cp, docs.len() as int).to_multiset(),
{
    lemma_listing_order(docs, kept_indices(docs, cp, docs.len() as int));
}

proof fn lemma_listing_order(docs: Seq<IndexedFields>, ks: Seq<usize>)
    ensures
        in_listing_order(docs, listing_order(docs, ks)),
        listing_order(docs, ks).to_multiset() == ks.to_multiset(),
    decreases ks.len(),
{
    broadcast use vstd::seq_lib::group_to_multiset_ensures;
    if ks.len() > 0 {
        lemma_listing_order(docs, ks.drop_last());
        lemma_insert_listed(docs, listing_order(docs, ks.drop_last()), ks.last());
        assert(ks =~= ks.drop_last().push(ks.last()));
    }
}

/// How a query is matched against the index.
#[derive(Debug, Clone, Copy, PartialEq, Eq, Structural)]
pub enum SearchMode {
    /// No query: every symbol (a listing).
    All,
    /// Glob characters and two or more dots: a pattern over the FQN.
    GlobFqn,
    /// Glob characters, fewer than two dots: a pattern over the lowercase simple name.
    GlobSimpleName,
    /// Two or more dots, no glob characters: the exact FQN.
    FqnExact,
    /// Anything else: tokens of the simple name and its name parts, with prefixes.
    Smart,
}

/// Whether a text holds a glob character (`*` or `?`).
pub open spec fn has_glob(s: Seq<char>) -> bool {
    s.contains('*') || s.contains('?')
}

/// How many times `c` occurs in `s`.
pub open spec fn count_char(s: Seq<char>, c: char) -> nat
    decreases s.len(),
{
    if s.len() == 0 {
        0
    } else {
        count_char(s.drop_last(), c) + (if s.last() == c { 1nat } else { 0nat })
    }
}

/// The search mode of a query.
pub open spec fn mode_of(query: Option<Seq<char>>) -> SearchMode {
    match query {
        None => SearchMode::All,
        Some(q) => {
            if has_glob(q) && count_char(q, '.') >= 2 {
                SearchMode::GlobFqn
            } else if has_glob(q) {
                SearchMode::GlobSimpleName
            } else if count_char(q, '.') >= 2 {
                SearchMode::FqnExact
            } else {
                SearchMode::Smart
            }
        },
    }
}

/// Whether a pattern holds a glob character (`*` or `?`).
pub fn is_glob_pattern(s: &str) -> (r: bool)
    ensures
        r == has_glob(s@),
{
    let v = chars_of(s);
    let mut i: usize = 0;
    while i < v.len()
        invariant
            v@ == s@,
            0 <= i <= v@.len(),
            forall|k: int| 0 <= k < i ==> v@[k] != '*' && v@[k] != '?',
        decreases v@.len() - i,
    {
        if v[i] == '*' || v[i] == '?' {
            assert(v@[i as int] == '*' ==> s@.contains('*'));
            assert(v@[i as int] == '?' ==> s@.contains('?'));
            return true;
        }
        i = i + 1;
    }
    false
}

fn count_dots(v: &Vec<char>) -> (r: usize)
    ensures
        r == count_char(v@, '.'),
{
    let mut n: usize = 0;
    let mut i: usize = 0;
    while i < v.len()
        invariant
            0 <= i <= v@.len(),
            n == count_char(v@.take(i as int), '.'),
            n <= i,
        decreases v@.len() - i,
    {
        assert(v@.take(i + 1).drop_last() =~= v@.take(i as int));
        if v[i] == '.' {
            n = n + 1;
        }
        i = i + 1;
    }
    assert(v@.take(v@.len() as int) =~= v@);
    n
}

/// Classify a query: a listing without one; a glob over the FQN with glob
/// characters and two or more dots; a glob over the simple name with glob
/// characters only; an exact FQN with two or more dots; otherwise a smart
/// token search.
pub fn search_mode(query: Option<&str>) -> (r: SearchMode)
    ensures
        r == mode_of(match query { Some(q) => Some(q@), None => None }),
{
    match query {
        None => SearchMode::All,
        Some(q) => {
            let glob = is_glob_pattern(q);
            let dots = count_dots(&chars_of(q));
            if glob && dots >= 2 {
                SearchMode::GlobFqn
            } else if glob {
                SearchMode::GlobSimpleName
            } else if dots >= 2 {
                SearchMode::FqnExact
            } else {
                SearchMode::Smart
            }
        },
    }
}

/// The characters that a regular expression must escape.
pub open spec fn regex_meta(c: char) -> bool {
    c == '.' || c == '*' || c == '+' || c == '?' || c == '(' || c == ')' || c == '['
        || c == ']' || c == '{' || c == '}' || c == '|' || c == '^' || c == '$' || c == '\\'
}

/// A term with each regex metacharacter preceded by `\`.
pub open spec fn escape_regex(s: Seq<char>) -> Seq<char>
    decreases s.len(),
{
    if s.len() == 0 {
        Seq::empty()
    } else {
        escape_regex(s.drop_last()) + (if regex_meta(s.last()) { seq!['\\', s.last()] } else { seq![s.last()] })
    }
}

fn is_regex_meta(c: char) -> (r: bool)
    ensures
        r == regex_meta(c),
{
    c == '.' || c == '*' || c == '+' || c == '?' || c == '(' || c == ')' || c == '['
        || c == ']' || c == '{' || c == '}' || c == '|' || c == '^' || c == '$' || c == '\\'
}

/// Escape the regular-expression metacharacters of a search term.
pub fn regex_escape_term(term: &str) -> (r: String)
    ensures
        r@ == escape_regex(term@),
{
    let v = chars_of(term);
    let mut out: Vec<char> = Vec::new();
    let mut i: usize = 0;
    while i < v.len()
        invariant
            v@ == term@,
            0 <= i <= v@.len(),
            out@ == escape_regex(v@.take(i as int)),
        decreases v@.len() - i,
    {
        assert(v@.take(i + 1).drop_last() =~= v@.take(i as int));
        let c = v[i];
        if is_regex_meta(c) {
            out.push('\\');
        }
        out.push(c);
        assert(out@ =~= escape_regex(v@.take(i + 1)));
        i = i + 1;
    }
    assert(v@.take(v@.len() as int) =~= v@);
    string_of(&out)
}

/// The regular expression of a glob: `*` as `.*`, `?` as `.`, and every
/// other character literally (escaped when it is a metacharacter).
pub open spec fn glob_regex(s: Seq<char>) -> Seq<char>
    decreases s.len(),
{
    if s.len() == 0 {
        Seq::empty()
    } else {
        let c = s.last();
        glob_regex(s.drop_last()) + (if c == '*' { seq!['.', '*'] } else if c == '?' { seq!['.'] }
            else if regex_meta(c) { seq!['\\', c] } else { seq![c] })
    }
}

/// Translate a glob into the regular expression that the index matches
/// against a whole term.
pub fn glob_to_tantivy_regex(glob: &str) -> (r: String)
    ensures
        r@ == glob_regex(glob@),
{
    let v = chars_of(glob);
    let mut out: Vec<char> = Vec::new();
    let mut i: usize = 0;
    while i < v.len()
        invariant
            v@ == glob@,
            0 <= i <= v@.len(),
            out@ == glob_regex(v@.take(i as int)),
        decreases v@.len() - i,
    {
        assert(v@.take(i + 1).drop_last() =~= v@.take(i as int));
        let c = v[i];
        if c == '*' {
            out.push('.');
            out.push('*');
        } else if c == '?' {
            out.push('.');
        } else {
            if is_regex_meta(c) {
                out.push('\\');
            }
            out.push(c);
        }
        assert(out@ =~= glob_regex(v@.take(i + 1)));
        i = i + 1;
    }
    assert(v@.take(v@.len() as int) =~= v@);
    string_of(&out)
}

/// The text `str::to_lowercase` gives.
pub uninterp spec fn lowercased(s: Seq<char>) -> Seq<char>;

/// Calls `str::to_lowercase`: the text's Unicode lowercase mapping, where
/// a character may map to several and a final capital sigma depends on
/// its neighbours.  The mapping is left to the name.
#[verifier::external_body]
fn to_lowercase(s: &str) -> (r: String)
    ensures
        r@ == lowercased(s@),
{
    s.to_lowercase()
}

/// The pieces of a text between whitespace characters (empty ones included).
pub open spec fn ws_pieces(s: Seq<char>) -> Seq<Seq<char>>
    decreases s.len(),
{
    if s.len() == 0 {
        seq![Seq::empty()]
    } else {
        let p = ws_pieces(s.drop_last());
        if char_is_whitespace(s.last()) {
            p.push(Seq::empty())
        } else {
            p.update(p.len() - 1, p.last().push(s.last()))
        }
    }
}

/// The non-empty pieces, in order.
pub open spec fn non_empty(ps: Seq<Seq<char>>) -> Seq<Seq<char>>
    decreases ps.len(),
{
    if ps.len() == 0 {
        ps
    } else if ps.last().len() == 0 {
        non_empty(ps.drop_last())
    } else {
        non_empty(ps.drop_last()).push(ps.last())
    }
}

/// The words of a text, as `str::split_whitespace` gives them.
pub open spec fn words(s: Seq<char>) -> Seq<Seq<char>> {
    non_empty(ws_pieces(s))
}

proof fn lemma_ws_pieces_len(s: Seq<char>)
    ensures
        ws_pieces(s).len() >= 1,
    decreases s.len(),
{
    if s.len() > 0 {
        lemma_ws_pieces_len(s.drop_last());
    }
}

/// The words of a text.
pub fn split_words(s: &str) -> (r: Vec<String>)
    ensures
        r@.map_values(|w: String| w@) == words(s@),
{
    let v = chars_of(s);
    let mut out: Vec<String> = Vec::new();
    let mut cur: Vec<char> = Vec::new();
    let mut i: usize = 0;
    proof { lemma_ws_pieces_len(v@.take(0)); }
    assert(v@.take(0) =~= Seq::<char>::empty());
    while i < v.len()
        invariant
            v@ == s@,
            0 <= i <= v@.len(),
            ws_pieces(v@.take(i as int)).len() >= 1,
            cur@ == ws_pieces(v@.take(i as int)).last(),
            out@.map_values(|w: String| w@) == non_empty(ws_pieces(v@.take(i as int)).drop_last()),
        decreases v@.len() - i,
    {
        let ghost t = v@.take(i + 1);
        let ghost p = ws_pieces(v@.take(i as int));
        assert(t.drop_last() =~= v@.take(i as int));
        assert(t.last() == v@[i as int]);
        let c = v[i];
        if is_whitespace(c) {
            let ghost before = out@.map_values(|w: String| w@);
            if cur.len() > 0 {
                out.push(string_of(&cur));
                assert(out@.map_values(|w: String| w@) =~= before.push(cur@));
            }
            assert(ws_pieces(t) == p.push(Seq::empty()));
            assert(p.push(Seq::empty()).drop_last() =~= p);
            assert(p =~= p.drop_last().push(p.last()));
            cur = Vec::new();
        } else {
            cur.push(c);
            let ghost q = p.update(p.len() - 1, p.last().push(c));
            assert(ws_pieces(t) == q);
            assert(q.drop_last() =~= p.drop_last());
        }
        proof { lemma_ws_pieces_len(t); }
        i = i + 1;
    }
    assert(v@.take(v@.len() as int) =~= v@);
    let ghost p = ws_pieces(v@);
    let ghost before = out@.map_values(|w: String| w@);
    assert(p =~= p.drop_last().push(p.last()));
    if cur.len() > 0 {
        out.push(string_of(&cur));
        assert(out@.map_values(|w: String| w@) =~= before.push(cur@));
    }
    out
}

/// The prefix pattern of one query word: the word lowercased, escaped,
/// then `.*`.
pub open spec fn prefix_pattern(word: Seq<char>) -> Seq<char> {
    escape_regex(lowercased(word)) + ".*"@
}

/// The prefix patterns of a smart query, one per word, so that each word
/// may match the start of a simple name or name part.
pub fn prefix_patterns(query: &str) -> (r: Vec<String>)
    ensures
        r@.map_values(|p: String| p@) == words(query@).map_values(|w: Seq<char>| prefix_pattern(w)),
{
    let ws = split_words(query);
    let ghost wv = ws@.map_values(|w: String| w@);
    let mut out: Vec<String> = Vec::new();
    let mut i: usize = 0;
    while i < ws.len()
        invariant
            wv == ws@.map_values(|w: String| w@),
            wv == words(query@),
            0 <= i <= ws@.len(),
            out@.map_values(|p: String| p@) == wv.take(i as int).map_values(|w: Seq<char>| prefix_pattern(w)),
        decreases ws@.len() - i,
    {
        let lower = to_lowercase(ws[i].as_str());
        let esc = regex_escape_term(lower.as_str());
        let mut pv = chars_of(esc.as_str());
        crate::text::push_str(&mut pv, ".*");
        let ghost before = out@.map_values(|p: String| p@);
        out.push(string_of(&pv));
        assert(out@.map_values(|p: String| p@) =~= before.push(prefix_pattern(wv[i as int])));
        assert(wv.take(i + 1).map_values(|w: Seq<char>| prefix_pattern(w))
            =~= wv.take(i as int).map_values(|w: Seq<char>| prefix_pattern(w)).push(prefix_pattern(wv[i as int])));
        i = i + 1;
    }
    assert(wv.take(wv.len() as int) =~= wv);
    out
}

/// The index terms of a symbol type filter: one kind name per type.
pub fn symbol_type_terms(types: &[SymbolKind]) -> (r: Vec<&'static str>)
    ensures
        r@.len() == types@.len(),
        forall|i: int| 0 <= i < r@.len() ==> #[trigger] r@[i]@ == kind_name(types@[i]),
{
    let mut out: Vec<&'static str> = Vec::new();
    let mut i: usize = 0;
    while i < types.len()
        invariant
            0 <= i <= types@.len(),
            out@.len() == i,
            forall|k: int| 0 <= k < i ==> #[trigger] out@[k]@ == kind_name(types@[k]),
        decreases types@.len() - i,
    {
        out.push(types[i].as_str());
        i = i + 1;
    }
    out
}

/// The index terms of an access level filter: one level name per level.
pub fn access_level_terms(levels: &[AccessLevel]) -> (r: Vec<&'static str>)
    ensures
        r@.len() == levels@.len(),
        forall|i: int| 0 <= i < r@.len() ==> #[trigger] r@[i]@ == access_level_name(levels@[i]),
{
    let mut out: Vec<&'static str> = Vec::new();
    let mut i: usize = 0;
    while i < levels.len()
        invariant
            0 <= i <= levels@.len(),
            out@.len() == i,
            forall|k: int| 0 <= k < i ==> #[trigger] out@[k]@ == access_level_name(levels@[k]),
        decreases levels@.len() - i,
    {
        out.push(levels[i].as_str());
        i = i + 1;
    }
    out
}

/// The GAVs of `(gav, count)` pairs that match a glob, in order.
pub open spec fn glob_matches(all: Seq<(Seq<char>, usize)>, pattern: Seq<char>) -> Seq<Seq<char>>
    decreases all.len(),
{
    if all.len() == 0 {
        Seq::empty()
    } else {
        let rest = glob_matches(all.drop_last(), pattern);
        if glob_match(all.last().0, pattern) { rest.push(all.last().0) } else { rest }
    }
}

/// The index terms a dependency or package filter selects: those of the
/// index (listed with their counts) that match it when it is a glob, else
/// the filter itself.  An empty result means that nothing can match.
pub fn filter_terms(dep: &str, all_gavs: &Vec<(String, usize)>) -> (r: Vec<String>)
    ensures
        r@.map_values(|g: String| g@) == (if has_glob(dep@) {
            glob_matches(all_gavs@.map_values(|p: (String, usize)| (p.0@, p.1)), dep@)
        } else {
            seq![dep@]
        }),
{
    if !is_glob_pattern(dep) {
        let r = vec![string_of(&chars_of(dep))];
        assert(r@.map_values(|g: String| g@) =~= seq![dep@]);
        return r;
    }
    let ghost av = all_gavs@.map_values(|p: (String, usize)| (p.0@, p.1));
    let mut out: Vec<String> = Vec::new();
    let mut i: usize = 0;
    while i < all_gavs.len()
        invariant
            av == all_gavs@.map_values(|p: (String, usize)| (p.0@, p.1)),
            0 <= i <= all_gavs@.len(),
            out@.map_values(|g: String| g@) == glob_matches(av.take(i as int), dep@),
        decreases all_gavs@.len() - i,
    {
        assert(av.take(i + 1).drop_last() =~= av.take(i as int));
        assert(av.take(i + 1).last() == (all_gavs@[i as int].0@, all_gavs@[i as int].1));
        let g = &all_gavs[i].0;
        if matches_glob_pattern(g.as_str(), dep) {
            let ghost before = out@.map_values(|g: String| g@);
            out.push(string_of(&chars_of(g.as_str())));
            assert(out@.map_values(|g: String| g@) =~= before.push(g@));
        }
        i = i + 1;
    }
    assert(av.take(av.len() as int) =~= av);
    out
}

/// The results of a text search, keeping those on the classpath when one
/// is given (ranking and paging are the index's).
pub fn search_page(docs: &Vec<IndexedFields>, classpath: Option<&str>) -> (r: Vec<SearchResult>)
    ensures
        ({
            let ks = kept_indices(docs@, match classpath { Some(c) => Some(c@), None => None }, docs@.len() as int);
            &&& r@.len() == ks.len()
            &&& forall|i: int| 0 <= i < r@.len() ==> result_of(#[trigger] r@[i], docs@[ks[i] as int])
        }),
{
    let ghost cp = match classpath { Some(c) => Some(c@), None => None };
    let mut out: Vec<SearchResult> = Vec::new();
    let ghost mut ks: Seq<usize> = Seq::empty();
    let mut i: usize = 0;
    while i < docs.len()
        invariant
            0 <= i <= docs@.len(),
            cp == (match classpath { Some(c) => Some(c@), None => None::<Seq<char>> }),
            ks == kept_indices(docs@, cp, i as int),
            forall|k: int| 0 <= k < ks.len() ==> ks[k] < i,
            out@.len() == ks.len(),
            forall|q: int| 0 <= q < out@.len() ==> result_of(#[trigger] out@[q], docs@[ks[q] as int]),
        decreases docs@.len() - i,
    {
        let keep = match classpath { Some(c) => is_on_classpath(&docs[i], c), None => true };
        if keep {
            out.push(doc_to_search_result(&docs[i]));
            proof { ks = ks.push(i); }
        }
        i = i + 1;
    }
    out
}

/// How many times `k` occurs in `s`.
pub open spec fn occurrences(s: Seq<Seq<char>>, k: Seq<char>) -> nat
    decreases s.len(),
{
    if s.len() == 0 {
        0
    } else {
        occurrences(s.drop_last(), k) + (if s.last() == k { 1nat } else { 0nat })
    }
}

/// Whether `r` counts the packages of `pkgs`: its packages strictly
/// increasing in text order, each with the number of times it occurs, and
/// every package of `pkgs` among them.
pub open spec fn package_counts_of(r: Seq<(Seq<char>, usize)>, pkgs: Seq<Seq<char>>) -> bool {
    &&& forall|i: int, j: int| 0 <= i < j < r.len() ==> text_lt(#[trigger] r[i].0, #[trigger] r[j].0)
    &&& forall|i: int| 0 <= i < r.len() ==> (#[trigger] r[i]).1 == occurrences(pkgs, r[i].0)
    &&& forall|i: int| 0 <= i < r.len() ==> pkgs.contains((#[trigger] r[i]).0)
    &&& forall|k: int| 0 <= k < pkgs.len() ==> exists|i: int| 0 <= i < r.len() && (#[trigger] r[i]).0 == #[trigger] pkgs[k]
}

proof fn lemma_occurrences_contains(s: Seq<Seq<char>>, k: Seq<char>)
    ensures
        occurrences(s, k) > 0 ==> exists|i: int| 0 <= i < s.len() && s[i] == k,
        occurrences(s, k) <= s.len(),
    decreases s.len(),
{
    if s.len() > 0 {
        lemma_occurrences_contains(s.drop_last(), k);
        if occurrences(s.drop_last(), k) > 0 {
            let i = choose|i: int| 0 <= i < s.drop_last().len() && s.drop_last()[i] == k;
            assert(s[i] == k);
        } else if s.last() == k {
            assert(s[s.len() - 1] == k);
        }
    }
}

/// The views of `(package, count)` pairs.
pub open spec fn count_views(r: Seq<(String, usize)>) -> Seq<(Seq<char>, usize)> {
    r.map_values(|e: (String, usize)| (e.0@, e.1))
}

/// Count the packages of a list of documents' packages: each distinct
/// package once, in text order, with the number of documents in it.
#[verifier::rlimit(60)]
pub fn count_packages(pkgs: &Vec<String>) -> (r: Vec<(String, usize)>)
    ensures
        package_counts_of(count_views(r@), pkgs@.map_values(|p: String| p@)),
{
    let ghost pv = pkgs@.map_values(|p: String| p@);
    let mut r: Vec<(String, usize)> = Vec::new();
    let mut n: usize = 0;
    assert(pv.take(0) =~= Seq::<Seq<char>>::empty());
    while n < pkgs.len()
        invariant
            pv == pkgs@.map_values(|p: String| p@),
            0 <= n <= pkgs@.len(),
            r@.len() <= n,
            package_counts_of(count_views(r@), pv.take(n as int)),
        decreases pkgs@.len() - n,
    {
        let ghost rv = count_views(r@);
        let ghost before = pv.take(n as int);
        let ghost after = pv.take(n + 1);
        let p = pkgs[n].as_str();
        assert(after.drop_last() =~= before);
        assert(after.last() == p@);
        let mut j: usize = 0;
        while j < r.len() && text_less(r[j].0.as_str(), p)
            invariant
                rv == count_views(r@),
                0 <= j <= r@.len(),
                forall|i: int| 0 <= i < j ==> text_lt(#[trigger] rv[i].0, p@),
            decreases r@.len() - j,
        {
            assert(rv[j as int].0 == r@[j as int].0@);
            j = j + 1;
        }
        proof {
            lemma_occurrences_contains(before, p@);
        }
        if j < r.len() && str_eq(r[j].0.as_str(), p) {
            assert(rv[j as int].0 == p@);
            let (k, c) = r.remove(j);
            proof {
                assert(c == rv[j as int].1);
                assert(c == occurrences(before, p@));
            }
            r.insert(j, (k, c + 1));
            let ghost nv = count_views(r@);
            assert(nv =~= rv.update(j as int, (p@, (c + 1) as usize)));
            assert forall|i: int| 0 <= i < nv.len() implies (#[trigger] nv[i]).1 == occurrences(after, nv[i].0) by {
                if i != j {
                    if nv[i].0 == p@ {
                        if i < j {
                            lemma_text_lt_irreflexive(p@);
                            assert(text_lt(rv[i].0, rv[j as int].0));
                        } else {
                            assert(text_lt(rv[j as int].0, rv[i].0));
                            lemma_text_lt_irreflexive(p@);
                        }
                    }
                }
            }
            assert forall|q: int| 0 <= q < after.len() implies exists|i: int| 0 <= i < nv.len() && (#[trigger] nv[i]).0 == #[trigger] after[q] by {
                if q < before.len() {
                    assert(after[q] == before[q]);
                    let i = choose|i: int| 0 <= i < rv.len() && (#[trigger] rv[i]).0 == #[trigger] before[q];
                    assert(nv[i].0 == rv[i].0);
                } else {
                    assert(nv[j as int].0 == after[q]);
                }
            }
            assert forall|i: int, m: int| 0 <= i < m < nv.len() implies text_lt(#[trigger] nv[i].0, #[trigger] nv[m].0) by {
                assert(nv[i].0 == rv[i].0 && nv[m].0 == rv[m].0);
            }
            assert forall|i: int| 0 <= i < nv.len() implies after.contains((#[trigger] nv[i]).0) by {
                if i == j {
                    assert(after[after.len() - 1] == p@);
                } else {
                    assert(nv[i].0 == rv[i].0);
                    let q = choose|q: int| 0 <= q < before.len() && before[q] == rv[i].0;
                    assert(after[q] == before[q]);
                }
            }
        } else {
            let ghost notfound = j < rv.len() ==> rv[j as int].0 != p@;
            if j < r.len() {
                assert(!text_lt(rv[j as int].0, p@));
                proof { lemma_text_lt_total(rv[j as int].0, p@); }
                assert(text_lt(p@, rv[j as int].0));
            }
            // p is not among the packages counted so far.
            assert forall|i: int| 0 <= i < rv.len() implies (#[trigger] rv[i]).0 != p@ by {
                if i < j {
                    lemma_text_lt_irreflexive(p@);
                } else {
                    if i > j {
                        assert(text_lt(rv[j as int].0, rv[i].0));
                        lemma_text_lt_transitive(p@, rv[j as int].0, rv[i].0);
                    }
                    lemma_text_lt_irreflexive(p@);
                }
            }
            assert(occurrences(before, p@) == 0) by {
                if occurrences(before, p@) > 0 {
                    let q = choose|q: int| 0 <= q < before.len() && before[q] == p@;
                    let i = choose|i: int| 0 <= i < rv.len() && (#[trigger] rv[i]).0 == #[trigger] before[q];
                }
            }
            r.insert(j, (string_of(&chars_of(p)), 1));
            let ghost nv = count_views(r@);
            assert(nv =~= rv.insert(j as int, (p@, 1usize)));
            assert forall|i: int, m: int| 0 <= i < m < nv.len() implies text_lt(#[trigger] nv[i].0, #[trigger] nv[m].0) by {
                if i < j && m < j {
                    assert(nv[i] == rv[i] && nv[m] == rv[m]);
                } else if i < j && m == j {
                    assert(nv[i] == rv[i]);
                } else if i < j && m > j {
                    assert(nv[i] == rv[i] && nv[m] == rv[m - 1]);
                    if m - 1 > j {
                        assert(text_lt(rv[j as int].0, rv[m - 1].0));
                        lemma_text_lt_transitive(p@, rv[j as int].0, rv[m - 1].0);
                    }
                    lemma_text_lt_transitive(rv[i].0, p@, rv[m - 1].0);
                } else if i == j {
                    assert(nv[m] == rv[m - 1]);
                    if m - 1 > j {
                        assert(text_lt(rv[j as int].0, rv[m - 1].0));
                        lemma_text_lt_transitive(p@, rv[j as int].0, rv[m - 1].0);
                    }
                } else {
                    assert(nv[i] == rv[i - 1] && nv[m] == rv[m - 1]);
                }
            }
            assert forall|i: int| 0 <= i < nv.len() implies (#[trigger] nv[i]).1 == occurrences(after, nv[i].0) by {
                if i < j {
                    assert(nv[i] == rv[i]);
                } else if i > j {
                    assert(nv[i] == rv[i - 1]);
                }
            }
            assert forall|q: int| 0 <= q < after.len() implies exists|i: int| 0 <= i < nv.len() && (#[trigger] nv[i]).0 == #[trigger] after[q] by {
                if q < before.len() {
                    assert(after[q] == before[q]);
                    let i = choose|i: int| 0 <= i < rv.len() && (#[trigger] rv[i]).0 == #[trigger] before[q];
                    if i < j {
                        assert(nv[i].0 == rv[i].0);
                    } else {
                        assert(nv[i + 1].0 == rv[i].0);
                    }
                } else {
                    assert(nv[j as int].0 == after[q]);
                }
            }
            assert forall|i: int| 0 <= i < nv.len() implies after.contains((#[trigger] nv[i]).0) by {
                if i == j {
                    assert(after[after.len() - 1] == p@);
                } else {
                    let k = if i < j { i } else { i - 1 };
                    assert(nv[i] == rv[k]);
                    let q = choose|q: int| 0 <= q < before.len() && before[q] == rv[k].0;
                    assert(after[q] == before[q]);
                }
            }
        }
        n = n + 1;
    }
    assert(pv.take(pkgs@.len() as int) =~= pv);
    r
}

} // verus!
