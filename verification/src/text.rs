//! Character-level text helpers shared by the parsers and formatters.
//!
//! Strings are handled through their character sequences (`s@`); the
//! helpers here convert between `&str`/`String` and `Vec<char>` and provide
//! the few character classifications that the formatters need.
use vstd::prelude::*;

verus! {

/// `String::push` appends one character.
pub assume_specification[ std::string::String::push ](s: &mut std::string::String, ch: char)
    ensures
        final(s)@ == old(s)@.push(ch),
;

/// The characters of `s`, in order.
pub fn chars_of(s: &str) -> (r: Vec<char>)
    ensures
        r@ == s@,
{
    let mut v: Vec<char> = Vec::new();
    for c in it: s.chars()
        invariant
            v@ == it.seq().take(it.index()),
    {
        v.push(c);
    }
    v
}

/// Builds a `String` from a character sequence.
pub fn string_of(v: &[char]) -> (r: String)
    ensures
        r@ == v@,
{
    let mut s = String::new();
    let mut i: usize = 0;
    while i < v.len()
        invariant
            0 <= i <= v.len(),
            s@ == v@.take(i as int),
        decreases v.len() - i,
    {
        s.push(v[i]);
        i = i + 1;
        assert(v@.take(i as int) =~= v@.take((i - 1) as int).push(v@[i - 1]));
    }
    assert(v@.take(v.len() as int) =~= v@);
    s
}


/// Index of the first occurrence of `c` in `s`, if any.
pub open spec fn first_index_of(s: Seq<char>, c: char) -> Option<int>
    decreases s.len(),
{
    if s.len() == 0 {
        None
    } else if s[0] == c {
        Some(0)
    } else {
        match first_index_of(s.drop_first(), c) {
            Some(i) => Some(i + 1),
            None => None,
        }
    }
}

/// Index of the last occurrence of `c` in `s`, if any.
pub open spec fn last_index_of(s: Seq<char>, c: char) -> Option<int>
    decreases s.len(),
{
    if s.len() == 0 {
        None
    } else if s.last() == c {
        Some(s.len() - 1)
    } else {
        last_index_of(s.drop_last(), c)
    }
}

/// The part of `s` after the last `sep` (all of `s` when `sep` does not occur).
pub open spec fn after_last(s: Seq<char>, sep: char) -> Seq<char> {
    match last_index_of(s, sep) {
        Some(i) => s.skip(i + 1),
        None => s,
    }
}

/// The part of `s` before the last `sep` (empty when `sep` does not occur).
pub open spec fn before_last(s: Seq<char>, sep: char) -> Seq<char> {
    match last_index_of(s, sep) {
        Some(i) => s.take(i),
        None => Seq::empty(),
    }
}

/// `s` with every `from` replaced by `to`.
pub open spec fn replace_char(s: Seq<char>, from: char, to: char) -> Seq<char> {
    s.map_values(|x: char| if x == from { to } else { x })
}

/// The parts joined with `sep` between consecutive parts.
pub open spec fn join(parts: Seq<Seq<char>>, sep: Seq<char>) -> Seq<char>
    decreases parts.len(),
{
    if parts.len() == 0 {
        Seq::empty()
    } else if parts.len() == 1 {
        parts[0]
    } else {
        join(parts.drop_last(), sep) + sep + parts.last()
    }
}

/// Decimal digits of `n` (no sign, no leading zeros; `"0"` for zero).
pub open spec fn decimal(n: nat) -> Seq<char>
    decreases n,
{
    if n < 10 {
        seq![digit_char(n)]
    } else {
        decimal(n / 10).push(digit_char(n % 10))
    }
}

/// The ASCII digit for `d < 10`.
pub open spec fn digit_char(d: nat) -> char {
    if d == 0 { '0' }
    else if d == 1 { '1' }
    else if d == 2 { '2' }
    else if d == 3 { '3' }
    else if d == 4 { '4' }
    else if d == 5 { '5' }
    else if d == 6 { '6' }
    else if d == 7 { '7' }
    else if d == 8 { '8' }
    else { '9' }
}

/// Whether `p` is a prefix of `s`.
pub open spec fn has_prefix(s: Seq<char>, p: Seq<char>) -> bool {
    p.len() <= s.len() && s.take(p.len() as int) == p
}

/// Whether `p` is a suffix of `s`.
pub open spec fn has_suffix(s: Seq<char>, p: Seq<char>) -> bool {
    p.len() <= s.len() && s.skip(s.len() - p.len()) == p
}

fn digit_of(d: u128) -> (c: char)
    requires
        d < 10,
    ensures
        c == digit_char(d as nat),
{
    if d == 0 { '0' }
    else if d == 1 { '1' }
    else if d == 2 { '2' }
    else if d == 3 { '3' }
    else if d == 4 { '4' }
    else if d == 5 { '5' }
    else if d == 6 { '6' }
    else if d == 7 { '7' }
    else if d == 8 { '8' }
    else { '9' }
}

/// Appends the decimal digits of `n` to `out`.
pub fn push_decimal(out: &mut Vec<char>, n: u128)
    ensures
        final(out)@ == old(out)@ + decimal(n as nat),
    decreases n,
{
    if n < 10 {
        out.push(digit_of(n));
        assert(decimal(n as nat) =~= seq![digit_char(n as nat)]);
    } else {
        push_decimal(out, n / 10);
        out.push(digit_of(n % 10));
        assert(decimal(n as nat) == decimal((n / 10) as nat).push(digit_char((n % 10) as nat)));
    }
}

/// Appends the characters of `s` to `out`.
pub fn push_str(out: &mut Vec<char>, s: &str)
    ensures
        final(out)@ == old(out)@ + s@,
{
    let ghost start = out@;
    for c in it: s.chars()
        invariant
            out@ == start + it.seq().take(it.index()),
    {
        out.push(c);
    }
}

/// Appends `s` to `out`.
pub fn push_seq(out: &mut Vec<char>, s: &[char])
    ensures
        final(out)@ == old(out)@ + s@,
{
    let ghost start = out@;
    let mut i: usize = 0;
    while i < s.len()
        invariant
            0 <= i <= s.len(),
            out@ == start + s@.take(i as int),
        decreases s.len() - i,
    {
        out.push(s[i]);
        i = i + 1;
        assert(s@.take(i as int) =~= s@.take((i - 1) as int).push(s@[i - 1]));
    }
    assert(s@.take(s.len() as int) =~= s@);
}

/// Whether the two strings have the same characters.
pub fn str_eq(a: &str, b: &str) -> (r: bool)
    ensures
        r == (a@ == b@),
{
    let av = chars_of(a);
    let bv = chars_of(b);
    seq_eq(&av, &bv)
}

/// Whether the two character slices are equal.
pub fn seq_eq(a: &[char], b: &[char]) -> (r: bool)
    ensures
        r == (a@ == b@),
{
    if a.len() != b.len() {
        return false;
    }
    let mut i: usize = 0;
    while i < a.len()
        invariant
            a.len() == b.len(),
            0 <= i <= a.len(),
            forall|j: int| 0 <= j < i ==> a@[j] == b@[j],
        decreases a.len() - i,
    {
        if a[i] != b[i] {
            return false;
        }
        i = i + 1;
    }
    assert(a@ =~= b@);
    true
}

/// Whether `p` is a prefix of `s[from..]`.
pub fn has_prefix_at(s: &[char], from: usize, p: &[char]) -> (r: bool)
    requires
        from <= s.len(),
    ensures
        r == has_prefix(s@.skip(from as int), p@),
{
    if p.len() > s.len() - from {
        return false;
    }
    let mut i: usize = 0;
    while i < p.len()
        invariant
            p.len() <= s.len() - from,
            from <= s.len(),
            0 <= i <= p.len(),
            forall|j: int| 0 <= j < i ==> s@[from + j] == p@[j],
        decreases p.len() - i,
    {
        if s[from + i] != p[i] {
            assert(s@.skip(from as int).take(p.len() as int)[i as int] != p@[i as int]);
            return false;
        }
        i = i + 1;
    }
    assert(s@.skip(from as int).take(p.len() as int) =~= p@);
    true
}

/// Whether `p` is a suffix of `s`.
pub fn has_suffix_chars(s: &[char], p: &[char]) -> (r: bool)
    ensures
        r == has_suffix(s@, p@),
{
    if p.len() > s.len() {
        return false;
    }
    let from = s.len() - p.len();
    let r = has_prefix_at(s, from, p);
    assert(s@.skip(from as int).take(p.len() as int) =~= s@.skip(from as int));
    r
}

/// Whether `s` ends with the characters of `p`.
pub fn ends_with_str(s: &[char], p: &str) -> (r: bool)
    ensures
        r == has_suffix(s@, p@),
{
    let pv = chars_of(p);
    has_suffix_chars(s, &pv)
}

/// Whether `s[from..]` starts with the characters of `p`.
pub fn starts_with_str_at(s: &[char], from: usize, p: &str) -> (r: bool)
    requires
        from <= s.len(),
    ensures
        r == has_prefix(s@.skip(from as int), p@),
{
    let pv = chars_of(p);
    has_prefix_at(s, from, &pv)
}

/// The sub-slice `s[from..to]` as a vector.
pub fn slice_vec<T: Copy>(s: &[T], from: usize, to: usize) -> (r: Vec<T>)
    requires
        from <= to <= s.len(),
    ensures
        r@ == s@.subrange(from as int, to as int),
{
    let mut v: Vec<T> = Vec::new();
    let mut i: usize = from;
    while i < to
        invariant
            from <= i <= to <= s.len(),
            v@ == s@.subrange(from as int, i as int),
        decreases to - i,
    {
        v.push(s[i]);
        i = i + 1;
        assert(v@ =~= s@.subrange(from as int, i as int));
    }
    v
}

/// Index of the first `c` in `s[from..]`, relative to the start of `s`.
pub fn find_char_from(s: &[char], from: usize, c: char) -> (r: Option<usize>)
    requires
        from <= s.len(),
    ensures
        match first_index_of(s@.skip(from as int), c) {
            Some(i) => r == Some((from + i) as usize),
            None => r is None,
        },
{
    let mut i: usize = from;
    while i < s.len()
        invariant
            from <= i <= s.len(),
            forall|j: int| from <= j < i ==> s@[j] != c,
        decreases s.len() - i,
    {
        if s[i] == c {
            proof { lemma_first_index_found(s@.skip(from as int), c, (i - from) as int); }
            return Some(i);
        }
        i = i + 1;
    }
    proof { lemma_first_index_absent(s@.skip(from as int), c); }
    None
}

/// `first_index_of` finds `k` when `s[k] == c` and no earlier position holds `c`.
pub proof fn lemma_first_index_found(s: Seq<char>, c: char, k: int)
    requires
        0 <= k < s.len(),
        s[k] == c,
        forall|j: int| 0 <= j < k ==> s[j] != c,
    ensures
        first_index_of(s, c) == Some(k),
    decreases k,
{
    if k > 0 {
        lemma_first_index_found(s.drop_first(), c, k - 1);
    }
}

/// `first_index_of` is `None` when no position holds `c`.
pub proof fn lemma_first_index_absent(s: Seq<char>, c: char)
    requires
        forall|j: int| 0 <= j < s.len() ==> s[j] != c,
    ensures
        first_index_of(s, c) is None,
    decreases s.len(),
{
    if s.len() > 0 {
        lemma_first_index_absent(s.drop_first(), c);
    }
}

/// Characterisation of `first_index_of` by positions.
pub proof fn lemma_first_index_props(s: Seq<char>, c: char)
    ensures
        match first_index_of(s, c) {
            Some(i) => 0 <= i < s.len() && s[i] == c && forall|j: int| 0 <= j < i ==> s[j] != c,
            None => forall|j: int| 0 <= j < s.len() ==> s[j] != c,
        },
    decreases s.len(),
{
    if s.len() > 0 {
        lemma_first_index_props(s.drop_first(), c);
        assert forall|j: int| 1 <= j < s.len() implies s[j] == s.drop_first()[j - 1] by {}
    }
}

/// Characterisation of `last_index_of` by positions.
pub proof fn lemma_last_index_props(s: Seq<char>, c: char)
    ensures
        match last_index_of(s, c) {
            Some(i) => 0 <= i < s.len() && s[i] == c && forall|j: int| i < j < s.len() ==> s[j] != c,
            None => forall|j: int| 0 <= j < s.len() ==> s[j] != c,
        },
    decreases s.len(),
{
    if s.len() > 0 {
        lemma_last_index_props(s.drop_last(), c);
        assert forall|j: int| 0 <= j < s.len() - 1 implies s[j] == s.drop_last()[j] by {}
    }
}

/// Index of the last `c` in `s`.
pub fn rfind_char(s: &[char], c: char) -> (r: Option<usize>)
    ensures
        match last_index_of(s@, c) {
            Some(i) => r == Some(i as usize),
            None => r is None,
        },
        r matches Some(k) ==> k < s@.len() && last_index_of(s@, c) == Some(k as int),
{
    let mut i = s.len();
    while i > 0
        invariant
            0 <= i <= s.len(),
            forall|j: int| i <= j < s.len() ==> s@[j] != c,
        decreases i,
    {
        if s[i - 1] == c {
            proof { lemma_last_index_found(s@, c, (i - 1) as int); }
            return Some(i - 1);
        }
        i = i - 1;
    }
    proof { lemma_last_index_absent(s@, c); }
    None
}

/// `last_index_of` finds `k` when `s[k] == c` and no later position holds `c`.
pub proof fn lemma_last_index_found(s: Seq<char>, c: char, k: int)
    requires
        0 <= k < s.len(),
        s[k] == c,
        forall|j: int| k < j < s.len() ==> s[j] != c,
    ensures
        last_index_of(s, c) == Some(k),
    decreases s.len(),
{
    if k < s.len() - 1 {
        lemma_last_index_found(s.drop_last(), c, k);
    }
}

/// `last_index_of` is `None` when no position holds `c`.
pub proof fn lemma_last_index_absent(s: Seq<char>, c: char)
    requires
        forall|j: int| 0 <= j < s.len() ==> s[j] != c,
    ensures
        last_index_of(s, c) is None,
    decreases s.len(),
{
    if s.len() > 0 {
        lemma_last_index_absent(s.drop_last(), c);
    }
}

/// The part of `s` after the last `sep`.
pub fn after_last_char(s: &[char], sep: char) -> (r: Vec<char>)
    ensures
        r@ == after_last(s@, sep),
{
    proof { lemma_last_index_props(s@, sep); }
    match rfind_char(s, sep) {
        Some(i) => {
            assert(i < s.len());
            let r = slice_vec(s, i + 1, s.len());
            assert(r@ =~= s@.skip(i + 1));
            r
        },
        None => slice_vec(s, 0, s.len()),
    }
}

/// `s` with every `from` replaced by `to`.
pub fn replace_char_vec(s: &[char], from: char, to: char) -> (r: Vec<char>)
    ensures
        r@ == replace_char(s@, from, to),
{
    let mut v: Vec<char> = Vec::new();
    let mut i: usize = 0;
    while i < s.len()
        invariant
            0 <= i <= s.len(),
            v@ =~= replace_char(s@.take(i as int), from, to),
        decreases s.len() - i,
    {
        let c = s[i];
        v.push(if c == from { to } else { c });
        i = i + 1;
    }
    assert(s@.take(s.len() as int) =~= s@);
    v
}

/// Joins the parts with `sep`.
pub fn join_vecs(parts: &Vec<Vec<char>>, sep: &str) -> (r: Vec<char>)
    ensures
        r@ == join(parts@.map_values(|p: Vec<char>| p@), sep@),
{
    let ghost views = parts@.map_values(|p: Vec<char>| p@);
    let mut out: Vec<char> = Vec::new();
    let mut i: usize = 0;
    while i < parts.len()
        invariant
            0 <= i <= parts.len(),
            views == parts@.map_values(|p: Vec<char>| p@),
            out@ == join(views.take(i as int), sep@),
        decreases parts.len() - i,
    {
        if i > 0 {
            push_str(&mut out, sep);
        }
        push_seq(&mut out, parts[i].as_slice());
        i = i + 1;
        assert(views.take(i as int).drop_last() =~= views.take((i - 1) as int));
        if i == 1 {
            assert(views.take(0) =~= Seq::<Seq<char>>::empty());
        }
    }
    assert(views.take(parts.len() as int) =~= views);
    out
}

/// `s` split at every `c`: one more part than there are separators.
pub open spec fn split_on(s: Seq<char>, c: char) -> Seq<Seq<char>>
    decreases s.len(),
{
    match first_index_of(s, c) {
        Some(i) => {
            if 0 <= i < s.len() {
                seq![s.take(i)] + split_on(s.skip(i + 1), c)
            } else {
                seq![s]
            }
        },
        None => seq![s],
    }
}

/// Split `s` at every `c`.
pub fn split_chars(s: &[char], c: char) -> (r: Vec<Vec<char>>)
    ensures
        r@.map_values(|p: Vec<char>| p@) == split_on(s@, c),
        r@.len() >= 1,
{
    let mut parts: Vec<Vec<char>> = Vec::new();
    let mut start: usize = 0;
    assert(s@.skip(0) =~= s@);
    loop
        invariant
            0 <= start <= s.len(),
            parts@.map_values(|p: Vec<char>| p@) + split_on(s@.skip(start as int), c) == split_on(s@, c),
        decreases s.len() - start,
    {
        proof { lemma_first_index_props(s@.skip(start as int), c); }
        match find_char_from(s, start, c) {
            Some(j) => {
                let part = slice_vec(s, start, j);
                let ghost rest = s@.skip(start as int);
                assert(part@ =~= rest.take(j - start));
                assert(rest.skip(j - start + 1) =~= s@.skip(j + 1));
                let ghost before = parts@.map_values(|p: Vec<char>| p@);
                parts.push(part);
                assert(parts@.map_values(|p: Vec<char>| p@) =~= before.push(rest.take(j - start)));
                assert(seq![rest.take(j - start)] + split_on(s@.skip(j + 1), c) == split_on(rest, c));
                assert(before.push(rest.take(j - start)) + split_on(s@.skip(j + 1), c) =~= before + (seq![rest.take(j - start)] + split_on(s@.skip(j + 1), c)));
                start = j + 1;
            },
            None => {
                let part = slice_vec(s, start, s.len());
                assert(part@ =~= s@.skip(start as int));
                let ghost before = parts@.map_values(|p: Vec<char>| p@);
                parts.push(part);
                assert(parts@.map_values(|p: Vec<char>| p@) =~= before + split_on(s@.skip(start as int), c));
                return parts;
            },
        }
    }
}

/// Whether a file name has extension `ext`, as `Path::extension` reads it:
/// the text after its last `.`, where that `.` is not its first character.
pub open spec fn has_extension(name: Seq<char>, ext: Seq<char>) -> bool {
    match last_index_of(name, '.') {
        Some(i) => i > 0 && name.skip(i + 1) == ext,
        None => false,
    }
}

/// Whether a file name has extension `ext`.
pub fn file_has_extension(file_name: &str, ext: &str) -> (r: bool)
    ensures
        r == has_extension(file_name@, ext@),
{
    let v = chars_of(file_name);
    proof { lemma_last_index_props(v@, '.'); }
    match rfind_char(v.as_slice(), '.') {
        Some(i) => {
            if i == 0 {
                return false;
            }
            let rest = slice_vec(&v, i + 1, v.len());
            assert(rest@ =~= file_name@.skip(i + 1));
            str_eq(string_of(&rest).as_str(), ext)
        },
        None => false,
    }
}
} // verus!
