//! Glob patterns over GAV coordinates and package names: `*` matches any
//! run of characters, `?` any one character, every other character itself.
use vstd::prelude::*;
use crate::text::chars_of;

verus! {

/// Whether `t` matches the whole glob pattern `p`.
pub open spec fn glob_match(t: Seq<char>, p: Seq<char>) -> bool
    decreases p.len() + t.len(),
{
    if p.len() == 0 {
        t.len() == 0
    } else if p[0] == '*' {
        glob_match(t, p.drop_first()) || (t.len() > 0 && glob_match(t.drop_first(), p))
    } else {
        t.len() > 0 && (p[0] == '?' || p[0] == t[0]) && glob_match(t.drop_first(), p.drop_first())
    }
}

/// Whether `text` matches the glob `pattern` (the whole text).
pub fn matches_glob_pattern(text: &str, pattern: &str) -> (r: bool)
    ensures
        r == glob_match(text@, pattern@),
{
    let t = chars_of(text);
    let p = chars_of(pattern);
    let n = t.len();
    let m = p.len();
    // next[i] == glob_match(t[i..], p[j..]) for the row below the one built.
    let mut next: Vec<bool> = Vec::new();
    let mut i: usize = 0;
    assert(p@.skip(m as int) =~= Seq::<char>::empty());
    while i < n
        invariant
            n == t@.len(),
            m == p@.len(),
            0 <= i <= n,
            next@.len() == i,
            p@.skip(m as int) =~= Seq::<char>::empty(),
            forall|k: int| 0 <= k < i ==> next@[k] == glob_match(t@.skip(k), p@.skip(m as int)),
        decreases n - i,
    {
        next.push(false);
        i = i + 1;
    }
    assert(t@.skip(n as int) =~= Seq::<char>::empty());
    next.push(true);
    let mut j: usize = m;
    while j > 0
        invariant
            n == t@.len(),
            m == p@.len(),
            0 <= j <= m,
            next@.len() == n + 1,
            forall|k: int| 0 <= k <= n ==> next@[k] == glob_match(t@.skip(k), p@.skip(j as int)),
        decreases j,
    {
        let jj = j - 1;
        let pc = p[jj];
        let mut cur: Vec<bool> = Vec::new();
        let mut c: usize = 0;
        while c < n
            invariant
                c <= n,
                cur@.len() == c,
            decreases n - c,
        {
            cur.push(false);
            c = c + 1;
        }
        let ghost pj = p@.skip(jj as int);
        assert(pj.len() > 0);
        assert(pj[0] == pc);
        assert(pj.drop_first() =~= p@.skip(jj + 1));
        assert(t@.skip(n as int) =~= Seq::<char>::empty());
        // The last column: the empty rest of the text.
        let last = if pc == '*' { next[n] } else { false };
        assert(last == glob_match(t@.skip(n as int), pj));
        cur.push(last);
        let mut i: usize = n;
        while i > 0
            invariant
                n == t@.len(),
                m == p@.len(),
                jj < m,
                pc == p@[jj as int],
                pj == p@.skip(jj as int),
                pj.len() > 0,
                pj[0] == pc,
                pj.drop_first() == p@.skip(jj + 1),
                0 <= i <= n,
                cur@.len() == n + 1,
                next@.len() == n + 1,
                forall|k: int| 0 <= k <= n ==> next@[k] == glob_match(t@.skip(k), p@.skip(jj + 1)),
                forall|k: int| i <= k <= n ==> cur@[k] == glob_match(t@.skip(k), pj),
            decreases i,
        {
            let k = i - 1;
            let ghost tk = t@.skip(k as int);
            assert(tk.len() > 0);
            assert(tk[0] == t@[k as int]);
            assert(tk.drop_first() =~= t@.skip(k + 1));
            let v = if pc == '*' {
                next[k] || cur[k + 1]
            } else {
                (pc == '?' || pc == t[k]) && next[k + 1]
            };
            assert(v == glob_match(tk, pj));
            cur.set(k, v);
            i = k;
        }
        next = cur;
        j = jj;
    }
    assert(p@.skip(0) =~= p@);
    assert(t@.skip(0) =~= t@);
    next[0]
}

/// A pattern without wildcards matches exactly the text that equals it.
pub proof fn law_literal_pattern(t: Seq<char>, p: Seq<char>)
    requires
        forall|i: int| 0 <= i < p.len() ==> p[i] != '*' && p[i] != '?',
    ensures
        glob_match(t, p) <==> t == p,
    decreases p.len(),
{
    if p.len() > 0 {
        assert(p[0] != '*' && p[0] != '?');
        let pt = p.drop_first();
        assert forall|i: int| 0 <= i < pt.len() implies pt[i] != '*' && pt[i] != '?' by {
            assert(pt[i] == p[i + 1]);
        }
        if t.len() > 0 {
            law_literal_pattern(t.drop_first(), pt);
            if t == p {
                assert(t.drop_first() =~= pt);
            }
            if t[0] == p[0] && t.drop_first() == pt {
                assert(t =~= p) by {
                    assert forall|i: int| 0 <= i < t.len() implies t[i] == p[i] by {
                        if i > 0 {
                            assert(t[i] == t.drop_first()[i - 1]);
                            assert(p[i] == pt[i - 1]);
                        }
                    }
                }
            }
        }
    } else {
        if t == p {
        } else {
            assert(t.len() != 0) by {
                if t.len() == 0 {
                    assert(t =~= p);
                }
            }
        }
    }
}

/// A lone `*` matches every text.
pub proof fn law_star_matches_everything(t: Seq<char>)
    ensures
        glob_match(t, seq!['*']),
    decreases t.len(),
{
    assert(seq!['*'].drop_first() =~= Seq::<char>::empty());
    assert(seq!['*'][0] == '*');
    assert(seq!['*'].len() == 1);
    if t.len() > 0 {
        law_star_matches_everything(t.drop_first());
    } else {
        assert(t =~= Seq::<char>::empty());
        assert(glob_match(t, seq!['*'].drop_first()));
    }
}

} // verus!
