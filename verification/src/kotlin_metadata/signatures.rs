//! JVM descriptor hints, getter names and the signature lookup map.
use vstd::prelude::*;
use super::{Function, KotlinSignatures, NameResolver, TypeTable};
use super::format::{function_flags, has_bit};
use crate::text::{chars_of, decimal, push_decimal, push_seq, push_str, str_eq, string_of};

verus! {

/// The descriptor hint of a function: `params:` and its number of JVM
/// parameters (a suspend function takes one more, its continuation).
pub open spec fn spec_descriptor_hint(func: Function) -> Seq<char> {
    let n = func.value_parameter@.len();
    let total: nat = if has_bit(function_flags(func), 16384) { n + 1 } else { n };
    "params:"@ + decimal(total)
}

/// Build an approximate JVM descriptor hint for matching functions.
/// This is not a full descriptor — just enough info to disambiguate overloads.
pub fn build_jvm_descriptor_hint(
    func: &Function,
    resolver: &NameResolver,
    type_table: Option<&TypeTable>,
) -> (r: String)
    requires
        func.value_parameter@.len() < usize::MAX,
    ensures
        r@ == spec_descriptor_hint(*func),
{
    let param_count = func.value_parameter.len();
    let flags: i32 = match func.flags {
        Some(x) => x,
        None => match func.old_flags { Some(x) => x, None => 6 },
    };
    let total = if flags & 16384 != 0 { param_count + 1 } else { param_count };
    let mut out: Vec<char> = Vec::new();
    push_str(&mut out, "params:");
    push_decimal(&mut out, total as u128);
    string_of(&out)
}

/// The uppercase mapping of a character, as `char::to_uppercase` yields it.
pub uninterp spec fn char_uppercase(c: char) -> Seq<char>;

/// Calls `char::to_uppercase` and collects what it yields.  Its
/// documentation promises one or more characters; which ones, the Unicode
/// case tables decide, and this contract leaves that to the name.
#[verifier::external_body]
fn uppercase_of(c: char) -> (r: Vec<char>)
    ensures
        r@ == char_uppercase(c),
        r@.len() >= 1,
{
    c.to_uppercase().collect()
}

/// The getter name of a property: `get`, then the name with its first
/// character in uppercase.
pub open spec fn spec_getter_name(name: Seq<char>) -> Seq<char> {
    if name.len() == 0 {
        "get"@
    } else {
        "get"@ + char_uppercase(name[0]) + name.drop_first()
    }
}

/// Generate the JVM getter method name for a Kotlin property.
pub fn property_getter_name(property_name: &str) -> (r: String)
    ensures
        r@ == spec_getter_name(property_name@),
{
    let v = chars_of(property_name);
    let mut out: Vec<char> = Vec::new();
    push_str(&mut out, "get");
    if v.len() > 0 {
        let up = uppercase_of(v[0]);
        push_seq(&mut out, &up);
        let rest = crate::text::slice_vec(&v, 1, v.len());
        push_seq(&mut out, &rest);
        assert(rest@ =~= property_name@.drop_first());
    }
    string_of(&out)
}

/// Lookup from JVM member name to Kotlin display, built from the members of
/// a class: each name maps to the display of its first member.
pub struct SignatureMap {
    entries: Vec<(String, String)>,
}

/// The index of the first entry of `keys` equal to `k`.
pub open spec fn first_key_index(keys: Seq<Seq<char>>, k: Seq<char>) -> Option<int>
    decreases keys.len(),
{
    if keys.len() == 0 {
        None
    } else {
        match first_key_index(keys.drop_last(), k) {
            Some(i) => Some(i),
            None => if keys.last() == k { Some(keys.len() - 1) } else { None },
        }
    }
}

/// The JVM names of the members, in order.
pub open spec fn member_names(sigs: KotlinSignatures) -> Seq<Seq<char>> {
    sigs.members@.map_values(|m: super::KotlinMemberSignature| m.jvm_name@)
}

/// The display the map holds for `key`: that of the first member named `key`.
pub open spec fn first_display(sigs: KotlinSignatures, key: Seq<char>) -> Option<Seq<char>> {
    match first_key_index(member_names(sigs), key) {
        Some(i) => Some(sigs.members@[i].kotlin_display@),
        None => None,
    }
}

impl SignatureMap {
    /// The map as a mathematical map from names to displays.
    pub closed spec fn view(&self) -> Map<Seq<char>, Seq<char>> {
        Map::new(
            |k: Seq<char>| exists|i: int| 0 <= i < self.entries@.len() && self.entries@[i].0@ == k,
            |k: Seq<char>| self.entries@[choose|i: int| 0 <= i < self.entries@.len() && self.entries@[i].0@ == k].1@,
        )
    }

    /// No name occurs twice among the entries.
    pub closed spec fn wf(&self) -> bool {
        forall|i: int, j: int|
            0 <= i < j < self.entries@.len() ==> self.entries@[i].0@ != self.entries@[j].0@
    }

    /// Number of distinct names.
    pub closed spec fn spec_len(&self) -> nat {
        self.entries@.len()
    }

    /// The display for a JVM name.
    pub fn get(&self, key: &str) -> (r: Option<&String>)
        requires
            self.wf(),
        ensures
            match r {
                Some(v) => self.view().dom().contains(key@) && v@ == self.view()[key@],
                None => !self.view().dom().contains(key@),
            },
    {
        let mut i: usize = 0;
        while i < self.entries.len()
            invariant
                self.wf(),
                0 <= i <= self.entries@.len(),
                forall|j: int| 0 <= j < i ==> self.entries@[j].0@ != key@,
            decreases self.entries@.len() - i,
        {
            if str_eq(self.entries[i].0.as_str(), key) {
                proof {
                    assert forall|j: int| 0 <= j < self.entries@.len() && self.entries@[j].0@ == key@ implies j == i by {
                        if j != i {
                            if j > i {
                                assert(self.entries@[i as int].0@ != self.entries@[j].0@);
                            }
                        }
                    }
                    assert(self.view().dom().contains(key@));
                }
                return Some(&self.entries[i].1);
            }
            i = i + 1;
        }
        None
    }

    /// Number of distinct names in the map.
    pub fn len(&self) -> (r: usize)
        ensures
            r == self.spec_len(),
    {
        self.entries.len()
    }

    /// Whether the map holds no name.
    pub fn is_empty(&self) -> (r: bool)
        ensures
            r == (self.spec_len() == 0),
    {
        self.entries.len() == 0
    }
}

/// Build a lookup map from JVM method name to Kotlin signature.
///
/// For overloaded methods, the first match wins (best-effort).
pub fn build_signature_map(sigs: &KotlinSignatures) -> (r: SignatureMap)
    ensures
        r.wf(),
        forall|k: Seq<char>| #![auto] r.view().dom().contains(k) <==> first_display(*sigs, k) is Some,
        forall|k: Seq<char>| #![auto] r.view().dom().contains(k) ==> r.view()[k] == first_display(*sigs, k)->0,
        r.spec_len() == member_names(*sigs).to_set().len(),
{
    let mut entries: Vec<(String, String)> = Vec::new();
    let ghost names = member_names(*sigs);
    let mut i: usize = 0;
    assert(names.take(0).to_set() =~= Set::empty());
    while i < sigs.members.len()
        invariant
            0 <= i <= sigs.members@.len(),
            names == member_names(*sigs),
            names.len() == sigs.members@.len(),
            forall|a: int, b: int| 0 <= a < b < entries@.len() ==> entries@[a].0@ != entries@[b].0@,
            forall|e: int| 0 <= e < entries@.len() ==> #[trigger] first_key_index(names.take(i as int), entries@[e].0@) is Some,
            forall|e: int| 0 <= e < entries@.len() ==>
                sigs.members@[first_key_index(names.take(i as int), #[trigger] entries@[e].0@)->0].kotlin_display@ == entries@[e].1@,
            forall|k: Seq<char>| #[trigger] first_key_index(names.take(i as int), k) is Some ==>
                exists|e: int| 0 <= e < entries@.len() && entries@[e].0@ == k,
            entries@.len() == names.take(i as int).to_set().len(),
        decreases sigs.members@.len() - i,
    {
        let member = &sigs.members[i];
        let ghost key = member.jvm_name@;
        let ghost prev = names.take(i as int);
        assert(names.take(i + 1) =~= prev.push(key));
        assert(names.take(i + 1).drop_last() =~= prev);
        let mut found = false;
        let mut j: usize = 0;
        while j < entries.len()
            invariant
                key == sigs.members@[i as int].jvm_name@,
                i < sigs.members@.len(),
                0 <= j <= entries@.len(),
                !found ==> forall|e: int| 0 <= e < j ==> entries@[e].0@ != key,
                found ==> exists|e: int| 0 <= e < entries@.len() && entries@[e].0@ == key,
            decreases entries@.len() - j,
        {
            if str_eq(entries[j].0.as_str(), sigs.members[i].jvm_name.as_str()) {
                found = true;
            }
            j = j + 1;
        }
        proof {
            lemma_first_key_index_push(prev, key);
            lemma_set_push_len(prev, key);
        }
        if !found {
            proof {
                assert(first_key_index(prev, key) is None) by {
                    if first_key_index(prev, key) is Some {
                        lemma_first_key_index_some(prev, key);
                    }
                }
            }
            let ghost old_entries = entries@;
            entries.push((member.jvm_name.clone(), member.kotlin_display.clone()));
            proof {
                assert forall|k: Seq<char>| #[trigger] first_key_index(names.take(i + 1), k) is Some implies
                    exists|e: int| 0 <= e < entries@.len() && entries@[e].0@ == k by {
                    lemma_first_key_index_push(prev, k);
                    if k == key {
                        assert(entries@[old_entries.len() as int].0@ == k);
                    } else {
                        let e = choose|e: int| 0 <= e < old_entries.len() && old_entries[e].0@ == k;
                        assert(entries@[e].0@ == k);
                    }
                }
                assert forall|e: int| 0 <= e < entries@.len() implies #[trigger] first_key_index(names.take(i + 1), entries@[e].0@) is Some
                    && sigs.members@[first_key_index(names.take(i + 1), entries@[e].0@)->0].kotlin_display@ == entries@[e].1@ by {
                    lemma_first_key_index_push(prev, entries@[e].0@);
                    if e < old_entries.len() {
                        assert(first_key_index(prev, old_entries[e].0@) is Some);
                    } else {
                        assert(entries@[e].0@ == key);
                    }
                }
                assert(!prev.to_set().contains(key)) by {
                    if prev.to_set().contains(key) {
                        let x = choose|x: int| 0 <= x < prev.len() && prev[x] == key;
                        lemma_first_key_index_bound(prev, key, x);
                    }
                }
            }
        } else {
            proof {
                let e = choose|e: int| 0 <= e < entries@.len() && entries@[e].0@ == key;
                let ghost kk = entries@[e].0@;
                assert(first_key_index(prev, kk) is Some);
                lemma_first_key_index_some(prev, key);
                assert forall|k: Seq<char>| #[trigger] first_key_index(names.take(i + 1), k) is Some implies
                    exists|e2: int| 0 <= e2 < entries@.len() && entries@[e2].0@ == k by {
                    lemma_first_key_index_push(prev, k);
                    if k == key {
                        assert(entries@[e].0@ == k);
                    }
                }
                assert forall|e2: int| 0 <= e2 < entries@.len() implies #[trigger] first_key_index(names.take(i + 1), entries@[e2].0@) is Some
                    && sigs.members@[first_key_index(names.take(i + 1), entries@[e2].0@)->0].kotlin_display@ == entries@[e2].1@ by {
                    lemma_first_key_index_push(prev, entries@[e2].0@);
                }
            }
        }
        i = i + 1;
    }
    assert(names.take(sigs.members@.len() as int) =~= names);
    let r = SignatureMap { entries };
    proof {
        assert forall|k: Seq<char>| #![auto] r.view().dom().contains(k) <==> first_display(*sigs, k) is Some by {
            if first_key_index(names, k) is Some {
                let e = choose|e: int| 0 <= e < r.entries@.len() && r.entries@[e].0@ == k;
                assert(r.entries@[e].0@ == k);
            }
        }
        assert forall|k: Seq<char>| #![auto] r.view().dom().contains(k) implies r.view()[k] == first_display(*sigs, k)->0 by {
            let e = choose|e: int| 0 <= e < r.entries@.len() && r.entries@[e].0@ == k;
            assert(first_key_index(names, r.entries@[e].0@) is Some);
        }
    }
    r
}

/// Pushing a name onto the list: the first index of any name is unchanged,
/// except that a name absent before is now found at the end.
pub proof fn lemma_first_key_index_push(keys: Seq<Seq<char>>, k: Seq<char>)
    ensures
        forall|x: Seq<char>| #[trigger] first_key_index(keys.push(k), x) == match first_key_index(keys, x) {
            Some(i) => Some(i),
            None => if x == k { Some(keys.len() as int) } else { None },
        },
{
    assert(keys.push(k).drop_last() =~= keys);
}

/// A found index is in range and holds the name.
pub proof fn lemma_first_key_index_some(keys: Seq<Seq<char>>, k: Seq<char>)
    requires
        first_key_index(keys, k) is Some,
    ensures
        0 <= first_key_index(keys, k)->0 < keys.len(),
        keys[first_key_index(keys, k)->0] == k,
    decreases keys.len(),
{
    if first_key_index(keys.drop_last(), k) is Some {
        lemma_first_key_index_some(keys.drop_last(), k);
    }
}

/// A name that occurs in the list is found at or before its occurrence.
pub proof fn lemma_first_key_index_bound(keys: Seq<Seq<char>>, k: Seq<char>, x: int)
    requires
        0 <= x < keys.len(),
        keys[x] == k,
    ensures
        first_key_index(keys, k) is Some,
        first_key_index(keys, k)->0 <= x,
    decreases keys.len(),
{
    if x < keys.len() - 1 {
        lemma_first_key_index_bound(keys.drop_last(), k, x);
    } else if first_key_index(keys.drop_last(), k) is Some {
        lemma_first_key_index_some(keys.drop_last(), k);
    }
}

proof fn lemma_set_push_len(s: Seq<Seq<char>>, k: Seq<char>)
    ensures
        s.push(k).to_set() == s.to_set().insert(k),
        s.to_set().finite(),
        s.push(k).to_set().len() == s.to_set().len() + (if s.to_set().contains(k) { 0int } else { 1 }),
{
    broadcast use vstd::seq_lib::seq_to_set_is_finite;
    broadcast use vstd::set::group_set_axioms;
    assert(s.push(k).to_set() =~= s.to_set().insert(k)) by {
        assert forall|x: Seq<char>| s.push(k).to_set().contains(x) <==> s.to_set().insert(k).contains(x) by {
            if s.push(k).to_set().contains(x) && x != k {
                let i = choose|i: int| 0 <= i < s.push(k).len() && s.push(k)[i] == x;
                assert(s[i] == x);
            }
            if s.to_set().contains(x) {
                let i = choose|i: int| 0 <= i < s.len() && s[i] == x;
                assert(s.push(k)[i] == x);
            }
            if x == k {
                assert(s.push(k)[s.len() as int] == x);
            }
        }
    }
}

} // verus!
