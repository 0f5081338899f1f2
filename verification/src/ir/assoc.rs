//! Association lists keyed by strings: the maps of the IR and the schema lock.
//! Lookup returns the first entry with the key; insertion replaces the value of
//! an existing key in place, so keys stay unique.

use vstd::prelude::*;

verus! {

/// The value of the first entry at or after `i` whose key is `k`.
pub open spec fn lookup_from<V>(e: Seq<(String, V)>, k: Seq<char>, i: int) -> Option<V>
    decreases e.len() - i,
{
    if i < 0 || i >= e.len() {
        None
    } else if e[i].0@ == k {
        Some(e[i].1)
    } else {
        lookup_from(e, k, i + 1)
    }
}

/// The value bound to `k` (that of the first entry with that key).
pub open spec fn lookup<V>(e: Seq<(String, V)>, k: Seq<char>) -> Option<V> {
    lookup_from(e, k, 0)
}

/// Whether some entry has key `k`.
pub open spec fn has_key<V>(e: Seq<(String, V)>, k: Seq<char>) -> bool {
    exists|i: int| 0 <= i < e.len() && e[i].0@ == k
}

/// No two entries share a key.
pub open spec fn keys_unique<V>(e: Seq<(String, V)>) -> bool {
    forall|i: int, j: int| 0 <= i < j < e.len() ==> e[i].0@ != e[j].0@
}

pub proof fn lemma_lookup_from_none<V>(e: Seq<(String, V)>, k: Seq<char>, i: int)
    requires
        0 <= i,
        forall|j: int| i <= j < e.len() ==> e[j].0@ != k,
    ensures
        lookup_from(e, k, i) is None,
    decreases e.len() - i,
{
    if i < e.len() {
        lemma_lookup_from_none(e, k, i + 1);
    }
}

pub proof fn lemma_lookup_some<V>(e: Seq<(String, V)>, k: Seq<char>, i: int, j: int)
    requires
        0 <= i <= j < e.len(),
        e[j].0@ == k,
        forall|m: int| i <= m < j ==> e[m].0@ != k,
    ensures
        lookup_from(e, k, i) == Some(e[j].1),
    decreases j - i,
{
    if i < j {
        lemma_lookup_some(e, k, i + 1, j);
    }
}

/// The index of the first entry with key `k`.
pub fn find_key<V>(e: &Vec<(String, V)>, k: &str) -> (r: Option<usize>)
    ensures
        match r {
            Some(i) => i < e@.len() && e@[i as int].0@ == k@ && lookup(e@, k@) == Some(e@[i as int].1)
                && (forall|m: int| 0 <= m < i ==> e@[m].0@ != k@),
            None => lookup(e@, k@) is None && !has_key(e@, k@),
        },
{
    let mut i: usize = 0;
    while i < e.len()
        invariant
            i <= e@.len(),
            forall|m: int| 0 <= m < i ==> e@[m].0@ != k@,
        decreases e.len() - i,
    {
        if crate::text::str_eq(e[i].0.as_str(), k) {
            proof {
                lemma_lookup_some(e@, k@, 0, i as int);
            }
            return Some(i);
        }
        i = i + 1;
    }
    proof {
        lemma_lookup_from_none(e@, k@, 0);
    }
    None
}

/// Binds `k` to `v`: replaces the value of an existing entry with key `k`, or
/// appends a new entry.
pub fn assoc_insert<V>(e: &mut Vec<(String, V)>, k: String, v: V)
    ensures
        lookup(final(e)@, k@) == Some(v),
        forall|q: Seq<char>| q != k@ ==> lookup(final(e)@, q) == lookup(old(e)@, q),
        keys_unique(old(e)@) ==> keys_unique(final(e)@),
        has_key(old(e)@, k@) ==> final(e)@.len() == old(e)@.len(),
        !has_key(old(e)@, k@) ==> final(e)@ == old(e)@.push((k, v)),
{
    let found = find_key(e, k.as_str());
    let ghost old_e = e@;
    match found {
        Some(i) => {
            let ghost kv = k@;
            e.set(i, (k, v));
            proof {
                lemma_lookup_some(e@, kv, 0, i as int);
                assert forall|q: Seq<char>| q != kv implies lookup(e@, q) == lookup(old_e, q) by {
                    lemma_lookup_replace(old_e, e@, q, i as int, 0);
                }
                assert(has_key(old_e, kv));
            }
        },
        None => {
            let ghost kv = k@;
            e.push((k, v));
            proof {
                assert(forall|m: int| 0 <= m < old_e.len() ==> e@[m] == old_e[m]);
                lemma_lookup_some(e@, kv, 0, old_e.len() as int);
                assert forall|q: Seq<char>| q != kv implies lookup(e@, q) == lookup(old_e, q) by {
                    lemma_lookup_push(old_e, e@, q, 0);
                }
            }
        },
    }
}

proof fn lemma_lookup_replace<V>(a: Seq<(String, V)>, b: Seq<(String, V)>, q: Seq<char>, i: int, s: int)
    requires
        a.len() == b.len(),
        0 <= i < a.len(),
        0 <= s,
        a[i].0@ != q,
        b[i].0@ != q,
        forall|m: int| 0 <= m < a.len() && m != i ==> b[m] == a[m],
    ensures
        lookup_from(b, q, s) == lookup_from(a, q, s),
    decreases a.len() - s,
{
    if s < a.len() {
        lemma_lookup_replace(a, b, q, i, s + 1);
    }
}

proof fn lemma_lookup_push<V>(a: Seq<(String, V)>, b: Seq<(String, V)>, q: Seq<char>, s: int)
    requires
        b.len() == a.len() + 1,
        0 <= s,
        b[a.len() as int].0@ != q,
        forall|m: int| 0 <= m < a.len() ==> b[m] == a[m],
    ensures
        lookup_from(b, q, s) == lookup_from(a, q, s),
    decreases b.len() - s,
{
    if s < b.len() {
        lemma_lookup_push(a, b, q, s + 1);
    }
}

} // verus!
