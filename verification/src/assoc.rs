//! Maps keyed by text, kept as vectors of entries.
//!
//! The first entry with a given key is the one that counts; the map that a
//! vector stands for is `assoc_map`. Inserting replaces that entry or
//! appends a new one, removing drops every entry with the key.
//!
//! These tables stand where a `HashMap<String, _>` would: vstd's
//! specification of `HashMap` holds only for key types of which
//! `obeys_key_model` is known, vstd states that only for primitive keys, and
//! for `String` it could only be assumed. The tables give the same map
//! semantics (insert overwrites, remove drops the key, lookup finds the
//! value) with every step proved.
use vstd::prelude::*;

verus! {

/// The map that a vector of entries stands for: the first entry with a key
/// gives the key's value.
pub open spec fn assoc_map<V>(s: Seq<(String, V)>) -> Map<Seq<char>, V>
    decreases s.len(),
{
    if s.len() == 0 {
        Map::empty()
    } else {
        assoc_map(s.drop_first()).insert(s[0].0@, s[0].1)
    }
}

/// The entries of `s` whose key is not `k`, in order.
pub open spec fn without_key<V>(s: Seq<(String, V)>, k: Seq<char>) -> Seq<(String, V)>
    decreases s.len(),
{
    if s.len() == 0 {
        s
    } else if s.last().0@ == k {
        without_key(s.drop_last(), k)
    } else {
        without_key(s.drop_last(), k).push(s.last())
    }
}

/// No key occurs in two entries of `s`.
pub open spec fn keys_unique<V>(s: Seq<(String, V)>) -> bool {
    forall|i: int, j: int| #![trigger s[i], s[j]] 0 <= i < j < s.len() ==> s[i].0@ != s[j].0@
}

/// A key is in the map exactly when some entry has it.
pub proof fn lemma_assoc_contains<V>(s: Seq<(String, V)>, k: Seq<char>)
    ensures
        assoc_map(s).contains_key(k) <==> exists|i: int| 0 <= i < s.len() && #[trigger] s[i].0@ == k,
    decreases s.len(),
{
    if s.len() > 0 {
        let t = s.drop_first();
        lemma_assoc_contains(t, k);
        if assoc_map(s).contains_key(k) && s[0].0@ != k {
            let j = choose|j: int| 0 <= j < t.len() && #[trigger] t[j].0@ == k;
            assert(s[j + 1].0@ == k);
        }
        if exists|i: int| 0 <= i < s.len() && #[trigger] s[i].0@ == k {
            let i = choose|i: int| 0 <= i < s.len() && #[trigger] s[i].0@ == k;
            if i > 0 {
                assert(t[i - 1].0@ == k);
            }
        }
    }
}

/// The value of a key is the value of its first entry.
pub proof fn lemma_assoc_first<V>(s: Seq<(String, V)>, i: int)
    requires
        0 <= i < s.len(),
        forall|j: int| 0 <= j < i ==> #[trigger] s[j].0@ != s[i].0@,
    ensures
        assoc_map(s).contains_key(s[i].0@),
        assoc_map(s)[s[i].0@] == s[i].1,
    decreases s.len(),
{
    if i > 0 {
        let t = s.drop_first();
        assert forall|j: int| 0 <= j < i - 1 implies #[trigger] t[j].0@ != t[i - 1].0@ by {
            assert(t[j] == s[j + 1]);
        }
        lemma_assoc_first(t, i - 1);
        assert(s[0].0@ != s[i].0@);
    }
}

/// Appending an entry adds its key when the key is new, and changes nothing
/// otherwise.
pub proof fn lemma_assoc_push<V>(s: Seq<(String, V)>, x: (String, V))
    ensures
        assoc_map(s).contains_key(x.0@) ==> assoc_map(s.push(x)) == assoc_map(s),
        !assoc_map(s).contains_key(x.0@) ==> assoc_map(s.push(x)) == assoc_map(s).insert(
            x.0@,
            x.1,
        ),
    decreases s.len(),
{
    if s.len() == 0 {
        assert(s.push(x).drop_first() =~= s);
    } else {
        let t = s.drop_first();
        assert(s.push(x).drop_first() =~= t.push(x));
        lemma_assoc_push(t, x);
        if assoc_map(s).contains_key(x.0@) {
            if s[0].0@ == x.0@ {
                if assoc_map(t).contains_key(x.0@) {
                    assert(assoc_map(s.push(x)) =~= assoc_map(s));
                } else {
                    assert(assoc_map(s.push(x)) =~= assoc_map(s));
                }
            } else {
                assert(assoc_map(s.push(x)) =~= assoc_map(s));
            }
        } else {
            assert(assoc_map(s.push(x)) =~= assoc_map(s).insert(x.0@, x.1));
        }
    }
}

/// Replacing the first entry of a key replaces the key's value.
pub proof fn lemma_assoc_update_first<V>(s: Seq<(String, V)>, i: int, x: (String, V))
    requires
        0 <= i < s.len(),
        s[i].0@ == x.0@,
        forall|j: int| 0 <= j < i ==> #[trigger] s[j].0@ != s[i].0@,
    ensures
        assoc_map(s.update(i, x)) == assoc_map(s).insert(x.0@, x.1),
    decreases s.len(),
{
    let u = s.update(i, x);
    if i == 0 {
        assert(u.drop_first() =~= s.drop_first());
        assert(assoc_map(u) =~= assoc_map(s).insert(x.0@, x.1));
    } else {
        let t = s.drop_first();
        assert(u.drop_first() =~= t.update(i - 1, x));
        assert forall|j: int| 0 <= j < i - 1 implies #[trigger] t[j].0@ != t[i - 1].0@ by {
            assert(t[j] == s[j + 1]);
        }
        lemma_assoc_update_first(t, i - 1, x);
        assert(s[0].0@ != x.0@);
        assert(assoc_map(u) =~= assoc_map(s).insert(x.0@, x.1));
    }
}

/// Appending at the end of a vector, seen from the front.
proof fn lemma_without_key_push<V>(s: Seq<(String, V)>, x: (String, V), k: Seq<char>)
    ensures
        without_key(s.push(x), k) == if x.0@ == k {
            without_key(s, k)
        } else {
            without_key(s, k).push(x)
        },
{
    assert(s.push(x).drop_last() =~= s);
}

proof fn lemma_without_key_len<V>(s: Seq<(String, V)>, k: Seq<char>)
    ensures
        without_key(s, k).len() <= s.len(),
    decreases s.len(),
{
    if s.len() > 0 {
        lemma_without_key_len(s.drop_last(), k);
    }
}

/// Every entry left by `without_key` is an entry of `s`, and no key occurs
/// twice in it when none occurs twice in `s`.
proof fn lemma_without_key_unique<V>(s: Seq<(String, V)>, k: Seq<char>)
    ensures
        forall|i: int|
            0 <= i < without_key(s, k).len() ==> exists|j: int|
                0 <= j < s.len() && #[trigger] without_key(s, k)[i] == s[j],
        keys_unique(s) ==> keys_unique(without_key(s, k)),
    decreases s.len(),
{
    if s.len() > 0 {
        let p = s.drop_last();
        let w = without_key(p, k);
        lemma_without_key_unique(p, k);
        assert forall|i: int| 0 <= i < without_key(s, k).len() implies exists|j: int|
            0 <= j < s.len() && #[trigger] without_key(s, k)[i] == s[j] by {
            if i < w.len() {
                assert(without_key(s, k)[i] == w[i]);
                let j = choose|j: int| 0 <= j < p.len() && #[trigger] w[i] == p[j];
                assert(s[j] == p[j]);
            } else {
                assert(without_key(s, k)[i] == s[s.len() - 1]);
            }
        }
        if keys_unique(s) {
            assert forall|j1: int, j2: int| 0 <= j1 < j2 < p.len() implies p[j1].0@ != p[j2].0@ by {
                assert(p[j1] == s[j1] && p[j2] == s[j2]);
            }
            let ws = without_key(s, k);
            assert forall|a: int, b: int| #![trigger ws[a], ws[b]] 0 <= a < b < ws.len() implies ws[a].0@
                != ws[b].0@ by {
                if b < w.len() {
                    assert(ws[a] == w[a] && ws[b] == w[b]);
                } else {
                    assert(ws[a] == w[a]);
                    assert(ws[b] == s.last());
                    let j = choose|j: int| 0 <= j < p.len() && #[trigger] w[a] == p[j];
                    assert(s[j] == p[j]);
                    assert(s[j].0@ != s[s.len() - 1].0@);
                }
            }
        }
    }
}

/// Dropping every entry of a key removes the key from the map.
pub proof fn lemma_assoc_without_key<V>(s: Seq<(String, V)>, k: Seq<char>)
    ensures
        assoc_map(without_key(s, k)) == assoc_map(s).remove(k),
    decreases s.len(),
{
    if s.len() > 0 {
        let p = s.drop_last();
        let x = s.last();
        assert(s =~= p.push(x));
        lemma_assoc_without_key(p, k);
        lemma_assoc_push(p, x);
        if x.0@ != k {
            lemma_assoc_push(without_key(p, k), x);
            assert(assoc_map(without_key(p, k)).contains_key(x.0@) <==> assoc_map(
                p,
            ).contains_key(x.0@));
            assert(assoc_map(without_key(s, k)) =~= assoc_map(s).remove(k));
        } else {
            assert(assoc_map(without_key(s, k)) =~= assoc_map(s).remove(k));
        }
    } else {
        assert(assoc_map(s).remove(k) =~= assoc_map(s));
    }
}

/// Finds the first entry with `key`.
pub fn assoc_find<V>(s: &Vec<(String, V)>, key: &str) -> (r: Option<usize>)
    ensures
        r is Some <==> assoc_map(s@).contains_key(key@),
        r matches Some(i) ==> i < s@.len() && s@[i as int].0@ == key@ && s@[i as int].1
            == assoc_map(s@)[key@] && forall|j: int| 0 <= j < i ==> #[trigger] s@[j].0@ != key@,
{
    let mut i: usize = 0;
    while i < s.len()
        invariant
            i <= s@.len(),
            forall|j: int| 0 <= j < i ==> #[trigger] s@[j].0@ != key@,
        decreases s@.len() - i,
    {
        if crate::text::str_eq(s[i].0.as_str(), key) {
            proof {
                lemma_assoc_first(s@, i as int);
            }
            return Some(i);
        }
        i = i + 1;
    }
    proof {
        lemma_assoc_contains(s@, key@);
    }
    None
}

/// Sets the value of `key` to `v`.
pub fn assoc_insert<V>(s: &mut Vec<(String, V)>, key: String, v: V)
    ensures
        assoc_map(final(s)@) == assoc_map(old(s)@).insert(key@, v),
        keys_unique(old(s)@) ==> keys_unique(final(s)@),
{
    match assoc_find(s, key.as_str()) {
        Some(i) => {
            proof {
                lemma_assoc_update_first(s@, i as int, (key, v));
            }
            s.set(i, (key, v));
        },
        None => {
            proof {
                lemma_assoc_push(s@, (key, v));
                lemma_assoc_contains(s@, key@);
            }
            s.push((key, v));
        },
    }
}

/// Removes `key` and its value.
pub fn assoc_remove<V>(s: &mut Vec<(String, V)>, key: &str)
    ensures
        assoc_map(final(s)@) == assoc_map(old(s)@).remove(key@),
        keys_unique(old(s)@) ==> keys_unique(final(s)@),
{
    let ghost orig = s@;
    let mut i: usize = 0;
    let mut j: usize = 0;
    let n = s.len();
    while j < n
        invariant
            n == orig.len(),
            j <= orig.len(),
            s@ == without_key(orig.take(j as int), key@) + orig.skip(j as int),
            i == without_key(orig.take(j as int), key@).len(),
        decreases orig.len() - j,
    {
        proof {
            lemma_without_key_len(orig.take(j as int), key@);
            assert(orig.take(j + 1) =~= orig.take(j as int).push(orig[j as int]));
            lemma_without_key_push(orig.take(j as int), orig[j as int], key@);
            assert(s@[i as int] == orig[j as int]);
        }
        if crate::text::str_eq(s[i].0.as_str(), key) {
            s.remove(i);
            proof {
                assert(s@ =~= without_key(orig.take(j + 1), key@) + orig.skip(j + 1));
            }
        } else {
            proof {
                assert(s@ =~= without_key(orig.take(j + 1), key@) + orig.skip(j + 1));
            }
            i = i + 1;
        }
        j = j + 1;
    }
    proof {
        assert(orig.take(orig.len() as int) =~= orig);
        assert(s@ =~= without_key(orig, key@));
        lemma_assoc_without_key(orig, key@);
        lemma_without_key_unique(orig, key@);
    }
}

} // verus!
