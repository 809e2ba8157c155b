//! First-match lookup over a sequence of key-value pairs, and how it behaves
//! under insertion, overwrite and removal.
//!
//! Both the store (byte keys) and the environment of named stores (string
//! keys) are association lists with unique keys; their map views are built
//! from [`assoc_lookup`], and the lemmas here carry each mutation of the list
//! over to the view.

use vstd::prelude::*;

verus! {

/// The value paired with the first occurrence of key `k`, if any.
pub open spec fn assoc_lookup<K, V>(s: Seq<(K, V)>, k: K) -> Option<V>
    decreases s.len(),
{
    if s.len() == 0 {
        None
    } else if s[0].0 == k {
        Some(s[0].1)
    } else {
        assoc_lookup(s.drop_first(), k)
    }
}

/// No two pairs carry the same key.
pub open spec fn keys_unique<K, V>(s: Seq<(K, V)>) -> bool {
    forall|i: int, j: int| 0 <= i < j < s.len() ==> s[i].0 != s[j].0
}

/// A scan that matched nothing finds nothing.
pub proof fn lemma_assoc_lookup_absent<K, V>(s: Seq<(K, V)>, k: K)
    requires
        forall|j: int| 0 <= j < s.len() ==> s[j].0 != k,
    ensures
        assoc_lookup(s, k) is None,
    decreases s.len(),
{
    if s.len() > 0 {
        assert(forall|j: int| 0 <= j < s.drop_first().len() ==> s.drop_first()[j] == s[j + 1]);
        lemma_assoc_lookup_absent(s.drop_first(), k);
    }
}

/// A first match at index `i` is what the lookup returns.
pub proof fn lemma_assoc_lookup_found<K, V>(s: Seq<(K, V)>, k: K, i: int)
    requires
        0 <= i < s.len(),
        s[i].0 == k,
        forall|j: int| 0 <= j < i ==> s[j].0 != k,
    ensures
        assoc_lookup(s, k) == Some(s[i].1),
    decreases i,
{
    if i > 0 {
        assert(forall|j: int| 0 <= j < s.drop_first().len() ==> s.drop_first()[j] == s[j + 1]);
        lemma_assoc_lookup_found(s.drop_first(), k, i - 1);
    }
}

/// Inserting a pair with a fresh key adds exactly that binding.
pub proof fn lemma_assoc_lookup_insert<K, V>(
    s: Seq<(K, V)>,
    p: int,
    kv: (K, V),
    q: K,
)
    requires
        0 <= p <= s.len(),
        forall|j: int| 0 <= j < s.len() ==> s[j].0 != kv.0,
    ensures
        assoc_lookup(s.insert(p, kv), q) == if q == kv.0 {
            Some(kv.1)
        } else {
            assoc_lookup(s, q)
        },
    decreases p,
{
    let t = s.insert(p, kv);
    if p == 0 {
        assert(t[0] == kv);
        assert(t.drop_first() =~= s);
    } else {
        assert(t[0] == s[0]);
        assert(t.drop_first() =~= s.drop_first().insert(p - 1, kv));
        assert(forall|j: int| 0 <= j < s.drop_first().len() ==> s.drop_first()[j] == s[j + 1]);
        lemma_assoc_lookup_insert(s.drop_first(), p - 1, kv, q);
        if s[0].0 == kv.0 {
            assert(false);
        }
    }
}

/// Removing the pair that holds a key unbinds that key and nothing else.
pub proof fn lemma_assoc_lookup_remove<K, V>(s: Seq<(K, V)>, p: int, q: K)
    requires
        0 <= p < s.len(),
        keys_unique(s),
    ensures
        assoc_lookup(s.remove(p), q) == if q == s[p].0 {
            None
        } else {
            assoc_lookup(s, q)
        },
    decreases p,
{
    let t = s.remove(p);
    if p == 0 {
        assert(t =~= s.drop_first());
        if q == s[0].0 {
            assert(forall|j: int| 0 <= j < t.len() ==> t[j] == s[j + 1]);
            lemma_assoc_lookup_absent(t, q);
        }
    } else {
        assert(t[0] == s[0]);
        assert(t.drop_first() =~= s.drop_first().remove(p - 1));
        assert(forall|j: int| 0 <= j < s.drop_first().len() ==> s.drop_first()[j] == s[j + 1]);
        lemma_assoc_lookup_remove(s.drop_first(), p - 1, q);
        assert(s.drop_first()[p - 1] == s[p]);
        if q == s[p].0 {
            assert(s[0].0 != s[p].0);
        }
    }
}

} // verus!
