//! The ordered table at the heart of the engine: entries sorted by
//! byte-lexicographic key, viewed as a map from byte keys to byte values.

use vstd::prelude::*;

use crate::assoc::{
    assoc_lookup, keys_unique, lemma_assoc_lookup_absent, lemma_assoc_lookup_found,
    lemma_assoc_lookup_insert, lemma_assoc_lookup_remove,
};
use crate::order::{
    bytes_eq, bytes_lt, lemma_lex_lt_connected, lemma_lex_lt_irreflexive, lemma_lex_lt_transitive,
    lex_lt,
};

verus! {

/// Does `k` lie in the half-open range `[lower, upper)`? A missing bound is
/// no constraint.
pub open spec fn in_range(k: Seq<u8>, lower: Option<Seq<u8>>, upper: Option<Seq<u8>>) -> bool {
    &&& match lower {
        Some(lo) => !lex_lt(k, lo),
        None => true,
    }
    &&& match upper {
        Some(hi) => lex_lt(k, hi),
        None => true,
    }
}

pub open spec fn range_pred(lower: Option<Seq<u8>>, upper: Option<Seq<u8>>) -> spec_fn(
    (Seq<u8>, Seq<u8>),
) -> bool {
    |kv: (Seq<u8>, Seq<u8>)| in_range(kv.0, lower, upper)
}

/// The entries whose keys lie in `[lower, upper)`, in their original order.
pub open spec fn range_filtered(
    s: Seq<(Seq<u8>, Seq<u8>)>,
    lower: Option<Seq<u8>>,
    upper: Option<Seq<u8>>,
) -> Seq<(Seq<u8>, Seq<u8>)> {
    s.filter(range_pred(lower, upper))
}

/// An optional byte buffer, seen as an optional byte sequence.
pub open spec fn opt_bytes(o: Option<Vec<u8>>) -> Option<Seq<u8>> {
    match o {
        Some(v) => Some(v@),
        None => None,
    }
}

/// Keys strictly ascend in byte-lexicographic order.
pub open spec fn sorted_kvs(s: Seq<(Seq<u8>, Seq<u8>)>) -> bool {
    forall|i: int, j: int| 0 <= i < j < s.len() ==> lex_lt(s[i].0, s[j].0)
}

/// The map a sequence of key-value pairs denotes.
pub open spec fn kvs_to_map(s: Seq<(Seq<u8>, Seq<u8>)>) -> Map<Seq<u8>, Seq<u8>> {
    Map::new(
        |k: Seq<u8>| assoc_lookup(s, k) is Some,
        |k: Seq<u8>| assoc_lookup(s, k).unwrap(),
    )
}

/// The value a map binds a key to, if any.
pub open spec fn map_lookup(m: Map<Seq<u8>, Seq<u8>>, k: Seq<u8>) -> Option<Seq<u8>> {
    if m.contains_key(k) {
        Some(m[k])
    } else {
        None
    }
}

/// The part of a map whose keys lie in the range.
pub open spec fn map_in_range(
    m: Map<Seq<u8>, Seq<u8>>,
    lower: Option<Seq<u8>>,
    upper: Option<Seq<u8>>,
) -> Map<Seq<u8>, Seq<u8>> {
    Map::new(|k: Seq<u8>| m.contains_key(k) && in_range(k, lower, upper), |k: Seq<u8>| m[k])
}

/// Range filtering a table with unique keys keeps exactly the in-range part
/// of the map it denotes.
pub proof fn lemma_filtered_lookup(
    s: Seq<(Seq<u8>, Seq<u8>)>,
    lower: Option<Seq<u8>>,
    upper: Option<Seq<u8>>,
    k: Seq<u8>,
)
    requires
        keys_unique(s),
    ensures
        assoc_lookup(range_filtered(s, lower, upper), k) == (if in_range(k, lower, upper) {
            assoc_lookup(s, k)
        } else {
            Option::<Seq<u8>>::None
        }),
    decreases s.len(),
{
    let pred = range_pred(lower, upper);
    reveal_with_fuel(Seq::filter, 3);
    if s.len() == 0 {
        assert(s.filter(pred) =~= Seq::<(Seq<u8>, Seq<u8>)>::empty());
    } else {
        let first = seq![s[0]];
        let rest = s.drop_first();
        assert(forall|j: int| 0 <= j < rest.len() ==> rest[j] == s[j + 1]);
        assert(first + rest =~= s);
        Seq::filter_distributes_over_add(first, rest, pred);
        assert(first.drop_last() =~= Seq::<(Seq<u8>, Seq<u8>)>::empty());
        assert(first.last() == s[0]);
        if pred(s[0]) {
            assert(first.filter(pred) =~= seq![s[0]]);
        } else {
            assert(first.filter(pred) =~= Seq::<(Seq<u8>, Seq<u8>)>::empty());
        }
        lemma_filtered_lookup(rest, lower, upper, k);
        let fr = rest.filter(pred);
        if pred(s[0]) {
            let whole = seq![s[0]] + fr;
            assert(s.filter(pred) == whole);
            assert(whole[0] == s[0]);
            assert(whole.drop_first() =~= fr);
            if k == s[0].0 {
                assert(assoc_lookup(whole, k) == Some(s[0].1));
            } else {
                assert(assoc_lookup(whole, k) == assoc_lookup(fr, k));
            }
        } else {
            assert(s.filter(pred) == fr);
        }
    }
}

/// A vector of byte-buffer pairs, seen as a sequence of byte-sequence pairs.
spec fn pairs_view(es: Seq<(Vec<u8>, Vec<u8>)>) -> Seq<(Seq<u8>, Seq<u8>)> {
    Seq::new(es.len(), |i: int| (es[i].0@, es[i].1@))
}

/// Executable range test matching [`in_range`].
fn in_range_exec(k: &[u8], lower: &Option<Vec<u8>>, upper: &Option<Vec<u8>>) -> (r: bool)
    ensures
        r == in_range(k@, opt_bytes(*lower), opt_bytes(*upper)),
{
    let lower_ok = match lower {
        Some(lo) => !bytes_lt(k, lo.as_slice()),
        None => true,
    };
    let upper_ok = match upper {
        Some(hi) => bytes_lt(k, hi.as_slice()),
        None => true,
    };
    lower_ok && upper_ok
}

pub proof fn lemma_sorted_keys_unique(s: Seq<(Seq<u8>, Seq<u8>)>)
    requires
        sorted_kvs(s),
    ensures
        keys_unique(s),
{
    assert forall|i: int, j: int| 0 <= i < j < s.len() implies s[i].0 != s[j].0 by {
        lemma_lex_lt_irreflexive(s[i].0);
    }
}

/// In a sorted table, a key that is below position `p` in order, and either
/// absent or past the end at `p`, is bound nowhere.
proof fn lemma_absent_at_gap(s: Seq<(Seq<u8>, Seq<u8>)>, p: int, k: Seq<u8>)
    requires
        sorted_kvs(s),
        0 <= p <= s.len(),
        forall|j: int| 0 <= j < p ==> lex_lt(s[j].0, k),
        p < s.len() ==> !lex_lt(s[p].0, k) && s[p].0 != k,
    ensures
        forall|j: int| 0 <= j < s.len() ==> s[j].0 != k,
        assoc_lookup(s, k) is None,
{
    assert forall|j: int| 0 <= j < s.len() implies s[j].0 != k by {
        if j < p {
            lemma_lex_lt_irreflexive(k);
        } else if j == p {
        } else {
            lemma_lex_lt_connected(s[p as int].0, k);
            lemma_lex_lt_transitive(k, s[p as int].0, s[j].0);
            lemma_lex_lt_irreflexive(k);
        }
    }
    lemma_assoc_lookup_absent(s, k);
}

/// An in-memory table of byte keys and byte values, kept in ascending key
/// order with no duplicate keys.
#[derive(Debug)]
pub struct Store {
    entries: Vec<(Vec<u8>, Vec<u8>)>,
}

impl View for Store {
    type V = Map<Seq<u8>, Seq<u8>>;

    open spec fn view(&self) -> Map<Seq<u8>, Seq<u8>> {
        kvs_to_map(self.kvs())
    }
}

impl Store {
    /// The entries, in storage order, as pairs of byte sequences.
    pub closed spec fn kvs(self) -> Seq<(Seq<u8>, Seq<u8>)> {
        pairs_view(self.entries@)
    }

    pub open spec fn wf(self) -> bool {
        sorted_kvs(self.kvs())
    }

    pub fn new() -> (r: Store)
        ensures
            r.wf(),
            r.kvs() == Seq::<(Seq<u8>, Seq<u8>)>::empty(),
            r@ == Map::<Seq<u8>, Seq<u8>>::empty(),
    {
        let r = Store { entries: Vec::new() };
        proof {
            assert(r.kvs() =~= Seq::<(Seq<u8>, Seq<u8>)>::empty());
            assert(r@ =~= Map::<Seq<u8>, Seq<u8>>::empty());
        }
        r
    }

    pub fn len(&self) -> (r: usize)
        ensures
            r == self.kvs().len(),
    {
        self.entries.len()
    }

    /// The key at position `i`, copied out.
    pub fn key_at(&self, i: usize) -> (r: Vec<u8>)
        requires
            i < self.kvs().len(),
        ensures
            r@ == self.kvs()[i as int].0,
    {
        vstd::slice::slice_to_vec(self.entries[i].0.as_slice())
    }

    /// The value at position `i`, copied out.
    pub fn value_at(&self, i: usize) -> (r: Vec<u8>)
        requires
            i < self.kvs().len(),
        ensures
            r@ == self.kvs()[i as int].1,
    {
        vstd::slice::slice_to_vec(self.entries[i].1.as_slice())
    }

    /// Position of the first key not below `key`; `len` if every key is below.
    pub fn find_ge(&self, key: &[u8]) -> (p: usize)
        requires
            self.wf(),
    ensures
            p <= self.kvs().len(),
            forall|j: int| 0 <= j < p ==> lex_lt(self.kvs()[j].0, key@),
            p < self.kvs().len() ==> !lex_lt(self.kvs()[p as int].0, key@),
    {
        let n = self.entries.len();
        let mut p: usize = 0;
        loop
            invariant
                p <= n,
                n == self.entries@.len(),
                self.wf(),
                forall|j: int| 0 <= j < p ==> lex_lt(self.kvs()[j].0, key@),
            decreases n - p,
        {
            if p == n {
                return p;
            }
            if !bytes_lt(self.entries[p].0.as_slice(), key) {
                return p;
            }
            p = p + 1;
        }
    }

    /// The value bound to `key`, copied out, or `None` if the key is absent.
    pub fn fetch(&self, key: &[u8]) -> (r: Option<Vec<u8>>)
        requires
            self.wf(),
        ensures
            match r {
                Some(v) => map_lookup(self@, key@) == Some(v@),
                None => map_lookup(self@, key@) is None,
            },
    {
        let p = self.find_ge(key);
        let n = self.entries.len();
        if p < n && bytes_eq(self.entries[p].0.as_slice(), key) {
            proof {
                assert forall|j: int| 0 <= j < p implies self.kvs()[j].0 != key@ by {
                    lemma_lex_lt_irreflexive(key@);
                }
                lemma_assoc_lookup_found(self.kvs(), key@, p as int);
            }
            Some(vstd::slice::slice_to_vec(self.entries[p].1.as_slice()))
        } else {
            proof {
                lemma_absent_at_gap(self.kvs(), p as int, key@);
            }
            None
        }
    }
    /// Bind `key` to `value`, overwriting any previous binding.
    pub fn put(&mut self, key: &[u8], value: &[u8])
        requires
            old(self).wf(),
        ensures
            final(self).wf(),
            final(self)@ == old(self)@.insert(key@, value@),
    {
        let ghost s0 = self.kvs();
        let p = self.find_ge(key);
        let n = self.entries.len();
        let kv = (vstd::slice::slice_to_vec(key), vstd::slice::slice_to_vec(value));
        let mut at_key = false;
        if p < n {
            at_key = bytes_eq(self.entries[p].0.as_slice(), key);
        }
        proof {
            lemma_sorted_keys_unique(s0);
        }
        if at_key {
            self.entries.remove(p);
        }
        let ghost s1 = self.kvs();
        proof {
            if at_key {
                assert(s1 =~= s0.remove(p as int));
                assert forall|j: int| 0 <= j < s1.len() implies s1[j].0 != key@ by {
                    if j < p {
                        assert(s1[j] == s0[j]);
                    } else {
                        assert(s1[j] == s0[j + 1]);
                    }
                }
                assert forall|q: Seq<u8>| true implies assoc_lookup(s1, q) == (if q == key@ {
                    Option::<Seq<u8>>::None
                } else {
                    assoc_lookup(s0, q)
                }) by {
                    lemma_assoc_lookup_remove(s0, p as int, q);
                }
            } else {
                assert(s1 =~= s0);
                lemma_absent_at_gap(s0, p as int, key@);
            }
        }
        self.entries.insert(p, kv);
        proof {
            let s2 = self.kvs();
            assert(s2 =~= s1.insert(p as int, (key@, value@)));
            // Everything before `p` is below `key`; everything at or past it
            // is above, so the table stays sorted.
            assert forall|j: int| p <= j < s1.len() implies lex_lt(key@, s1[j].0) by {
                if at_key {
                    assert(s1[j] == s0[j + 1]);
                    assert(lex_lt(s0[p as int].0, s0[j + 1].0));
                } else {
                    assert(s1[j] == s0[j]);
                    if j == p {
                        lemma_lex_lt_connected(s0[p as int].0, key@);
                    } else {
                        lemma_lex_lt_connected(s0[p as int].0, key@);
                        lemma_lex_lt_transitive(key@, s0[p as int].0, s0[j].0);
                    }
                }
            }
            assert forall|i: int, j: int| 0 <= i < j < s2.len() implies lex_lt(
                s2[i].0,
                s2[j].0,
            ) by {
                if i < p && j < p {
                    assert(s2[i] == s1[i] && s2[j] == s1[j]);
                    assert(s1[i] == s0[i] && s1[j] == s0[j]);
                } else if i < p && j == p {
                    assert(s2[i] == s1[i] && s1[i] == s0[i]);
                } else if i < p && j > p {
                    assert(s2[i] == s1[i] && s1[i] == s0[i]);
                    assert(s2[j] == s1[j - 1]);
                    lemma_lex_lt_transitive(s2[i].0, key@, s2[j].0);
                } else if i == p {
                    assert(s2[j] == s1[j - 1]);
                } else {
                    assert(s2[i] == s1[i - 1] && s2[j] == s1[j - 1]);
                    if at_key {
                        assert(s1[i - 1] == s0[i]);
                        assert(s1[j - 1] == s0[j]);
                    }
                }
            }
            assert forall|q: Seq<u8>| true implies assoc_lookup(s2, q) == (if q == key@ {
                Some(value@)
            } else {
                assoc_lookup(s0, q)
            }) by {
                assert forall|j: int| 0 <= j < s1.len() implies s1[j].0 != key@ by {
                    lemma_lex_lt_irreflexive(key@);
                }
                lemma_assoc_lookup_insert(s1, p as int, (key@, value@), q);
            }
            assert(kvs_to_map(s2) =~= kvs_to_map(s0).insert(key@, value@));
        }
    }

    /// Unbind `key`; a no-op if the key is absent.
    pub fn delete(&mut self, key: &[u8])
        requires
            old(self).wf(),
        ensures
            final(self).wf(),
            final(self)@ == old(self)@.remove(key@),
    {
        let ghost s0 = self.kvs();
        let p = self.find_ge(key);
        let n = self.entries.len();
        let mut at_key = false;
        if p < n {
            at_key = bytes_eq(self.entries[p].0.as_slice(), key);
        }
        if at_key {
            proof {
                lemma_sorted_keys_unique(s0);
            }
            self.entries.remove(p);
            proof {
                let s1 = self.kvs();
                assert(s1 =~= s0.remove(p as int));
                assert forall|i: int, j: int| 0 <= i < j < s1.len() implies lex_lt(
                    s1[i].0,
                    s1[j].0,
                ) by {
                    assert(s1[i] == if i < p { s0[i] } else { s0[i + 1] });
                    assert(s1[j] == if j < p { s0[j] } else { s0[j + 1] });
                }
                assert forall|q: Seq<u8>| true implies assoc_lookup(s1, q) == (if q == key@ {
                    Option::<Seq<u8>>::None
                } else {
                    assoc_lookup(s0, q)
                }) by {
                    lemma_assoc_lookup_remove(s0, p as int, q);
                }
                assert(kvs_to_map(s1) =~= kvs_to_map(s0).remove(key@));
            }
        } else {
            proof {
                lemma_absent_at_gap(s0, p as int, key@);
                assert(kvs_to_map(s0) =~= kvs_to_map(s0).remove(key@));
            }
        }
    }

    /// A copy holding only the entries whose keys lie in `[lower, upper)`.
    pub fn range_copy(&self, lower: &Option<Vec<u8>>, upper: &Option<Vec<u8>>) -> (r: Store)
        requires
            self.wf(),
        ensures
            r.wf(),
            r.kvs() == range_filtered(self.kvs(), opt_bytes(*lower), opt_bytes(*upper)),
    {
        let ghost lov = opt_bytes(*lower);
        let ghost upv = opt_bytes(*upper);
        let ghost pred = range_pred(lov, upv);
        let n = self.entries.len();
        let mut out: Vec<(Vec<u8>, Vec<u8>)> = Vec::new();
        let mut i: usize = 0;
        proof {
            assert(self.kvs().take(0) =~= Seq::<(Seq<u8>, Seq<u8>)>::empty());
            assert(pairs_view(out@) =~= self.kvs().take(0).filter(pred));
        }
        while i < n
            invariant
                i <= n,
                n == self.entries@.len(),
                self.wf(),
                pairs_view(out@) == self.kvs().take(i as int).filter(pred),
                pred == range_pred(lov, upv),
                lov == opt_bytes(*lower),
                upv == opt_bytes(*upper),
                sorted_kvs(pairs_view(out@)),
                forall|t: int|
                    i <= t < n && pairs_view(out@).len() > 0 ==> lex_lt(
                        pairs_view(out@).last().0,
                        self.kvs()[t].0,
                    ),
            decreases n - i,
        {
            let ks = self.entries[i].0.as_slice();
            let keep = in_range_exec(ks, lower, upper);
            proof {
                reveal_with_fuel(Seq::filter, 2);
                assert(ks@ == self.kvs()[i as int].0);
                assert(lov == opt_bytes(*lower));
                assert(upv == opt_bytes(*upper));
                assert(keep == in_range(self.kvs()[i as int].0, lov, upv));
                assert(self.kvs().take(i + 1).drop_last() =~= self.kvs().take(i as int));
                assert(self.kvs().take(i + 1).last() == self.kvs()[i as int]);
            }
            let ghost prev = pairs_view(out@);
            if keep {
                let k = vstd::slice::slice_to_vec(ks);
                let v = vstd::slice::slice_to_vec(self.entries[i].1.as_slice());
                out.push((k, v));
                proof {
                    let cur = pairs_view(out@);
                    assert(cur =~= prev.push((self.kvs()[i as int].0, self.kvs()[i as int].1)));
                    assert(cur =~= self.kvs().take(i + 1).filter(pred));
                    assert forall|a: int, b: int| 0 <= a < b < cur.len() implies lex_lt(
                        cur[a].0,
                        cur[b].0,
                    ) by {
                        if b == cur.len() - 1 {
                            if a < prev.len() - 1 {
                                lemma_lex_lt_transitive(
                                    prev[a].0,
                                    prev.last().0,
                                    self.kvs()[i as int].0,
                                );
                            }
                        }
                    }
                }
            } else {
                proof {
                    assert(pairs_view(out@) =~= self.kvs().take(i + 1).filter(pred));
                }
            }
            i = i + 1;
        }
        proof {
            assert(self.kvs().take(n as int) =~= self.kvs());
        }
        let r = Store { entries: out };
        proof {
            assert(r.kvs() =~= pairs_view(r.entries@));
        }
        r
    }

    /// An independent copy with the same contents.
    pub fn deep_copy(&self) -> (r: Store)
        ensures
            r.kvs() == self.kvs(),
            r@ == self@,
            r.wf() == self.wf(),
    {
        let n = self.entries.len();
        let mut out: Vec<(Vec<u8>, Vec<u8>)> = Vec::new();
        let mut i: usize = 0;
        while i < n
            invariant
                i <= n,
                n == self.entries@.len(),
                out@.len() == i,
                forall|j: int|
                    0 <= j < i ==> out@[j].0@ == self.entries@[j].0@ && out@[j].1@
                        == self.entries@[j].1@,
            decreases n - i,
        {
            let k = vstd::slice::slice_to_vec(self.entries[i].0.as_slice());
            let v = vstd::slice::slice_to_vec(self.entries[i].1.as_slice());
            out.push((k, v));
            i = i + 1;
        }
        let r = Store { entries: out };
        proof {
            assert(r.kvs() =~= self.kvs());
        }
        r
    }
}

} // verus!
