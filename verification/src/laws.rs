//! The guarantees that tie the operations together, each stated over the
//! views the contracts speak in and proved once and for all.

use vstd::prelude::*;

use crate::ops::{apply_ops, last_op_for, lemma_apply_ops_lookup};
use crate::options::effective_map;
use crate::store::map_lookup;
use crate::transaction::Transaction;

verus! {

/// A key never written reads as absent.
pub proof fn lemma_get_unwritten(m: Map<Seq<u8>, Seq<u8>>, k: Seq<u8>)
    requires
        !m.contains_key(k),
    ensures
        map_lookup(m, k) is None,
{
}

/// Round trip: after binding a key, a read returns exactly that value;
/// after unbinding it, a read finds nothing, and unbinding an absent key
/// changes nothing.
pub proof fn lemma_put_get_round_trip(m: Map<Seq<u8>, Seq<u8>>, k: Seq<u8>, v: Seq<u8>)
    ensures
        map_lookup(m.insert(k, v), k) == Some(v),
        map_lookup(m.remove(k), k) is None,
        m.remove(k).remove(k) == m.remove(k),
{
    assert(m.remove(k).remove(k) =~= m.remove(k));
}

/// A write touching one key leaves every other key's read unchanged.
pub proof fn lemma_other_keys_unchanged(
    m: Map<Seq<u8>, Seq<u8>>,
    k: Seq<u8>,
    touched: Seq<u8>,
    v: Seq<u8>,
)
    requires
        k != touched,
    ensures
        map_lookup(m.insert(touched, v), k) == map_lookup(m, k),
        map_lookup(m.remove(touched), k) == map_lookup(m, k),
{
}

/// Snapshot isolation: a read through a snapshot is a function of the
/// captured contents alone — no state the store reaches afterwards can
/// affect it — while a read with no snapshot sees the current contents.
pub proof fn lemma_snapshot_isolation(
    m1: Map<Seq<u8>, Seq<u8>>,
    m2: Map<Seq<u8>, Seq<u8>>,
    s: Map<Seq<u8>, Seq<u8>>,
)
    ensures
        effective_map(m1, Some(s)) == effective_map(m2, Some(s)),
        effective_map(m1, None) == m1,
{
}

/// Commit visibility: once a transaction's staged log is folded into a map,
/// every key the log touched reads as its most recent staged operation
/// dictates, and every other key reads exactly as before. Until that fold,
/// staging touches the transaction alone, so the store's map is unchanged.
pub proof fn lemma_commit_visibility(
    m: Map<Seq<u8>, Seq<u8>>,
    log: Seq<(Seq<u8>, Option<Seq<u8>>)>,
    k: Seq<u8>,
)
    ensures
        map_lookup(apply_ops(m, log), k) == match last_op_for(log, k) {
            Some(e) => e,
            None => map_lookup(m, k),
        },
{
    lemma_apply_ops_lookup(m, log, k);
}

/// A transaction begun from a reuse token carries nothing over: any two
/// transactions with the same base and an empty log read identically, and
/// what they read is exactly their base.
pub proof fn lemma_begin_like_fresh(t1: Transaction, t2: Transaction)
    requires
        t1.base_map() == t2.base_map(),
        t1.log() == Seq::<(Seq<u8>, Option<Seq<u8>>)>::empty(),
        t2.log() == Seq::<(Seq<u8>, Option<Seq<u8>>)>::empty(),
    ensures
        t1@ == t2@,
        t1@ == t1.base_map(),
{
}

} // verus!
