//! Staged write operations: the common currency of write batches and
//! transactions. An operation binds a key to a value (`Some`) or unbinds it
//! (`None`); a staged sequence applies in insertion order.

use vstd::prelude::*;

use crate::store::{map_lookup, opt_bytes, Store};

verus! {

/// The effect of one staged operation on a map.
pub open spec fn apply_op(
    m: Map<Seq<u8>, Seq<u8>>,
    op: (Seq<u8>, Option<Seq<u8>>),
) -> Map<Seq<u8>, Seq<u8>> {
    match op.1 {
        Some(v) => m.insert(op.0, v),
        None => m.remove(op.0),
    }
}

/// The effect of a sequence of staged operations, applied in order.
pub open spec fn apply_ops(
    m: Map<Seq<u8>, Seq<u8>>,
    ops: Seq<(Seq<u8>, Option<Seq<u8>>)>,
) -> Map<Seq<u8>, Seq<u8>>
    decreases ops.len(),
{
    if ops.len() == 0 {
        m
    } else {
        apply_op(apply_ops(m, ops.drop_last()), ops.last())
    }
}

/// The most recent staged operation touching `k`, if any.
pub open spec fn last_op_for(
    ops: Seq<(Seq<u8>, Option<Seq<u8>>)>,
    k: Seq<u8>,
) -> Option<Option<Seq<u8>>>
    decreases ops.len(),
{
    if ops.len() == 0 {
        None
    } else if ops.last().0 == k {
        Some(ops.last().1)
    } else {
        last_op_for(ops.drop_last(), k)
    }
}

/// After applying a staged sequence, each key reads as its most recent staged
/// operation dictates, and keys the sequence never touched read as before.
pub proof fn lemma_apply_ops_lookup(
    m: Map<Seq<u8>, Seq<u8>>,
    ops: Seq<(Seq<u8>, Option<Seq<u8>>)>,
    k: Seq<u8>,
)
    ensures
        map_lookup(apply_ops(m, ops), k) == match last_op_for(ops, k) {
            Some(e) => e,
            None => map_lookup(m, k),
        },
    decreases ops.len(),
{
    if ops.len() > 0 {
        lemma_apply_ops_lookup(m, ops.drop_last(), k);
    }
}

/// A vector of staged operations, seen as a sequence of spec-level ones.
pub open spec fn ops_view(
    ops: Seq<(Vec<u8>, Option<Vec<u8>>)>,
) -> Seq<(Seq<u8>, Option<Seq<u8>>)> {
    Seq::new(ops.len(), |i: int| (ops[i].0@, opt_bytes(ops[i].1)))
}

/// Apply staged operations to a store, in insertion order.
pub fn apply_to_store(store: &mut Store, ops: &Vec<(Vec<u8>, Option<Vec<u8>>)>)
    requires
        old(store).wf(),
    ensures
        final(store).wf(),
        final(store)@ == apply_ops(old(store)@, ops_view(ops@)),
{
    let n = ops.len();
    let mut i: usize = 0;
    proof {
        assert(ops_view(ops@).take(0) =~= Seq::<(Seq<u8>, Option<Seq<u8>>)>::empty());
    }
    while i < n
        invariant
            i <= n,
            n == ops@.len(),
            store.wf(),
            store@ == apply_ops(old(store)@, ops_view(ops@).take(i as int)),
        decreases n - i,
    {
        match &ops[i].1 {
            Some(v) => {
                store.put(ops[i].0.as_slice(), v.as_slice());
            },
            None => {
                store.delete(ops[i].0.as_slice());
            },
        }
        proof {
            let ov = ops_view(ops@);
            assert(ov.take(i + 1).drop_last() =~= ov.take(i as int));
            assert(ov.take(i + 1).last() == ov[i as int]);
        }
        i = i + 1;
    }
    proof {
        assert(ops_view(ops@).take(n as int) =~= ops_view(ops@));
    }
}

/// Scan the staged operations, most recent first, for one touching `key`.
pub fn find_last_op(ops: &Vec<(Vec<u8>, Option<Vec<u8>>)>, key: &[u8]) -> (r: Option<
    Option<Vec<u8>>,
>)
    ensures
        match r {
            Some(Some(v)) => last_op_for(ops_view(ops@), key@) == Some(Some(v@)),
            Some(None) => last_op_for(ops_view(ops@), key@) == Some(Option::<Seq<u8>>::None),
            None => last_op_for(ops_view(ops@), key@) is None,
        },
{
    let n = ops.len();
    let mut i: usize = n;
    proof {
        assert(ops_view(ops@).take(n as int) =~= ops_view(ops@));
    }
    while i > 0
        invariant
            i <= n,
            n == ops@.len(),
            last_op_for(ops_view(ops@), key@) == last_op_for(
                ops_view(ops@).take(i as int),
                key@,
            ),
        decreases i,
    {
        let j = i - 1;
        proof {
            let ov = ops_view(ops@);
            assert(ov.take(j + 1).drop_last() =~= ov.take(j as int));
            assert(ov.take(j + 1).last() == ov[j as int]);
        }
        if crate::order::bytes_eq(ops[j].0.as_slice(), key) {
            let out = match &ops[j].1 {
                Some(v) => Some(Some(vstd::slice::slice_to_vec(v.as_slice()))),
                None => Some(None),
            };
            return out;
        }
        i = j;
    }
    proof {
        assert(ops_view(ops@).take(0) =~= Seq::<(Seq<u8>, Option<Seq<u8>>)>::empty());
    }
    None
}

} // verus!
