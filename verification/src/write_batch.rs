//! An ordered list of staged put and delete operations, independent of any
//! open store, applied atomically by a store's `write`. Staging never fails;
//! only applying can.

use vstd::prelude::*;

use crate::ops::ops_view;

verus! {

/// The staged operations, in insertion order. Its view is the sequence of
/// operations: a key paired with `Some` value to bind or `None` to unbind.
pub struct WriteBatch {
    ops: Vec<(Vec<u8>, Option<Vec<u8>>)>,
}

impl View for WriteBatch {
    type V = Seq<(Seq<u8>, Option<Seq<u8>>)>;

    closed spec fn view(&self) -> Seq<(Seq<u8>, Option<Seq<u8>>)> {
        ops_view(self.ops@)
    }
}

impl WriteBatch {
    pub fn new() -> (r: WriteBatch)
        ensures
            r@ == Seq::<(Seq<u8>, Option<Seq<u8>>)>::empty(),
    {
        let r = WriteBatch { ops: Vec::new() };
        proof {
            assert(r@ =~= Seq::<(Seq<u8>, Option<Seq<u8>>)>::empty());
        }
        r
    }

    /// Discard every staged operation.
    pub fn clear(&mut self)
        ensures
            final(self)@ == Seq::<(Seq<u8>, Option<Seq<u8>>)>::empty(),
    {
        self.ops.clear();
        proof {
            assert(self@ =~= Seq::<(Seq<u8>, Option<Seq<u8>>)>::empty());
        }
    }

    /// How many operations are currently staged.
    pub fn count(&self) -> (r: usize)
        ensures
            r == self@.len(),
    {
        self.ops.len()
    }

    /// Stage a binding of `key` to `value`.
    pub fn put(&mut self, key: &[u8], value: &[u8])
        ensures
            final(self)@ == old(self)@.push((key@, Some(value@))),
    {
        self.ops.push(
            (vstd::slice::slice_to_vec(key), Some(vstd::slice::slice_to_vec(value))),
        );
        proof {
            assert(self@ =~= old(self)@.push((key@, Some(value@))));
        }
    }

    /// Stage an unbinding of `key`.
    pub fn delete(&mut self, key: &[u8])
        ensures
            final(self)@ == old(self)@.push((key@, Option::<Seq<u8>>::None)),
    {
        self.ops.push((vstd::slice::slice_to_vec(key), None));
        proof {
            assert(self@ =~= old(self)@.push((key@, Option::<Seq<u8>>::None)));
        }
    }

    pub(crate) fn ops_ref(&self) -> (r: &Vec<(Vec<u8>, Option<Vec<u8>>)>)
        ensures
            ops_view(r@) == self@,
    {
        &self.ops
    }
}

} // verus!
