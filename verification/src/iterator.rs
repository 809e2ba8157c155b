//! A cursor over a captured range of entries, in ascending key order.
//!
//! The cursor's validity is explicit: it is valid exactly when it stands on
//! an entry. Creation leaves it invalid; seeking positions it; walking past
//! either end invalidates it, and a later seek revalidates it. Reading the
//! current key or value is defined only while the cursor is valid, which is
//! a precondition, not a runtime check.

use vstd::prelude::*;

use crate::bytes::Slice;
use crate::error::Error;
use crate::order::{
    lemma_lex_lt_asymmetric, lemma_lex_lt_connected, lemma_lex_lt_irreflexive,
    lemma_lex_lt_transitive, lex_lt,
};
use crate::store::{sorted_kvs, Store};

verus! {

/// A cursor over entries captured at creation, sorted by key.
pub struct Iterator {
    entries: Store,
    pos: usize,
}

impl Iterator {
    /// The entries the cursor ranges over, in ascending key order.
    pub closed spec fn kvs(self) -> Seq<(Seq<u8>, Seq<u8>)> {
        self.entries.kvs()
    }

    /// The cursor's position; any position past the last entry means the
    /// cursor is invalid.
    pub closed spec fn position(self) -> int {
        self.pos as int
    }

    pub open spec fn wf(self) -> bool {
        sorted_kvs(self.kvs()) && self.position() <= self.kvs().len()
    }

    /// The cursor stands on an entry.
    pub open spec fn valid_spec(self) -> bool {
        self.position() < self.kvs().len()
    }

    pub(crate) fn from_store(entries: Store) -> (r: Iterator)
        requires
            entries.wf(),
        ensures
            r.wf(),
            r.kvs() == entries.kvs(),
            !r.valid_spec(),
    {
        let pos = entries.len();
        Iterator { entries, pos }
    }

    /// Does the cursor stand on an entry?
    pub fn valid(&self) -> (r: bool)
        requires
            self.wf(),
        ensures
            r == self.valid_spec(),
    {
        self.pos < self.entries.len()
    }

    /// Poll for a deferred traversal error. Stepping never reports one
    /// inline; this model's traversal never fails, so the answer is `None`.
    pub fn get_error(&self) -> (r: Option<Error>)
        ensures
            r is None,
    {
        None
    }

    /// Position the cursor on the first entry whose key is not below `key`;
    /// past the end of the range, the cursor becomes invalid.
    pub fn seek(&mut self, key: &[u8])
        requires
            old(self).wf(),
        ensures
            final(self).wf(),
            final(self).kvs() == old(self).kvs(),
            forall|j: int|
                0 <= j < final(self).position() ==> lex_lt(final(self).kvs()[j].0, key@),
            final(self).valid_spec() ==> !lex_lt(
                final(self).kvs()[final(self).position()].0,
                key@,
            ),
            !final(self).valid_spec() ==> final(self).position() == final(self).kvs().len(),
    {
        self.pos = self.entries.find_ge(key);
    }

    /// Position the cursor on the last entry whose key is not above `key`;
    /// if every key is above, the cursor becomes invalid.
    pub fn seek_for_prev(&mut self, key: &[u8])
        requires
            old(self).wf(),
        ensures
            final(self).wf(),
            final(self).kvs() == old(self).kvs(),
            final(self).valid_spec() ==> !lex_lt(key@, final(self).kvs()[final(self).position()].0)
                && forall|j: int|
                final(self).position() < j < final(self).kvs().len() ==> lex_lt(
                    key@,
                    final(self).kvs()[j].0,
                ),
            !final(self).valid_spec() ==> forall|j: int|
                0 <= j < final(self).kvs().len() ==> lex_lt(key@, final(self).kvs()[j].0),
    {
        let ghost s = self.entries.kvs();
        let p = self.entries.find_ge(key);
        let n = self.entries.len();
        let mut hit = false;
        if p < n {
            hit = crate::order::bytes_eq(self.entries.key_at(p).as_slice(), key);
        }
        proof {
            if p < n && !hit {
                lemma_lex_lt_connected(s[p as int].0, key@);
            }
        }
        if hit {
            self.pos = p;
            proof {
                lemma_lex_lt_irreflexive(key@);
                assert forall|j: int| p < j < s.len() implies lex_lt(key@, s[j].0) by {
                    assert(lex_lt(s[p as int].0, s[j].0));
                }
            }
        } else if p > 0 {
            self.pos = p - 1;
            proof {
                lemma_lex_lt_asymmetric(s[p - 1].0, key@);
                assert forall|j: int| p - 1 < j < s.len() implies lex_lt(key@, s[j].0) by {
                    if j > p {
                        lemma_lex_lt_transitive(key@, s[p as int].0, s[j].0);
                    }
                }
            }
        } else {
            self.pos = n;
            proof {
                assert forall|j: int| 0 <= j < s.len() implies lex_lt(key@, s[j].0) by {
                    if j > 0 {
                        lemma_lex_lt_transitive(key@, s[0].0, s[j].0);
                    }
                }
            }
        }
    }

    /// Position the cursor on the first entry; on an empty range the cursor
    /// stays invalid.
    pub fn seek_to_first(&mut self)
        requires
            old(self).wf(),
        ensures
            final(self).wf(),
            final(self).kvs() == old(self).kvs(),
            final(self).kvs().len() > 0 ==> final(self).position() == 0,
            final(self).kvs().len() == 0 ==> !final(self).valid_spec(),
    {
        self.pos = 0;
    }

    /// Position the cursor on the last entry; on an empty range the cursor
    /// stays invalid.
    pub fn seek_to_last(&mut self)
        requires
            old(self).wf(),
        ensures
            final(self).wf(),
            final(self).kvs() == old(self).kvs(),
            final(self).kvs().len() > 0 ==> final(self).position() == final(self).kvs().len()
                - 1,
            final(self).kvs().len() == 0 ==> !final(self).valid_spec(),
    {
        let n = self.entries.len();
        if n > 0 {
            self.pos = n - 1;
        } else {
            self.pos = 0;
        }
    }

    /// Step to the next entry in key order; stepping off the last entry
    /// invalidates the cursor.
    pub fn next(&mut self)
        requires
            old(self).wf(),
            old(self).valid_spec(),
        ensures
            final(self).wf(),
            final(self).kvs() == old(self).kvs(),
            final(self).position() == old(self).position() + 1,
    {
        let n = self.entries.len();
        proof {
            // the position is below the length, so stepping cannot overflow
            assert(self.pos < n);
        }
        self.pos = self.pos + 1;
    }

    /// Step to the previous entry in key order; stepping off the first entry
    /// invalidates the cursor.
    pub fn prev(&mut self)
        requires
            old(self).wf(),
            old(self).valid_spec(),
        ensures
            final(self).wf(),
            final(self).kvs() == old(self).kvs(),
            old(self).position() > 0 ==> final(self).position() == old(self).position() - 1,
            old(self).position() == 0 ==> !final(self).valid_spec(),
    {
        if self.pos == 0 {
            self.pos = self.entries.len();
        } else {
            self.pos = self.pos - 1;
        }
    }

    /// The key under the cursor.
    pub fn key(&self) -> (r: Slice)
        requires
            self.wf(),
            self.valid_spec(),
        ensures
            r@ == self.kvs()[self.position()].0,
    {
        Slice::from_vec(self.entries.key_at(self.pos))
    }

    /// The value under the cursor.
    pub fn value(&self) -> (r: Slice)
        requires
            self.wf(),
            self.valid_spec(),
        ensures
            r@ == self.kvs()[self.position()].1,
    {
        Slice::from_vec(self.entries.value_at(self.pos))
    }
}

} // verus!
