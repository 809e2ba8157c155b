//! A unit of in-flight work against a transactional store.
//!
//! A transaction holds the contents it saw at begin and a log of staged
//! operations; its reads see the log overlaid on that base, while the store
//! it came from sees nothing until `commit` folds the log in. Commit and
//! rollback consume the transaction and hand back a reuse token; within an
//! active transaction, savepoints allow partial rollback of the log.

use vstd::prelude::*;

use crate::bytes::Bytes;
use crate::db::read_result;
use crate::error::Error;
use crate::iterator::Iterator;
use crate::options::{effective_map, ReadOptions};
use crate::ops::{
    apply_ops, apply_to_store, find_last_op, lemma_apply_ops_lookup, ops_view,
};
use crate::snapshot::BorrowedSnapshot;
use crate::store::{
    kvs_to_map, lemma_filtered_lookup, lemma_sorted_keys_unique, map_in_range, Store,
};
use crate::transaction_db::TransactionDB;

verus! {

/// An active transaction: the base it reads beneath its own staged
/// operations, the log of those operations, and the savepoint stack.
#[derive(Debug)]
pub struct Transaction {
    base: Store,
    ops: Vec<(Vec<u8>, Option<Vec<u8>>)>,
    savepoints: Vec<usize>,
    snap: Option<Store>,
}

impl View for Transaction {
    type V = Map<Seq<u8>, Seq<u8>>;

    /// What the transaction's own reads see: the staged log applied to its
    /// base.
    open spec fn view(&self) -> Map<Seq<u8>, Seq<u8>> {
        apply_ops(self.base_map(), self.log())
    }
}

impl Transaction {
    /// The contents the transaction saw when it began.
    pub closed spec fn base_map(self) -> Map<Seq<u8>, Seq<u8>> {
        self.base@
    }

    /// The staged operations, in insertion order.
    pub closed spec fn log(self) -> Seq<(Seq<u8>, Option<Seq<u8>>)> {
        ops_view(self.ops@)
    }

    /// The savepoint stack: each entry is a log length to cut back to.
    pub closed spec fn savepoints_spec(self) -> Seq<usize> {
        self.savepoints@
    }

    /// The entries captured at begin, if the transaction options asked for a
    /// snapshot.
    pub closed spec fn snapshot_entries(self) -> Option<Seq<(Seq<u8>, Seq<u8>)>> {
        match self.snap {
            Some(st) => Some(st.kvs()),
            None => None,
        }
    }

    pub closed spec fn wf(self) -> bool {
        &&& self.base.wf()
        &&& forall|i: int|
            0 <= i < self.savepoints@.len() ==> self.savepoints@[i] <= self.ops@.len()
        &&& forall|i: int, j: int|
            0 <= i < j < self.savepoints@.len() ==> self.savepoints@[i] <= self.savepoints@[j]
        &&& match self.snap {
            Some(st) => st.wf(),
            None => true,
        }
    }

    pub(crate) fn begin_with(base: Store, snap: Option<Store>) -> (t: Transaction)
        requires
            base.wf(),
            match snap {
                Some(st) => st.wf(),
                None => true,
            },
        ensures
            t.wf(),
            t.base_map() == base@,
            t.log() == Seq::<(Seq<u8>, Option<Seq<u8>>)>::empty(),
            t.savepoints_spec() == Seq::<usize>::empty(),
            t.snapshot_entries() == match snap {
                Some(st) => Some(st.kvs()),
                None => Option::<Seq<(Seq<u8>, Seq<u8>)>>::None,
            },
    {
        let t = Transaction { base, ops: Vec::new(), savepoints: Vec::new(), snap };
        proof {
            assert(t.log() =~= Seq::<(Seq<u8>, Option<Seq<u8>>)>::empty());
        }
        t
    }

    /// Mark the current end of the log as a point to roll back to.
    pub fn set_savepoint(&mut self)
        requires
            old(self).wf(),
        ensures
            final(self).wf(),
            final(self).base_map() == old(self).base_map(),
            final(self).log() == old(self).log(),
            final(self).snapshot_entries() == old(self).snapshot_entries(),
            final(self).savepoints_spec() == old(self).savepoints_spec().push(
                old(self).log().len() as usize,
            ),
    {
        let n = self.ops.len();
        self.savepoints.push(n);
    }

    /// Undo the operations staged since the last savepoint, consuming that
    /// savepoint; fails exactly when no savepoint is set.
    pub fn rollback_to_savepoint(&mut self) -> (r: Result<(), Error>)
        requires
            old(self).wf(),
        ensures
            final(self).wf(),
            final(self).base_map() == old(self).base_map(),
            final(self).snapshot_entries() == old(self).snapshot_entries(),
            old(self).savepoints_spec().len() == 0 ==> r is Err && final(self).log() == old(
                self,
            ).log() && final(self).savepoints_spec() == old(self).savepoints_spec(),
            old(self).savepoints_spec().len() > 0 ==> r is Ok && final(self).savepoints_spec()
                == old(self).savepoints_spec().drop_last() && final(self).log() == old(
                self,
            ).log().take(old(self).savepoints_spec().last() as int),
    {
        match self.savepoints.pop() {
            Some(sp) => {
                self.ops.truncate(sp);
                proof {
                    assert(self.log() =~= old(self).log().take(sp as int));
                    assert(self.savepoints@ =~= old(self).savepoints@.drop_last());
                }
                Ok(())
            },
            None => Err(Error::from_text("savepoint not found")),
        }
    }

    /// Stage a binding of `key` to `value`.
    pub fn put(&mut self, key: &[u8], value: &[u8]) -> (r: Result<(), Error>)
        requires
            old(self).wf(),
        ensures
            final(self).wf(),
            r is Ok,
            final(self).base_map() == old(self).base_map(),
            final(self).snapshot_entries() == old(self).snapshot_entries(),
            final(self).savepoints_spec() == old(self).savepoints_spec(),
            final(self).log() == old(self).log().push((key@, Some(value@))),
            final(self)@ == old(self)@.insert(key@, value@),
    {
        self.ops.push(
            (vstd::slice::slice_to_vec(key), Some(vstd::slice::slice_to_vec(value))),
        );
        proof {
            assert(self.log() =~= old(self).log().push((key@, Some(value@))));
            assert(self.log().drop_last() =~= old(self).log());
        }
        Ok(())
    }

    /// Stage an unbinding of `key`.
    pub fn delete(&mut self, key: &[u8]) -> (r: Result<(), Error>)
        requires
            old(self).wf(),
        ensures
            final(self).wf(),
            r is Ok,
            final(self).base_map() == old(self).base_map(),
            final(self).snapshot_entries() == old(self).snapshot_entries(),
            final(self).savepoints_spec() == old(self).savepoints_spec(),
            final(self).log() == old(self).log().push((key@, Option::<Seq<u8>>::None)),
            final(self)@ == old(self)@.remove(key@),
    {
        self.ops.push((vstd::slice::slice_to_vec(key), None));
        proof {
            assert(self.log() =~= old(self).log().push((key@, Option::<Seq<u8>>::None)));
            assert(self.log().drop_last() =~= old(self).log());
        }
        Ok(())
    }

    /// Point lookup through the transaction: its own staged operations win;
    /// beneath them it reads the base captured at begin (or the options'
    /// snapshot, when one is attached).
    pub fn get(&self, read_options: &ReadOptions, key: &[u8]) -> (r: Result<Option<Bytes>, Error>)
        requires
            self.wf(),
            read_options.wf(),
        ensures
            r is Ok,
            read_result(
                apply_ops(
                    effective_map(self.base_map(), read_options.snapshot_map()),
                    self.log(),
                ),
                key@,
                r,
            ),
    {
        let ghost eff = effective_map(self.base_map(), read_options.snapshot_map());
        proof {
            lemma_apply_ops_lookup(eff, self.log(), key@);
        }
        match find_last_op(&self.ops, key) {
            Some(Some(v)) => Ok(Some(Bytes::from_vec(v))),
            Some(None) => Ok(None),
            None => {
                let src: &Store = match read_options.snapshot_store() {
                    Some(s) => s,
                    None => &self.base,
                };
                match src.fetch(key) {
                    Some(v) => Ok(Some(Bytes::from_vec(v))),
                    None => Ok(None),
                }
            },
        }
    }

    /// Point lookup that additionally asks the engine for a row lock;
    /// `exclusive` selects exclusive over shared locking. Locking changes
    /// nothing about what is read.
    pub fn get_for_update(
        &self,
        read_options: &ReadOptions,
        key: &[u8],
        _exclusive: bool,
    ) -> (r: Result<Option<Bytes>, Error>)
        requires
            self.wf(),
            read_options.wf(),
        ensures
            r is Ok,
            read_result(
                apply_ops(
                    effective_map(self.base_map(), read_options.snapshot_map()),
                    self.log(),
                ),
                key@,
                r,
            ),
    {
        self.get(read_options, key)
    }

    /// A cursor over what the transaction's own reads would see, restricted
    /// to the options' iteration bounds.
    pub fn create_iterator(&self, options: &ReadOptions) -> (it: Iterator)
        requires
            self.wf(),
            options.wf(),
        ensures
            it.wf(),
            !it.valid_spec(),
            kvs_to_map(it.kvs()) == map_in_range(
                apply_ops(
                    effective_map(self.base_map(), options.snapshot_map()),
                    self.log(),
                ),
                options.spec_lower(),
                options.spec_upper(),
            ),
    {
        let mut st: Store = match options.snapshot_store() {
            Some(s) => s.deep_copy(),
            None => self.base.deep_copy(),
        };
        apply_to_store(&mut st, &self.ops);
        let filtered = st.range_copy(options.lower_ref(), options.upper_ref());
        proof {
            lemma_sorted_keys_unique(st.kvs());
            assert forall|k: Seq<u8>| true implies crate::assoc::assoc_lookup(
                filtered.kvs(),
                k,
            ) == (if crate::store::in_range(k, options.spec_lower(), options.spec_upper()) {
                crate::assoc::assoc_lookup(st.kvs(), k)
            } else {
                Option::<Seq<u8>>::None
            }) by {
                lemma_filtered_lookup(st.kvs(), options.spec_lower(), options.spec_upper(), k);
            }
            assert(kvs_to_map(filtered.kvs()) =~= map_in_range(
                st@,
                options.spec_lower(),
                options.spec_upper(),
            ));
        }
        Iterator::from_store(filtered)
    }

    /// The snapshot captured at begin, if the transaction options asked for
    /// one.
    pub fn get_snapshot(&self) -> (r: Option<BorrowedSnapshot>)
        requires
            self.wf(),
        ensures
            match r {
                Some(b) => b.wf() && self.snapshot_entries() == Some(b.kvs()),
                None => self.snapshot_entries() is None,
            },
    {
        match &self.snap {
            Some(st) => Some(BorrowedSnapshot::from_store(st.deep_copy())),
            None => None,
        }
    }

    /// Terminate the transaction by folding its staged operations into the
    /// store, atomically and in insertion order. The transaction is
    /// consumed; what comes back is a token that a later `begin` may
    /// recycle.
    pub fn commit(self, db: &mut TransactionDB) -> (r: Result<OldTransaction, TransactionError>)
        requires
            self.wf(),
            old(db).wf(),
        ensures
            r is Ok,
            final(db).wf(),
            final(db)@ == apply_ops(old(db)@, self.log()),
            final(db).name_spec() == old(db).name_spec(),
    {
        db.apply_staged(&self.ops);
        Ok(OldTransaction {})
    }

    /// Terminate the transaction, discarding every staged operation. The
    /// store it came from is untouched.
    pub fn rollback(self) -> (r: Result<OldTransaction, TransactionError>)
        ensures
            r is Ok,
    {
        Ok(OldTransaction {})
    }
}

/// The inert remains of a terminated transaction: a token a later `begin`
/// may recycle in place of a fresh allocation. It carries no residual state.
#[derive(Debug)]
pub struct OldTransaction {}

/// A failed commit or rollback: the error, paired with the still-active
/// transaction so the caller may retry, inspect or discard it.
#[derive(Debug)]
pub struct TransactionError {
    txn: Transaction,
    error: Error,
}

impl TransactionError {
    pub closed spec fn parts(self) -> (Transaction, Error) {
        (self.txn, self.error)
    }

    /// Take back the transaction and the error.
    pub fn unwrap(self) -> (r: (Transaction, Error))
        ensures
            r == self.parts(),
    {
        (self.txn, self.error)
    }
}

} // verus!
