//! A store that can also run transactions. Point operations match the plain
//! store; `begin` hands out a transaction whose staged work stays invisible
//! until committed.

use vstd::prelude::*;
use vstd::string::StringExecFns;

use crate::bytes::Bytes;
use crate::db::read_result;
use crate::env::Env;
use crate::error::Error;
use crate::iterator::Iterator;
use crate::options::{effective_map, Options, ReadOptions, WriteOptions};
use crate::ops::{apply_ops, apply_to_store, ops_view};
use crate::snapshot::OwnedSnapshot;
use crate::store::{kvs_to_map, range_filtered, sorted_kvs, Store};
use crate::transaction::{OldTransaction, Transaction};
use crate::write_batch::WriteBatch;

verus! {

/// An open store that can run transactions.
pub struct TransactionDB {
    name: String,
    store: Store,
}

impl View for TransactionDB {
    type V = Map<Seq<u8>, Seq<u8>>;

    open spec fn view(&self) -> Map<Seq<u8>, Seq<u8>> {
        kvs_to_map(self.kvs())
    }
}

impl TransactionDB {
    /// The entries, in ascending key order.
    pub closed spec fn kvs(self) -> Seq<(Seq<u8>, Seq<u8>)> {
        self.store.kvs()
    }

    /// The name this store was opened under.
    pub closed spec fn name_spec(self) -> Seq<char> {
        self.name@
    }

    pub open spec fn wf(self) -> bool {
        sorted_kvs(self.kvs())
    }

    /// Open the named store for transactional use; the same open policy as
    /// the plain store.
    pub fn open(
        env: &mut Env,
        options: &Options,
        _txn_db_options: &TransactionDBOptions,
        name: &str,
    ) -> (r: Result<TransactionDB, Error>)
        requires
            old(env).wf(),
        ensures
            final(env).wf(),
            match r {
                Ok(db) => {
                    &&& db.wf()
                    &&& db.name_spec() == name@
                    &&& if old(env)@.contains_key(name@) {
                        &&& !options.spec_error_if_exists()
                        &&& db@ == old(env)@[name@]
                        &&& final(env)@ == old(env)@
                    } else {
                        &&& options.spec_create_if_missing()
                        &&& db@ == Map::<Seq<u8>, Seq<u8>>::empty()
                        &&& final(env)@ == old(env)@.insert(
                            name@,
                            Map::<Seq<u8>, Seq<u8>>::empty(),
                        )
                    }
                },
                Err(_) => {
                    &&& final(env)@ == old(env)@
                    &&& if old(env)@.contains_key(name@) {
                        options.spec_error_if_exists()
                    } else {
                        !options.spec_create_if_missing()
                    }
                },
            },
    {
        match env.lookup_copy(name) {
            Some(st) => {
                if options.get_error_if_exists() {
                    Err(Error::from_text("store already exists"))
                } else {
                    Ok(
                        TransactionDB {
                            name: <String as StringExecFns>::from_str(name),
                            store: st,
                        },
                    )
                }
            },
            None => {
                if options.get_create_if_missing() {
                    let st = Store::new();
                    env.save(name, &st);
                    Ok(
                        TransactionDB {
                            name: <String as StringExecFns>::from_str(name),
                            store: st,
                        },
                    )
                } else {
                    Err(Error::from_text("store does not exist"))
                }
            },
        }
    }

    /// Capture the current contents as a point-in-time view.
    pub fn create_snapshot(&self) -> (sp: OwnedSnapshot)
        requires
            self.wf(),
        ensures
            sp.wf(),
            sp.kvs() == self.kvs(),
            sp@ == self@,
    {
        OwnedSnapshot::from_store(self.store.deep_copy())
    }

    /// Point lookup; reads through the options' snapshot when one is
    /// attached.
    pub fn get(&self, options: &ReadOptions, key: &[u8]) -> (r: Result<Option<Bytes>, Error>)
        requires
            self.wf(),
            options.wf(),
        ensures
            r is Ok,
            read_result(effective_map(self@, options.snapshot_map()), key@, r),
    {
        let src: &Store = match options.snapshot_store() {
            Some(s) => s,
            None => &self.store,
        };
        match src.fetch(key) {
            Some(v) => Ok(Some(Bytes::from_vec(v))),
            None => Ok(None),
        }
    }

    /// Bind `key` to `value`.
    pub fn put(&mut self, _options: &WriteOptions, key: &[u8], value: &[u8]) -> (r: Result<
        (),
        Error,
    >)
        requires
            old(self).wf(),
        ensures
            final(self).wf(),
            r is Ok,
            final(self)@ == old(self)@.insert(key@, value@),
            final(self).name_spec() == old(self).name_spec(),
    {
        self.store.put(key, value);
        Ok(())
    }

    /// Apply every operation a batch has staged, atomically and in insertion
    /// order.
    pub fn write(&mut self, _options: &WriteOptions, batch: &WriteBatch) -> (r: Result<(), Error>)
        requires
            old(self).wf(),
        ensures
            final(self).wf(),
            r is Ok,
            final(self)@ == apply_ops(old(self)@, batch@),
            final(self).name_spec() == old(self).name_spec(),
    {
        apply_to_store(&mut self.store, batch.ops_ref());
        Ok(())
    }

    /// Unbind `key`; absence is not an error.
    pub fn delete(&mut self, _options: &WriteOptions, key: &[u8]) -> (r: Result<(), Error>)
        requires
            old(self).wf(),
        ensures
            final(self).wf(),
            r is Ok,
            final(self)@ == old(self)@.remove(key@),
            final(self).name_spec() == old(self).name_spec(),
    {
        self.store.delete(key);
        Ok(())
    }

    /// A cursor over the entries the options select, exactly as on the plain
    /// store.
    pub fn create_iterator(&self, options: &ReadOptions) -> (it: Iterator)
        requires
            self.wf(),
            options.wf(),
        ensures
            it.wf(),
            !it.valid_spec(),
            it.kvs() == range_filtered(
                match options.snapshot_kvs() {
                    Some(sk) => sk,
                    None => self.kvs(),
                },
                options.spec_lower(),
                options.spec_upper(),
            ),
    {
        let src: &Store = match options.snapshot_store() {
            Some(s) => s,
            None => &self.store,
        };
        Iterator::from_store(src.range_copy(options.lower_ref(), options.upper_ref()))
    }

    /// Start a transaction over the current contents. Handing back a reuse
    /// token recycles its allocation; the transaction one gets is the same
    /// either way: empty log, no savepoints, and a captured snapshot exactly
    /// when the transaction options ask for one.
    pub fn begin(
        &self,
        _write_options: &WriteOptions,
        txn_options: &TransactionOptions,
        _old_txn: Option<OldTransaction>,
    ) -> (t: Transaction)
        requires
            self.wf(),
        ensures
            t.wf(),
            t.base_map() == self@,
            t.log() == Seq::<(Seq<u8>, Option<Seq<u8>>)>::empty(),
            t.savepoints_spec() == Seq::<usize>::empty(),
            t.snapshot_entries() == if txn_options.spec_set_snapshot() {
                Some(self.kvs())
            } else {
                Option::<Seq<(Seq<u8>, Seq<u8>)>>::None
            },
    {
        let snap = if txn_options.get_set_snapshot() {
            Some(self.store.deep_copy())
        } else {
            None
        };
        Transaction::begin_with(self.store.deep_copy(), snap)
    }

    /// Fold a committed transaction's staged operations into the contents.
    pub(crate) fn apply_staged(&mut self, ops: &Vec<(Vec<u8>, Option<Vec<u8>>)>)
        requires
            old(self).wf(),
        ensures
            final(self).wf(),
            final(self)@ == apply_ops(old(self)@, ops_view(ops@)),
            final(self).name_spec() == old(self).name_spec(),
    {
        apply_to_store(&mut self.store, ops);
    }
}

/// Tuning for opening a transactional store: lock table sizing and lock
/// timeouts, all pass-through configuration.
pub struct TransactionDBOptions {
    max_num_locks: i64,
    num_stripes: usize,
    transaction_lock_timeout: i64,
    default_lock_timeout: i64,
}

impl TransactionDBOptions {
    pub closed spec fn spec_max_num_locks(self) -> i64 {
        self.max_num_locks
    }

    pub closed spec fn spec_num_stripes(self) -> usize {
        self.num_stripes
    }

    pub closed spec fn spec_transaction_lock_timeout(self) -> i64 {
        self.transaction_lock_timeout
    }

    pub closed spec fn spec_default_lock_timeout(self) -> i64 {
        self.default_lock_timeout
    }

    pub fn new() -> (r: TransactionDBOptions)
        ensures
            r.spec_max_num_locks() == -1i64,
            r.spec_num_stripes() == 16usize,
            r.spec_transaction_lock_timeout() == 1000i64,
            r.spec_default_lock_timeout() == 1000i64,
    {
        TransactionDBOptions {
            max_num_locks: -1,
            num_stripes: 16,
            transaction_lock_timeout: 1000,
            default_lock_timeout: 1000,
        }
    }

    pub fn set_max_num_locks(&mut self, max_num_locks: i64)
        ensures
            final(self).spec_max_num_locks() == max_num_locks,
            final(self).spec_num_stripes() == old(self).spec_num_stripes(),
            final(self).spec_transaction_lock_timeout() == old(
                self,
            ).spec_transaction_lock_timeout(),
            final(self).spec_default_lock_timeout() == old(self).spec_default_lock_timeout(),
    {
        self.max_num_locks = max_num_locks;
    }

    pub fn set_num_stripes(&mut self, num_stripes: usize)
        ensures
            final(self).spec_num_stripes() == num_stripes,
            final(self).spec_max_num_locks() == old(self).spec_max_num_locks(),
            final(self).spec_transaction_lock_timeout() == old(
                self,
            ).spec_transaction_lock_timeout(),
            final(self).spec_default_lock_timeout() == old(self).spec_default_lock_timeout(),
    {
        self.num_stripes = num_stripes;
    }

    pub fn set_transaction_lock_timeout(&mut self, txn_lock_timeout: i64)
        ensures
            final(self).spec_transaction_lock_timeout() == txn_lock_timeout,
            final(self).spec_max_num_locks() == old(self).spec_max_num_locks(),
            final(self).spec_num_stripes() == old(self).spec_num_stripes(),
            final(self).spec_default_lock_timeout() == old(self).spec_default_lock_timeout(),
    {
        self.transaction_lock_timeout = txn_lock_timeout;
    }

    pub fn set_default_lock_timeout(&mut self, default_lock_timeout: i64)
        ensures
            final(self).spec_default_lock_timeout() == default_lock_timeout,
            final(self).spec_max_num_locks() == old(self).spec_max_num_locks(),
            final(self).spec_num_stripes() == old(self).spec_num_stripes(),
            final(self).spec_transaction_lock_timeout() == old(
                self,
            ).spec_transaction_lock_timeout(),
    {
        self.default_lock_timeout = default_lock_timeout;
    }
}

/// Tuning for one transaction: whether to capture a snapshot at begin, and
/// lock-acquisition behaviour, all pass-through configuration.
pub struct TransactionOptions {
    set_snapshot: bool,
    deadlock_detect: bool,
    lock_timeout: i64,
    expiration: i64,
    deadlock_detect_depth: i64,
    max_write_batch_size: usize,
}

impl TransactionOptions {
    pub closed spec fn spec_set_snapshot(self) -> bool {
        self.set_snapshot
    }

    pub fn get_set_snapshot(&self) -> (r: bool)
        ensures
            r == self.spec_set_snapshot(),
    {
        self.set_snapshot
    }

    pub closed spec fn spec_deadlock_detect(self) -> bool {
        self.deadlock_detect
    }

    pub closed spec fn spec_lock_timeout(self) -> i64 {
        self.lock_timeout
    }

    pub closed spec fn spec_expiration(self) -> i64 {
        self.expiration
    }

    pub closed spec fn spec_deadlock_detect_depth(self) -> i64 {
        self.deadlock_detect_depth
    }

    pub closed spec fn spec_max_write_batch_size(self) -> usize {
        self.max_write_batch_size
    }

    pub fn new() -> (r: TransactionOptions)
        ensures
            !r.spec_set_snapshot(),
            !r.spec_deadlock_detect(),
            r.spec_lock_timeout() == -1i64,
            r.spec_expiration() == -1i64,
            r.spec_deadlock_detect_depth() == 50i64,
            r.spec_max_write_batch_size() == 0usize,
    {
        TransactionOptions {
            set_snapshot: false,
            deadlock_detect: false,
            lock_timeout: -1,
            expiration: -1,
            deadlock_detect_depth: 50,
            max_write_batch_size: 0,
        }
    }

    pub fn set_set_snapshot(&mut self, set_snapshot: bool)
        ensures
            final(self).spec_set_snapshot() == set_snapshot,
            final(self).spec_deadlock_detect() == old(self).spec_deadlock_detect(),
            final(self).spec_lock_timeout() == old(self).spec_lock_timeout(),
            final(self).spec_expiration() == old(self).spec_expiration(),
            final(self).spec_deadlock_detect_depth() == old(self).spec_deadlock_detect_depth(),
            final(self).spec_max_write_batch_size() == old(self).spec_max_write_batch_size(),
    {
        self.set_snapshot = set_snapshot;
    }

    pub fn set_deadlock_detect(&mut self, deadlock_detect: bool)
        ensures
            final(self).spec_deadlock_detect() == deadlock_detect,
            final(self).spec_set_snapshot() == old(self).spec_set_snapshot(),
            final(self).spec_lock_timeout() == old(self).spec_lock_timeout(),
            final(self).spec_expiration() == old(self).spec_expiration(),
            final(self).spec_deadlock_detect_depth() == old(self).spec_deadlock_detect_depth(),
            final(self).spec_max_write_batch_size() == old(self).spec_max_write_batch_size(),
    {
        self.deadlock_detect = deadlock_detect;
    }

    pub fn set_lock_timeout(&mut self, lock_timeout: i64)
        ensures
            final(self).spec_lock_timeout() == lock_timeout,
            final(self).spec_set_snapshot() == old(self).spec_set_snapshot(),
            final(self).spec_deadlock_detect() == old(self).spec_deadlock_detect(),
            final(self).spec_expiration() == old(self).spec_expiration(),
            final(self).spec_deadlock_detect_depth() == old(self).spec_deadlock_detect_depth(),
            final(self).spec_max_write_batch_size() == old(self).spec_max_write_batch_size(),
    {
        self.lock_timeout = lock_timeout;
    }

    pub fn set_expiration(&mut self, expiration: i64)
        ensures
            final(self).spec_expiration() == expiration,
            final(self).spec_set_snapshot() == old(self).spec_set_snapshot(),
            final(self).spec_deadlock_detect() == old(self).spec_deadlock_detect(),
            final(self).spec_lock_timeout() == old(self).spec_lock_timeout(),
            final(self).spec_deadlock_detect_depth() == old(self).spec_deadlock_detect_depth(),
            final(self).spec_max_write_batch_size() == old(self).spec_max_write_batch_size(),
    {
        self.expiration = expiration;
    }

    pub fn set_deadlock_detect_depth(&mut self, depth: i64)
        ensures
            final(self).spec_deadlock_detect_depth() == depth,
            final(self).spec_set_snapshot() == old(self).spec_set_snapshot(),
            final(self).spec_deadlock_detect() == old(self).spec_deadlock_detect(),
            final(self).spec_lock_timeout() == old(self).spec_lock_timeout(),
            final(self).spec_expiration() == old(self).spec_expiration(),
            final(self).spec_max_write_batch_size() == old(self).spec_max_write_batch_size(),
    {
        self.deadlock_detect_depth = depth;
    }

    pub fn set_max_write_batch_size(&mut self, size: usize)
        ensures
            final(self).spec_max_write_batch_size() == size,
            final(self).spec_set_snapshot() == old(self).spec_set_snapshot(),
            final(self).spec_deadlock_detect() == old(self).spec_deadlock_detect(),
            final(self).spec_lock_timeout() == old(self).spec_lock_timeout(),
            final(self).spec_expiration() == old(self).spec_expiration(),
            final(self).spec_deadlock_detect_depth() == old(self).spec_deadlock_detect_depth(),
    {
        self.max_write_batch_size = size;
    }
}

} // verus!
