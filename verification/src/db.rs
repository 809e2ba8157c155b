//! The primary handle: an open store. It owns its contents; snapshots and
//! iterators created from it own captured copies, so no handle can dangle.

use vstd::prelude::*;
use vstd::string::StringExecFns;

use crate::bytes::Bytes;
use crate::env::Env;
use crate::error::Error;
use crate::iterator::Iterator;
use crate::options::{effective_map, FlushOptions, Options, ReadOptions, WriteOptions};
use crate::ops::{apply_ops, apply_to_store};
use crate::snapshot::OwnedSnapshot;
use crate::store::{kvs_to_map, map_lookup, range_filtered, sorted_kvs, Store};
use crate::write_batch::WriteBatch;

verus! {

/// What a point read must hand back: the value under `k` in `m`, wrapped in
/// `Ok(Some(..))`; `Ok(None)` when `k` is unbound. Absence is not an error.
pub open spec fn read_result(
    m: Map<Seq<u8>, Seq<u8>>,
    k: Seq<u8>,
    r: Result<Option<Bytes>, Error>,
) -> bool {
    match r {
        Ok(Some(b)) => map_lookup(m, k) == Some(b@),
        Ok(None) => map_lookup(m, k) is None,
        Err(_) => false,
    }
}

/// An open store.
pub struct DB {
    name: String,
    store: Store,
}

impl View for DB {
    type V = Map<Seq<u8>, Seq<u8>>;

    open spec fn view(&self) -> Map<Seq<u8>, Seq<u8>> {
        kvs_to_map(self.kvs())
    }
}

impl DB {
    /// The entries, in ascending key order.
    pub closed spec fn kvs(self) -> Seq<(Seq<u8>, Seq<u8>)> {
        self.store.kvs()
    }

    /// The name this store was opened under.
    pub closed spec fn name_spec(self) -> Seq<char> {
        self.name@
    }

    pub open spec fn wf(self) -> bool {
        sorted_kvs(self.kvs())
    }

    /// Open the named store. An existing store opens with its persisted
    /// contents unless the options refuse existing stores; a missing one is
    /// created empty exactly when the options allow creation.
    pub fn open(env: &mut Env, options: &Options, name: &str) -> (r: Result<DB, Error>)
        requires
            old(env).wf(),
        ensures
            final(env).wf(),
            match r {
                Ok(db) => {
                    &&& db.wf()
                    &&& db.name_spec() == name@
                    &&& if old(env)@.contains_key(name@) {
                        &&& !options.spec_error_if_exists()
                        &&& db@ == old(env)@[name@]
                        &&& final(env)@ == old(env)@
                    } else {
                        &&& options.spec_create_if_missing()
                        &&& db@ == Map::<Seq<u8>, Seq<u8>>::empty()
                        &&& final(env)@ == old(env)@.insert(
                            name@,
                            Map::<Seq<u8>, Seq<u8>>::empty(),
                        )
                    }
                },
                Err(_) => {
                    &&& final(env)@ == old(env)@
                    &&& if old(env)@.contains_key(name@) {
                        options.spec_error_if_exists()
                    } else {
                        !options.spec_create_if_missing()
                    }
                },
            },
    {
        match env.lookup_copy(name) {
            Some(st) => {
                if options.get_error_if_exists() {
                    Err(Error::from_text("store already exists"))
                } else {
                    Ok(DB { name: <String as StringExecFns>::from_str(name), store: st })
                }
            },
            None => {
                if options.get_create_if_missing() {
                    let st = Store::new();
                    env.save(name, &st);
                    Ok(DB { name: <String as StringExecFns>::from_str(name), store: st })
                } else {
                    Err(Error::from_text("store does not exist"))
                }
            },
        }
    }

    /// Remove the named store and its contents; succeeds whether or not the
    /// store exists.
    pub fn destroy(env: &mut Env, _options: &Options, name: &str) -> (r: Result<(), Error>)
        requires
            old(env).wf(),
        ensures
            final(env).wf(),
            r is Ok,
            final(env)@ == old(env)@.remove(name@),
    {
        env.remove_db(name);
        Ok(())
    }

    /// Salvage the named store in place. It succeeds exactly when the store
    /// exists, and never alters what the environment holds.
    pub fn repair(env: &mut Env, _options: &Options, name: &str) -> (r: Result<(), Error>)
        requires
            old(env).wf(),
        ensures
            final(env).wf(),
            final(env)@ == old(env)@,
            r is Ok <==> old(env)@.contains_key(name@),
    {
        if env.contains(name) {
            Ok(())
        } else {
            Err(Error::from_text("store does not exist"))
        }
    }

    /// Point lookup; reads through the options' snapshot when one is
    /// attached.
    pub fn get(&self, options: &ReadOptions, key: &[u8]) -> (r: Result<Option<Bytes>, Error>)
        requires
            self.wf(),
            options.wf(),
        ensures
            r is Ok,
            read_result(effective_map(self@, options.snapshot_map()), key@, r),
    {
        let src: &Store = match options.snapshot_store() {
            Some(s) => s,
            None => &self.store,
        };
        match src.fetch(key) {
            Some(v) => Ok(Some(Bytes::from_vec(v))),
            None => Ok(None),
        }
    }

    /// Batched point lookups: one result per key, in the order given, each
    /// key's outcome independent of the others.
    pub fn multi_get(&self, options: &ReadOptions, keys: &Vec<Vec<u8>>) -> (r: Vec<
        Result<Option<Bytes>, Error>,
    >)
        requires
            self.wf(),
            options.wf(),
        ensures
            r@.len() == keys@.len(),
            forall|i: int|
                0 <= i < keys@.len() ==> read_result(
                    effective_map(self@, options.snapshot_map()),
                    keys@[i]@,
                    r@[i],
                ),
    {
        let n = keys.len();
        let mut out: Vec<Result<Option<Bytes>, Error>> = Vec::new();
        let mut i: usize = 0;
        while i < n
            invariant
                i <= n,
                n == keys@.len(),
                self.wf(),
                options.wf(),
                out@.len() == i,
                forall|j: int|
                    0 <= j < i ==> read_result(
                        effective_map(self@, options.snapshot_map()),
                        keys@[j]@,
                        out@[j],
                    ),
            decreases n - i,
        {
            let one = self.get(options, keys[i].as_slice());
            out.push(one);
            i = i + 1;
        }
        out
    }

    /// Bind `key` to `value`.
    pub fn put(&mut self, _options: &WriteOptions, key: &[u8], value: &[u8]) -> (r: Result<
        (),
        Error,
    >)
        requires
            old(self).wf(),
        ensures
            final(self).wf(),
            r is Ok,
            final(self)@ == old(self)@.insert(key@, value@),
            final(self).name_spec() == old(self).name_spec(),
    {
        self.store.put(key, value);
        Ok(())
    }

    /// Apply every operation a batch has staged, atomically and in insertion
    /// order.
    pub fn write(&mut self, _options: &WriteOptions, batch: &WriteBatch) -> (r: Result<(), Error>)
        requires
            old(self).wf(),
        ensures
            final(self).wf(),
            r is Ok,
            final(self)@ == apply_ops(old(self)@, batch@),
            final(self).name_spec() == old(self).name_spec(),
    {
        apply_to_store(&mut self.store, batch.ops_ref());
        Ok(())
    }

    /// Unbind `key`; absence is not an error.
    pub fn delete(&mut self, _options: &WriteOptions, key: &[u8]) -> (r: Result<(), Error>)
        requires
            old(self).wf(),
        ensures
            final(self).wf(),
            r is Ok,
            final(self)@ == old(self)@.remove(key@),
            final(self).name_spec() == old(self).name_spec(),
    {
        self.store.delete(key);
        Ok(())
    }

    /// Persist the current contents to the environment under this store's
    /// name.
    pub fn flush(&self, env: &mut Env, _options: &FlushOptions) -> (r: Result<(), Error>)
        requires
            self.wf(),
            old(env).wf(),
        ensures
            final(env).wf(),
            r is Ok,
            final(env)@ == old(env)@.insert(self.name_spec(), self@),
    {
        env.save(self.name.as_str(), &self.store);
        Ok(())
    }

    /// A cursor over the entries the options select: the attached snapshot's
    /// contents (or the current contents), restricted to the iteration
    /// bounds. The cursor starts invalid; seek it first.
    pub fn create_iterator(&self, options: &ReadOptions) -> (it: Iterator)
        requires
            self.wf(),
            options.wf(),
        ensures
            it.wf(),
            !it.valid_spec(),
            it.kvs() == range_filtered(
                match options.snapshot_kvs() {
                    Some(sk) => sk,
                    None => self.kvs(),
                },
                options.spec_lower(),
                options.spec_upper(),
            ),
    {
        let src: &Store = match options.snapshot_store() {
            Some(s) => s,
            None => &self.store,
        };
        Iterator::from_store(src.range_copy(options.lower_ref(), options.upper_ref()))
    }

    /// Capture the current contents as a point-in-time view.
    pub fn create_snapshot(&self) -> (sp: OwnedSnapshot)
        requires
            self.wf(),
        ensures
            sp.wf(),
            sp.kvs() == self.kvs(),
            sp@ == self@,
    {
        OwnedSnapshot::from_store(self.store.deep_copy())
    }
}

} // verus!
