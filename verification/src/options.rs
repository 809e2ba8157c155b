//! Configuration values. Each is a plain scoped value: create it, set what
//! the next call should honour, drop it freely. None of them borrows any
//! other component.

use vstd::prelude::*;

use crate::snapshot::Snapshot;
use crate::store::{kvs_to_map, opt_bytes, sorted_kvs, Store};

verus! {

/// Which map a read sees: the attached snapshot's contents when one is
/// attached, the current contents otherwise.
pub open spec fn effective_map(
    db: Map<Seq<u8>, Seq<u8>>,
    snapshot: Option<Map<Seq<u8>, Seq<u8>>>,
) -> Map<Seq<u8>, Seq<u8>> {
    match snapshot {
        Some(s) => s,
        None => db,
    }
}

/// Tuning for opening a store.
#[derive(Clone, Copy)]
pub struct Options {
    create_if_missing: bool,
    error_if_exists: bool,
}

impl Options {
    pub closed spec fn spec_create_if_missing(self) -> bool {
        self.create_if_missing
    }

    pub closed spec fn spec_error_if_exists(self) -> bool {
        self.error_if_exists
    }

    pub fn new() -> (r: Options)
        ensures
            !r.spec_create_if_missing(),
            !r.spec_error_if_exists(),
    {
        Options { create_if_missing: false, error_if_exists: false }
    }

    pub fn set_create_if_missing(&mut self, create: bool)
        ensures
            final(self).spec_create_if_missing() == create,
            final(self).spec_error_if_exists() == old(self).spec_error_if_exists(),
    {
        self.create_if_missing = create;
    }

    pub fn get_create_if_missing(&self) -> (r: bool)
        ensures
            r == self.spec_create_if_missing(),
    {
        self.create_if_missing
    }

    pub fn set_error_if_exists(&mut self, error: bool)
        ensures
            final(self).spec_error_if_exists() == error,
            final(self).spec_create_if_missing() == old(self).spec_create_if_missing(),
    {
        self.error_if_exists = error;
    }

    pub fn get_error_if_exists(&self) -> (r: bool)
        ensures
            r == self.spec_error_if_exists(),
    {
        self.error_if_exists
    }
}

/// Tuning for writes. The model honours no write tunables, so this is a bare
/// scoped value.
pub struct WriteOptions {}

impl WriteOptions {
    pub fn new() -> WriteOptions {
        WriteOptions {}
    }
}

/// Tuning for flushes.
pub struct FlushOptions {
    wait: bool,
}

impl FlushOptions {
    pub closed spec fn spec_wait(self) -> bool {
        self.wait
    }

    pub fn new() -> (r: FlushOptions)
        ensures
            r.spec_wait(),
    {
        FlushOptions { wait: true }
    }

    pub fn set_wait(&mut self, wait: bool)
        ensures
            final(self).spec_wait() == wait,
    {
        self.wait = wait;
    }

    pub fn get_wait(&self) -> (r: bool)
        ensures
            r == self.spec_wait(),
    {
        self.wait
    }
}

/// Tuning for reads: an optional snapshot to read through, and optional
/// iteration bounds. Attaching a snapshot copies its captured contents in;
/// exactly one of the three snapshot variants is attached at a time.
pub struct ReadOptions {
    snapshot: Option<Store>,
    lower_bound: Option<Vec<u8>>,
    upper_bound: Option<Vec<u8>>,
}

impl ReadOptions {
    /// The attached snapshot's entries, if one is attached.
    pub closed spec fn snapshot_kvs(self) -> Option<Seq<(Seq<u8>, Seq<u8>)>> {
        match self.snapshot {
            Some(st) => Some(st.kvs()),
            None => None,
        }
    }

    /// The attached snapshot's contents as a map, if one is attached.
    pub open spec fn snapshot_map(self) -> Option<Map<Seq<u8>, Seq<u8>>> {
        match self.snapshot_kvs() {
            Some(s) => Some(kvs_to_map(s)),
            None => None,
        }
    }

    pub closed spec fn spec_lower(self) -> Option<Seq<u8>> {
        opt_bytes(self.lower_bound)
    }

    pub closed spec fn spec_upper(self) -> Option<Seq<u8>> {
        opt_bytes(self.upper_bound)
    }

    pub open spec fn wf(self) -> bool {
        match self.snapshot_kvs() {
            Some(s) => sorted_kvs(s),
            None => true,
        }
    }

    pub fn new() -> (r: ReadOptions)
        ensures
            r.snapshot_kvs() is None,
            r.spec_lower() is None,
            r.spec_upper() is None,
            r.wf(),
    {
        ReadOptions { snapshot: None, lower_bound: None, upper_bound: None }
    }

    /// Attach a snapshot; reads through these options then see its captured
    /// contents. Attaching the null variant detaches.
    pub fn set_snapshot<S: Snapshot>(&mut self, snapshot: &S)
        requires
            snapshot.inv(),
        ensures
            final(self).snapshot_kvs() == snapshot.spec_entries(),
            final(self).spec_lower() == old(self).spec_lower(),
            final(self).spec_upper() == old(self).spec_upper(),
            final(self).wf(),
    {
        match snapshot.entries() {
            Some(st) => {
                self.snapshot = Some(st.deep_copy());
            },
            None => {
                self.snapshot = None;
            },
        }
    }

    /// Iteration stops before this key (exclusive).
    pub fn set_iterate_upper_bound(&mut self, upper_bound: &[u8])
        ensures
            final(self).spec_upper() == Some(upper_bound@),
            final(self).spec_lower() == old(self).spec_lower(),
            final(self).snapshot_kvs() == old(self).snapshot_kvs(),
            final(self).wf() == old(self).wf(),
    {
        self.upper_bound = Some(vstd::slice::slice_to_vec(upper_bound));
    }

    /// Iteration starts at this key (inclusive).
    pub fn set_iterate_lower_bound(&mut self, lower_bound: &[u8])
        ensures
            final(self).spec_lower() == Some(lower_bound@),
            final(self).spec_upper() == old(self).spec_upper(),
            final(self).snapshot_kvs() == old(self).snapshot_kvs(),
            final(self).wf() == old(self).wf(),
    {
        self.lower_bound = Some(vstd::slice::slice_to_vec(lower_bound));
    }

    pub(crate) fn snapshot_store(&self) -> (r: Option<&Store>)
        ensures
            match r {
                Some(s) => self.snapshot_kvs() == Some(s.kvs()),
                None => self.snapshot_kvs() is None,
            },
    {
        match &self.snapshot {
            Some(s) => Some(s),
            None => None,
        }
    }

    pub(crate) fn lower_ref(&self) -> (r: &Option<Vec<u8>>)
        ensures
            opt_bytes(*r) == self.spec_lower(),
    {
        &self.lower_bound
    }

    pub(crate) fn upper_ref(&self) -> (r: &Option<Vec<u8>>)
        ensures
            opt_bytes(*r) == self.spec_upper(),
    {
        &self.upper_bound
    }
}

} // verus!
