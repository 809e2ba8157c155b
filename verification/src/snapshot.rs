//! Point-in-time read views. A snapshot captures the contents a store had
//! when it was taken; reads made through it ignore every later write.
//!
//! Three variants share one capability — produce captured entries, or none:
//! a snapshot taken from a store ([`OwnedSnapshot`]), one obtained from a
//! transaction ([`BorrowedSnapshot`]), and the sentinel meaning "no snapshot,
//! read the current state" ([`NullSnapshot`]).

use vstd::prelude::*;

use crate::store::{kvs_to_map, sorted_kvs, Store};

verus! {

/// The shared capability of the snapshot variants: hand over the captured
/// entries, or report that there are none.
pub trait Snapshot {
    /// The captured entries, if this variant carries any.
    spec fn spec_entries(&self) -> Option<Seq<(Seq<u8>, Seq<u8>)>>;

    /// What a well-formed value of this variant guarantees.
    spec fn inv(&self) -> bool;

    /// The captured contents, or `None` for "read the current state".
    fn entries(&self) -> (r: Option<&Store>)
        requires
            self.inv(),
        ensures
            match r {
                Some(s) => self.spec_entries() == Some(s.kvs()) && s.wf(),
                None => self.spec_entries() is None,
            },
    ;
}

/// A snapshot taken from a store; it owns its captured contents.
pub struct OwnedSnapshot {
    data: Store,
}

impl OwnedSnapshot {
    /// The captured entries, in key order.
    pub closed spec fn kvs(self) -> Seq<(Seq<u8>, Seq<u8>)> {
        self.data.kvs()
    }

    pub open spec fn wf(self) -> bool {
        sorted_kvs(self.kvs())
    }

    pub(crate) fn from_store(data: Store) -> (r: OwnedSnapshot)
        ensures
            r.kvs() == data.kvs(),
    {
        OwnedSnapshot { data }
    }
}

impl View for OwnedSnapshot {
    type V = Map<Seq<u8>, Seq<u8>>;

    open spec fn view(&self) -> Map<Seq<u8>, Seq<u8>> {
        kvs_to_map(self.kvs())
    }
}

impl Snapshot for OwnedSnapshot {
    open spec fn spec_entries(&self) -> Option<Seq<(Seq<u8>, Seq<u8>)>> {
        Some(self.kvs())
    }

    open spec fn inv(&self) -> bool {
        self.wf()
    }

    fn entries(&self) -> (r: Option<&Store>) {
        Some(&self.data)
    }
}

/// A snapshot obtained from a live transaction. It owns a copy of what the
/// transaction captured when it began; its usefulness ends with the
/// transaction, but holding it is always safe.
pub struct BorrowedSnapshot {
    data: Store,
}

impl BorrowedSnapshot {
    /// The captured entries, in key order.
    pub closed spec fn kvs(self) -> Seq<(Seq<u8>, Seq<u8>)> {
        self.data.kvs()
    }

    pub open spec fn wf(self) -> bool {
        sorted_kvs(self.kvs())
    }

    pub(crate) fn from_store(data: Store) -> (r: BorrowedSnapshot)
        ensures
            r.kvs() == data.kvs(),
    {
        BorrowedSnapshot { data }
    }
}

impl View for BorrowedSnapshot {
    type V = Map<Seq<u8>, Seq<u8>>;

    open spec fn view(&self) -> Map<Seq<u8>, Seq<u8>> {
        kvs_to_map(self.kvs())
    }
}

impl Snapshot for BorrowedSnapshot {
    open spec fn spec_entries(&self) -> Option<Seq<(Seq<u8>, Seq<u8>)>> {
        Some(self.kvs())
    }

    open spec fn inv(&self) -> bool {
        self.wf()
    }

    fn entries(&self) -> (r: Option<&Store>) {
        Some(&self.data)
    }
}

/// The sentinel meaning "no snapshot": reads see the current state. It
/// carries no captured contents, and releasing it is a no-op.
pub struct NullSnapshot;

impl Snapshot for NullSnapshot {
    open spec fn spec_entries(&self) -> Option<Seq<(Seq<u8>, Seq<u8>)>> {
        None
    }

    open spec fn inv(&self) -> bool {
        true
    }

    fn entries(&self) -> (r: Option<&Store>) {
        None
    }
}

} // verus!
