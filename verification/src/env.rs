//! The collection of named stores on stable storage. Opening, destroying,
//! repairing and flushing a store all go through an explicit environment
//! value, so the open-time policies (create when missing, refuse when
//! present) are stated and checked against it.

use vstd::prelude::*;
use vstd::string::StringExecFns;

use crate::assoc::{
    assoc_lookup, keys_unique, lemma_assoc_lookup_absent, lemma_assoc_lookup_found,
    lemma_assoc_lookup_insert, lemma_assoc_lookup_remove,
};
use crate::store::Store;

verus! {

/// The named stores that exist, each with its persisted contents. Its view
/// is a map from name to contents.
pub struct Env {
    dbs: Vec<(String, Store)>,
}

impl View for Env {
    type V = Map<Seq<char>, Map<Seq<u8>, Seq<u8>>>;

    open spec fn view(&self) -> Map<Seq<char>, Map<Seq<u8>, Seq<u8>>> {
        Map::new(
            |n: Seq<char>| assoc_lookup(self.table(), n) is Some,
            |n: Seq<char>| assoc_lookup(self.table(), n).unwrap(),
        )
    }
}

impl Env {
    /// The names and contents, in storage order.
    pub closed spec fn table(self) -> Seq<(Seq<char>, Map<Seq<u8>, Seq<u8>>)> {
        Seq::new(self.dbs@.len(), |i: int| (self.dbs@[i].0@, self.dbs@[i].1@))
    }

    pub closed spec fn stores_wf(self) -> bool {
        forall|i: int| 0 <= i < self.dbs@.len() ==> self.dbs@[i].1.wf()
    }

    pub open spec fn wf(self) -> bool {
        keys_unique(self.table()) && self.stores_wf()
    }

    /// An environment with no stores.
    pub fn new() -> (r: Env)
        ensures
            r.wf(),
            r@ == Map::<Seq<char>, Map<Seq<u8>, Seq<u8>>>::empty(),
    {
        let r = Env { dbs: Vec::new() };
        proof {
            assert(r@ =~= Map::<Seq<char>, Map<Seq<u8>, Seq<u8>>>::empty());
        }
        r
    }

    fn find(&self, name: &String) -> (r: Option<usize>)
        ensures
            match r {
                Some(i) => i < self.table().len() && self.table()[i as int].0 == name@ && (forall|
                    j: int,
                |
                    0 <= j < i ==> self.table()[j].0 != name@),
                None => forall|j: int| 0 <= j < self.table().len() ==> self.table()[j].0 != name@,
            },
    {
        let n = self.dbs.len();
        let mut i: usize = 0;
        while i < n
            invariant
                i <= n,
                n == self.dbs@.len(),
                forall|j: int| 0 <= j < i ==> self.table()[j].0 != name@,
            decreases n - i,
        {
            if self.dbs[i].0 == *name {
                return Some(i);
            }
            i = i + 1;
        }
        None
    }

    /// Does a store of this name exist?
    pub fn contains(&self, name: &str) -> (r: bool)
        ensures
            r == self@.contains_key(name@),
    {
        let ns = <String as StringExecFns>::from_str(name);
        match self.find(&ns) {
            Some(i) => {
                proof {
                    lemma_assoc_lookup_found(self.table(), name@, i as int);
                }
                true
            },
            None => {
                proof {
                    lemma_assoc_lookup_absent(self.table(), name@);
                }
                false
            },
        }
    }

    /// A copy of the named store's persisted contents.
    pub(crate) fn lookup_copy(&self, name: &str) -> (r: Option<Store>)
        requires
            self.wf(),
        ensures
            match r {
                Some(st) => st.wf() && self@.contains_key(name@) && st@ == self@[name@],
                None => !self@.contains_key(name@),
            },
    {
        let ns = <String as StringExecFns>::from_str(name);
        match self.find(&ns) {
            Some(i) => {
                proof {
                    lemma_assoc_lookup_found(self.table(), name@, i as int);
                }
                Some(self.dbs[i].1.deep_copy())
            },
            None => {
                proof {
                    lemma_assoc_lookup_absent(self.table(), name@);
                }
                None
            },
        }
    }

    /// Persist `contents` under `name`, replacing what was there.
    pub(crate) fn save(&mut self, name: &str, contents: &Store)
        requires
            old(self).wf(),
            contents.wf(),
        ensures
            final(self).wf(),
            final(self)@ == old(self)@.insert(name@, contents@),
    {
        let ns = <String as StringExecFns>::from_str(name);
        let ghost t0 = self.table();
        let idx = self.find(&ns);
        match idx {
            Some(i) => {
                self.dbs.remove(i);
                proof {
                    let t1 = self.table();
                    assert(t1 =~= t0.remove(i as int));
                    assert forall|q: Seq<char>| true implies assoc_lookup(t1, q) == (if q
                        == name@ {
                        Option::<Map<Seq<u8>, Seq<u8>>>::None
                    } else {
                        assoc_lookup(t0, q)
                    }) by {
                        lemma_assoc_lookup_remove(t0, i as int, q);
                    }
                    assert forall|j: int| 0 <= j < t1.len() implies t1[j].0 != name@ by {
                        if j < i {
                            assert(t1[j] == t0[j]);
                        } else {
                            assert(t1[j] == t0[j + 1]);
                        }
                    }
                }
            },
            None => {},
        }
        let ghost t1 = self.table();
        let n = self.dbs.len();
        self.dbs.push((ns, contents.deep_copy()));
        proof {
            let t2 = self.table();
            assert(t2 =~= t1.insert(n as int, (name@, contents@)));
            assert forall|q: Seq<char>| true implies assoc_lookup(t2, q) == (if q == name@ {
                Some(contents@)
            } else {
                assoc_lookup(t0, q)
            }) by {
                lemma_assoc_lookup_insert(t1, n as int, (name@, contents@), q);
            }
            assert forall|a: int, b: int| 0 <= a < b < t2.len() implies t2[a].0 != t2[b].0 by {
                if b < t2.len() - 1 {
                    if idx is Some {
                        let i = idx.unwrap() as int;
                        assert(t1[a] == if a < i {
                            t0[a]
                        } else {
                            t0[a + 1]
                        });
                        assert(t1[b] == if b < i {
                            t0[b]
                        } else {
                            t0[b + 1]
                        });
                    }
                }
            }
            assert(self@ =~= old(self)@.insert(name@, contents@));
        }
    }

    /// Remove the named store; a no-op if it does not exist.
    pub(crate) fn remove_db(&mut self, name: &str)
        requires
            old(self).wf(),
        ensures
            final(self).wf(),
            final(self)@ == old(self)@.remove(name@),
    {
        let ns = <String as StringExecFns>::from_str(name);
        let ghost t0 = self.table();
        match self.find(&ns) {
            Some(i) => {
                self.dbs.remove(i);
                proof {
                    let t1 = self.table();
                    assert(t1 =~= t0.remove(i as int));
                    assert forall|q: Seq<char>| true implies assoc_lookup(t1, q) == (if q
                        == name@ {
                        Option::<Map<Seq<u8>, Seq<u8>>>::None
                    } else {
                        assoc_lookup(t0, q)
                    }) by {
                        lemma_assoc_lookup_remove(t0, i as int, q);
                    }
                    assert forall|a: int, b: int| 0 <= a < b < t1.len() implies t1[a].0
                        != t1[b].0 by {
                        assert(t1[a] == if a < i {
                            t0[a]
                        } else {
                            t0[a + 1]
                        });
                        assert(t1[b] == if b < i {
                            t0[b]
                        } else {
                            t0[b + 1]
                        });
                    }
                    assert(self@ =~= old(self)@.remove(name@));
                }
            },
            None => {
                proof {
                    lemma_assoc_lookup_absent(t0, name@);
                    assert(self@ =~= old(self)@.remove(name@));
                }
            },
        }
    }
}

} // verus!
