//! The key-value store interface the reader works against.
//!
//! The production store is an embedded engine reached through a native
//! binding, out of this core's scope; the reader only needs read-only point
//! lookups, so it is written against this minimal interface and can be driven
//! by the in-memory [`MemStore`] as well.

use vstd::prelude::*;

verus! {

/// A read-only key-value store supporting point lookups by byte key.
pub trait KvStore {
    /// The store's abstract contents: what it holds under each key.
    spec fn lookup(&self, key: Seq<u8>) -> Option<Seq<u8>>;

    /// Point lookup: exactly the bytes that [`Self::lookup`] says are under
    /// `key`, or nothing.
    fn get(&self, key: &[u8]) -> (r: Option<Vec<u8>>)
        ensures
            match r {
                Some(v) => self.lookup(key@) matches Some(s) && v@ == s,
                None => self.lookup(key@) is None,
            },
    ;
}

/// First-match lookup over an entry list, newest entry first.
pub open spec fn seq_lookup(s: Seq<(Vec<u8>, Vec<u8>)>, key: Seq<u8>) -> Option<Seq<u8>>
    decreases s.len(),
{
    if s.len() == 0 {
        None
    } else if s[0].0@ == key {
        Some(s[0].1@)
    } else {
        seq_lookup(s.skip(1), key)
    }
}

/// An in-memory store: an entry list searched front to back, so a newer
/// insertion shadows an older one.
pub struct MemStore {
    entries: Vec<(Vec<u8>, Vec<u8>)>,
}

/// Byte-string equality.
fn bytes_eq(a: &[u8], b: &[u8]) -> (r: bool)
    ensures
        r <==> a@ == b@,
{
    if a.len() != b.len() {
        proof {
            assert(a@.len() != b@.len());
        }
        return false;
    }
    let mut i: usize = 0;
    while i < a.len()
        invariant
            i <= a@.len(),
            a@.len() == b@.len(),
            forall|j: int| 0 <= j < i ==> a@[j] == b@[j],
        decreases a@.len() - i,
    {
        if *vstd::slice::slice_index_get(a, i) != *vstd::slice::slice_index_get(b, i) {
            return false;
        }
        i = i + 1;
    }
    proof {
        assert(a@ =~= b@);
    }
    true
}

impl MemStore {
    /// An empty store.
    pub fn new() -> (r: Self)
        ensures
            forall|k: Seq<u8>| r.lookup(k) is None,
    {
        MemStore { entries: Vec::new() }
    }

    /// Add `value` under `key`, shadowing any earlier entry with that key.
    pub fn insert(&mut self, key: Vec<u8>, value: Vec<u8>)
        ensures
            forall|k: Seq<u8>|
                final(self).lookup(k) == (if k == key@ {
                    Some(value@)
                } else {
                    old(self).lookup(k)
                }),
    {
        let ghost before = self.entries@;
        self.entries.insert(0, (key, value));
        proof {
            assert(self.entries@.skip(1) =~= before);
            assert forall|k: Seq<u8>|
                seq_lookup(self.entries@, k) == (if k == key@ {
                    Some(value@)
                } else {
                    seq_lookup(before, k)
                }) by {
                assert(self.entries@[0].0@ == key@);
                assert(self.entries@[0].1@ == value@);
            }
        }
    }
}

impl KvStore for MemStore {
    closed spec fn lookup(&self, key: Seq<u8>) -> Option<Seq<u8>> {
        seq_lookup(self.entries@, key)
    }

    fn get(&self, key: &[u8]) -> (r: Option<Vec<u8>>) {
        proof {
            assert(self.entries@.skip(0) =~= self.entries@);
        }
        let mut i: usize = 0;
        while i < self.entries.len()
            invariant
                i <= self.entries@.len(),
                seq_lookup(self.entries@, key@) == seq_lookup(
                    self.entries@.skip(i as int),
                    key@,
                ),
            decreases self.entries@.len() - i,
        {
            proof {
                assert(self.entries@.skip(i as int)[0] == self.entries@[i as int]);
                assert(self.entries@.skip(i as int).skip(1) =~= self.entries@.skip(i + 1));
            }
            let entry = &self.entries[i];
            if bytes_eq(entry.0.as_slice(), key) {
                let found = vstd::slice::slice_to_vec(entry.1.as_slice());
                return Some(found);
            }
            i = i + 1;
        }
        proof {
            assert(self.entries@.skip(self.entries@.len() as int)
                =~= Seq::<(Vec<u8>, Vec<u8>)>::empty());
        }
        None
    }
}

} // verus!
