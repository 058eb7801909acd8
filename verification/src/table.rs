//! An approximate transposition table: a fixed-capacity, lossy map from
//! position hashes to node indices.
//!
//! Each hash owns a single bucket.  A colliding insert neither replaces the
//! occupant nor records the new entry: the table is allowed to forget
//! transpositions, never to return a node it was not given.

use vstd::prelude::*;

verus! {

pub struct TranspositionTable {
    buckets: Vec<Option<(u64, usize)>>,
}

impl TranspositionTable {
    pub closed spec fn capacity(self) -> int {
        self.buckets@.len() as int
    }

    /// The node the table currently associates with `hash`.
    pub closed spec fn spec_lookup(self, hash: u64) -> Option<usize> {
        if self.buckets@.len() == 0 {
            None
        } else {
            match self.buckets@[hash as int % (self.buckets@.len() as int)] {
                Some((h, n)) => if h == hash {
                    Some(n)
                } else {
                    None
                },
                None => None,
            }
        }
    }

    /// A table with `capacity` empty buckets; capacity zero disables
    /// transposition detection altogether.
    pub fn new(capacity: usize) -> (r: TranspositionTable)
        ensures
            r.capacity() == capacity,
            forall|h: u64| r.spec_lookup(h) is None,
    {
        let mut buckets: Vec<Option<(u64, usize)>> = Vec::new();
        let mut i: usize = 0;
        while i < capacity
            invariant
                i <= capacity,
                buckets@.len() == i,
                forall|j: int| 0 <= j < i ==> buckets@[j] is None,
            decreases capacity - i,
        {
            buckets.push(None);
            i = i + 1;
        }
        TranspositionTable { buckets }
    }

    fn bucket_index(&self, hash: u64) -> (r: usize)
        requires
            self.buckets@.len() > 0,
        ensures
            r as int == hash as int % (self.buckets@.len() as int),
    {
        (hash % (self.buckets.len() as u64)) as usize
    }

    pub fn lookup(&self, hash: u64) -> (r: Option<usize>)
        ensures
            r == self.spec_lookup(hash),
    {
        if self.buckets.len() == 0 {
            return None;
        }
        let idx = self.bucket_index(hash);
        match self.buckets[idx] {
            Some((h, n)) => if h == hash {
                Some(n)
            } else {
                None
            },
            None => None,
        }
    }

    /// Installs `hash -> node` if the hash's bucket is free, and returns the
    /// entry that ends up standing for `hash`: a pre-existing entry wins, a
    /// collision with a foreign hash leaves the table unchanged.
    pub fn insert_or_get(&mut self, hash: u64, node: usize) -> (r: usize)
        ensures
            final(self).capacity() == old(self).capacity(),
            r == match old(self).spec_lookup(hash) {
                Some(n) => n,
                None => node,
            },
            forall|h2: u64|
                h2 != hash ==> final(self).spec_lookup(h2) == old(self).spec_lookup(h2),
            final(self).spec_lookup(hash) == old(self).spec_lookup(hash) || (old(self).spec_lookup(
                hash,
            ) is None && final(self).spec_lookup(hash) == Some(node)),
    {
        if self.buckets.len() == 0 {
            return node;
        }
        let idx = self.bucket_index(hash);
        match self.buckets[idx] {
            Some((h, n)) => {
                if h == hash {
                    n
                } else {
                    // Lossy: the bucket keeps its occupant.
                    node
                }
            },
            None => {
                self.buckets.set(idx, Some((hash, node)));
                proof {
                    assert(forall|h2: u64|
                        h2 != hash && h2 as int % (self.buckets@.len() as int) == idx as int
                            ==> self.spec_lookup(h2) is None);
                }
                node
            },
        }
    }
}

/// A snapshot of a finished search: each node's transposition key and stored
/// evaluation.  It may be handed to a new search as advisory warm-start
/// data.
pub struct PreviousTable {
    /// `(hash, stored evaluation)` of each node, in creation order.
    pub entries: Vec<(u64, i64)>,
}

impl PreviousTable {
    /// An empty snapshot, for a search that starts cold.
    pub fn empty() -> (r: PreviousTable)
        ensures
            r.entries@.len() == 0,
    {
        PreviousTable { entries: Vec::new() }
    }
}

} // verus!
