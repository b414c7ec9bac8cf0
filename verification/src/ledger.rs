//! The external reference-count ledger of a manager.
//!
//! The engine keeps one external reference count per node; every live handle
//! must hold exactly one increment of the count on its node. The ledger
//! mirrors those counts inside the manager, so that duplication and release
//! of handles are verified to move the counts in step: a count never drops
//! below zero, and it reaches zero exactly when the last handle on the node
//! is released.

use vstd::prelude::*;

verus! {

/// The reference count recorded for `id` in an association list: the value
/// of its last entry, or zero where no entry carries `id`.
pub open spec fn lookup(entries: Seq<(u64, usize)>, id: u64) -> usize
    decreases entries.len(),
{
    if entries.len() == 0 {
        0
    } else if entries.last().0 == id {
        entries.last().1
    } else {
        lookup(entries.drop_last(), id)
    }
}

/// Each node id appears in at most one entry.
pub open spec fn distinct_keys(entries: Seq<(u64, usize)>) -> bool {
    forall|p: int, q: int|
        0 <= p < q < entries.len() ==> (#[trigger] entries[p]).0 != (#[trigger] entries[q]).0
}

/// A table of external reference counts, one per node id.
pub struct Ledger {
    entries: Vec<(u64, usize)>,
}

/// Where no entry carries `id`, its count is zero.
proof fn lemma_lookup_absent(entries: Seq<(u64, usize)>, id: u64)
    requires
        forall|k: int| 0 <= k < entries.len() ==> (#[trigger] entries[k]).0 != id,
    ensures
        lookup(entries, id) == 0,
    decreases entries.len(),
{
    if entries.len() > 0 {
        lemma_lookup_absent(entries.drop_last(), id);
    }
}

/// With distinct keys, the entry that carries `id` gives its count.
proof fn lemma_lookup_present(entries: Seq<(u64, usize)>, i: int)
    requires
        distinct_keys(entries),
        0 <= i < entries.len(),
    ensures
        lookup(entries, entries[i].0) == entries[i].1,
    decreases entries.len(),
{
    if i == entries.len() - 1 {
    } else {
        assert(entries.drop_last()[i] == entries[i]);
        lemma_lookup_present(entries.drop_last(), i);
    }
}

/// Replacing the count in the entry at `i` changes only the count of its key.
proof fn lemma_lookup_update(entries: Seq<(u64, usize)>, i: int, c: usize, id: u64)
    requires
        distinct_keys(entries),
        0 <= i < entries.len(),
    ensures
        lookup(entries.update(i, (entries[i].0, c)), id) == if id == entries[i].0 {
            c
        } else {
            lookup(entries, id)
        },
    decreases entries.len(),
{
    let updated = entries.update(i, (entries[i].0, c));
    if i == entries.len() - 1 {
        assert(updated.drop_last() =~= entries.drop_last());
        if id == entries[i].0 {
        } else {
        }
    } else {
        assert(updated.drop_last() =~= entries.drop_last().update(i, (entries[i].0, c)));
        assert(entries.drop_last()[i] == entries[i]);
        lemma_lookup_update(entries.drop_last(), i, c, id);
    }
}

/// Appending an entry sets the count of its key and keeps every other count.
proof fn lemma_lookup_push(entries: Seq<(u64, usize)>, id: u64, c: usize, j: u64)
    ensures
        lookup(entries.push((id, c)), j) == if j == id {
            c
        } else {
            lookup(entries, j)
        },
{
    assert(entries.push((id, c)).drop_last() =~= entries);
}

impl Ledger {
    /// The counts are well formed: no node id is recorded twice.
    pub closed spec fn wf(&self) -> bool {
        distinct_keys(self.entries@)
    }

    /// The reference count recorded for the node `id`.
    pub closed spec fn count(&self, id: u64) -> usize {
        lookup(self.entries@, id)
    }

    /// A ledger with every count zero.
    pub fn new() -> (r: Ledger)
        ensures
            r.wf(),
            forall|id: u64| r.count(id) == 0,
    {
        Ledger { entries: Vec::new() }
    }

    /// The position of the entry carrying `id`, where one exists.
    fn find(&self, id: u64) -> (r: Option<usize>)
        ensures
            match r {
                Some(i) => i < self.entries@.len() && self.entries@[i as int].0 == id,
                None => forall|k: int|
                    0 <= k < self.entries@.len() ==> (#[trigger] self.entries@[k]).0 != id,
            },
    {
        let n = self.entries.len();
        let mut i: usize = 0;
        while i < n
            invariant
                i <= n,
                n == self.entries@.len(),
                forall|k: int| 0 <= k < i ==> (#[trigger] self.entries@[k]).0 != id,
            decreases n - i,
        {
            if self.entries[i].0 == id {
                return Some(i);
            }
            i = i + 1;
        }
        None
    }

    /// The reference count of the node `id`.
    pub fn get(&self, id: u64) -> (r: usize)
        requires
            self.wf(),
        ensures
            r == self.count(id),
    {
        match self.find(id) {
            Some(i) => {
                proof {
                    lemma_lookup_present(self.entries@, i as int);
                }
                self.entries[i].1
            },
            None => {
                proof {
                    lemma_lookup_absent(self.entries@, id);
                }
                0
            },
        }
    }

    /// Record one more reference to the node `id`.
    pub fn incr(&mut self, id: u64)
        requires
            old(self).wf(),
            old(self).count(id) < usize::MAX,
        ensures
            final(self).wf(),
            final(self).count(id) == old(self).count(id) + 1,
            forall|j: u64| j != id ==> final(self).count(j) == old(self).count(j),
    {
        match self.find(id) {
            Some(i) => {
                proof {
                    lemma_lookup_present(self.entries@, i as int);
                }
                let c = self.entries[i].1;
                self.entries.set(i, (id, c + 1));
                proof {
                    assert(self.entries@ =~= old(self).entries@.update(
                        i as int,
                        (old(self).entries@[i as int].0, (c + 1) as usize),
                    ));
                    lemma_lookup_update(
                        old(self).entries@,
                        i as int,
                        (c + 1) as usize,
                        id,
                    );
                    assert forall|j: u64| j != id implies self.count(j) == old(
                        self,
                    ).count(j) by {
                        lemma_lookup_update(old(self).entries@, i as int, (c + 1) as usize, j);
                    }
                }
            },
            None => {
                proof {
                    lemma_lookup_absent(self.entries@, id);
                }
                self.entries.push((id, 1));
                proof {
                    lemma_lookup_push(old(self).entries@, id, 1, id);
                    assert forall|j: u64| j != id implies self.count(j) == old(
                        self,
                    ).count(j) by {
                        lemma_lookup_push(old(self).entries@, id, 1, j);
                    }
                }
            },
        }
    }

    /// Give back one reference to the node `id`. The count never drops below
    /// zero: a release without a matching reference is refused.
    pub fn decr(&mut self, id: u64)
        requires
            old(self).wf(),
            old(self).count(id) >= 1,
        ensures
            final(self).wf(),
            final(self).count(id) == old(self).count(id) - 1,
            forall|j: u64| j != id ==> final(self).count(j) == old(self).count(j),
    {
        match self.find(id) {
            Some(i) => {
                proof {
                    lemma_lookup_present(self.entries@, i as int);
                }
                let c = self.entries[i].1;
                self.entries.set(i, (id, c - 1));
                proof {
                    assert(self.entries@ =~= old(self).entries@.update(
                        i as int,
                        (old(self).entries@[i as int].0, (c - 1) as usize),
                    ));
                    lemma_lookup_update(old(self).entries@, i as int, (c - 1) as usize, id);
                    assert forall|j: u64| j != id implies self.count(j) == old(
                        self,
                    ).count(j) by {
                        lemma_lookup_update(old(self).entries@, i as int, (c - 1) as usize, j);
                    }
                }
            },
            None => {
                proof {
                    lemma_lookup_absent(self.entries@, id);
                }
                // unreachable: the count is at least one
                assert(false);
            },
        }
    }
}

} // verus!
