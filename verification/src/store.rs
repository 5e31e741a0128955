//! The durable record of per-migration progress.

use vstd::prelude::*;
use crate::progress::{Progress, PARTS_ONE};

verus! {

/// A persisted mapping from migration identity to progress fraction.
///
/// A record is created, with value zero, the first time the runner touches
/// a migration; it is mutated only after a committed step and never
/// deleted, so a completed record remains as a permanent marker. An
/// identity with no record reads as zero rather than as an error.
pub struct ProgressStore {
    entries: Vec<(String, Progress)>,
}

impl ProgressStore {
    /// Whether a record exists under `name`.
    pub closed spec fn known(self, name: Seq<char>) -> bool {
        exists|i: int| 0 <= i < self.entries@.len() && self.entries@[i].0@ == name
    }

    /// The position of the record under `name`, where one exists.
    pub closed spec fn index_of(self, name: Seq<char>) -> int {
        choose|i: int| 0 <= i < self.entries@.len() && self.entries@[i].0@ == name
    }

    /// The recorded progress under `name`, in parts per billion; an
    /// unknown name reads as zero.
    pub closed spec fn stored(self, name: Seq<char>) -> u32 {
        if self.known(name) {
            self.entries@[self.index_of(name)].1.parts
        } else {
            0
        }
    }

    /// How many records exist.
    pub closed spec fn record_count(self) -> nat {
        self.entries@.len()
    }

    /// Well-formedness: at most one record per name, every record within
    /// one whole.
    pub closed spec fn wf(self) -> bool {
        &&& forall|i: int, j: int|
            0 <= i < j < self.entries@.len() ==> self.entries@[i].0@ != self.entries@[j].0@
        &&& forall|i: int|
            0 <= i < self.entries@.len() ==> (#[trigger] self.entries@[i]).1.wf()
    }

    /// The record at a position determines lookup: holding a record under
    /// `name` at position `i` pins both the lookup position and the value
    /// read under `name`.
    proof fn lemma_index_determined(self, name: Seq<char>, i: int)
        requires
            self.wf(),
            0 <= i < self.entries@.len(),
            self.entries@[i].0@ == name,
        ensures
            self.known(name),
            self.index_of(name) == i,
            self.stored(name) == self.entries@[i].1.parts,
    {
        assert(self.known(name));
        let j = self.index_of(name);
        assert(0 <= j < self.entries@.len() && self.entries@[j].0@ == name);
        if i < j {
            assert(self.entries@[i].0@ != self.entries@[j].0@);
        } else if j < i {
            assert(self.entries@[j].0@ != self.entries@[i].0@);
        }
    }

    /// Every value read out of a well-formed store lies within one whole.
    pub proof fn lemma_stored_wf(self, name: Seq<char>)
        requires
            self.wf(),
        ensures
            self.stored(name) <= PARTS_ONE,
    {
        if self.known(name) {
            let i = self.index_of(name);
            assert(0 <= i < self.entries@.len() && self.entries@[i].0@ == name);
            assert(self.entries@[i].1.wf());
        }
    }

    /// An empty store: no records at all, so every name reads as zero.
    pub fn new() -> (r: ProgressStore)
        ensures
            r.wf(),
            r.record_count() == 0,
            forall|n: Seq<char>| !r.known(n),
            forall|n: Seq<char>| r.stored(n) == 0,
    {
        ProgressStore { entries: Vec::new() }
    }

    /// Whether the store holds no record yet.
    pub fn is_empty(&self) -> (r: bool)
        ensures
            r == (self.record_count() == 0),
    {
        self.entries.is_empty()
    }

    /// How many records the store holds.
    pub fn len(&self) -> (r: usize)
        ensures
            r == self.record_count(),
    {
        self.entries.len()
    }

    /// The position of the record under `name`, where one exists.
    fn find(&self, name: &str) -> (r: Option<usize>)
        requires
            self.wf(),
        ensures
            (match r {
                Some(i) => {
                    &&& i < self.entries@.len()
                    &&& self.known(name@)
                    &&& self.index_of(name@) == i
                    &&& self.stored(name@) == self.entries@[i as int].1.parts
                },
                None => !self.known(name@),
            }),
    {
        let key: String = name.to_owned();
        let n = self.entries.len();
        let mut i: usize = 0;
        while i < n
            invariant
                i <= n,
                n == self.entries@.len(),
                self.wf(),
                forall|j: int| 0 <= j < i ==> self.entries@[j].0@ != name@,
                key@ == name@,
            decreases n - i,
        {
            if self.entries[i].0 == key {
                proof {
                    self.lemma_index_determined(name@, i as int);
                }
                return Some(i);
            }
            i += 1;
        }
        None
    }

    /// The recorded progress under `name`; an unknown name reads as zero,
    /// not as an error.
    pub fn get(&self, name: &str) -> (r: Progress)
        requires
            self.wf(),
        ensures
            r.parts == self.stored(name@),
            r.wf(),
    {
        match self.find(name) {
            Some(i) => {
                proof {
                    self.lemma_stored_wf(name@);
                }
                self.entries[i].1
            },
            None => Progress::zero(),
        }
    }

    /// Whether the record under `name` reports a fully applied migration.
    pub fn is_complete(&self, name: &str) -> (r: bool)
        requires
            self.wf(),
        ensures
            r == (self.stored(name@) == PARTS_ONE),
    {
        self.get(name).is_complete()
    }

    /// Commits `progress` under `name`, creating the record where it is
    /// new. No record is ever removed, and no other name's reading moves.
    pub fn set(&mut self, name: &str, progress: Progress)
        requires
            old(self).wf(),
            progress.wf(),
        ensures
            final(self).wf(),
            final(self).known(name@),
            final(self).stored(name@) == progress.parts,
            forall|n: Seq<char>| n != name@ ==> final(self).stored(n) == old(self).stored(n),
            forall|n: Seq<char>| n != name@ ==> (final(self).known(n) <==> old(self).known(n)),
            old(self).known(name@) ==> final(self).record_count() == old(self).record_count(),
            !old(self).known(name@) ==> final(self).record_count() == old(self).record_count()
                + 1,
    {
        let ghost pre = *self;
        match self.find(name) {
            Some(i) => {
                proof {
                    let j = pre.index_of(name@);
                    assert(0 <= j < pre.entries@.len() && pre.entries@[j].0@ == name@);
                }
                self.entries[i].1 = progress;
                proof {
                    assert(self.entries@[i as int].0 == pre.entries@[i as int].0);
                    assert forall|k: int|
                        0 <= k < pre.entries@.len() && k != i implies self.entries@[k]
                        == pre.entries@[k] by {}
                    assert forall|k: int| 0 <= k < pre.entries@.len() implies self.entries@[k].0
                        == pre.entries@[k].0 by {}
                    assert(self.wf());
                    self.lemma_index_determined(name@, i as int);
                    assert forall|n: Seq<char>| n != name@ implies self.stored(n) == pre.stored(n)
                        && (self.known(n) <==> pre.known(n)) by {
                        self.lemma_lookup_agrees(pre, i as int, n);
                    }
                }
            },
            None => {
                let key: String = name.to_owned();
                self.entries.push((key, progress));
                proof {
                    let m = pre.entries@.len() as int;
                    assert(self.entries@[m].0@ == name@);
                    assert forall|i: int, j: int|
                        0 <= i < j < self.entries@.len() implies self.entries@[i].0@
                        != self.entries@[j].0@ by {
                        if j < m {
                            assert(pre.entries@[i].0@ != pre.entries@[j].0@);
                        } else {
                            assert(self.entries@[j].0@ == name@);
                            assert(pre.entries@[i].0@ != name@) by {
                                if pre.entries@[i].0@ == name@ {
                                    assert(pre.known(name@));
                                }
                            }
                        }
                    }
                    assert(self.wf());
                    self.lemma_index_determined(name@, m);
                    assert forall|n: Seq<char>| n != name@ implies self.stored(n) == pre.stored(n)
                        && (self.known(n) <==> pre.known(n)) by {
                        self.lemma_push_preserves_lookup(pre, n);
                    }
                }
            },
        }
    }

    /// Replacing the record at position `i` leaves the reading of every
    /// other name where it was.
    proof fn lemma_lookup_agrees(self, pre: ProgressStore, i: int, n: Seq<char>)
        requires
            pre.wf(),
            0 <= i < pre.entries@.len(),
            self.entries@.len() == pre.entries@.len(),
            self.entries@[i].0@ == pre.entries@[i].0@,
            forall|k: int|
                0 <= k < pre.entries@.len() && k != i ==> self.entries@[k] == pre.entries@[k],
            n != pre.entries@[i].0@,
            self.wf(),
        ensures
            self.stored(n) == pre.stored(n),
            self.known(n) <==> pre.known(n),
    {
        assert forall|k: int| 0 <= k < self.entries@.len() implies self.entries@[k].0@
            == pre.entries@[k].0@ by {}
        if pre.known(n) {
            let k = pre.index_of(n);
            assert(0 <= k < pre.entries@.len() && pre.entries@[k].0@ == n);
            assert(k != i);
            self.lemma_index_determined(n, k);
            pre.lemma_index_determined(n, k);
        } else {
            if self.known(n) {
                let k = self.index_of(n);
                assert(0 <= k < self.entries@.len() && self.entries@[k].0@ == n);
                assert(pre.entries@[k].0@ == n);
                assert(pre.known(n));
            }
        }
    }

    /// Appending a record for a fresh name leaves the reading of every
    /// other name where it was.
    proof fn lemma_push_preserves_lookup(self, pre: ProgressStore, n: Seq<char>)
        requires
            pre.wf(),
            self.wf(),
            self.entries@.len() == pre.entries@.len() + 1,
            forall|k: int| 0 <= k < pre.entries@.len() ==> self.entries@[k] == pre.entries@[k],
            n != self.entries@[pre.entries@.len() as int].0@,
        ensures
            self.stored(n) == pre.stored(n),
            self.known(n) <==> pre.known(n),
    {
        let m = pre.entries@.len() as int;
        if pre.known(n) {
            let k = pre.index_of(n);
            assert(0 <= k < pre.entries@.len() && pre.entries@[k].0@ == n);
            self.lemma_index_determined(n, k);
            pre.lemma_index_determined(n, k);
        } else {
            if self.known(n) {
                let k = self.index_of(n);
                assert(0 <= k < self.entries@.len() && self.entries@[k].0@ == n);
                assert(k != m);
                assert(pre.entries@[k].0@ == n);
                assert(pre.known(n));
            }
        }
    }
}

} // verus!
