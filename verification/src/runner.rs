//! The orchestrator: advances one migration per tick within a budget.

use vstd::prelude::*;
use crate::migration::Migration;
use crate::progress::{Progress, PARTS_ONE};
use crate::store::ProgressStore;

verus! {

/// Overall state of a run, derived from the store and the registry: the
/// run is complete exactly when every registry entry reports a fully
/// applied migration.
#[derive(Clone, Copy, Debug, PartialEq, Eq, Structural)]
pub enum RunState {
    /// No progress record exists yet.
    NotStarted,
    /// Some migration has begun and work remains.
    InProgress,
    /// Every registry entry reports progress one; ticks are no-ops now.
    Completed,
}

/// A fatal fault in one tick, reported to the invoking scheduler. The tick
/// commits nothing when it reports one of these.
#[derive(Clone, Copy, Debug, PartialEq, Eq, Structural)]
pub enum TickError {
    /// The stepped migration reported a cost above the offered budget.
    BudgetExceeded,
    /// The stepped migration reported progress below its checkpoint.
    ProgressDecreased,
    /// The stepped migration reported progress above one whole.
    ProgressOutOfRange,
}

/// Checks one step report against the framework's rules: the reported cost
/// must fit in the offered budget, and the reported progress must neither
/// fall below the checkpoint the migration was handed nor exceed one
/// whole. The first broken rule, in that order, names the fault.
pub fn validate_step(previous: Progress, reported: Progress, consumed: u64, available: u64) -> (r:
    Result<(), TickError>)
    ensures
        r == Ok::<(), TickError>(()) <==> (consumed <= available && previous.parts
            <= reported.parts && reported.wf()),
        consumed > available ==> r == Err::<(), TickError>(TickError::BudgetExceeded),
        consumed <= available && reported.parts < previous.parts ==> r == Err::<(),
            TickError,
        >(TickError::ProgressDecreased),
        consumed <= available && reported.parts >= previous.parts && !reported.wf() ==> r
            == Err::<(), TickError>(TickError::ProgressOutOfRange),
{
    if consumed > available {
        Err(TickError::BudgetExceeded)
    } else if reported.parts < previous.parts {
        Err(TickError::ProgressDecreased)
    } else if reported.parts > PARTS_ONE {
        Err(TickError::ProgressOutOfRange)
    } else {
        Ok(())
    }
}

/// The runner: owns the registry snapshot and the progress store for the
/// duration of a run, and advances the first incomplete migration once per
/// tick. `completed` caches the terminal state so that a finished run
/// short-circuits every further tick without scanning the registry.
pub struct Runner<M: Migration> {
    /// The ordered registry snapshot.
    pub migrations: Vec<M>,
    /// The durable per-migration progress records.
    pub store: ProgressStore,
    /// Whether the run has been observed complete.
    pub completed: bool,
}

impl<M: Migration> Runner<M> {
    /// Whether registry entry `i` reports a fully applied migration.
    pub open spec fn entry_complete(self, i: int) -> bool {
        self.store.stored(self.migrations@[i].id()) == PARTS_ONE
    }

    /// Whether every registry entry before `n` reports a fully applied
    /// migration.
    pub open spec fn complete_upto(self, n: int) -> bool {
        forall|j: int| 0 <= j < n ==> #[trigger] self.entry_complete(j)
    }

    /// Whether every registry entry reports a fully applied migration.
    pub open spec fn run_complete(self) -> bool {
        self.complete_upto(self.migrations@.len() as int)
    }

    /// Whether entry `i` is the one a tick works on: the first registry
    /// entry whose recorded progress lies below one.
    pub open spec fn is_first_incomplete(self, i: int) -> bool {
        &&& 0 <= i < self.migrations@.len()
        &&& self.complete_upto(i)
        &&& !self.entry_complete(i)
    }

    /// Well-formedness: the store is well formed, every migration is, the
    /// identities are pairwise distinct, and the cached terminal flag is
    /// never ahead of the records.
    pub open spec fn wf(self) -> bool {
        &&& self.store.wf()
        &&& forall|i: int| 0 <= i < self.migrations@.len() ==> (#[trigger] self.migrations@[i]).inv()
        &&& forall|i: int, j: int|
            0 <= i < j < self.migrations@.len() ==> self.migrations@[i].id()
                != self.migrations@[j].id()
        &&& (self.completed ==> self.run_complete())
    }

    /// At most one entry is ever the first incomplete one.
    pub proof fn lemma_first_incomplete_unique(self, i: int, j: int)
        requires
            self.is_first_incomplete(i),
            self.is_first_incomplete(j),
        ensures
            i == j,
    {
        if i < j {
            assert(self.entry_complete(i));
        } else if j < i {
            assert(self.entry_complete(j));
        }
    }

    /// A run that is not complete has a first incomplete entry.
    pub proof fn lemma_first_incomplete_exists(self)
        requires
            !self.run_complete(),
        ensures
            exists|i: int| self.is_first_incomplete(i),
    {
        self.lemma_first_incomplete_from(0);
    }

    proof fn lemma_first_incomplete_from(self, k: int)
        requires
            0 <= k <= self.migrations@.len(),
            self.complete_upto(k),
            !self.run_complete(),
        ensures
            exists|i: int| self.is_first_incomplete(i),
        decreases self.migrations@.len() - k,
    {
        if k == self.migrations@.len() {
            assert(false);
        } else if !self.entry_complete(k) {
            assert(self.is_first_incomplete(k));
        } else {
            assert(self.complete_upto(k + 1)) by {
                assert(forall|j: int|
                    0 <= j < k + 1 ==> #[trigger] self.entry_complete(j) == if j < k {
                        self.entry_complete(j)
                    } else {
                        self.entry_complete(k)
                    });
            }
            self.lemma_first_incomplete_from(k + 1);
        }
    }

    /// A later migration never begins before every earlier one is fully
    /// applied: whenever a tick works on entry `i`, every entry before it
    /// already reports progress one.
    pub proof fn lemma_earlier_entries_complete(self, i: int, j: int)
        requires
            self.is_first_incomplete(i),
            0 <= j < i,
        ensures
            self.entry_complete(j),
    {
    }

    /// A pending migration stays untouched until its turn: a tick that
    /// works on entry `i` never creates a record for an entry after `i`,
    /// whatever the stepped migration reported.
    pub proof fn lemma_later_entries_untouched(
        pre: Runner<M>,
        post: Runner<M>,
        i: int,
        budget: u64,
        r: Result<u64, TickError>,
        j: int,
    )
        requires
            pre.wf(),
            pre.is_first_incomplete(i),
            Self::tick_step_post(pre, post, i, budget, r),
            i < j < pre.migrations@.len(),
            !pre.store.known(pre.migrations@[j].id()),
        ensures
            !post.store.known(pre.migrations@[j].id()),
    {
        let m = pre.migrations@[i];
        let prev = (Progress { parts: pre.store.stored(m.id()) });
        let reported = m.next(prev, budget).0;
        let consumed = m.next(prev, budget).1;
        assert(pre.migrations@[j].id() != m.id());
        if consumed <= budget && prev.parts <= reported.parts && reported.parts <= PARTS_ONE {
            assert(post.store.known(pre.migrations@[j].id()) <==> pre.store.known(
                pre.migrations@[j].id(),
            ));
        }
    }

    /// Recorded progress is monotonically non-decreasing across ticks:
    /// whatever a tick reports, every identity's record afterwards lies at
    /// or above its record before it — a decreasing report is refused and
    /// nothing of it is committed.
    pub proof fn lemma_tick_monotone(
        pre: Runner<M>,
        post: Runner<M>,
        i: int,
        budget: u64,
        r: Result<u64, TickError>,
        n: Seq<char>,
    )
        requires
            pre.wf(),
            pre.is_first_incomplete(i),
            Self::tick_step_post(pre, post, i, budget, r),
        ensures
            pre.store.stored(n) <= post.store.stored(n),
    {
        let m = pre.migrations@[i];
        let prev = (Progress { parts: pre.store.stored(m.id()) });
        let reported = m.next(prev, budget).0;
        let consumed = m.next(prev, budget).1;
        if consumed <= budget && prev.parts <= reported.parts && reported.parts <= PARTS_ONE {
            if n == m.id() {
                assert(post.store.stored(n) == reported.parts);
            } else {
                assert(post.store.stored(n) == pre.store.stored(n));
            }
        } else {
            assert(post.store == pre.store);
        }
    }

    /// Builds a runner over an ordered registry snapshot and a (possibly
    /// preloaded) progress store.
    pub fn new(migrations: Vec<M>, store: ProgressStore) -> (r: Runner<M>)
        requires
            store.wf(),
            forall|i: int| 0 <= i < migrations@.len() ==> (#[trigger] migrations@[i]).inv(),
            forall|i: int, j: int|
                0 <= i < j < migrations@.len() ==> migrations@[i].id() != migrations@[j].id(),
        ensures
            r.wf(),
            r.migrations == migrations,
            r.store == store,
            r.completed == false,
    {
        Runner { migrations, store, completed: false }
    }

    /// The position of the first incomplete registry entry, if any.
    fn first_incomplete_index(&self) -> (r: Option<usize>)
        requires
            self.wf(),
        ensures
            (match r {
                Some(i) => self.is_first_incomplete(i as int),
                None => self.run_complete(),
            }),
    {
        let n = self.migrations.len();
        let mut i: usize = 0;
        while i < n
            invariant
                i <= n,
                n == self.migrations@.len(),
                self.wf(),
                self.complete_upto(i as int),
            decreases n - i,
        {
            if !self.store.is_complete(self.migrations[i].friendly_name()) {
                return Some(i);
            }
            proof {
                assert(self.entry_complete(i as int));
                assert forall|j: int| 0 <= j < i + 1 implies #[trigger] self.entry_complete(j) by {
                    if j < i {
                        assert(self.entry_complete(j));
                    }
                }
            }
            i += 1;
        }
        None
    }

    /// What one tick does when entry `i` is the first incomplete one: the
    /// entry's migration is stepped from its recorded checkpoint with the
    /// whole budget, the report is validated, and only a valid report is
    /// committed — under the stepped identity alone, leaving every other
    /// record untouched. A fatal report commits nothing.
    pub open spec fn tick_step_post(
        pre: Runner<M>,
        post: Runner<M>,
        i: int,
        budget: u64,
        r: Result<u64, TickError>,
    ) -> bool {
        let m = pre.migrations@[i];
        let prev = (Progress { parts: pre.store.stored(m.id()) });
        let reported = m.next(prev, budget).0;
        let consumed = m.next(prev, budget).1;
        &&& (consumed > budget ==> r == Err::<u64, TickError>(TickError::BudgetExceeded)
            && post.store == pre.store)
        &&& (consumed <= budget && reported.parts < prev.parts ==> r == Err::<u64,
            TickError,
        >(TickError::ProgressDecreased) && post.store == pre.store)
        &&& (consumed <= budget && reported.parts >= prev.parts && reported.parts > PARTS_ONE
            ==> r == Err::<u64, TickError>(TickError::ProgressOutOfRange) && post.store
            == pre.store)
        &&& (consumed <= budget && prev.parts <= reported.parts && reported.parts <= PARTS_ONE
            ==> {
            &&& r == Ok::<u64, TickError>(consumed)
            &&& post.store.known(m.id())
            &&& post.store.stored(m.id()) == reported.parts
            &&& forall|n: Seq<char>| n != m.id() ==> post.store.stored(n) == pre.store.stored(n)
            &&& forall|n: Seq<char>|
                n != m.id() ==> (post.store.known(n) <==> pre.store.known(n))
        })
    }

    /// One tick: when the run is already complete this is a no-op that
    /// costs nothing; otherwise the first incomplete migration is stepped
    /// within `budget` and its validated report is committed. The returned
    /// value is the budget actually consumed, for the scheduler's own
    /// accounting; the registry is never reordered by a tick.
    pub fn on_tick(&mut self, budget: u64) -> (r: Result<u64, TickError>)
        requires
            old(self).wf(),
        ensures
            final(self).wf(),
            final(self).migrations == old(self).migrations,
            old(self).run_complete() ==> r == Ok::<u64, TickError>(0u64) && final(self).store
                == old(self).store && final(self).completed,
            !old(self).run_complete() ==> !final(self).completed,
            forall|i: int|
                old(self).is_first_incomplete(i) ==> Self::tick_step_post(
                    *old(self),
                    *final(self),
                    i,
                    budget,
                    r,
                ),
    {
        if self.completed {
            return Ok(0u64);
        }
        match self.first_incomplete_index() {
            None => {
                proof {
                    assert(old(self).run_complete());
                }
                self.completed = true;
                proof {
                    assert forall|j: int| 0 <= j < self.migrations@.len() implies #[trigger] self
                        .entry_complete(j) by {
                        assert(old(self).entry_complete(j));
                    }
                    assert(self.run_complete());
                }
                Ok(0u64)
            },
            Some(i) => {
                proof {
                    assert forall|k: int| old(self).is_first_incomplete(k) implies k == i as int by {
                        old(self).lemma_first_incomplete_unique(k, i as int);
                    }
                }
                let previous = self.store.get(self.migrations[i].friendly_name());
                let (reported, consumed) = self.migrations[i].step(previous, budget);
                match validate_step(previous, reported, consumed, budget) {
                    Err(e) => Err(e),
                    Ok(()) => {
                        self.store.set(self.migrations[i].friendly_name(), reported);
                        Ok(consumed)
                    },
                }
            },
        }
    }

    /// The derived overall state of the run: complete exactly when every
    /// registry entry reports progress one; before that, not yet started
    /// while no record exists, and in progress otherwise.
    pub fn run_state(&self) -> (r: RunState)
        requires
            self.wf(),
        ensures
            (r == RunState::Completed) == self.run_complete(),
            !self.run_complete() ==> (r == RunState::NotStarted) == (self.store.record_count()
                == 0),
            !self.run_complete() ==> (r == RunState::InProgress) == (self.store.record_count()
                != 0),
    {
        if self.completed {
            return RunState::Completed;
        }
        match self.first_incomplete_index() {
            None => RunState::Completed,
            Some(_) => {
                if self.store.is_empty() {
                    RunState::NotStarted
                } else {
                    RunState::InProgress
                }
            },
        }
    }

    /// The recorded progress of the migration named `name`; an unknown
    /// name reads as zero.
    pub fn progress_of(&self, name: &str) -> (r: Progress)
        requires
            self.wf(),
        ensures
            r.parts == self.store.stored(name@),
            r.wf(),
    {
        self.store.get(name)
    }

    /// The name of the migration the next tick would work on, or nothing
    /// once the run is complete.
    pub fn current_migration_name(&self) -> (r: Option<String>)
        requires
            self.wf(),
        ensures
            (match r {
                Some(name) => !self.run_complete() && forall|i: int|
                    self.is_first_incomplete(i) ==> name@ == self.migrations@[i].id(),
                None => self.run_complete(),
            }),
    {
        match self.first_incomplete_index() {
            None => None,
            Some(i) => {
                proof {
                    assert forall|k: int| self.is_first_incomplete(k) implies k == i as int by {
                        self.lemma_first_incomplete_unique(k, i as int);
                    }
                    assert(!self.entry_complete(i as int));
                }
                Some(self.migrations[i].friendly_name().to_owned())
            },
        }
    }
}

} // verus!
