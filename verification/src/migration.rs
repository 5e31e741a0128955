//! The migration capability contract and the migrations that ship with the
//! registry.

use vstd::prelude::*;
use crate::progress::{Progress, PARTS_ONE};

verus! {

/// A resumable unit of migration work.
///
/// A migration exposes a stable, unique, human-readable name (the durable
/// key of its progress record) and a `step` function that performs as much
/// of the remaining transformation as fits in the supplied budget. The
/// framework may be recreated between ticks, so a migration carries no
/// framework-managed state beyond the recorded progress fraction.
pub trait Migration {
    /// The stable identity under which progress is recorded. It must never
    /// change once the migration has shipped: renaming it would restart the
    /// migration from zero.
    spec fn id(&self) -> Seq<char>;

    /// What `step` returns, as a function of the previous progress and the
    /// available budget: the new progress and the budget actually consumed.
    spec fn next(&self, previous_progress: Progress, available_weight: u64) -> (Progress, u64);

    /// The migration's own well-formedness.
    spec fn inv(&self) -> bool;

    /// The durable name; pure and stable.
    fn friendly_name(&self) -> (r: &str)
        ensures
            r@ == self.id(),
    ;

    /// Performs at most `available_weight` worth of work, starting from
    /// `previous_progress`, and reports the new progress together with the
    /// cost actually incurred. The runner, not the migration, checks the
    /// report against the framework's rules, so nothing is promised here
    /// beyond determinism: the framework treats the report as arbitrary and
    /// validates it before committing.
    fn step(&self, previous_progress: Progress, available_weight: u64) -> (r: (Progress, u64))
        requires
            self.inv(),
            previous_progress.wf(),
        ensures
            r == self.next(previous_progress, available_weight),
    ;
}

/// Adds the deposit field to existing author-mapping records. The on-chain
/// transformation itself lives with the pallet it affects; the whole record
/// set fits in one call, so the step reports full completion at zero cost.
#[allow(non_camel_case_types)]
pub struct MM_001_AuthorMappingAddDeposit;

impl Migration for MM_001_AuthorMappingAddDeposit {
    open spec fn id(&self) -> Seq<char> {
        "AuthorMappingAddDeposit"@
    }

    open spec fn next(&self, previous_progress: Progress, available_weight: u64) -> (Progress, u64) {
        ((Progress { parts: PARTS_ONE }), 0u64)
    }

    open spec fn inv(&self) -> bool {
        true
    }

    fn friendly_name(&self) -> (r: &str) {
        "AuthorMappingAddDeposit"
    }

    fn step(&self, _previous_progress: Progress, _available_weight: u64) -> (r: (Progress, u64)) {
        (Progress::one(), 0u64)
    }
}

/// Recomputes the total staked balance. Completes in a single call and
/// reports zero cost.
#[allow(non_camel_case_types)]
pub struct MM_002_StakingFixTotalBalance;

impl Migration for MM_002_StakingFixTotalBalance {
    open spec fn id(&self) -> Seq<char> {
        "StakingFixTotalBalance"@
    }

    open spec fn next(&self, previous_progress: Progress, available_weight: u64) -> (Progress, u64) {
        ((Progress { parts: PARTS_ONE }), 0u64)
    }

    open spec fn inv(&self) -> bool {
        true
    }

    fn friendly_name(&self) -> (r: &str) {
        "StakingFixTotalBalance"
    }

    fn step(&self, _previous_progress: Progress, _available_weight: u64) -> (r: (Progress, u64)) {
        (Progress::one(), 0u64)
    }
}

/// Converts unbounded collator nomination lists into bounded ones.
/// Completes in a single call and reports zero cost.
#[allow(non_camel_case_types)]
pub struct MM_003_StakingUnboundedCollatorNominations;

impl Migration for MM_003_StakingUnboundedCollatorNominations {
    open spec fn id(&self) -> Seq<char> {
        "StakingUnboundedCollatorNominations"@
    }

    open spec fn next(&self, previous_progress: Progress, available_weight: u64) -> (Progress, u64) {
        ((Progress { parts: PARTS_ONE }), 0u64)
    }

    open spec fn inv(&self) -> bool {
        true
    }

    fn friendly_name(&self) -> (r: &str) {
        "StakingUnboundedCollatorNominations"
    }

    fn step(&self, _previous_progress: Progress, _available_weight: u64) -> (r: (Progress, u64)) {
        (Progress::one(), 0u64)
    }
}

/// A migration that advances by a fixed number of parts at a fixed cost on
/// each step. It stands in for a long-running transformation whose work is
/// evenly divisible: when the cost of one chunk does not fit in the offered
/// budget it reports unchanged progress at zero cost (backpressure, not an
/// error), and once fully applied it reports completion at zero cost.
pub struct ChunkedMigration {
    /// The durable name.
    pub name: String,
    /// How many parts one affordable step advances, saturating at one whole.
    pub chunk: u32,
    /// The budget one chunk costs.
    pub cost: u64,
}

impl Migration for ChunkedMigration {
    open spec fn id(&self) -> Seq<char> {
        self.name@
    }

    open spec fn next(&self, previous_progress: Progress, available_weight: u64) -> (Progress, u64) {
        if previous_progress.parts == PARTS_ONE {
            (previous_progress, 0u64)
        } else if self.cost > available_weight {
            (previous_progress, 0u64)
        } else if previous_progress.parts + self.chunk <= PARTS_ONE {
            ((Progress { parts: (previous_progress.parts + self.chunk) as u32 }), self.cost)
        } else {
            ((Progress { parts: PARTS_ONE }), self.cost)
        }
    }

    open spec fn inv(&self) -> bool {
        true
    }

    fn friendly_name(&self) -> (r: &str) {
        self.name.as_str()
    }

    fn step(&self, previous_progress: Progress, available_weight: u64) -> (r: (Progress, u64)) {
        if previous_progress.is_complete() {
            (previous_progress, 0u64)
        } else if self.cost > available_weight {
            (previous_progress, 0u64)
        } else {
            (previous_progress.saturating_add(self.chunk), self.cost)
        }
    }
}

/// Progress never decreases in one step: whatever budget is offered, a
/// chunked migration reports progress at or above the checkpoint it was
/// handed, and never above one whole.
pub proof fn lemma_chunked_step_monotone(m: ChunkedMigration, p: Progress, b: u64)
    requires
        p.wf(),
    ensures
        p.parts <= m.next(p, b).0.parts,
        m.next(p, b).0.wf(),
{
}

/// Progress is monotonically non-decreasing across successive steps with
/// non-decreasing budgets: feeding the progress one step returned into a
/// later step never moves it backwards.
pub proof fn lemma_chunked_successive_steps(m: ChunkedMigration, p: Progress, b1: u64, b2: u64)
    requires
        p.wf(),
        b1 <= b2,
    ensures
        p.parts <= m.next(m.next(p, b1).0, b2).0.parts,
{
    lemma_chunked_step_monotone(m, p, b1);
    lemma_chunked_step_monotone(m, m.next(p, b1).0, b2);
}

/// Budget conservation: a chunked migration never reports a cost above the
/// budget it was offered.
pub proof fn lemma_chunked_budget_conserved(m: ChunkedMigration, p: Progress, b: u64)
    ensures
        m.next(p, b).1 <= b,
{
}

/// Backpressure: when one chunk does not fit in the offered budget and work
/// remains, the step changes nothing and costs nothing.
pub proof fn lemma_chunked_backpressure(m: ChunkedMigration, p: Progress, b: u64)
    requires
        p.parts != PARTS_ONE,
        m.cost > b,
    ensures
        m.next(p, b) == (p, 0u64),
{
}

} // verus!
