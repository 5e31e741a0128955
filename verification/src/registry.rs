//! The ordered registry of the migrations that ship with this crate.

use vstd::prelude::*;
use crate::migration::{
    Migration, MM_001_AuthorMappingAddDeposit, MM_002_StakingFixTotalBalance,
    MM_003_StakingUnboundedCollatorNominations,
};
use crate::progress::Progress;

verus! {

/// One entry of the common registry: a tagged variant over the shipped
/// migrations, dispatching every capability to the wrapped value.
pub enum RegisteredMigration {
    AuthorMappingAddDeposit(MM_001_AuthorMappingAddDeposit),
    StakingFixTotalBalance(MM_002_StakingFixTotalBalance),
    StakingUnboundedCollatorNominations(MM_003_StakingUnboundedCollatorNominations),
}

impl Migration for RegisteredMigration {
    open spec fn id(&self) -> Seq<char> {
        match self {
            RegisteredMigration::AuthorMappingAddDeposit(m) => m.id(),
            RegisteredMigration::StakingFixTotalBalance(m) => m.id(),
            RegisteredMigration::StakingUnboundedCollatorNominations(m) => m.id(),
        }
    }

    open spec fn next(&self, previous_progress: Progress, available_weight: u64) -> (Progress, u64) {
        match self {
            RegisteredMigration::AuthorMappingAddDeposit(m) => m.next(
                previous_progress,
                available_weight,
            ),
            RegisteredMigration::StakingFixTotalBalance(m) => m.next(
                previous_progress,
                available_weight,
            ),
            RegisteredMigration::StakingUnboundedCollatorNominations(m) => m.next(
                previous_progress,
                available_weight,
            ),
        }
    }

    open spec fn inv(&self) -> bool {
        true
    }

    fn friendly_name(&self) -> (r: &str) {
        match self {
            RegisteredMigration::AuthorMappingAddDeposit(m) => m.friendly_name(),
            RegisteredMigration::StakingFixTotalBalance(m) => m.friendly_name(),
            RegisteredMigration::StakingUnboundedCollatorNominations(m) => m.friendly_name(),
        }
    }

    fn step(&self, previous_progress: Progress, available_weight: u64) -> (r: (Progress, u64)) {
        match self {
            RegisteredMigration::AuthorMappingAddDeposit(m) => m.step(
                previous_progress,
                available_weight,
            ),
            RegisteredMigration::StakingFixTotalBalance(m) => m.step(
                previous_progress,
                available_weight,
            ),
            RegisteredMigration::StakingUnboundedCollatorNominations(m) => m.step(
                previous_progress,
                available_weight,
            ),
        }
    }
}

/// Every registered migration reports progress at or above what it was
/// handed, and a cost within the offered budget: each shipped migration
/// completes in one call and reports zero cost.
pub proof fn lemma_registered_step_bounds(m: RegisteredMigration, p: Progress, b: u64)
    requires
        p.wf(),
    ensures
        p.parts <= m.next(p, b).0.parts,
        m.next(p, b).0.wf(),
        m.next(p, b).1 <= b,
{
}

/// The registry: an ordered, fixed sequence of the shipped migrations,
/// rebuilt on every access. The order is stable release to release; a new
/// migration is appended, never inserted, so that recorded identities keep
/// their meaning.
pub struct CommonMigrations;

impl CommonMigrations {
    /// The registry snapshot, in execution order. The names are pairwise
    /// distinct: each one keys its own progress record.
    pub fn get() -> (r: Vec<RegisteredMigration>)
        ensures
            r@.len() == 3,
            r@[0] == RegisteredMigration::AuthorMappingAddDeposit(MM_001_AuthorMappingAddDeposit),
            r@[1] == RegisteredMigration::StakingFixTotalBalance(MM_002_StakingFixTotalBalance),
            r@[2] == RegisteredMigration::StakingUnboundedCollatorNominations(
                MM_003_StakingUnboundedCollatorNominations,
            ),
            r@[0].id() == "AuthorMappingAddDeposit"@,
            r@[1].id() == "StakingFixTotalBalance"@,
            r@[2].id() == "StakingUnboundedCollatorNominations"@,
            forall|i: int| 0 <= i < r@.len() ==> (#[trigger] r@[i]).inv(),
            forall|i: int, j: int|
                0 <= i < j < r@.len() ==> r@[i].id() != r@[j].id(),
    {
        proof {
            reveal_strlit("AuthorMappingAddDeposit");
            reveal_strlit("StakingFixTotalBalance");
            reveal_strlit("StakingUnboundedCollatorNominations");
        }
        let mut r: Vec<RegisteredMigration> = Vec::new();
        r.push(RegisteredMigration::AuthorMappingAddDeposit(MM_001_AuthorMappingAddDeposit));
        r.push(RegisteredMigration::StakingFixTotalBalance(MM_002_StakingFixTotalBalance));
        r.push(RegisteredMigration::StakingUnboundedCollatorNominations(
            MM_003_StakingUnboundedCollatorNominations,
        ));
        proof {
            assert(r@[0].id().len() == 23);
            assert(r@[1].id().len() == 22);
            assert(r@[2].id().len() == 35);
        }
        r
    }
}

} // verus!
