use migrations::migration::{
    ChunkedMigration, Migration, MM_001_AuthorMappingAddDeposit, MM_002_StakingFixTotalBalance,
    MM_003_StakingUnboundedCollatorNominations,
};
use migrations::progress::{Progress, PARTS_ONE};
use migrations::registry::CommonMigrations;
use migrations::runner::{validate_step, RunState, Runner, TickError};
use migrations::store::ProgressStore;

const HALF: u32 = 500_000_000;

fn chunked(name: &str, chunk: u32, cost: u64) -> ChunkedMigration {
    ChunkedMigration { name: String::from(name), chunk, cost }
}

#[test]
fn unknown_identity_reads_zero() {
    let store = ProgressStore::new();
    assert_eq!(store.get("NeverSeen").parts, 0);
    assert!(!store.is_complete("NeverSeen"));
    assert!(store.is_empty());
}

#[test]
fn store_set_get_update() {
    let mut store = ProgressStore::new();
    store.set("A", Progress::from_parts(300_000_000));
    assert_eq!(store.get("A").parts, 300_000_000);
    store.set("A", Progress::from_parts(700_000_000));
    assert_eq!(store.get("A").parts, 700_000_000);
    assert_eq!(store.len(), 1);
    store.set("B", Progress::zero());
    assert_eq!(store.len(), 2);
    assert_eq!(store.get("B").parts, 0);
    store.set("A", Progress::one());
    assert!(store.is_complete("A"));
    assert_eq!(store.len(), 2);
}

#[test]
fn progress_from_parts_saturates() {
    assert_eq!(Progress::zero().parts, 0);
    assert_eq!(Progress::one().parts, PARTS_ONE);
    assert_eq!(Progress::from_parts(7).parts, 7);
    assert_eq!(Progress::from_parts(2_000_000_000).parts, PARTS_ONE);
    assert!(Progress::one().is_complete());
    assert!(!Progress::from_parts(PARTS_ONE - 1).is_complete());
}

#[test]
fn saturating_add_caps_at_one() {
    let p = Progress::from_parts(100_000_000).saturating_add(200_000_000);
    assert_eq!(p.parts, 300_000_000);
    let q = Progress::from_parts(900_000_000).saturating_add(200_000_000);
    assert_eq!(q.parts, PARTS_ONE);
    let r = Progress::one().saturating_add(4_000_000_000);
    assert_eq!(r.parts, PARTS_ONE);
}

#[test]
fn shipped_migrations_complete_in_one_call() {
    let a = MM_001_AuthorMappingAddDeposit;
    assert_eq!(a.friendly_name(), "AuthorMappingAddDeposit");
    assert_eq!(a.step(Progress::zero(), 0), (Progress::one(), 0));
    let b = MM_002_StakingFixTotalBalance;
    assert_eq!(b.friendly_name(), "StakingFixTotalBalance");
    assert_eq!(b.step(Progress::zero(), 0), (Progress::one(), 0));
    let c = MM_003_StakingUnboundedCollatorNominations;
    assert_eq!(c.friendly_name(), "StakingUnboundedCollatorNominations");
    assert_eq!(c.step(Progress::zero(), 0), (Progress::one(), 0));
}

#[test]
fn chunked_step_direct() {
    let m = chunked("C", HALF, 5);
    assert_eq!(m.friendly_name(), "C");
    assert_eq!(m.step(Progress::zero(), 10), (Progress::from_parts(HALF), 5));
    assert_eq!(m.step(Progress::from_parts(HALF), 10), (Progress::one(), 5));
    // Once fully applied, a stale re-entry is a no-op at zero cost.
    assert_eq!(m.step(Progress::one(), 10), (Progress::one(), 0));
    // An unaffordable chunk is backpressure, not an error.
    assert_eq!(m.step(Progress::zero(), 4), (Progress::zero(), 0));
}

#[test]
fn common_registry_order_and_names() {
    let registry = CommonMigrations::get();
    assert_eq!(registry.len(), 3);
    assert_eq!(registry[0].friendly_name(), "AuthorMappingAddDeposit");
    assert_eq!(registry[1].friendly_name(), "StakingFixTotalBalance");
    assert_eq!(registry[2].friendly_name(), "StakingUnboundedCollatorNominations");
}

#[test]
fn common_registry_runs_to_completion() {
    let mut runner = Runner::new(CommonMigrations::get(), ProgressStore::new());
    assert_eq!(runner.run_state(), RunState::NotStarted);
    assert_eq!(
        runner.current_migration_name().as_deref(),
        Some("AuthorMappingAddDeposit")
    );
    assert_eq!(runner.on_tick(0), Ok(0));
    assert_eq!(
        runner.current_migration_name().as_deref(),
        Some("StakingFixTotalBalance")
    );
    assert_eq!(runner.on_tick(0), Ok(0));
    assert_eq!(runner.on_tick(0), Ok(0));
    assert_eq!(runner.run_state(), RunState::Completed);
    assert_eq!(runner.current_migration_name(), None);
    assert!(runner.progress_of("AuthorMappingAddDeposit").is_complete());
    assert!(runner.progress_of("StakingFixTotalBalance").is_complete());
    assert!(runner.progress_of("StakingUnboundedCollatorNominations").is_complete());
}

#[test]
fn resume_operates_on_first_incomplete() {
    // A store recovered with A half done and B untouched: the next tick
    // must work on A, not B.
    let mut store = ProgressStore::new();
    store.set("A", Progress::from_parts(HALF));
    store.set("B", Progress::zero());
    let registry = vec![chunked("A", HALF, 5), chunked("B", HALF, 5)];
    let mut runner = Runner::new(registry, store);
    assert_eq!(runner.current_migration_name().as_deref(), Some("A"));
    assert_eq!(runner.on_tick(10), Ok(5));
    assert_eq!(runner.progress_of("A").parts, PARTS_ONE);
    assert_eq!(runner.progress_of("B").parts, 0);
}

#[test]
fn two_migration_schedule() {
    // A completes in one call at cost 10; B needs two calls at cost 5 each;
    // the per-tick budget is 10.
    let registry = vec![chunked("A", PARTS_ONE, 10), chunked("B", HALF, 5)];
    let mut runner = Runner::new(registry, ProgressStore::new());

    assert_eq!(runner.on_tick(10), Ok(10));
    assert_eq!(runner.progress_of("A").parts, PARTS_ONE);
    assert_eq!(runner.progress_of("B").parts, 0);

    assert_eq!(runner.on_tick(10), Ok(5));
    assert_eq!(runner.progress_of("B").parts, HALF);
    assert_eq!(runner.run_state(), RunState::InProgress);

    assert_eq!(runner.on_tick(10), Ok(5));
    assert_eq!(runner.progress_of("B").parts, PARTS_ONE);
    assert_eq!(runner.run_state(), RunState::Completed);

    assert_eq!(runner.on_tick(10), Ok(0));
}

#[test]
fn completed_run_tick_noop() {
    let registry = vec![chunked("A", PARTS_ONE, 1)];
    let mut runner = Runner::new(registry, ProgressStore::new());
    assert_eq!(runner.on_tick(1), Ok(1));
    assert_eq!(runner.run_state(), RunState::Completed);
    let records = runner.store.len();
    for _ in 0..3 {
        assert_eq!(runner.on_tick(1), Ok(0));
    }
    assert_eq!(runner.store.len(), records);
    assert_eq!(runner.run_state(), RunState::Completed);
}

#[test]
fn backpressure_when_chunk_unaffordable() {
    let registry = vec![chunked("Slow", PARTS_ONE, 5)];
    let mut runner = Runner::new(registry, ProgressStore::new());
    assert_eq!(runner.on_tick(4), Ok(0));
    assert_eq!(runner.progress_of("Slow").parts, 0);
    assert_eq!(runner.run_state(), RunState::InProgress);
    assert_eq!(runner.on_tick(5), Ok(5));
    assert_eq!(runner.run_state(), RunState::Completed);
}

#[test]
fn run_state_transitions() {
    let registry = vec![chunked("A", HALF, 1)];
    let mut runner = Runner::new(registry, ProgressStore::new());
    assert_eq!(runner.run_state(), RunState::NotStarted);
    assert_eq!(runner.on_tick(1), Ok(1));
    assert_eq!(runner.run_state(), RunState::InProgress);
    assert_eq!(runner.on_tick(1), Ok(1));
    assert_eq!(runner.run_state(), RunState::Completed);
}

#[test]
fn progress_monotone_across_ticks() {
    let registry = vec![chunked("A", 300_000_000, 3)];
    let mut runner = Runner::new(registry, ProgressStore::new());
    let mut last = 0u32;
    for budget in [3u64, 0, 3, 4, 9] {
        runner.on_tick(budget).unwrap();
        let now = runner.progress_of("A").parts;
        assert!(now >= last);
        last = now;
    }
    assert_eq!(runner.progress_of("A").parts, PARTS_ONE);
}

#[test]
fn budget_exceeded_detected() {
    let r = validate_step(Progress::zero(), Progress::from_parts(100), 11, 10);
    assert_eq!(r, Err(TickError::BudgetExceeded));
}

#[test]
fn progress_decrease_detected() {
    let r = validate_step(Progress::from_parts(HALF), Progress::from_parts(100), 1, 10);
    assert_eq!(r, Err(TickError::ProgressDecreased));
}

#[test]
fn progress_out_of_range_detected() {
    let over = Progress { parts: 2_000_000_000 };
    let r = validate_step(Progress::zero(), over, 1, 10);
    assert_eq!(r, Err(TickError::ProgressOutOfRange));
}

#[test]
fn validate_accepts_lawful_report() {
    let r = validate_step(Progress::from_parts(HALF), Progress::one(), 10, 10);
    assert_eq!(r, Ok(()));
}
