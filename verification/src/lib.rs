//! A budget-bounded migration execution framework.
//!
//! A registry holds an ordered, fixed list of migrations; each migration
//! exposes a stable name and a resumable `step` function. A runner advances
//! the first incomplete migration once per externally triggered tick, within
//! a caller-supplied budget, and commits the validated new progress to a
//! durable progress store. Later migrations never start before every earlier
//! one is fully applied, recorded progress never moves backwards, and a
//! completed run turns every further tick into a no-op.

pub mod migration;
pub mod progress;
pub mod registry;
pub mod runner;
pub mod store;
