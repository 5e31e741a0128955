//! Completion measure of a single migration.

use vstd::prelude::*;

verus! {

/// Number of parts that make up one whole: progress is held in parts per
/// billion, and `PARTS_ONE` parts means "fully applied".
pub const PARTS_ONE: u32 = 1_000_000_000;

/// A fraction of the closed interval [0, 1], held as parts per billion.
/// The value 1 (that is, `PARTS_ONE` parts) denotes a fully applied
/// migration; everything below it is partial progress.
#[derive(Clone, Copy, Debug, PartialEq, Eq, Structural)]
pub struct Progress {
    pub parts: u32,
}

impl Progress {
    /// A progress value is meaningful only when it does not exceed one whole.
    pub open spec fn wf(self) -> bool {
        self.parts <= PARTS_ONE
    }

    /// No work done yet.
    pub fn zero() -> (r: Progress)
        ensures
            r.parts == 0,
            r.wf(),
    {
        Progress { parts: 0 }
    }

    /// Fully applied.
    pub fn one() -> (r: Progress)
        ensures
            r.parts == PARTS_ONE,
            r.wf(),
    {
        Progress { parts: PARTS_ONE }
    }

    /// Builds a progress value from parts per billion, saturating at one
    /// whole, so that the result is always well formed.
    pub fn from_parts(parts: u32) -> (r: Progress)
        ensures
            parts <= PARTS_ONE ==> r.parts == parts,
            parts > PARTS_ONE ==> r.parts == PARTS_ONE,
            r.wf(),
    {
        if parts <= PARTS_ONE {
            Progress { parts }
        } else {
            Progress { parts: PARTS_ONE }
        }
    }

    /// Whether this value denotes a fully applied migration.
    pub fn is_complete(&self) -> (r: bool)
        ensures
            r == (self.parts == PARTS_ONE),
    {
        self.parts == PARTS_ONE
    }

    /// Advances by `delta` parts, saturating at one whole. The result never
    /// lies below the starting value.
    pub fn saturating_add(self, delta: u32) -> (r: Progress)
        requires
            self.wf(),
        ensures
            self.parts + delta <= PARTS_ONE ==> r.parts == self.parts + delta,
            self.parts + delta > PARTS_ONE ==> r.parts == PARTS_ONE,
            self.parts <= r.parts,
            r.wf(),
    {
        if delta >= PARTS_ONE {
            Progress { parts: PARTS_ONE }
        } else {
            let sum = self.parts + delta;
            if sum <= PARTS_ONE {
                Progress { parts: sum }
            } else {
                Progress { parts: PARTS_ONE }
            }
        }
    }
}

} // verus!
