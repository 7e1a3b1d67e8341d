//! The steps of a garbage collection run. The caller performs each step
//! against the database and storage and reports how it went; `gc_next`
//! decides the following step.

use vstd::prelude::*;

verus! {

/// Interval between collections, in seconds (one day).
pub const GC_INTERVAL_SECS: u64 = 86400;

/// A step of a collection run.
#[derive(Debug, Clone, Copy, PartialEq, Eq)]
pub enum GcStep {
    /// Delete locks whose deadline has passed.
    DeleteExpiredLocks,
    /// Delete abandoned pins whose expiry has passed.
    DeleteExpiredPins,
    /// Look for a derivation that no pin and no lock refers to.
    FindOrphan,
    /// Mark the orphan found, delete its file (a failure there is only
    /// logged), and delete its row.
    RemoveOrphan,
    /// The run is over.
    Done,
}

/// How the step just performed went.
#[derive(Debug, Clone, Copy, PartialEq, Eq)]
pub enum GcReport {
    /// The step completed (for `FindOrphan`: an orphan was found).
    Completed,
    /// `FindOrphan` found nothing.
    NoOrphan,
    /// A database operation failed; the run stops with that error.
    Failed,
}

/// The step after `step` given `report`: expired locks, then expired pins,
/// then orphans one at a time until none is left; any failure ends the run.
pub open spec fn gc_next_spec(step: GcStep, report: GcReport) -> GcStep {
    match report {
        GcReport::Failed => GcStep::Done,
        GcReport::NoOrphan => GcStep::Done,
        GcReport::Completed => match step {
            GcStep::DeleteExpiredLocks => GcStep::DeleteExpiredPins,
            GcStep::DeleteExpiredPins => GcStep::FindOrphan,
            GcStep::FindOrphan => GcStep::RemoveOrphan,
            GcStep::RemoveOrphan => GcStep::FindOrphan,
            GcStep::Done => GcStep::Done,
        },
    }
}

/// The first step of a run.
pub fn gc_start() -> (s: GcStep)
    ensures
        s == GcStep::DeleteExpiredLocks,
{
    GcStep::DeleteExpiredLocks
}

/// The step that follows `step` after `report`.
pub fn gc_next(step: GcStep, report: GcReport) -> (s: GcStep)
    ensures
        s == gc_next_spec(step, report),
{
    match report {
        GcReport::Failed => GcStep::Done,
        GcReport::NoOrphan => GcStep::Done,
        GcReport::Completed => match step {
            GcStep::DeleteExpiredLocks => GcStep::DeleteExpiredPins,
            GcStep::DeleteExpiredPins => GcStep::FindOrphan,
            GcStep::FindOrphan => GcStep::RemoveOrphan,
            GcStep::RemoveOrphan => GcStep::FindOrphan,
            GcStep::Done => GcStep::Done,
        },
    }
}

/// Orphans are only removed right after one was found, and a run ends only
/// after a failure or a search that found nothing.
pub proof fn law_gc_removes_only_found_orphans(step: GcStep, report: GcReport)
    ensures
        gc_next_spec(step, report) == GcStep::RemoveOrphan ==> (step == GcStep::FindOrphan
            && report == GcReport::Completed),
        (gc_next_spec(step, report) == GcStep::Done && step != GcStep::Done) ==> (report
            == GcReport::Failed || report == GcReport::NoOrphan),
{
}

} // verus!
