//! Per-record decisions of a scoring run and the run's summary.
use crate::calendar::DateWindow;
use crate::scoring::{monthly_plan, plan_outcome, DayCandle, MonthlyPlan, ScoreError};
use vstd::prelude::*;

verus! {

/// How a record's market capitalisation compares with the run's minimum.
#[derive(Clone, Copy, Debug, PartialEq, Eq, Structural)]
pub enum MarketCap {
    /// The record's stats hold no market capitalisation.
    Absent,
    /// Below the minimum.
    Below,
    /// At or above the minimum.
    AtLeast,
}

/// What becomes of one record.
#[derive(Clone, Debug)]
pub enum RecordPlan {
    /// Filtered out by market capitalisation; nothing is scored or written.
    Skipped,
    /// To be scored from these spans and this tally.
    Planned(MonthlyPlan),
    /// Not computable; no score is written.
    Failed(ScoreError),
}

/// `r` is the decision on a record with market capitalisation `cap`.
pub open spec fn record_decision(cap: MarketCap, candles: Seq<DayCandle>, w: DateWindow, r: RecordPlan) -> bool {
    &&& cap != MarketCap::AtLeast <==> r is Skipped
    &&& cap == MarketCap::AtLeast ==> match r {
        RecordPlan::Skipped => false,
        RecordPlan::Planned(p) => plan_outcome(candles, w, Ok(p)) && p.tally.trading_days > 0,
        RecordPlan::Failed(e) => e == ScoreError::DivisionByZero && (plan_outcome(candles, w, Err(e))
            || exists|p: MonthlyPlan| plan_outcome(candles, w, Ok(p)) && p.tally.trading_days == 0),
    }
}

/// Decides a record: skipped unless its market capitalisation is present
/// and at least the minimum; otherwise the pass over its candles, which
/// fails where a month opens at zero or no trading day lies in the window.
pub fn plan_record(cap: MarketCap, candles: &Vec<DayCandle>, window: &DateWindow) -> (r: RecordPlan)
    ensures
        record_decision(cap, candles@, *window, r),
{
    match cap {
        MarketCap::AtLeast => {},
        _ => return RecordPlan::Skipped,
    }
    match monthly_plan(candles, window) {
        Err(e) => RecordPlan::Failed(e),
        Ok(p) => {
            if p.tally.trading_days == 0 {
                RecordPlan::Failed(ScoreError::DivisionByZero)
            } else {
                RecordPlan::Planned(p)
            }
        },
    }
}

/// A recoverable error met during a run.
#[derive(Clone, Copy, Debug, PartialEq, Eq, Structural)]
pub enum RunError {
    /// The page at this offset could not be queried; it counts as empty.
    PageQueryFailed { offset: u64 },
    /// A record's candle series lacked a field or held a bad timestamp.
    MalformedRecord,
    /// A record's score could not be computed.
    Score(ScoreError),
    /// Writing a score failed.
    UpsertFailed,
}

/// Counts of a run and the errors met, in order.
pub struct RunSummary {
    pub records_scored: u64,
    pub records_skipped: u64,
    pub errors: Vec<RunError>,
}

impl RunSummary {
    /// An empty summary.
    pub fn new() -> (r: RunSummary)
        ensures
            r.records_scored == 0,
            r.records_skipped == 0,
            r.errors@.len() == 0,
    {
        RunSummary { records_scored: 0, records_skipped: 0, errors: Vec::new() }
    }

    /// Counts one skipped record (saturating at `u64::MAX`).
    pub fn note_skipped(&mut self)
        ensures
            final(self).records_skipped == if old(self).records_skipped == u64::MAX {
                u64::MAX as int
            } else {
                old(self).records_skipped + 1
            },
            final(self).records_scored == old(self).records_scored,
            final(self).errors@ == old(self).errors@,
    {
        self.records_skipped = self.records_skipped.saturating_add(1);
    }

    /// Counts one scored record (saturating at `u64::MAX`).
    pub fn note_scored(&mut self)
        ensures
            final(self).records_scored == if old(self).records_scored == u64::MAX {
                u64::MAX as int
            } else {
                old(self).records_scored + 1
            },
            final(self).records_skipped == old(self).records_skipped,
            final(self).errors@ == old(self).errors@,
    {
        self.records_scored = self.records_scored.saturating_add(1);
    }

    /// Appends an error.
    pub fn note_error(&mut self, e: RunError)
        ensures
            final(self).errors@ == old(self).errors@.push(e),
            final(self).records_scored == old(self).records_scored,
            final(self).records_skipped == old(self).records_skipped,
    {
        self.errors.push(e);
    }

    /// Files a record's plan: a skip is counted as skipped, a failure is
    /// appended to the errors. Returns the plan to score, if any; a skipped
    /// record yields none, so nothing is written for it.
    pub fn file_record(&mut self, plan: RecordPlan) -> (r: Option<MonthlyPlan>)
        ensures
            filing(*old(self), *final(self), plan, r),
    {
        match plan {
            RecordPlan::Skipped => {
                self.note_skipped();
                None
            },
            RecordPlan::Failed(e) => {
                self.note_error(RunError::Score(e));
                None
            },
            RecordPlan::Planned(p) => Some(p),
        }
    }
}

/// The skip count after one more skip.
pub open spec fn skipped_once_more(n: u64) -> int {
    if n == u64::MAX {
        u64::MAX as int
    } else {
        n + 1
    }
}

/// `after` and `r` are what filing `plan` into `before` gives.
pub open spec fn filing(before: RunSummary, after: RunSummary, plan: RecordPlan, r: Option<MonthlyPlan>) -> bool {
    &&& after.records_scored == before.records_scored
    &&& plan is Skipped ==> r is None && after.records_skipped == skipped_once_more(
        before.records_skipped,
    ) && after.errors@ == before.errors@
    &&& plan matches RecordPlan::Failed(e) ==> r is None && after.errors@ == before.errors@.push(
        RunError::Score(e),
    ) && after.records_skipped == before.records_skipped
    &&& plan matches RecordPlan::Planned(p) ==> r == Some(p) && after.errors@ == before.errors@
        && after.records_skipped == before.records_skipped
}

/// A record whose market capitalisation is absent or below the minimum is
/// skipped: deciding it and filing the decision adds one to the skip count,
/// records no error, and hands back nothing to score or write.
pub proof fn lemma_low_cap_is_skipped(
    cap: MarketCap,
    candles: Seq<DayCandle>,
    w: DateWindow,
    plan: RecordPlan,
    before: RunSummary,
    after: RunSummary,
    r: Option<MonthlyPlan>,
)
    requires
        cap != MarketCap::AtLeast,
        record_decision(cap, candles, w, plan),
        filing(before, after, plan, r),
        before.records_skipped < u64::MAX,
    ensures
        plan is Skipped,
        r is None,
        after.records_skipped == before.records_skipped + 1,
        after.records_scored == before.records_scored,
        after.errors@ == before.errors@,
{
}

} // verus!
