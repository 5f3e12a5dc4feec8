use vstd::prelude::*;
use crate::coda::{coda_raw_dir, find_proposal, is_selected, raw_dir_path, LocateError, ProposalEntry};
use crate::filter::{instrument_match, matches_instrument};
use crate::record::{InspectError, InspectResult};

verus! {

/// How the paths given by the operator are used.
#[derive(Clone, Copy, Debug, PartialEq, Eq, Structural)]
pub enum InputPlan {
    /// Inspect the paths as they are, without the scan bound.
    AsGiven,
    /// The single path is a directory: inspect its bounded file list.
    ScanDirectory,
}

/// A single path that is not a regular file is scanned as a directory; any
/// other list of paths is inspected as given.
pub fn plan_inputs(n_paths: usize, first_is_file: bool) -> (r: InputPlan)
    ensures
        r == (if n_paths == 1 && !first_is_file {
            InputPlan::ScanDirectory
        } else {
            InputPlan::AsGiven
        }),
{
    if n_paths == 1 && !first_is_file {
        InputPlan::ScanDirectory
    } else {
        InputPlan::AsGiven
    }
}

/// The directory to inspect when the operator names no path: the raw-data
/// directory of the proposal given, or else of the proposal that the
/// locator picks among `entries` (the subdirectories of the year's root,
/// consulted only when no proposal is given).
pub fn default_input_path(proposal: &Option<String>, entries: &Vec<ProposalEntry>, year: i32) -> (r:
    Result<String, LocateError>)
    ensures
        match proposal {
            Some(p) => r matches Ok(d) && d@ == raw_dir_path(year as int, p@),
            None => match r {
                Ok(d) => exists|i: int|
                    is_selected(entries@, i) && d@ == raw_dir_path(year as int, entries@[i].name@),
                Err(e) => e == LocateError::NoCandidate && forall|i: int|
                    0 <= i < entries@.len() ==> crate::coda::raw_time(#[trigger] entries@[i]) == 0,
            },
        },
{
    let name = match proposal {
        Some(p) => p.clone(),
        None => find_proposal(entries)?,
    };
    Ok(coda_raw_dir(name.as_str(), year))
}

/// What became of one inspected path.
#[derive(Clone, Copy, Debug, PartialEq, Eq, Structural)]
pub enum Disposition {
    /// The inspection failed: the path and its error are reported; it does
    /// not count toward the result limit.
    Failed,
    /// The record passes the filter: it is reported and counted.
    Matched,
    /// The record does not pass the filter: nothing is reported.
    Dropped,
}

/// The progress of one run over a list of paths: the next path to inspect
/// and how many matching records were reported, against the result limit.
pub struct ReportRun {
    pub total: usize,
    pub limit: usize,
    pub next: usize,
    pub reported: usize,
}

/// The disposition that an inspection outcome gets under a filter.
pub open spec fn disposition_of(
    outcome: Result<InspectResult, InspectError>,
    filter: Option<String>,
) -> Disposition {
    match outcome {
        Err(_) => Disposition::Failed,
        Ok(rec) => if instrument_match(rec.instrument@, filter) {
            Disposition::Matched
        } else {
            Disposition::Dropped
        },
    }
}

impl ReportRun {
    pub open spec fn wf(&self) -> bool {
        &&& self.reported <= self.limit
        &&& self.reported <= self.next
        &&& self.next <= self.total
    }

    /// A run over `total` paths that stops after `limit` matching records.
    pub fn new(total: usize, limit: usize) -> (r: ReportRun)
        ensures
            r.wf(),
            r.total == total,
            r.limit == limit,
            r.next == 0,
            r.reported == 0,
    {
        ReportRun { total, limit, next: 0, reported: 0 }
    }

    /// The index of the path to inspect next, or `None` once every path was
    /// inspected or the limit of matching records was reached.
    pub fn next_path(&self) -> (r: Option<usize>)
        ensures
            r == (if self.reported < self.limit && self.next < self.total {
                Some(self.next)
            } else {
                None::<usize>
            }),
    {
        if self.reported < self.limit && self.next < self.total {
            Some(self.next)
        } else {
            None
        }
    }

    /// Takes the outcome of inspecting the current path: moves to the next
    /// path and counts the record where it passes the filter.
    pub fn record(&mut self, outcome: &Result<InspectResult, InspectError>, filter: &Option<String>) -> (r:
        Disposition)
        requires
            old(self).wf(),
            old(self).reported < old(self).limit,
            old(self).next < old(self).total,
        ensures
            final(self).wf(),
            r == disposition_of(*outcome, *filter),
            final(self).total == old(self).total,
            final(self).limit == old(self).limit,
            final(self).next == old(self).next + 1,
            final(self).reported == old(self).reported + if r == Disposition::Matched {
                1int
            } else {
                0
            },
    {
        self.next = self.next + 1;
        match outcome {
            Err(_) => Disposition::Failed,
            Ok(rec) => {
                if matches_instrument(rec.instrument.as_str(), filter) {
                    self.reported = self.reported + 1;
                    Disposition::Matched
                } else {
                    Disposition::Dropped
                }
            },
        }
    }
}

} // verus!
