//! The state of the simulation as a whole, and the reports that spread news
//! through it.

use vstd::prelude::*;
use crate::faction::Factions;
use crate::ids::Actor;
use crate::ids::ReportId;
use crate::npc::Npcs;
use crate::site::Sites;

verus! {

/// How long a report stays known, in milliseconds of the time of day: a day
/// and a half.
pub const REPORT_AGE: u64 = 129_600_000;

/// What a report is about.
#[derive(Clone, Copy, Debug, PartialEq, Eq, Structural)]
pub enum ReportKind {
    Death { actor: Actor, killer: Option<Actor> },
}

/// A piece of news.
#[derive(Clone, Copy, Debug, PartialEq, Eq, Structural)]
pub struct Report {
    pub kind: ReportKind,
    /// The time of day at which the event took place, in milliseconds.
    pub at: u64,
}

/// The reports that are known, each with its number, in the order in which
/// they were made.
pub struct Reports {
    /// The number of the next report.
    pub next: u64,
    pub entries: Vec<(ReportId, Report)>,
}

/// Whether a report made at `at` is still known at `now`.
pub open spec fn is_current(at: u64, now: u64) -> bool {
    at + REPORT_AGE > now
}

impl Reports {
    /// The numbers of the known reports are below `next`: none is given out
    /// twice.
    pub open spec fn wf(&self) -> bool {
        forall|i: int| 0 <= i < self.entries@.len() ==> (#[trigger] self.entries@[i]).0.0 < self.next
    }

    /// The report with number `id`, if it is known.
    pub open spec fn report_spec(&self, id: ReportId) -> Option<Report> {
        if exists|i: int| 0 <= i < self.entries@.len() && self.entries@[i].0 == id {
            let i = choose|i: int| 0 <= i < self.entries@.len() && self.entries@[i].0 == id;
            Some(self.entries@[i].1)
        } else {
            None
        }
    }

    /// No reports.
    pub fn new() -> (r: Self)
        ensures
            r.wf(),
            r.next == 0,
            r.entries@ == Seq::<(ReportId, Report)>::empty(),
    {
        Reports { next: 0, entries: Vec::new() }
    }

    /// Makes `report` known and returns its number, which no report has had
    /// before.
    pub fn create(&mut self, report: Report) -> (id: ReportId)
        requires
            old(self).wf(),
            old(self).next < u64::MAX,
        ensures
            final(self).wf(),
            id.0 == old(self).next,
            final(self).next == old(self).next + 1,
            final(self).entries@ == old(self).entries@.push((id, report)),
    {
        let id = ReportId(self.next);
        self.next = self.next + 1;
        self.entries.push((id, report));
        id
    }

    /// Whether a report with number `id` is known.
    pub fn contains(&self, id: ReportId) -> (b: bool)
        ensures
            b == self.report_spec(id).is_some(),
    {
        let mut i: usize = 0;
        while i < self.entries.len()
            invariant
                i <= self.entries.len(),
                forall|j: int| 0 <= j < i ==> self.entries@[j].0 != id,
            decreases self.entries.len() - i,
        {
            if self.entries[i].0.0 == id.0 {
                return true;
            }
            i = i + 1;
        }
        false
    }

    /// Forgets the reports that are no longer current at the time of day
    /// `now`, and keeps the others in their order.
    pub fn cleanup(&mut self, now: u64)
        requires
            old(self).wf(),
        ensures
            final(self).wf(),
            final(self).next == old(self).next,
            final(self).entries@ == old(self).entries@.filter(
                |e: (ReportId, Report)| is_current(e.1.at, now),
            ),
    {
        let ghost pred = |e: (ReportId, Report)| is_current(e.1.at, now);
        let mut kept: Vec<(ReportId, Report)> = Vec::new();
        let mut i: usize = 0;
        while i < self.entries.len()
            invariant
                i <= self.entries.len(),
                *self == *old(self),
                self.wf(),
                pred == (|e: (ReportId, Report)| is_current(e.1.at, now)),
                kept@ == self.entries@.take(i as int).filter(pred),
                forall|j: int| 0 <= j < kept@.len() ==> (#[trigger] kept@[j]).0.0 < self.next,
            decreases self.entries.len() - i,
        {
            let e = self.entries[i];
            proof {
                reveal(Seq::filter);
                assert(self.entries@.take(i + 1).drop_last() == self.entries@.take(i as int));
            }
            if e.1.at as u128 + REPORT_AGE as u128 > now as u128 {
                kept.push(e);
            }
            i = i + 1;
        }
        proof {
            assert(self.entries@.take(self.entries.len() as int) == self.entries@);
        }
        self.entries = kept;
    }
}

/// The whole state of the simulation.
pub struct Data {
    pub npcs: Npcs,
    pub sites: Sites,
    pub factions: Factions,
    pub reports: Reports,
    /// The number of ticks since the state was made.
    pub tick: u64,
    /// The time of day, in milliseconds.
    pub time_of_day: u64,
    /// Whether the state is to be thrown away, and made afresh, when the
    /// server next starts.
    pub should_purge: bool,
}

impl Data {
    /// The grid and the reports are well formed.
    pub open spec fn wf(&self) -> bool {
        self.npcs.wf() && self.reports.wf()
    }
}

} // verus!
