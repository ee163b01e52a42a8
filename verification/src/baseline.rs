//! Baseline statistics: the per-mode summaries of a reference run, against
//! which a later run is scored.

use crate::clock::{Clock, END_OF_DAY_TICKS};
use crate::driver::HaltCondition;
use crate::stats::{
    aggregate, ascending, durations_of, lemma_ascending_of, mode_stats, summary_of,
    DurationHistogram, DurationStats,
};
use crate::trip::{TripLedger, TripMode, TripRecord};
use vstd::prelude::*;

verus! {

/// The recorded statistics of a run: a summary for each travel mode that
/// had at least one trip.
#[derive(Clone, Copy, Debug)]
pub struct PrebakedResults {
    pub walk: Option<DurationStats>,
    pub bike: Option<DurationStats>,
    pub transit: Option<DurationStats>,
    pub drive: Option<DurationStats>,
}

impl View for PrebakedResults {
    type V = Map<TripMode, DurationStats>;

    /// The mapping from travel mode to summary.
    open spec fn view(&self) -> Map<TripMode, DurationStats> {
        Map::new(|mode: TripMode| self.slot(mode) is Some, |mode: TripMode| self.slot(mode)->0)
    }
}

impl PrebakedResults {
    /// The entry of a mode, if there is one.
    pub open spec fn slot(&self, mode: TripMode) -> Option<DurationStats> {
        match mode {
            TripMode::Walk => self.walk,
            TripMode::Bike => self.bike,
            TripMode::Transit => self.transit,
            TripMode::Drive => self.drive,
        }
    }

    /// Results without any entry.
    pub fn new() -> (r: PrebakedResults)
        ensures
            r@ == Map::<TripMode, DurationStats>::empty(),
    {
        let r = PrebakedResults { walk: None, bike: None, transit: None, drive: None };
        assert(r@ =~= Map::<TripMode, DurationStats>::empty());
        r
    }

    /// The summary of a mode, if the results hold one.
    pub fn get(&self, mode: TripMode) -> (r: Option<DurationStats>)
        ensures
            r is Some <==> self@.dom().contains(mode),
            r is Some ==> r->0 == self@[mode],
    {
        match mode {
            TripMode::Walk => self.walk,
            TripMode::Bike => self.bike,
            TripMode::Transit => self.transit,
            TripMode::Drive => self.drive,
        }
    }

    /// Sets the summary of a mode.
    pub fn insert(&mut self, mode: TripMode, stats: DurationStats)
        ensures
            final(self)@ == old(self)@.insert(mode, stats),
    {
        match mode {
            TripMode::Walk => {
                self.walk = Some(stats);
            },
            TripMode::Bike => {
                self.bike = Some(stats);
            },
            TripMode::Transit => {
                self.transit = Some(stats);
            },
            TripMode::Drive => {
                self.drive = Some(stats);
            },
        }
        assert(self@ =~= old(self)@.insert(mode, stats));
    }

    /// Whether no mode has an entry.
    pub fn is_empty(&self) -> (r: bool)
        ensures
            r == (self@ == Map::<TripMode, DurationStats>::empty()),
    {
        let r = self.walk.is_none() && self.bike.is_none() && self.transit.is_none()
            && self.drive.is_none();
        proof {
            if r {
                assert(self@ =~= Map::<TripMode, DurationStats>::empty());
            } else {
                let mode = if self.walk is Some {
                    TripMode::Walk
                } else if self.bike is Some {
                    TripMode::Bike
                } else if self.transit is Some {
                    TripMode::Transit
                } else {
                    TripMode::Drive
                };
                assert(self@.dom().contains(mode));
            }
        }
        r
    }

    /// The entries in the fixed order of the modes.
    pub fn entries(&self) -> (r: Vec<(TripMode, DurationStats)>)
        ensures
            forall|i: int| 0 <= i < r@.len() ==> self@.dom().contains(#[trigger] r@[i].0) && self@[r@[i].0] == r@[i].1,
            forall|mode: TripMode| self@.dom().contains(mode) ==> exists|i: int| 0 <= i < r@.len() && #[trigger] r@[i].0 == mode,
            forall|i: int, j: int| 0 <= i < j < r@.len() ==> r@[i].0.index_spec() < r@[j].0.index_spec(),
    {
        let mut out: Vec<(TripMode, DurationStats)> = Vec::new();
        if let Some(stats) = self.walk {
            out.push((TripMode::Walk, stats));
        }
        if let Some(stats) = self.bike {
            out.push((TripMode::Bike, stats));
        }
        if let Some(stats) = self.transit {
            out.push((TripMode::Transit, stats));
        }
        if let Some(stats) = self.drive {
            out.push((TripMode::Drive, stats));
        }
        proof {
            assert forall|mode: TripMode| self@.dom().contains(mode) implies exists|i: int|
                0 <= i < out@.len() && #[trigger] out@[i].0 == mode by {
                let before = (if mode.index_spec() > 0 && self.walk is Some { 1int } else { 0 })
                    + (if mode.index_spec() > 1 && self.bike is Some { 1int } else { 0 })
                    + (if mode.index_spec() > 2 && self.transit is Some { 1int } else { 0 });
                assert(out@[before].0 == mode);
            }
        }
        out
    }

    /// The statistics of a ledger: for each mode with a trip the summary of
    /// its durations, whatever the order of the records.
    pub fn from_ledger(ledger: &TripLedger) -> (r: PrebakedResults)
        ensures
            r@ == aggregate(ledger@),
    {
        let records = ledger.all();
        let mut walk = DurationHistogram::new();
        let mut bike = DurationHistogram::new();
        let mut transit = DurationHistogram::new();
        let mut drive = DurationHistogram::new();
        let mut i: usize = 0;
        proof {
            broadcast use vstd::seq_lib::group_to_multiset_ensures;
            assert(records@.take(0) =~= Seq::<TripRecord>::empty());
        }
        while i < records.len()
            invariant
                i <= records.len(),
                ascending(walk@),
                ascending(bike@),
                ascending(transit@),
                ascending(drive@),
                walk@.to_multiset() == durations_of(records@.take(i as int), TripMode::Walk),
                bike@.to_multiset() == durations_of(records@.take(i as int), TripMode::Bike),
                transit@.to_multiset() == durations_of(records@.take(i as int), TripMode::Transit),
                drive@.to_multiset() == durations_of(records@.take(i as int), TripMode::Drive),
            decreases records.len() - i,
        {
            let trip = records[i];
            proof {
                let longer = records@.take(i + 1);
                assert(longer.drop_last() =~= records@.take(i as int));
                assert(longer.last() == trip);
            }
            match trip.mode {
                TripMode::Walk => {
                    walk.add(trip.duration);
                },
                TripMode::Bike => {
                    bike.add(trip.duration);
                },
                TripMode::Transit => {
                    transit.add(trip.duration);
                },
                TripMode::Drive => {
                    drive.add(trip.duration);
                },
            }
            i += 1;
        }
        assert(records@.take(records.len() as int) =~= records@);
        let r = PrebakedResults {
            walk: walk.to_stats(),
            bike: bike.to_stats(),
            transit: transit.to_stats(),
            drive: drive.to_stats(),
        };
        proof {
            lemma_histogram_summary(walk@, records@, TripMode::Walk);
            lemma_histogram_summary(bike@, records@, TripMode::Bike);
            lemma_histogram_summary(transit@, records@, TripMode::Transit);
            lemma_histogram_summary(drive@, records@, TripMode::Drive);
            assert forall|mode: TripMode| r.slot(mode) == mode_stats(ledger@, mode) by {
                match mode {
                    TripMode::Walk => {},
                    TripMode::Bike => {},
                    TripMode::Transit => {},
                    TripMode::Drive => {},
                }
            }
            assert(r@ =~= aggregate(ledger@));
        }
        r
    }
}

/// An ascending sequence that holds the durations of a mode stands for the
/// statistics of that mode.
proof fn lemma_histogram_summary(sorted: Seq<u64>, records: Seq<TripRecord>, mode: TripMode)
    requires
        ascending(sorted),
        sorted.to_multiset() == durations_of(records, mode),
    ensures
        mode_stats(records, mode) == if sorted.len() > 0 {
            Some(summary_of(sorted))
        } else {
            None
        },
{
    vstd::seq_lib::to_multiset_len(sorted);
    lemma_ascending_of(sorted);
}

/// The conditions of a reference run: it goes on to the end of the day,
/// unless it completes before, and nothing else stops it.
pub fn horizon_conditions() -> (r: Vec<HaltCondition>)
    ensures
        r@ == seq![HaltCondition::TimeBound(Clock { ticks: END_OF_DAY_TICKS })],
{
    let mut conditions: Vec<HaltCondition> = Vec::new();
    conditions.push(HaltCondition::TimeBound(Clock::end_of_day()));
    assert(conditions@ =~= seq![HaltCondition::TimeBound(Clock { ticks: END_OF_DAY_TICKS })]);
    conditions
}

/// Records the statistics of the finished trips of a reference run as the
/// results, in place of what they held.
pub fn prebake_faster_trips(results: &mut PrebakedResults, finished: &TripLedger)
    ensures
        final(results)@ == aggregate(finished@),
{
    *results = PrebakedResults::from_ledger(finished);
}

/// The baseline of a reference run: the statistics of its finished trips.
pub fn prebake(finished: &TripLedger) -> (r: PrebakedResults)
    ensures
        r@ == aggregate(finished@),
{
    let mut results = PrebakedResults::new();
    prebake_faster_trips(&mut results, finished);
    results
}

} // verus!
