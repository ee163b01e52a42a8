//! Completed trips and the ledger that keeps them in completion order.

use crate::clock::Duration;
use vstd::prelude::*;

verus! {

/// How an agent travels.
#[derive(Clone, Copy, Debug, PartialEq, Eq, Structural, PartialOrd, Ord, Hash)]
pub enum TripMode {
    Walk,
    Bike,
    Transit,
    Drive,
}

impl TripMode {
    /// The four modes, in their fixed order.
    pub open spec fn all_spec() -> Seq<TripMode> {
        seq![TripMode::Walk, TripMode::Bike, TripMode::Transit, TripMode::Drive]
    }

    pub fn all() -> (r: Vec<TripMode>)
        ensures
            r@ == Self::all_spec(),
    {
        let mut modes = Vec::new();
        modes.push(TripMode::Walk);
        modes.push(TripMode::Bike);
        modes.push(TripMode::Transit);
        modes.push(TripMode::Drive);
        assert(modes@ =~= Self::all_spec());
        modes
    }

    /// The place of the mode in the fixed order.
    pub open spec fn index_spec(self) -> nat {
        match self {
            TripMode::Walk => 0,
            TripMode::Bike => 1,
            TripMode::Transit => 2,
            TripMode::Drive => 3,
        }
    }

    pub fn index(self) -> (r: u8)
        ensures
            r == self.index_spec(),
    {
        match self {
            TripMode::Walk => 0,
            TripMode::Bike => 1,
            TripMode::Transit => 2,
            TripMode::Drive => 3,
        }
    }

    /// The mode at a place in the fixed order, if there is one.
    pub fn from_index(index: u8) -> (r: Option<TripMode>)
        ensures
            index < 4 ==> r is Some && r->0.index_spec() == index,
            index >= 4 ==> r is None,
    {
        if index == 0 {
            Some(TripMode::Walk)
        } else if index == 1 {
            Some(TripMode::Bike)
        } else if index == 2 {
            Some(TripMode::Transit)
        } else if index == 3 {
            Some(TripMode::Drive)
        } else {
            None
        }
    }

    /// The name of the mode as it stands in a baseline file.
    pub open spec fn name_spec(self) -> Seq<char> {
        match self {
            TripMode::Walk => "Walk"@,
            TripMode::Bike => "Bike"@,
            TripMode::Transit => "Transit"@,
            TripMode::Drive => "Drive"@,
        }
    }

    pub fn name(self) -> (r: &'static str)
        ensures
            r@ == self.name_spec(),
    {
        match self {
            TripMode::Walk => "Walk",
            TripMode::Bike => "Bike",
            TripMode::Transit => "Transit",
            TripMode::Drive => "Drive",
        }
    }
}

/// One completed trip: who travelled, how, and for how long.
#[derive(Clone, Copy, Debug, PartialEq, Eq, Structural, Hash)]
pub struct TripRecord {
    pub agent: u64,
    pub mode: TripMode,
    pub duration: Duration,
}

impl TripRecord {
    pub fn new(agent: u64, mode: TripMode, duration: Duration) -> (r: TripRecord)
        ensures
            r == (TripRecord { agent, mode, duration }),
    {
        TripRecord { agent, mode, duration }
    }
}

/// The trips of one run in the order in which they completed. Records are
/// appended and never changed or removed.
pub struct TripLedger {
    records: Vec<TripRecord>,
}

impl View for TripLedger {
    type V = Seq<TripRecord>;

    closed spec fn view(&self) -> Seq<TripRecord> {
        self.records@
    }
}

impl TripLedger {
    pub fn new() -> (r: TripLedger)
        ensures
            r@ == Seq::<TripRecord>::empty(),
    {
        TripLedger { records: Vec::new() }
    }

    /// A ledger that holds the given records, in their order.
    pub fn from_records(records: Vec<TripRecord>) -> (r: TripLedger)
        ensures
            r@ == records@,
    {
        TripLedger { records }
    }

    /// Appends a completed trip.
    pub fn record(&mut self, trip: TripRecord)
        ensures
            final(self)@ == old(self)@.push(trip),
    {
        self.records.push(trip);
    }

    /// Appends completed trips in their order.
    pub fn record_all(&mut self, trips: &Vec<TripRecord>)
        ensures
            final(self)@ == old(self)@ + trips@,
    {
        let mut i: usize = 0;
        while i < trips.len()
            invariant
                i <= trips.len(),
                self@ == old(self)@ + trips@.take(i as int),
            decreases trips.len() - i,
        {
            self.records.push(trips[i]);
            assert(trips@.take(i + 1) =~= trips@.take(i as int).push(trips@[i as int]));
            i += 1;
        }
        assert(trips@.take(trips.len() as int) =~= trips@);
    }

    /// Every record so far, oldest first.
    pub fn all(&self) -> (r: &Vec<TripRecord>)
        ensures
            r@ == self@,
    {
        &self.records
    }

    pub fn len(&self) -> (r: usize)
        ensures
            r == self@.len(),
    {
        self.records.len()
    }

    pub fn is_empty(&self) -> (r: bool)
        ensures
            r == (self@.len() == 0),
    {
        self.records.len() == 0
    }

    /// The record at a place in completion order, if there is one.
    pub fn get(&self, index: usize) -> (r: Option<TripRecord>)
        ensures
            index < self@.len() ==> r == Some(self@[index as int]),
            index >= self@.len() ==> r is None,
    {
        if index < self.records.len() {
            Some(self.records[index])
        } else {
            None
        }
    }
}

} // verus!
