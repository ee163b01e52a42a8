//! Seeded travel demand: the trips that a scenario hands to the engine at
//! the start of a run, drawn from a random stream and from nothing else.

use crate::clock::Clock;
use crate::rng::{range_draw, seeded_words, RandomStream};
use crate::trip::TripMode;
use vstd::prelude::*;

verus! {

/// How much demand a scenario starts with.
#[derive(Clone, Copy, Debug, PartialEq, Eq, Structural)]
pub enum DemandProfile {
    Small,
    Big,
}

impl DemandProfile {
    /// The number of trips that the profile asks for of each spawned mode.
    pub open spec fn trips_per_mode_spec(self) -> nat {
        match self {
            DemandProfile::Small => 100,
            DemandProfile::Big => 1000,
        }
    }

    pub fn trips_per_mode(self) -> (r: u32)
        ensures
            r == self.trips_per_mode_spec(),
    {
        match self {
            DemandProfile::Small => 100,
            DemandProfile::Big => 1000,
        }
    }

    /// The profile that the `big_sim` switch selects.
    pub fn from_switch(big: bool) -> (r: DemandProfile)
        ensures
            r == if big {
                DemandProfile::Big
            } else {
                DemandProfile::Small
            },
    {
        if big {
            DemandProfile::Big
        } else {
            DemandProfile::Small
        }
    }
}

/// One trip asked of the engine: from a building to a building, by a mode,
/// leaving at a time.
#[derive(Clone, Copy, Debug, PartialEq, Eq, Structural)]
pub struct TripRequest {
    pub depart: Clock,
    pub mode: TripMode,
    pub origin: u64,
    pub destination: u64,
}

/// The request that two drawn buildings make: a trip that leaves at once.
pub open spec fn request_of(origin: u64, destination: u64, mode: TripMode) -> TripRequest {
    TripRequest { depart: Clock { ticks: 0 }, mode, origin, destination }
}

impl TripRequest {
    /// The trip between two buildings that leaves at the start of the run.
    pub fn between(origin: u64, destination: u64, mode: TripMode) -> (r: TripRequest)
        ensures
            r == request_of(origin, destination, mode),
    {
        TripRequest { depart: Clock::zero(), mode, origin, destination }
    }
}

/// Why no demand was spawned.
#[derive(Clone, Copy, Debug, PartialEq, Eq, Structural)]
pub enum SpawnError {
    /// The map has no building to travel from or to.
    NoBuildings,
}

/// One request drawn from a stream that holds `words`: first the origin,
/// then the destination, each among the buildings; and the words left.
pub open spec fn drawn_request(words: Seq<u32>, buildings: u64, mode: TripMode) -> (
    TripRequest,
    Seq<u32>,
) {
    let origin = range_draw(words, 0, buildings);
    let destination = range_draw(origin.1, 0, buildings);
    (request_of(origin.0, destination.0, mode), destination.1)
}

/// `count` requests of one mode drawn in a row, and the words left.
pub open spec fn drawn_requests(words: Seq<u32>, buildings: u64, mode: TripMode, count: nat) -> (
    Seq<TripRequest>,
    Seq<u32>,
)
    decreases count,
{
    if count == 0 {
        (Seq::empty(), words)
    } else {
        let front = drawn_requests(words, buildings, mode, (count - 1) as nat);
        let next = drawn_request(front.1, buildings, mode);
        (front.0.push(next.0), next.1)
    }
}

/// The demand of a profile from a stream that holds `words`: the walking
/// trips, then the driving trips; and the words left.
pub open spec fn demand(words: Seq<u32>, profile: DemandProfile, buildings: u64) -> (
    Seq<TripRequest>,
    Seq<u32>,
) {
    let walking = drawn_requests(words, buildings, TripMode::Walk, profile.trips_per_mode_spec());
    let driving = drawn_requests(
        walking.1,
        buildings,
        TripMode::Drive,
        profile.trips_per_mode_spec(),
    );
    (walking.0 + driving.0, driving.1)
}

/// Whether every request stays among the buildings.
pub open spec fn within_map(requests: Seq<TripRequest>, buildings: u64) -> bool {
    forall|i: int|
        0 <= i < requests.len() ==> (#[trigger] requests[i]).origin < buildings
            && requests[i].destination < buildings
}

/// Draws `count` requests of one mode and appends them.
fn spawn_mode(
    rng: &mut RandomStream,
    out: &mut Vec<TripRequest>,
    buildings: u64,
    mode: TripMode,
    count: u32,
)
    requires
        buildings > 0,
        within_map(old(out)@, buildings),
    ensures
        final(out)@ == old(out)@ + drawn_requests(
            old(rng).words(),
            buildings,
            mode,
            count as nat,
        ).0,
        final(rng).words() == drawn_requests(old(rng).words(), buildings, mode, count as nat).1,
        within_map(final(out)@, buildings),
{
    let ghost start = rng.words();
    let ghost before = out@;
    let mut made: u32 = 0;
    assert(out@ =~= before + drawn_requests(start, buildings, mode, 0).0);
    while made < count
        invariant
            made <= count,
            buildings > 0,
            out@ == before + drawn_requests(start, buildings, mode, made as nat).0,
            rng.words() == drawn_requests(start, buildings, mode, made as nat).1,
            within_map(out@, buildings),
        decreases count - made,
    {
        let origin = match rng.uniform(0, buildings) {
            Some(building) => building,
            None => 0,
        };
        let destination = match rng.uniform(0, buildings) {
            Some(building) => building,
            None => 0,
        };
        let ghost earlier = out@;
        out.push(TripRequest::between(origin, destination, mode));
        made += 1;
        proof {
            let front = drawn_requests(start, buildings, mode, (made - 1) as nat);
            let next = drawn_request(front.1, buildings, mode);
            assert(out@ =~= before + front.0.push(next.0));
            assert forall|i: int| 0 <= i < out@.len() implies (#[trigger] out@[i]).origin
                < buildings && out@[i].destination < buildings by {
                if i < earlier.len() {
                    assert(out@[i] == earlier[i]);
                }
            }
        }
    }
}

/// Populates the demand of a profile on a map with `buildings` buildings.
/// The requests and the state in which the stream is left are fixed by the
/// state of the stream before; nothing else is consulted.
pub fn spawn(rng: &mut RandomStream, profile: DemandProfile, buildings: u64) -> (r: Result<
    Vec<TripRequest>,
    SpawnError,
>)
    ensures
        buildings == 0 ==> r == Err::<Vec<TripRequest>, SpawnError>(SpawnError::NoBuildings)
            && final(rng).words() == old(rng).words(),
        buildings > 0 ==> r is Ok && r->Ok_0@ == demand(old(rng).words(), profile, buildings).0
            && final(rng).words() == demand(old(rng).words(), profile, buildings).1
            && r->Ok_0@.len() == 2 * profile.trips_per_mode_spec() && within_map(
            r->Ok_0@,
            buildings,
        ),
{
    if buildings == 0 {
        return Err(SpawnError::NoBuildings);
    }
    let count = profile.trips_per_mode();
    let mut out: Vec<TripRequest> = Vec::new();
    let ghost start = rng.words();
    spawn_mode(rng, &mut out, buildings, TripMode::Walk, count);
    spawn_mode(rng, &mut out, buildings, TripMode::Drive, count);
    proof {
        let walking = drawn_requests(start, buildings, TripMode::Walk, count as nat);
        let driving = drawn_requests(walking.1, buildings, TripMode::Drive, count as nat);
        lemma_drawn_count(start, buildings, TripMode::Walk, count as nat);
        lemma_drawn_count(walking.1, buildings, TripMode::Drive, count as nat);
        assert(out@ =~= walking.0 + driving.0);
    }
    Ok(out)
}

/// The demand of a profile from a fresh stream with the given seed: the
/// same seed, profile and map give the same requests in the same order.
pub fn spawn_seeded(seed: u8, profile: DemandProfile, buildings: u64) -> (r: Result<
    Vec<TripRequest>,
    SpawnError,
>)
    ensures
        buildings == 0 ==> r == Err::<Vec<TripRequest>, SpawnError>(SpawnError::NoBuildings),
        buildings > 0 ==> r is Ok && r->Ok_0@ == demand(seeded_words(seed), profile, buildings).0,
{
    let mut rng = RandomStream::seeded(seed);
    spawn(&mut rng, profile, buildings)
}

/// Drawing `count` requests gives `count` requests.
pub proof fn lemma_drawn_count(words: Seq<u32>, buildings: u64, mode: TripMode, count: nat)
    ensures
        drawn_requests(words, buildings, mode, count).0.len() == count,
    decreases count,
{
    if count > 0 {
        lemma_drawn_count(words, buildings, mode, (count - 1) as nat);
    }
}

/// Demand is a function of the seed: two runs that start from the same
/// seed, profile and map are handed the same requests, and leave their
/// streams in the same state.
pub proof fn lemma_same_seed_same_demand(
    seed_a: u8,
    seed_b: u8,
    profile: DemandProfile,
    buildings: u64,
)
    requires
        seed_a == seed_b,
    ensures
        demand(seeded_words(seed_a), profile, buildings) == demand(
            seeded_words(seed_b),
            profile,
            buildings,
        ),
{
}

} // verus!
