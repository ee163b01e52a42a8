use rand::SeedableRng;
use rand_xorshift::XorShiftRng;
use street_sim::clock::Clock;
use street_sim::rng::RandomStream;
use street_sim::spawn::{spawn, spawn_seeded, DemandProfile, SpawnError, TripRequest};
use street_sim::trip::TripMode;

/// The generator written out, to hold the library's stream against.
struct Reference {
    x: u32,
    y: u32,
    z: u32,
    w: u32,
}

impl Reference {
    fn seeded(seed: u8) -> Reference {
        let word = u32::from_le_bytes([seed; 4]);
        let word = if word == 0 { 0x0BAD_5EED } else { word };
        Reference { x: word, y: word, z: word, w: word }
    }

    fn next_u32(&mut self) -> u32 {
        let t = self.x ^ (self.x << 11);
        self.x = self.y;
        self.y = self.z;
        self.z = self.w;
        self.w = self.w ^ (self.w >> 19) ^ (t ^ (t >> 8));
        self.w
    }

    fn next_u64(&mut self) -> u64 {
        let low = u64::from(self.next_u32());
        let high = u64::from(self.next_u32());
        (high << 32) | low
    }

    fn uniform(&mut self, low: u64, high: u64) -> u64 {
        let range = high - low;
        let zone = (range << range.leading_zeros()).wrapping_sub(1);
        loop {
            let product = u128::from(self.next_u64()) * u128::from(range);
            if (product as u64) <= zone {
                return low + (product >> 64) as u64;
            }
        }
    }
}

#[test]
fn same_seed_same_numbers() {
    let mut a = RandomStream::seeded(42);
    let mut b = RandomStream::seeded(42);
    for _ in 0..1000 {
        assert_eq!(a.uniform(0, 1_000_000), b.uniform(0, 1_000_000));
    }
}

#[test]
fn stream_follows_the_generator() {
    for seed in [0u8, 1, 42, 255] {
        let mut stream = RandomStream::seeded(seed);
        let mut reference = Reference::seeded(seed);
        for (low, high) in [(0u64, 10u64), (5, 6), (0, u64::MAX), (100, 1 << 40), (7, 8)] {
            for _ in 0..50 {
                assert_eq!(stream.uniform(low, high), Some(reference.uniform(low, high)));
            }
        }
    }
}

#[test]
fn different_seeds_differ() {
    let mut a = RandomStream::seeded(1);
    let mut b = RandomStream::seeded(2);
    let from_a: Vec<Option<u64>> = (0..20).map(|_| a.uniform(0, u64::MAX)).collect();
    let from_b: Vec<Option<u64>> = (0..20).map(|_| b.uniform(0, u64::MAX)).collect();
    assert_ne!(from_a, from_b);
}

#[test]
fn numbers_stay_in_range() {
    let mut stream = RandomStream::seeded(9);
    let mut seen = [false; 5];
    for _ in 0..500 {
        let n = stream.uniform(10, 15).unwrap();
        assert!((10..15).contains(&n));
        seen[(n - 10) as usize] = true;
    }
    assert_eq!(seen, [true; 5]);
}

#[test]
fn empty_range_draws_nothing() {
    let mut stream = RandomStream::seeded(3);
    let mut untouched = RandomStream::seeded(3);
    assert_eq!(stream.uniform(5, 5), None);
    assert_eq!(stream.uniform(6, 5), None);
    assert_eq!(stream.uniform(0, 100), untouched.uniform(0, 100));
}

#[test]
fn entropy_has_to_be_asked_for() {
    if let Some(mut stream) = RandomStream::from_entropy() {
        let n = stream.uniform(0, 10).unwrap();
        assert!(n < 10);
    }
}

#[test]
fn a_stream_from_entropy_is_live() {
    if let Some(mut stream) = RandomStream::from_entropy() {
        let draws: Vec<u64> = (0..64).map(|_| stream.uniform(0, u64::MAX).unwrap()).collect();
        assert!(draws.iter().any(|n| *n != 0));
        assert!(draws.iter().any(|n| *n != draws[0]));
    }
}

#[test]
fn a_stream_draws_from_the_generator_it_is_given() {
    let mut wrapped = RandomStream::from_generator(XorShiftRng::from_seed([7; 16]));
    let mut seeded = RandomStream::seeded(7);
    let mut reference = Reference::seeded(7);
    for _ in 0..100 {
        let n = wrapped.uniform(3, 1 << 33);
        assert_eq!(n, seeded.uniform(3, 1 << 33));
        assert_eq!(n, Some(reference.uniform(3, 1 << 33)));
    }
    let mut bytes = [0u8; 16];
    bytes[0] = 1;
    bytes[5] = 2;
    let mut uneven = RandomStream::from_generator(XorShiftRng::from_seed(bytes));
    let mut by_hand = Reference { x: 1, y: 0x200, z: 0, w: 0 };
    for _ in 0..100 {
        assert_eq!(uneven.uniform(0, 1000), Some(by_hand.uniform(0, 1000)));
    }
}

#[test]
fn profiles_have_their_sizes() {
    assert_eq!(DemandProfile::Small.trips_per_mode(), 100);
    assert_eq!(DemandProfile::Big.trips_per_mode(), 1000);
    assert_eq!(DemandProfile::from_switch(false), DemandProfile::Small);
    assert_eq!(DemandProfile::from_switch(true), DemandProfile::Big);
}

#[test]
fn small_demand_has_walkers_then_drivers() {
    let requests = spawn_seeded(42, DemandProfile::Small, 50).unwrap();
    assert_eq!(requests.len(), 200);
    for (i, request) in requests.iter().enumerate() {
        assert_eq!(request.mode, if i < 100 { TripMode::Walk } else { TripMode::Drive });
        assert_eq!(request.depart, Clock::zero());
        assert!(request.origin < 50);
        assert!(request.destination < 50);
    }
}

#[test]
fn big_demand_is_ten_times_the_small() {
    let requests = spawn_seeded(42, DemandProfile::Big, 7).unwrap();
    assert_eq!(requests.len(), 2000);
    assert!(requests.iter().all(|r| r.origin < 7 && r.destination < 7));
}

#[test]
fn demand_is_fixed_by_the_seed() {
    let a = spawn_seeded(42, DemandProfile::Small, 1000).unwrap();
    let b = spawn_seeded(42, DemandProfile::Small, 1000).unwrap();
    let c = spawn_seeded(43, DemandProfile::Small, 1000).unwrap();
    assert_eq!(a, b);
    assert_ne!(a, c);
}

#[test]
fn demand_follows_the_generator() {
    let requests = spawn_seeded(5, DemandProfile::Small, 321).unwrap();
    let mut reference = Reference::seeded(5);
    for (i, request) in requests.iter().enumerate() {
        let origin = reference.uniform(0, 321);
        let destination = reference.uniform(0, 321);
        let mode = if i < 100 { TripMode::Walk } else { TripMode::Drive };
        assert_eq!(*request, TripRequest::between(origin, destination, mode));
    }
}

#[test]
fn spawning_uses_the_stream_and_nothing_else() {
    let mut stream = RandomStream::seeded(8);
    let mut reference = Reference::seeded(8);
    let first = spawn(&mut stream, DemandProfile::Small, 10).unwrap();
    for _ in 0..first.len() * 2 {
        reference.uniform(0, 10);
    }
    assert_eq!(stream.uniform(0, 1 << 50), Some(reference.uniform(0, 1 << 50)));
}

#[test]
fn a_map_without_buildings_gets_no_demand() {
    assert_eq!(spawn_seeded(1, DemandProfile::Small, 0), Err(SpawnError::NoBuildings));
    let mut stream = RandomStream::seeded(1);
    let mut untouched = RandomStream::seeded(1);
    assert_eq!(spawn(&mut stream, DemandProfile::Big, 0), Err(SpawnError::NoBuildings));
    assert_eq!(stream.uniform(0, 99), untouched.uniform(0, 99));
}

#[test]
fn a_request_leaves_at_once() {
    let request = TripRequest::between(3, 4, TripMode::Walk);
    assert_eq!(
        request,
        TripRequest { depart: Clock::zero(), mode: TripMode::Walk, origin: 3, destination: 4 }
    );
}
