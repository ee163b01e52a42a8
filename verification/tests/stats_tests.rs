use street_sim::baseline::{horizon_conditions, prebake, prebake_faster_trips, PrebakedResults};
use street_sim::clock::Clock;
use street_sim::driver::HaltCondition;
use street_sim::clock::Duration;
use street_sim::stats::{DurationHistogram, DurationStats};
use street_sim::trip::{TripLedger, TripMode, TripRecord};

fn histogram_of(samples: &[u64]) -> DurationHistogram {
    let mut histogram = DurationHistogram::new();
    for ticks in samples {
        histogram.add(Duration::from_ticks(*ticks));
    }
    histogram
}

fn ledger_of(records: &[(u64, TripMode, u64)]) -> TripLedger {
    let mut ledger = TripLedger::new();
    for (agent, mode, ticks) in records {
        ledger.record(TripRecord::new(*agent, *mode, Duration::from_ticks(*ticks)));
    }
    ledger
}

#[test]
fn empty_histogram_has_no_stats() {
    let histogram = DurationHistogram::new();
    assert_eq!(histogram.count(), 0);
    assert_eq!(histogram.to_stats(), None);
    assert_eq!(histogram.percentile(50), None);
}

#[test]
fn stats_of_five_samples() {
    let stats = histogram_of(&[5, 3, 9, 1, 7]).to_stats();
    assert_eq!(
        stats,
        Some(DurationStats {
            count: 5,
            min: Duration::from_ticks(1),
            median: Duration::from_ticks(5),
            p90: Duration::from_ticks(9),
            p99: Duration::from_ticks(9),
            max: Duration::from_ticks(9),
        })
    );
}

#[test]
fn stats_of_one_sample() {
    let stats = histogram_of(&[42]).to_stats();
    assert_eq!(
        stats,
        Some(DurationStats {
            count: 1,
            min: Duration::from_ticks(42),
            median: Duration::from_ticks(42),
            p90: Duration::from_ticks(42),
            p99: Duration::from_ticks(42),
            max: Duration::from_ticks(42),
        })
    );
}

#[test]
fn percentiles_are_nearest_rank() {
    let samples: Vec<u64> = (1..=10).rev().collect();
    let histogram = histogram_of(&samples);
    assert_eq!(histogram.percentile(0), Some(Duration::from_ticks(1)));
    assert_eq!(histogram.percentile(1), Some(Duration::from_ticks(1)));
    assert_eq!(histogram.percentile(10), Some(Duration::from_ticks(1)));
    assert_eq!(histogram.percentile(11), Some(Duration::from_ticks(2)));
    assert_eq!(histogram.percentile(50), Some(Duration::from_ticks(5)));
    assert_eq!(histogram.percentile(51), Some(Duration::from_ticks(6)));
    assert_eq!(histogram.percentile(90), Some(Duration::from_ticks(9)));
    assert_eq!(histogram.percentile(99), Some(Duration::from_ticks(10)));
    assert_eq!(histogram.percentile(100), Some(Duration::from_ticks(10)));
    assert_eq!(histogram.percentile(101), None);

    let many: Vec<u64> = (1..=200).collect();
    let histogram = histogram_of(&many);
    assert_eq!(histogram.percentile(50), Some(Duration::from_ticks(100)));
    assert_eq!(histogram.percentile(99), Some(Duration::from_ticks(198)));
}

#[test]
fn histogram_ignores_order_of_arrival() {
    let a = histogram_of(&[4, 4, 1, 8, 2, 9, 9, 3]);
    let b = histogram_of(&[9, 3, 4, 9, 1, 2, 8, 4]);
    let c = histogram_of(&[1, 2, 3, 4, 4, 8, 9, 9]);
    assert_eq!(a.to_stats(), c.to_stats());
    assert_eq!(b.to_stats(), c.to_stats());
    assert_eq!(a.count(), 8);
    for percent in 0..=100u8 {
        assert_eq!(a.percentile(percent), b.percentile(percent));
    }
}

#[test]
fn ledger_keeps_completion_order() {
    let mut ledger = TripLedger::new();
    assert!(ledger.is_empty());
    let first = TripRecord::new(7, TripMode::Bike, Duration::from_seconds(90));
    let second = TripRecord::new(3, TripMode::Walk, Duration::from_seconds(30));
    ledger.record(first);
    ledger.record(second);
    assert_eq!(ledger.len(), 2);
    assert_eq!(ledger.all(), &vec![first, second]);
    assert_eq!(ledger.get(0), Some(first));
    assert_eq!(ledger.get(1), Some(second));
    assert_eq!(ledger.get(2), None);
    let third = TripRecord::new(9, TripMode::Drive, Duration::from_seconds(10));
    ledger.record_all(&vec![third, first]);
    assert_eq!(ledger.all(), &vec![first, second, third, first]);
    let copy = TripLedger::from_records(vec![second, first]);
    assert_eq!(copy.all(), &vec![second, first]);
}

#[test]
fn modes_have_a_fixed_order() {
    assert_eq!(
        TripMode::all(),
        vec![TripMode::Walk, TripMode::Bike, TripMode::Transit, TripMode::Drive]
    );
    for mode in TripMode::all() {
        assert_eq!(TripMode::from_index(mode.index()), Some(mode));
    }
    assert_eq!(TripMode::from_index(4), None);
    assert_eq!(TripMode::Bike.name(), "Bike");
    assert_eq!(TripMode::Walk.name(), "Walk");
    assert_eq!(TripMode::Transit.name(), "Transit");
    assert_eq!(TripMode::Drive.name(), "Drive");
}

#[test]
fn aggregation_partitions_by_mode() {
    let ledger = ledger_of(&[
        (1, TripMode::Bike, 500),
        (2, TripMode::Drive, 100),
        (3, TripMode::Bike, 300),
        (4, TripMode::Bike, 700),
        (5, TripMode::Drive, 900),
    ]);
    let results = PrebakedResults::from_ledger(&ledger);
    assert!(!results.is_empty());
    assert_eq!(results.get(TripMode::Walk), None);
    assert_eq!(results.get(TripMode::Transit), None);
    assert_eq!(
        results.get(TripMode::Bike),
        Some(DurationStats {
            count: 3,
            min: Duration::from_ticks(300),
            median: Duration::from_ticks(500),
            p90: Duration::from_ticks(700),
            p99: Duration::from_ticks(700),
            max: Duration::from_ticks(700),
        })
    );
    assert_eq!(
        results.get(TripMode::Drive),
        Some(DurationStats {
            count: 2,
            min: Duration::from_ticks(100),
            median: Duration::from_ticks(100),
            p90: Duration::from_ticks(900),
            p99: Duration::from_ticks(900),
            max: Duration::from_ticks(900),
        })
    );
    let entries = results.entries();
    assert_eq!(entries.len(), 2);
    assert_eq!(entries[0].0, TripMode::Bike);
    assert_eq!(entries[1].0, TripMode::Drive);
    assert_eq!(Some(entries[0].1), results.get(TripMode::Bike));
}

#[test]
fn aggregation_ignores_order_of_records() {
    let records = [
        (1, TripMode::Bike, 500),
        (2, TripMode::Drive, 100),
        (3, TripMode::Walk, 300),
        (4, TripMode::Bike, 700),
        (5, TripMode::Transit, 900),
        (6, TripMode::Bike, 500),
        (7, TripMode::Walk, 20),
    ];
    let reference = PrebakedResults::from_ledger(&ledger_of(&records));
    let mut turned = records;
    for _ in 0..records.len() {
        turned.rotate_left(1);
        let mut flipped = turned;
        flipped.reverse();
        for order in [turned, flipped] {
            let results = PrebakedResults::from_ledger(&ledger_of(&order));
            for mode in TripMode::all() {
                assert_eq!(results.get(mode), reference.get(mode));
            }
        }
    }
}

#[test]
fn empty_ledger_aggregates_to_no_entries() {
    let results = PrebakedResults::from_ledger(&TripLedger::new());
    assert!(results.is_empty());
    assert!(results.entries().is_empty());
    for mode in TripMode::all() {
        assert_eq!(results.get(mode), None);
    }
    assert!(prebake(&TripLedger::new()).is_empty());
}

#[test]
fn results_can_be_filled_by_hand() {
    let mut results = PrebakedResults::new();
    assert!(results.is_empty());
    let stats = histogram_of(&[10, 20, 30]).to_stats().unwrap();
    results.insert(TripMode::Transit, stats);
    assert!(!results.is_empty());
    assert_eq!(results.get(TripMode::Transit), Some(stats));
    assert_eq!(results.get(TripMode::Bike), None);
    assert_eq!(results.entries(), vec![(TripMode::Transit, stats)]);
}

#[test]
fn prebake_replaces_earlier_results() {
    let mut results = PrebakedResults::new();
    results.insert(TripMode::Walk, histogram_of(&[1]).to_stats().unwrap());
    let ledger = ledger_of(&[(1, TripMode::Bike, 500)]);
    prebake_faster_trips(&mut results, &ledger);
    assert_eq!(results.get(TripMode::Walk), None);
    assert_eq!(results.get(TripMode::Bike), histogram_of(&[500]).to_stats());
    assert_eq!(prebake(&ledger).get(TripMode::Bike), results.get(TripMode::Bike));
}

#[test]
fn a_reference_run_ends_with_the_day() {
    assert_eq!(horizon_conditions(), vec![HaltCondition::TimeBound(Clock::end_of_day())]);
}

#[test]
fn a_percentile_is_the_smallest_sample_that_covers_its_share() {
    let samples: Vec<u64> = vec![12, 7, 7, 30, 1, 19, 19, 19, 4, 25, 8, 8, 2];
    let histogram = histogram_of(&samples);
    let covered = |bound: u64| samples.iter().filter(|s| **s <= bound).count() as u64;
    let n = samples.len() as u64;
    for percent in 1..=100u8 {
        let value = histogram.percentile(percent).unwrap().ticks();
        assert!(samples.contains(&value));
        assert!(100 * covered(value) >= u64::from(percent) * n);
        for smaller in samples.iter().filter(|s| **s < value) {
            assert!(100 * covered(*smaller) < u64::from(percent) * n);
        }
    }
}
