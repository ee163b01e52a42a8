//! Histograms of trip durations and the summary statistics drawn from them.
//!
//! A histogram is modelled by its samples in ascending order. Whatever the
//! order in which samples arrive, that sequence is fixed by the multiset of
//! samples, and so is every statistic.

use crate::clock::Duration;
use crate::trip::{TripMode, TripRecord};
use vstd::multiset::Multiset;
use vstd::prelude::*;

verus! {

/// Each element is no larger than those after it.
pub open spec fn ascending(s: Seq<u64>) -> bool {
    forall|i: int, j: int| 0 <= i <= j < s.len() ==> s[i] <= s[j]
}

/// The samples of a multiset in ascending order.
pub open spec fn ascending_of(samples: Multiset<u64>) -> Seq<u64> {
    choose|s: Seq<u64>| ascending(s) && s.to_multiset() == samples
}

/// The place, in ascending order, of the nearest-rank percentile: the
/// smallest sample such that at least `percent` in a hundred are no larger.
pub open spec fn rank_index(count: nat, percent: nat) -> int {
    if percent == 0 {
        0
    } else {
        (percent * count + 99) / 100 - 1
    }
}

/// The summary of a run of trip durations.
#[derive(Clone, Copy, Debug, PartialEq, Eq, Structural)]
pub struct DurationStats {
    pub count: u64,
    pub min: Duration,
    pub median: Duration,
    pub p90: Duration,
    pub p99: Duration,
    pub max: Duration,
}

/// The summary of a non-empty ascending sequence of samples.
pub open spec fn summary_of(sorted: Seq<u64>) -> DurationStats {
    DurationStats {
        count: sorted.len() as u64,
        min: Duration { ticks: sorted[0] },
        median: Duration { ticks: sorted[rank_index(sorted.len(), 50)] },
        p90: Duration { ticks: sorted[rank_index(sorted.len(), 90)] },
        p99: Duration { ticks: sorted[rank_index(sorted.len(), 99)] },
        max: Duration { ticks: sorted[sorted.len() - 1] },
    }
}

/// The order on samples.
pub open spec fn at_most() -> spec_fn(u64, u64) -> bool {
    |a: u64, b: u64| a <= b
}

/// Two ascending sequences of the same samples are the same sequence.
pub proof fn lemma_ascending_unique(a: Seq<u64>, b: Seq<u64>)
    requires
        ascending(a),
        ascending(b),
        a.to_multiset() == b.to_multiset(),
    ensures
        a == b,
{
    let leq = at_most();
    assert(vstd::relations::sorted_by(a, leq));
    assert(vstd::relations::sorted_by(b, leq));
    assert(vstd::relations::total_ordering(leq));
    vstd::seq_lib::lemma_sorted_unique(a, b, leq);
}

/// An ascending sequence is the ascending order of its own samples.
pub proof fn lemma_ascending_of(s: Seq<u64>)
    requires
        ascending(s),
    ensures
        ascending_of(s.to_multiset()) == s,
{
    let chosen = ascending_of(s.to_multiset());
    assert(ascending(s) && s.to_multiset() == s.to_multiset());
    lemma_ascending_unique(chosen, s);
}

/// The nearest-rank place lies within the samples.
pub proof fn lemma_rank_in_range(count: nat, percent: nat)
    requires
        count > 0,
        percent <= 100,
    ensures
        0 <= rank_index(count, percent) < count,
{
    if percent > 0 {
        assert(percent * count <= 100 * count) by (nonlinear_arith)
            requires
                percent <= 100,
        ;
        assert(percent * count >= 1) by (nonlinear_arith)
            requires
                percent >= 1,
                count >= 1,
        ;
    }
}

/// The number of samples that are no larger than a bound.
pub open spec fn count_at_most(samples: Seq<u64>, bound: u64) -> nat
    decreases samples.len(),
{
    if samples.len() == 0 {
        0
    } else if samples.last() <= bound {
        count_at_most(samples.drop_last(), bound) + 1
    } else {
        count_at_most(samples.drop_last(), bound)
    }
}

/// Where the first `m` samples are within the bound, at least `m` are.
proof fn lemma_count_from_below(samples: Seq<u64>, bound: u64, m: int)
    requires
        0 <= m <= samples.len(),
        forall|j: int| 0 <= j < m ==> samples[j] <= bound,
    ensures
        count_at_most(samples, bound) >= m,
    decreases samples.len(),
{
    if samples.len() > 0 {
        let front = samples.drop_last();
        if m == samples.len() {
            assert forall|j: int| 0 <= j < m - 1 implies front[j] <= bound by {
                assert(front[j] == samples[j]);
            }
            lemma_count_from_below(front, bound, m - 1);
            assert(samples.last() == samples[m - 1]);
        } else {
            assert forall|j: int| 0 <= j < m implies front[j] <= bound by {
                assert(front[j] == samples[j]);
            }
            lemma_count_from_below(front, bound, m);
        }
    }
}

/// Where all samples from the `m`th on are above the bound, at most `m`
/// are within it.
proof fn lemma_count_from_above(samples: Seq<u64>, bound: u64, m: int)
    requires
        0 <= m <= samples.len(),
        forall|j: int| m <= j < samples.len() ==> samples[j] > bound,
    ensures
        count_at_most(samples, bound) <= m,
    decreases samples.len(),
{
    if samples.len() > 0 {
        let front = samples.drop_last();
        if m == samples.len() {
            lemma_count_from_above(front, bound, m - 1);
        } else {
            assert forall|j: int| m <= j < front.len() implies front[j] > bound by {
                assert(front[j] == samples[j]);
            }
            lemma_count_from_above(front, bound, m);
            assert(samples.last() == samples[samples.len() - 1]);
        }
    }
}

/// The sample at the nearest-rank place is the percentile: at least
/// `percent` in a hundred of the samples are no larger than it, and of no
/// smaller value is that true.
pub proof fn lemma_percentile_is_nearest_rank(sorted: Seq<u64>, percent: nat)
    requires
        ascending(sorted),
        sorted.len() > 0,
        1 <= percent <= 100,
    ensures
        100 * count_at_most(sorted, sorted[rank_index(sorted.len(), percent)]) >= percent
            * sorted.len(),
        forall|below: u64|
            below < sorted[rank_index(sorted.len(), percent)] ==> 100 * #[trigger] count_at_most(
                sorted,
                below,
            ) < percent * sorted.len(),
{
    lemma_rank_in_range(sorted.len(), percent);
    let place = rank_index(sorted.len(), percent);
    let scaled = percent * sorted.len();
    assert(100 * (place + 1) >= scaled);
    assert(100 * place < scaled);
    lemma_count_from_below(sorted, sorted[place], place + 1);
    assert forall|below: u64| below < sorted[place] implies 100 * #[trigger] count_at_most(
        sorted,
        below,
    ) < percent * sorted.len() by {
        lemma_count_from_above(sorted, below, place);
    }
}

/// Trip durations as they arrive, kept so that statistics do not depend on
/// the order of arrival.
pub struct DurationHistogram {
    samples: Vec<u64>,
}

impl View for DurationHistogram {
    type V = Seq<u64>;

    /// The samples in ascending order.
    closed spec fn view(&self) -> Seq<u64> {
        self.samples@
    }
}

impl DurationHistogram {
    #[verifier::type_invariant]
    spec fn kept_ascending(self) -> bool {
        ascending(self.samples@)
    }

    pub fn new() -> (r: DurationHistogram)
        ensures
            r@ == Seq::<u64>::empty(),
            ascending(r@),
    {
        DurationHistogram { samples: Vec::new() }
    }

    /// Takes in one more duration.
    pub fn add(&mut self, span: Duration)
        ensures
            ascending(final(self)@),
            final(self)@.to_multiset() == old(self)@.to_multiset().insert(span.ticks),
            final(self)@.len() == old(self)@.len() + 1,
    {
        proof {
            use_type_invariant(&*self);
        }
        let ticks = span.ticks;
        let mut samples: Vec<u64> = Vec::new();
        core::mem::swap(&mut self.samples, &mut samples);
        let ghost before = samples@;
        let mut place: usize = 0;
        while place < samples.len() && samples[place] <= ticks
            invariant
                place <= samples.len(),
                samples@ == before,
                forall|j: int| 0 <= j < place ==> before[j] <= ticks,
            decreases samples.len() - place,
        {
            place += 1;
        }
        proof {
            vstd::seq_lib::to_multiset_insert(before, place as int, ticks);
            let after = before.insert(place as int, ticks);
            assert forall|i: int, j: int| 0 <= i <= j < after.len() implies after[i] <= after[j] by {
                if i < place && j > place {
                    assert(after[i] == before[i]);
                    assert(after[j] == before[j - 1]);
                }
            }
        }
        samples.insert(place, ticks);
        self.samples = samples;
    }

    /// The number of samples; the samples are in ascending order.
    pub fn count(&self) -> (r: usize)
        ensures
            r == self@.len(),
            ascending(self@),
    {
        proof {
            use_type_invariant(self);
        }
        self.samples.len()
    }

    /// The nearest-rank percentile, for a percent up to a hundred and a
    /// histogram that holds a sample.
    pub fn percentile(&self, percent: u8) -> (r: Option<Duration>)
        ensures
            self@.len() > 0 && percent <= 100 ==> r == Some(
                Duration { ticks: self@[rank_index(self@.len(), percent as nat)] },
            ),
            self@.len() == 0 || percent > 100 ==> r is None,
    {
        let count = self.samples.len();
        if count == 0 || percent > 100 {
            return None;
        }
        let place = rank_place(count, percent);
        Some(Duration { ticks: self.samples[place] })
    }

    /// The summary of the samples, where there is any.
    pub fn to_stats(&self) -> (r: Option<DurationStats>)
        ensures
            self@.len() > 0 ==> r == Some(summary_of(self@)),
            self@.len() == 0 ==> r is None,
    {
        let count = self.samples.len();
        if count == 0 {
            return None;
        }
        let median = self.samples[rank_place(count, 50)];
        let p90 = self.samples[rank_place(count, 90)];
        let p99 = self.samples[rank_place(count, 99)];
        Some(
            DurationStats {
                count: count as u64,
                min: Duration { ticks: self.samples[0] },
                median: Duration { ticks: median },
                p90: Duration { ticks: p90 },
                p99: Duration { ticks: p99 },
                max: Duration { ticks: self.samples[count - 1] },
            },
        )
    }
}

/// The nearest-rank place of a percentile among `count` samples.
fn rank_place(count: usize, percent: u8) -> (r: usize)
    requires
        count > 0,
        percent <= 100,
    ensures
        r == rank_index(count as nat, percent as nat),
        r < count,
{
    proof {
        lemma_rank_in_range(count as nat, percent as nat);
    }
    if percent == 0 {
        0
    } else {
        assert(percent * count <= 100 * count) by (nonlinear_arith)
            requires
                percent <= 100,
        ;
        let scaled: u128 = (percent as u128) * (count as u128) + 99;
        (scaled / 100 - 1) as usize
    }
}


/// The durations of the trips of one mode among the records.
pub open spec fn durations_of(records: Seq<TripRecord>, mode: TripMode) -> Multiset<u64>
    decreases records.len(),
{
    if records.len() == 0 {
        Multiset::empty()
    } else if records.last().mode == mode {
        durations_of(records.drop_last(), mode).insert(records.last().duration.ticks)
    } else {
        durations_of(records.drop_last(), mode)
    }
}

/// The summary of the trips of one mode, where the records hold any.
pub open spec fn mode_stats(records: Seq<TripRecord>, mode: TripMode) -> Option<DurationStats> {
    let durations = durations_of(records, mode);
    if durations.len() == 0 {
        None
    } else {
        Some(summary_of(ascending_of(durations)))
    }
}

/// The statistics of a ledger: a summary for each mode that has a trip, and
/// no entry for a mode that has none.
pub open spec fn aggregate(records: Seq<TripRecord>) -> Map<TripMode, DurationStats> {
    Map::new(
        |mode: TripMode| mode_stats(records, mode) is Some,
        |mode: TripMode| mode_stats(records, mode)->0,
    )
}

/// Taking one record out takes its duration out of its mode and leaves the
/// other modes as they were.
proof fn lemma_durations_remove(records: Seq<TripRecord>, at: int, mode: TripMode)
    requires
        0 <= at < records.len(),
    ensures
        durations_of(records, mode) == if records[at].mode == mode {
            durations_of(records.remove(at), mode).insert(records[at].duration.ticks)
        } else {
            durations_of(records.remove(at), mode)
        },
    decreases records.len(),
{
    broadcast use vstd::multiset::group_multiset_axioms;

    if at == records.len() - 1 {
        assert(records.remove(at) =~= records.drop_last());
    } else {
        let front = records.drop_last();
        let without = records.remove(at);
        lemma_durations_remove(front, at, mode);
        assert(front[at] == records[at]);
        assert(without.drop_last() =~= front.remove(at));
        assert(without.last() == records.last());
        let base = durations_of(front.remove(at), mode);
        let taken = records[at].duration.ticks;
        let last = records.last().duration.ticks;
        assert(base.insert(taken).insert(last) =~= base.insert(last).insert(taken));
    }
}

/// Records that are a rearrangement of each other hold the same durations
/// for every mode.
pub proof fn lemma_durations_rearranged(a: Seq<TripRecord>, b: Seq<TripRecord>, mode: TripMode)
    requires
        a.to_multiset() == b.to_multiset(),
    ensures
        durations_of(a, mode) == durations_of(b, mode),
    decreases a.len(),
{
    broadcast use vstd::seq_lib::group_to_multiset_ensures;
    broadcast use vstd::multiset::group_multiset_axioms;

    if a.len() == 0 {
        vstd::seq_lib::to_multiset_len(a);
        vstd::seq_lib::to_multiset_len(b);
        assert(b.len() == 0);
    } else {
        let moved = a.last();
        assert(a.to_multiset().count(moved) > 0);
        assert(b.contains(moved));
        let at = choose|at: int| 0 <= at < b.len() && b[at] == moved;
        assert(a.drop_last() =~= a.remove(a.len() - 1));
        assert(a.drop_last().to_multiset() =~= a.to_multiset().remove(moved));
        assert(b.remove(at).to_multiset() =~= b.to_multiset().remove(moved));
        lemma_durations_rearranged(a.drop_last(), b.remove(at), mode);
        lemma_durations_remove(b, at, mode);
    }
}

/// The statistics of a ledger do not depend on the order of its records:
/// any two rearrangements of the same records aggregate to the same mapping.
pub proof fn lemma_aggregate_order_independent(a: Seq<TripRecord>, b: Seq<TripRecord>)
    requires
        a.to_multiset() == b.to_multiset(),
    ensures
        aggregate(a) == aggregate(b),
{
    assert forall|mode: TripMode| mode_stats(a, mode) == mode_stats(b, mode) by {
        lemma_durations_rearranged(a, b, mode);
    }
    assert(aggregate(a) =~= aggregate(b));
}

/// A ledger without records aggregates to a mapping without entries.
pub proof fn lemma_aggregate_empty()
    ensures
        aggregate(Seq::<TripRecord>::empty()) == Map::<TripMode, DurationStats>::empty(),
{
    broadcast use vstd::multiset::group_multiset_axioms;

    assert forall|mode: TripMode| mode_stats(Seq::<TripRecord>::empty(), mode) is None by {
        assert(durations_of(Seq::<TripRecord>::empty(), mode) =~= Multiset::<u64>::empty());
    }
    assert(aggregate(Seq::<TripRecord>::empty()) =~= Map::<TripMode, DurationStats>::empty());
}

/// Only modes with a trip have an entry, and an entry counts the trips of
/// its mode.
pub proof fn lemma_aggregate_entries(records: Seq<TripRecord>, mode: TripMode)
    ensures
        aggregate(records).dom().contains(mode) <==> durations_of(records, mode).len() > 0,
        aggregate(records).dom().contains(mode) ==> aggregate(records)[mode].count
            == durations_of(records, mode).len() as u64,
{
    broadcast use vstd::seq_lib::group_to_multiset_ensures;

    let durations = durations_of(records, mode);
    if durations.len() > 0 {
        lemma_ascending_exists(durations);
        let sorted = ascending_of(durations);
        assert(sorted.len() == sorted.to_multiset().len());
    }
}

/// Every finite multiset of samples has an ascending order.
pub proof fn lemma_ascending_exists(samples: Multiset<u64>)
    ensures
        ascending(ascending_of(samples)),
        ascending_of(samples).to_multiset() == samples,
    decreases samples.len(),
{
    broadcast use vstd::multiset::group_multiset_axioms;

    if samples.len() == 0 {
        let none = Seq::<u64>::empty();
        assert(none.to_multiset() =~= samples) by {
            broadcast use vstd::seq_lib::group_to_multiset_ensures;

            assert(none.to_multiset().len() == 0);
        }
        assert(ascending(none) && none.to_multiset() == samples);
    } else {
        let one = samples.choose();
        let fewer = samples.remove(one);
        lemma_ascending_exists(fewer);
        let rest = ascending_of(fewer);
        let place = insertion_place(rest, one);
        lemma_insertion_place(rest, one);
        let whole = rest.insert(place, one);
        vstd::seq_lib::to_multiset_insert(rest, place, one);
        assert(fewer.insert(one) =~= samples);
        assert forall|i: int, j: int| 0 <= i <= j < whole.len() implies whole[i] <= whole[j] by {
            if i < place && j > place {
                assert(whole[i] == rest[i]);
                assert(whole[j] == rest[j - 1]);
            }
        }
        assert(ascending(whole) && whole.to_multiset() == samples);
    }
}

/// The first place of an ascending sequence that holds more than `sample`.
spec fn insertion_place(sorted: Seq<u64>, sample: u64) -> int
    decreases sorted.len(),
{
    if sorted.len() == 0 || sorted.last() <= sample {
        sorted.len() as int
    } else {
        insertion_place(sorted.drop_last(), sample)
    }
}

proof fn lemma_insertion_place(sorted: Seq<u64>, sample: u64)
    requires
        ascending(sorted),
    ensures
        0 <= insertion_place(sorted, sample) <= sorted.len(),
        forall|j: int| 0 <= j < insertion_place(sorted, sample) ==> sorted[j] <= sample,
        forall|j: int| insertion_place(sorted, sample) <= j < sorted.len() ==> sorted[j] > sample,
    decreases sorted.len(),
{
    if sorted.len() == 0 || sorted.last() <= sample {
    } else {
        let front = sorted.drop_last();
        assert forall|i: int, j: int| 0 <= i <= j < front.len() implies front[i] <= front[j] by {
            assert(front[i] == sorted[i]);
            assert(front[j] == sorted[j]);
        }
        lemma_insertion_place(front, sample);
        let place = insertion_place(front, sample);
        assert forall|j: int| 0 <= j < place implies sorted[j] <= sample by {
            assert(front[j] == sorted[j]);
        }
        assert forall|j: int| place <= j < sorted.len() implies sorted[j] > sample by {
            if j < front.len() {
                assert(front[j] == sorted[j]);
            }
        }
    }
}

} // verus!
