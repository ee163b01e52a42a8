//! Scoring a run against the baseline of its challenge.

use crate::baseline::PrebakedResults;
use crate::challenges::{goal_fits, Challenge, ChallengeView, Goal, GoalView};
use crate::clock::Duration;
use crate::stats::DurationStats;
use crate::trip::TripMode;
use vstd::prelude::*;

verus! {

/// The average wait between the stops of one bus route.
#[derive(Debug)]
pub struct RouteWait {
    pub route: String,
    pub average_wait: Duration,
}

/// What a run on one map measured.
#[derive(Debug)]
pub struct RunStats {
    pub map_name: String,
    pub trips: PrebakedResults,
    pub route_waits: Vec<RouteWait>,
    pub badness: u64,
}

/// `RunStats` as a mathematical value.
pub struct RunStatsView {
    pub map_name: Seq<char>,
    pub trips: Map<TripMode, DurationStats>,
    pub route_waits: Seq<(Seq<char>, Duration)>,
    pub badness: u64,
}

/// The routes and waits of a list of entries.
pub open spec fn wait_views(waits: Seq<RouteWait>) -> Seq<(Seq<char>, Duration)> {
    waits.map_values(|w: RouteWait| (w.route@, w.average_wait))
}

impl View for RunStats {
    type V = RunStatsView;

    open spec fn view(&self) -> RunStatsView {
        RunStatsView {
            map_name: self.map_name@,
            trips: self.trips@,
            route_waits: wait_views(self.route_waits@),
            badness: self.badness,
        }
    }
}

/// Why a run did not pass.
#[derive(Clone, Copy, Debug, PartialEq, Eq, Structural)]
pub enum FailReason {
    /// The median trip time did not fall by the required span.
    MedianNotReduced { baseline: Duration, current: Duration, required: Duration },
    /// The average wait did not fall by the required span.
    WaitNotReduced { baseline: Duration, current: Duration, required: Duration },
    /// The badness did not rise above the threshold.
    NotBadEnough { badness: u64, threshold: u64 },
}

/// How a run fared.
#[derive(Clone, Copy, Debug, PartialEq, Eq, Structural)]
pub enum Verdict {
    Pass,
    Fail(FailReason),
}

/// Why a run could not be scored.
#[derive(Clone, Copy, Debug, PartialEq, Eq, Structural)]
pub enum EvalError {
    /// The goal of the challenge measures something else than its mode.
    GoalMismatch,
    /// The baseline was recorded on another map than the challenge's.
    WrongBaseline,
    /// The run was made on another map than the challenge's.
    WrongMap,
    /// The baseline holds nothing for what the goal measures.
    MissingBaseline,
    /// The run holds nothing for what the goal measures.
    MissingMeasure,
}

/// The wait of the first entry for a route, if there is one.
pub open spec fn wait_of(waits: Seq<(Seq<char>, Duration)>, route: Seq<char>) -> Option<Duration>
    decreases waits.len(),
{
    if waits.len() == 0 {
        None
    } else if waits[0].0 == route {
        Some(waits[0].1)
    } else {
        wait_of(waits.drop_first(), route)
    }
}

/// Whether `current` is lower than `baseline` by at least `required`.
pub open spec fn reduced_by(current: Duration, baseline: Duration, required: Duration) -> bool {
    current.ticks + required.ticks <= baseline.ticks
}

/// The score of a run. A run is scored only against the baseline of the
/// challenge's own map, and only on that map. Faster trips pass when the
/// median of the mode is lower than the baseline's by the required span; a
/// bus route passes when its average wait is; gridlock passes when the
/// badness is above the threshold, whatever the baseline.
pub open spec fn score(challenge: ChallengeView, current: RunStatsView, baseline: RunStatsView)
    -> Result<Verdict, EvalError> {
    if !goal_fits(challenge.gameplay, challenge.goal) {
        Err(EvalError::GoalMismatch)
    } else if current.map_name != challenge.map_name {
        Err(EvalError::WrongMap)
    } else {
        match challenge.goal {
            GoalView::IncreaseBadnessAbove(threshold) => if current.badness > threshold {
                Ok(Verdict::Pass)
            } else {
                Ok(Verdict::Fail(FailReason::NotBadEnough { badness: current.badness, threshold }))
            },
            GoalView::ReduceMedianBy(mode, required) => if baseline.map_name
                != challenge.map_name {
                Err(EvalError::WrongBaseline)
            } else if !baseline.trips.dom().contains(mode) {
                Err(EvalError::MissingBaseline)
            } else if !current.trips.dom().contains(mode) {
                Err(EvalError::MissingMeasure)
            } else if reduced_by(current.trips[mode].median, baseline.trips[mode].median, required) {
                Ok(Verdict::Pass)
            } else {
                Ok(
                    Verdict::Fail(
                        FailReason::MedianNotReduced {
                            baseline: baseline.trips[mode].median,
                            current: current.trips[mode].median,
                            required,
                        },
                    ),
                )
            },
            GoalView::ReduceAverageWaitBy(route, required) => if baseline.map_name
                != challenge.map_name {
                Err(EvalError::WrongBaseline)
            } else {
                match (wait_of(baseline.route_waits, route), wait_of(current.route_waits, route)) {
                    (None, _) => Err(EvalError::MissingBaseline),
                    (Some(_), None) => Err(EvalError::MissingMeasure),
                    (Some(before), Some(now)) => if reduced_by(now, before, required) {
                        Ok(Verdict::Pass)
                    } else {
                        Ok(
                            Verdict::Fail(
                                FailReason::WaitNotReduced {
                                    baseline: before,
                                    current: now,
                                    required,
                                },
                            ),
                        )
                    },
                }
            },
        }
    }
}

/// The wait recorded for a route, if any.
pub fn find_wait(waits: &Vec<RouteWait>, route: &String) -> (r: Option<Duration>)
    ensures
        r == wait_of(wait_views(waits@), route@),
{
    let ghost all = wait_views(waits@);
    let mut i: usize = 0;
    assert(all.skip(0) =~= all);
    while i < waits.len()
        invariant
            i <= waits.len(),
            all == wait_views(waits@),
            wait_of(all, route@) == wait_of(all.skip(i as int), route@),
        decreases waits.len() - i,
    {
        assert(all.skip(i as int)[0] == all[i as int]);
        assert(all[i as int] == (waits@[i as int].route@, waits@[i as int].average_wait));
        if waits[i].route == *route {
            return Some(waits[i].average_wait);
        }
        assert(all.skip(i as int).drop_first() =~= all.skip(i + 1));
        i += 1;
    }
    None
}

/// Whether `current` is lower than `baseline` by at least `required`.
pub fn is_reduced_by(current: Duration, baseline: Duration, required: Duration) -> (r: bool)
    ensures
        r == reduced_by(current, baseline, required),
{
    match current.ticks.checked_add(required.ticks) {
        Some(target) => target <= baseline.ticks,
        None => false,
    }
}

/// Scores a run of a challenge against a baseline.
pub fn evaluate(challenge: &Challenge, current: &RunStats, baseline: &RunStats) -> (r: Result<
    Verdict,
    EvalError,
>)
    ensures
        r == score(challenge@, current@, baseline@),
{
    if !challenge.is_consistent() {
        return Err(EvalError::GoalMismatch);
    }
    if current.map_name != challenge.map_name {
        return Err(EvalError::WrongMap);
    }
    match &challenge.goal {
        Goal::IncreaseBadnessAbove(threshold) => {
            if current.badness > *threshold {
                Ok(Verdict::Pass)
            } else {
                Ok(
                    Verdict::Fail(
                        FailReason::NotBadEnough { badness: current.badness, threshold: *threshold },
                    ),
                )
            }
        },
        Goal::ReduceMedianBy(mode, required) => {
            if baseline.map_name != challenge.map_name {
                return Err(EvalError::WrongBaseline);
            }
            let before = match baseline.trips.get(*mode) {
                Some(stats) => stats.median,
                None => {
                    return Err(EvalError::MissingBaseline);
                },
            };
            let now = match current.trips.get(*mode) {
                Some(stats) => stats.median,
                None => {
                    return Err(EvalError::MissingMeasure);
                },
            };
            if is_reduced_by(now, before, *required) {
                Ok(Verdict::Pass)
            } else {
                Ok(
                    Verdict::Fail(
                        FailReason::MedianNotReduced {
                            baseline: before,
                            current: now,
                            required: *required,
                        },
                    ),
                )
            }
        },
        Goal::ReduceAverageWaitBy(route, required) => {
            if baseline.map_name != challenge.map_name {
                return Err(EvalError::WrongBaseline);
            }
            let before = match find_wait(&baseline.route_waits, route) {
                Some(wait) => wait,
                None => {
                    return Err(EvalError::MissingBaseline);
                },
            };
            let now = match find_wait(&current.route_waits, route) {
                Some(wait) => wait,
                None => {
                    return Err(EvalError::MissingMeasure);
                },
            };
            if is_reduced_by(now, before, *required) {
                Ok(Verdict::Pass)
            } else {
                Ok(
                    Verdict::Fail(
                        FailReason::WaitNotReduced {
                            baseline: before,
                            current: now,
                            required: *required,
                        },
                    ),
                )
            }
        },
    }
}

/// A run whose median equals the baseline's fails every challenge that
/// asks for the median to fall by more than nothing.
pub proof fn lemma_unchanged_run_fails(
    challenge: ChallengeView,
    current: RunStatsView,
    baseline: RunStatsView,
    mode: TripMode,
    required: Duration,
)
    requires
        challenge.goal == GoalView::ReduceMedianBy(mode, required),
        goal_fits(challenge.gameplay, challenge.goal),
        current.map_name == challenge.map_name,
        baseline.map_name == challenge.map_name,
        baseline.trips.dom().contains(mode),
        current.trips.dom().contains(mode),
        current.trips[mode].median == baseline.trips[mode].median,
        required.ticks > 0,
    ensures
        score(challenge, current, baseline) is Ok,
        score(challenge, current, baseline)->Ok_0 is Fail,
{
}

/// A run passes a challenge on the median exactly when its median is no
/// more than the baseline's less the required span.
pub proof fn lemma_median_pass_threshold(
    challenge: ChallengeView,
    current: RunStatsView,
    baseline: RunStatsView,
    mode: TripMode,
    required: Duration,
)
    requires
        challenge.goal == GoalView::ReduceMedianBy(mode, required),
        goal_fits(challenge.gameplay, challenge.goal),
        current.map_name == challenge.map_name,
        baseline.map_name == challenge.map_name,
        baseline.trips.dom().contains(mode),
        current.trips.dom().contains(mode),
    ensures
        score(challenge, current, baseline) == Ok::<Verdict, EvalError>(Verdict::Pass)
            <==> current.trips[mode].median.ticks <= baseline.trips[mode].median.ticks
            - required.ticks,
{
}

/// A run is scored only on the map of its challenge, and, where the goal
/// compares with a baseline, only against the baseline of that map.
pub proof fn lemma_scored_on_own_map(
    challenge: ChallengeView,
    current: RunStatsView,
    baseline: RunStatsView,
)
    requires
        score(challenge, current, baseline) is Ok,
    ensures
        current.map_name == challenge.map_name,
        !(challenge.goal is IncreaseBadnessAbove) ==> baseline.map_name == challenge.map_name,
{
}

/// Gridlock is scored without the baseline: two baselines give one score.
pub proof fn lemma_gridlock_ignores_baseline(
    challenge: ChallengeView,
    current: RunStatsView,
    one: RunStatsView,
    other: RunStatsView,
)
    requires
        challenge.goal is IncreaseBadnessAbove,
    ensures
        score(challenge, current, one) == score(challenge, current, other),
{
}

} // verus!
