//! The run-to-completion driver, as a machine that decides and never acts.
//!
//! The caller owns the engine. It performs what the driver asks (advance by
//! a step, save the state, finish) and reports back what happened; the
//! driver keeps the clock and the ledger and decides what comes next. State
//! is saved only between steps, after a report has been taken in whole.

use crate::clock::{Clock, Duration};
use crate::stats::{aggregate, lemma_aggregate_empty, DurationStats};
use crate::trip::{TripLedger, TripMode, TripRecord};
use vstd::prelude::*;

verus! {

/// A condition that is looked at after every step, in the order in which
/// the conditions were given.
#[derive(Clone, Copy, Debug, PartialEq, Eq, Structural)]
pub enum HaltCondition {
    /// Stops the run once the clock has reached the bound.
    TimeBound(Clock),
    /// Saves the state when the clock stands at the tick, and stops the run.
    SaveAt(Clock),
    /// Saves the state whenever the clock is a multiple of the period, and
    /// lets the run go on. A period of no ticks never fires.
    CheckpointEvery(Duration),
    /// Stops the run after the next step.
    Always,
    /// Stops the run when the caller's predicate of this number holds; the
    /// verdicts of the predicates come with each report.
    Custom(usize),
}

/// What the engine did in one step.
#[derive(Debug)]
pub struct StepReport {
    /// The clock after the step.
    pub time: Clock,
    /// Whether nothing is left to simulate.
    pub done: bool,
    /// The trips that completed during the step, in completion order.
    pub finished: Vec<TripRecord>,
    /// The verdicts of the caller's predicates after the step, by number.
    pub custom: Vec<bool>,
}

/// `StepReport` as a mathematical value.
pub struct ReportView {
    pub time: Clock,
    pub done: bool,
    pub finished: Seq<TripRecord>,
    pub custom: Seq<bool>,
}

impl View for StepReport {
    type V = ReportView;

    open spec fn view(&self) -> ReportView {
        ReportView {
            time: self.time,
            done: self.done,
            finished: self.finished@,
            custom: self.custom@,
        }
    }
}

/// How a run ended.
#[derive(Clone, Copy, Debug, PartialEq, Eq, Structural)]
pub enum Outcome {
    /// The engine had nothing left to simulate.
    Completed,
    /// The condition at this place asked for the run to stop.
    Halted(usize),
    /// The state could not be saved.
    SaveFailed,
    /// The engine reported a clock earlier than the one before.
    ClockWentBack,
}

/// Where a run stands.
#[derive(Clone, Copy, Debug, PartialEq, Eq, Structural)]
pub enum Phase {
    /// The engine is to advance; a report is awaited.
    Stepping,
    /// The state is to be saved; the result is awaited. What the last
    /// report decided is kept until then.
    Saving { halt: Option<usize>, done: bool },
    /// The run is over.
    Finished(Outcome),
}

/// What the caller is to do next.
#[derive(Clone, Copy, Debug, PartialEq, Eq, Structural)]
pub enum Action {
    /// Advance the engine by the span and report.
    Advance(Duration),
    /// Save the state, which stands at this tick, and say whether it worked.
    Save(Clock),
    /// Stop: the run is over.
    Finish(Outcome),
}

/// The driver as a mathematical value.
pub struct DriverView {
    pub conditions: Seq<HaltCondition>,
    pub step: Duration,
    pub time: Clock,
    pub ledger: Seq<TripRecord>,
    pub phase: Phase,
}

/// What happens to a run: a report of a step, or the result of a save.
pub enum Event {
    Report(ReportView),
    Saved(bool),
}

/// What happens to a run, as the caller hands it over.
#[derive(Debug)]
pub enum DriverEvent {
    /// The engine has made a step.
    Report(StepReport),
    /// A save has ended, well or not.
    Saved(bool),
}

impl View for DriverEvent {
    type V = Event;

    open spec fn view(&self) -> Event {
        match self {
            DriverEvent::Report(report) => Event::Report(report@),
            DriverEvent::Saved(ok) => Event::Saved(*ok),
        }
    }
}

/// The values of a list of events.
pub open spec fn event_views(events: Seq<DriverEvent>) -> Seq<Event> {
    events.map_values(|event: DriverEvent| event@)
}

/// Whether a condition holds at a time, given the verdicts of the caller's
/// predicates.
pub open spec fn fires(condition: HaltCondition, time: Clock, custom: Seq<bool>) -> bool {
    match condition {
        HaltCondition::TimeBound(bound) => time.ticks >= bound.ticks,
        HaltCondition::SaveAt(tick) => time == tick,
        HaltCondition::CheckpointEvery(period) => period.ticks > 0 && time.ticks % period.ticks
            == 0,
        HaltCondition::Always => true,
        HaltCondition::Custom(number) => number < custom.len() && custom[number as int],
    }
}

/// Whether a condition, when it holds, has the state saved.
pub open spec fn saves(condition: HaltCondition) -> bool {
    condition is SaveAt || condition is CheckpointEvery
}

/// Whether a condition, when it holds, stops the run.
pub open spec fn stops(condition: HaltCondition) -> bool {
    !(condition is CheckpointEvery)
}

/// Whether some condition asks for the state to be saved.
pub open spec fn wants_save(conditions: Seq<HaltCondition>, time: Clock, custom: Seq<bool>)
    -> bool {
    exists|i: int|
        0 <= i < conditions.len() && fires(#[trigger] conditions[i], time, custom) && saves(
            conditions[i],
        )
}

/// The place of the first condition that asks for the run to stop, or the
/// number of conditions where none does.
pub open spec fn stop_place(conditions: Seq<HaltCondition>, time: Clock, custom: Seq<bool>) -> int
    decreases conditions.len(),
{
    if conditions.len() == 0 || (fires(conditions[0], time, custom) && stops(conditions[0])) {
        0
    } else {
        1 + stop_place(conditions.drop_first(), time, custom)
    }
}

/// The first condition that asks for the run to stop, if any.
pub open spec fn first_stop(conditions: Seq<HaltCondition>, time: Clock, custom: Seq<bool>)
    -> Option<usize> {
    let place = stop_place(conditions, time, custom);
    if place < conditions.len() {
        Some(place as usize)
    } else {
        None
    }
}

/// The phase after a step has been dealt with: halted where a condition
/// asked for it, completed where the engine is done, else stepping on.
pub open spec fn settled(halt: Option<usize>, done: bool) -> Phase {
    match halt {
        Some(place) => Phase::Finished(Outcome::Halted(place)),
        None => if done {
            Phase::Finished(Outcome::Completed)
        } else {
            Phase::Stepping
        },
    }
}

/// What the driver asks for in a state.
pub open spec fn pending(d: DriverView) -> Action {
    match d.phase {
        Phase::Stepping => Action::Advance(d.step),
        Phase::Saving { .. } => Action::Save(d.time),
        Phase::Finished(outcome) => Action::Finish(outcome),
    }
}

/// The state after a report. A report counts only while a step is awaited.
/// A clock that went back ends the run. Otherwise the clock moves to the
/// reported time, the finished trips are appended to the ledger, and every
/// condition is looked at: where one asks for a save, the save comes first;
/// else the run halts, completes or steps on.
pub open spec fn after_report(d: DriverView, report: ReportView) -> DriverView {
    if !(d.phase is Stepping) {
        d
    } else if report.time.ticks < d.time.ticks {
        DriverView { phase: Phase::Finished(Outcome::ClockWentBack), ..d }
    } else {
        let halt = first_stop(d.conditions, report.time, report.custom);
        DriverView {
            time: report.time,
            ledger: d.ledger + report.finished,
            phase: if wants_save(d.conditions, report.time, report.custom) {
                Phase::Saving { halt, done: report.done }
            } else {
                settled(halt, report.done)
            },
            ..d
        }
    }
}

/// The state after the result of a save. It counts only while a save is
/// awaited. A failed save ends the run; after a good one the run halts,
/// completes or steps on as the last report decided.
pub open spec fn after_save(d: DriverView, ok: bool) -> DriverView {
    match d.phase {
        Phase::Saving { halt, done } => DriverView {
            phase: if ok {
                settled(halt, done)
            } else {
                Phase::Finished(Outcome::SaveFailed)
            },
            ..d
        },
        _ => d,
    }
}

/// The state after one event.
pub open spec fn after_event(d: DriverView, event: Event) -> DriverView {
    match event {
        Event::Report(report) => after_report(d, report),
        Event::Saved(ok) => after_save(d, ok),
    }
}

/// The state after a sequence of events.
pub open spec fn run(d: DriverView, events: Seq<Event>) -> DriverView
    decreases events.len(),
{
    if events.len() == 0 {
        d
    } else {
        run(after_event(d, events[0]), events.drop_first())
    }
}

/// The driver of one run.
pub struct Driver {
    conditions: Vec<HaltCondition>,
    step: Duration,
    time: Clock,
    ledger: TripLedger,
    phase: Phase,
}

impl View for Driver {
    type V = DriverView;

    closed spec fn view(&self) -> DriverView {
        DriverView {
            conditions: self.conditions@,
            step: self.step,
            time: self.time,
            ledger: self.ledger@,
            phase: self.phase,
        }
    }
}

/// Whether a condition holds at a time.
pub fn condition_fires(condition: HaltCondition, time: Clock, custom: &Vec<bool>) -> (r: bool)
    ensures
        r == fires(condition, time, custom@),
{
    match condition {
        HaltCondition::TimeBound(bound) => time.ticks >= bound.ticks,
        HaltCondition::SaveAt(tick) => time.ticks == tick.ticks,
        HaltCondition::CheckpointEvery(period) => time.is_multiple_of(period),
        HaltCondition::Always => true,
        HaltCondition::Custom(number) => number < custom.len() && custom[number],
    }
}

/// Looks at every condition in order: whether any asks for a save, and the
/// first that asks for the run to stop.
pub fn scan_conditions(conditions: &Vec<HaltCondition>, time: Clock, custom: &Vec<bool>) -> (r: (
    bool,
    Option<usize>,
))
    ensures
        r.0 == wants_save(conditions@, time, custom@),
        r.1 == first_stop(conditions@, time, custom@),
{
    let mut save = false;
    let mut halt: Option<usize> = None;
    let mut i: usize = 0;
    assert(conditions@.skip(0) =~= conditions@);
    while i < conditions.len()
        invariant
            i <= conditions.len(),
            save == exists|j: int|
                0 <= j < i && fires(#[trigger] conditions@[j], time, custom@) && saves(
                    conditions@[j],
                ),
            halt is None ==> stop_place(conditions@, time, custom@) == i + stop_place(
                conditions@.skip(i as int),
                time,
                custom@,
            ),
            halt matches Some(place) ==> place < i && stop_place(conditions@, time, custom@)
                == place,
        decreases conditions.len() - i,
    {
        let condition = conditions[i];
        assert(conditions@.skip(i as int)[0] == condition);
        assert(conditions@.skip(i as int).drop_first() =~= conditions@.skip(i + 1));
        if condition_fires(condition, time, custom) {
            match condition {
                HaltCondition::SaveAt(_) => {
                    save = true;
                    if halt.is_none() {
                        halt = Some(i);
                    }
                },
                HaltCondition::CheckpointEvery(_) => {
                    save = true;
                },
                _ => {
                    if halt.is_none() {
                        halt = Some(i);
                    }
                },
            }
        }
        i += 1;
    }
    (save, halt)
}

impl Driver {
    /// A driver at the start of a run: the clock at zero, the ledger empty.
    pub fn new(conditions: Vec<HaltCondition>, step: Duration) -> (r: Driver)
        ensures
            r@ == (DriverView {
                conditions: conditions@,
                step,
                time: Clock { ticks: 0 },
                ledger: Seq::empty(),
                phase: Phase::Stepping,
            }),
    {
        Driver {
            conditions,
            step,
            time: Clock::zero(),
            ledger: TripLedger::new(),
            phase: Phase::Stepping,
        }
    }

    /// A driver that takes a run up where a saved state left it.
    pub fn resume(conditions: Vec<HaltCondition>, step: Duration, time: Clock, ledger: TripLedger)
        -> (r: Driver)
        ensures
            r@ == (DriverView {
                conditions: conditions@,
                step,
                time,
                ledger: ledger@,
                phase: Phase::Stepping,
            }),
    {
        Driver { conditions, step, time, ledger, phase: Phase::Stepping }
    }

    pub fn time(&self) -> (r: Clock)
        ensures
            r == self@.time,
    {
        self.time
    }

    pub fn step(&self) -> (r: Duration)
        ensures
            r == self@.step,
    {
        self.step
    }

    pub fn phase(&self) -> (r: Phase)
        ensures
            r == self@.phase,
    {
        self.phase
    }

    pub fn ledger(&self) -> (r: &TripLedger)
        ensures
            r@ == self@.ledger,
    {
        &self.ledger
    }

    pub fn conditions(&self) -> (r: &Vec<HaltCondition>)
        ensures
            r@ == self@.conditions,
    {
        &self.conditions
    }

    /// How the run ended, once it has.
    pub fn outcome(&self) -> (r: Option<Outcome>)
        ensures
            r == match self@.phase {
                Phase::Finished(outcome) => Some(outcome),
                _ => None,
            },
    {
        match self.phase {
            Phase::Finished(outcome) => Some(outcome),
            _ => None,
        }
    }

    /// What the caller is to do now.
    pub fn next_action(&self) -> (r: Action)
        ensures
            r == pending(self@),
    {
        match self.phase {
            Phase::Stepping => Action::Advance(self.step),
            Phase::Saving { .. } => Action::Save(self.time),
            Phase::Finished(outcome) => Action::Finish(outcome),
        }
    }

    /// Takes in the report of a step and says what to do next.
    pub fn on_report(&mut self, report: &StepReport) -> (r: Action)
        ensures
            final(self)@ == after_report(old(self)@, report@),
            r == pending(final(self)@),
    {
        match self.phase {
            Phase::Stepping => {
                if report.time.ticks < self.time.ticks {
                    self.phase = Phase::Finished(Outcome::ClockWentBack);
                } else {
                    let (save, halt) = scan_conditions(&self.conditions, report.time, &report.custom);
                    self.time = report.time;
                    self.ledger.record_all(&report.finished);
                    if save {
                        self.phase = Phase::Saving { halt, done: report.done };
                    } else {
                        self.phase = settle(halt, report.done);
                    }
                }
            },
            _ => {},
        }
        self.next_action()
    }

    /// Takes in one event and says what to do next.
    pub fn on_event(&mut self, event: &DriverEvent) -> (r: Action)
        ensures
            final(self)@ == after_event(old(self)@, event@),
            r == pending(final(self)@),
    {
        match event {
            DriverEvent::Report(report) => self.on_report(report),
            DriverEvent::Saved(ok) => self.on_saved(*ok),
        }
    }

    /// Takes in a recorded stretch of events, one after the other, and says
    /// what to do next.
    pub fn replay(&mut self, events: &Vec<DriverEvent>) -> (r: Action)
        ensures
            final(self)@ == run(old(self)@, event_views(events@)),
            r == pending(final(self)@),
    {
        let ghost all = event_views(events@);
        let mut i: usize = 0;
        assert(all.skip(0) =~= all);
        while i < events.len()
            invariant
                i <= events.len(),
                all == event_views(events@),
                run(old(self)@, all) == run(self@, all.skip(i as int)),
            decreases events.len() - i,
        {
            assert(all.skip(i as int)[0] == events@[i as int]@);
            assert(all.skip(i as int).drop_first() =~= all.skip(i + 1));
            self.on_event(&events[i]);
            i += 1;
        }
        self.next_action()
    }

    /// Takes in the result of a save and says what to do next.
    pub fn on_saved(&mut self, ok: bool) -> (r: Action)
        ensures
            final(self)@ == after_save(old(self)@, ok),
            r == pending(final(self)@),
    {
        match self.phase {
            Phase::Saving { halt, done } => {
                if ok {
                    self.phase = settle(halt, done);
                } else {
                    self.phase = Phase::Finished(Outcome::SaveFailed);
                }
            },
            _ => {},
        }
        self.next_action()
    }
}

/// The phase after a step has been dealt with.
pub fn settle(halt: Option<usize>, done: bool) -> (r: Phase)
    ensures
        r == settled(halt, done),
{
    match halt {
        Some(place) => Phase::Finished(Outcome::Halted(place)),
        None => if done {
            Phase::Finished(Outcome::Completed)
        } else {
            Phase::Stepping
        },
    }
}


/// `stop_place` is the least place whose condition asks for a stop, or the
/// number of conditions.
pub proof fn lemma_stop_place_least(conditions: Seq<HaltCondition>, time: Clock, custom: Seq<bool>)
    ensures
        0 <= stop_place(conditions, time, custom) <= conditions.len(),
        stop_place(conditions, time, custom) < conditions.len() ==> fires(
            conditions[stop_place(conditions, time, custom)],
            time,
            custom,
        ) && stops(conditions[stop_place(conditions, time, custom)]),
        forall|j: int|
            0 <= j < stop_place(conditions, time, custom) ==> !(fires(
                #[trigger] conditions[j],
                time,
                custom,
            ) && stops(conditions[j])),
    decreases conditions.len(),
{
    if conditions.len() == 0 || (fires(conditions[0], time, custom) && stops(conditions[0])) {
    } else {
        let rest = conditions.drop_first();
        lemma_stop_place_least(rest, time, custom);
        assert forall|j: int| 0 <= j < stop_place(conditions, time, custom) implies !(fires(
            #[trigger] conditions[j],
            time,
            custom,
        ) && stops(conditions[j])) by {
            if j > 0 {
                assert(conditions[j] == rest[j - 1]);
            }
        }
    }
}

/// An event never rewrites history: the ledger only grows at its end, the
/// clock never goes back, and the conditions and the step stay as given.
pub proof fn lemma_event_keeps_history(d: DriverView, event: Event)
    ensures
        d.ledger.is_prefix_of(after_event(d, event).ledger),
        after_event(d, event).time.ticks >= d.time.ticks,
        after_event(d, event).conditions == d.conditions,
        after_event(d, event).step == d.step,
{
    let after = after_event(d, event);
    assert(d.ledger =~= after.ledger.take(d.ledger.len() as int));
}

/// A run never rewrites history: whatever happens, the ledger it started
/// with stays the beginning of its ledger, and the clock never goes back.
pub proof fn lemma_run_keeps_history(d: DriverView, events: Seq<Event>)
    ensures
        d.ledger.is_prefix_of(run(d, events).ledger),
        run(d, events).time.ticks >= d.time.ticks,
        run(d, events).conditions == d.conditions,
        run(d, events).step == d.step,
    decreases events.len(),
{
    if events.len() == 0 {
        assert(d.ledger =~= d.ledger.take(d.ledger.len() as int));
    } else {
        let next = after_event(d, events[0]);
        lemma_event_keeps_history(d, events[0]);
        lemma_run_keeps_history(next, events.drop_first());
        let end = run(d, events);
        assert(d.ledger =~= next.ledger.take(d.ledger.len() as int));
        assert(next.ledger =~= end.ledger.take(next.ledger.len() as int));
        assert(d.ledger =~= end.ledger.take(d.ledger.len() as int));
    }
}

/// A run that is over stays as it is.
pub proof fn lemma_finished_stays(d: DriverView, events: Seq<Event>)
    requires
        d.phase is Finished,
    ensures
        run(d, events) == d,
    decreases events.len(),
{
    if events.len() > 0 {
        lemma_finished_stays(d, events.drop_first());
    }
}

/// A run can be cut anywhere: running through two stretches of events in a
/// row is running through the second from where the first ended.
pub proof fn lemma_run_in_two(d: DriverView, first: Seq<Event>, second: Seq<Event>)
    ensures
        run(d, first + second) == run(run(d, first), second),
    decreases first.len(),
{
    if first.len() == 0 {
        assert(first + second =~= second);
    } else {
        assert((first + second)[0] == first[0]);
        assert((first + second).drop_first() =~= first.drop_first() + second);
        lemma_run_in_two(after_event(d, first[0]), first.drop_first(), second);
    }
}

/// What a report does to the clock and the ledger does not depend on the
/// conditions: two drivers that await a step with the same clock and
/// ledger have the same clock and ledger after the same report.
pub proof fn lemma_conditions_leave_ledger(a: DriverView, b: DriverView, report: ReportView)
    requires
        a.phase is Stepping,
        b.phase is Stepping,
        a.time == b.time,
        a.ledger == b.ledger,
    ensures
        after_report(a, report).time == after_report(b, report).time,
        after_report(a, report).ledger == after_report(b, report).ledger,
{
}

/// A scenario without demand completes at once: when the first report
/// says that the engine is done and no trip finished, and no condition
/// fires, the run is completed at the reported time with an empty ledger,
/// and the statistics of that ledger have no entry.
pub proof fn lemma_empty_demand_completes(d: DriverView, report: ReportView)
    requires
        d.phase is Stepping,
        d.ledger.len() == 0,
        report.done,
        report.finished.len() == 0,
        report.time.ticks >= d.time.ticks,
        forall|i: int|
            0 <= i < d.conditions.len() ==> !fires(
                #[trigger] d.conditions[i],
                report.time,
                report.custom,
            ),
    ensures
        after_report(d, report).phase == Phase::Finished(Outcome::Completed),
        after_report(d, report).time == report.time,
        after_report(d, report).ledger == Seq::<TripRecord>::empty(),
        aggregate(after_report(d, report).ledger) == Map::<TripMode, DurationStats>::empty(),
{
    lemma_stop_place_least(d.conditions, report.time, report.custom);
    assert(d.ledger + report.finished =~= Seq::<TripRecord>::empty());
    lemma_aggregate_empty();
}

} // verus!
