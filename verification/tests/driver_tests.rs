use street_sim::baseline::PrebakedResults;
use street_sim::clock::{Clock, Duration};
use street_sim::driver::{
    condition_fires, scan_conditions, settle, Action, Driver, HaltCondition, Outcome, Phase,
    StepReport,
};
use street_sim::trip::{TripMode, TripRecord};

fn report(seconds: u32, done: bool, finished: Vec<TripRecord>) -> StepReport {
    StepReport { time: Clock::from_seconds(seconds), done, finished, custom: Vec::new() }
}

fn trip(agent: u64, seconds: u32) -> TripRecord {
    TripRecord::new(agent, TripMode::Bike, Duration::from_seconds(seconds))
}

fn step() -> Duration {
    Duration::from_ticks(1)
}

#[test]
fn a_new_driver_asks_for_a_step() {
    let driver = Driver::new(Vec::new(), Duration::from_seconds(1));
    assert_eq!(driver.next_action(), Action::Advance(Duration::from_seconds(1)));
    assert_eq!(driver.time(), Clock::zero());
    assert_eq!(driver.step(), Duration::from_seconds(1));
    assert_eq!(driver.phase(), Phase::Stepping);
    assert_eq!(driver.outcome(), None);
    assert!(driver.ledger().is_empty());
    assert!(driver.conditions().is_empty());
}

#[test]
fn empty_demand_completes_at_once() {
    let mut driver = Driver::new(Vec::new(), step());
    let action = driver.on_report(&report(0, true, Vec::new()));
    assert_eq!(action, Action::Finish(Outcome::Completed));
    assert_eq!(driver.outcome(), Some(Outcome::Completed));
    assert_eq!(driver.time(), Clock::zero());
    assert!(driver.ledger().is_empty());
    assert!(PrebakedResults::from_ledger(driver.ledger()).is_empty());
}

#[test]
fn a_run_goes_on_until_the_engine_is_done() {
    let mut driver = Driver::new(Vec::new(), step());
    assert_eq!(driver.on_report(&report(1, false, vec![trip(1, 1)])), Action::Advance(step()));
    assert_eq!(driver.on_report(&report(2, false, Vec::new())), Action::Advance(step()));
    assert_eq!(
        driver.on_report(&report(3, true, vec![trip(2, 3), trip(3, 2)])),
        Action::Finish(Outcome::Completed)
    );
    assert_eq!(driver.time(), Clock::from_seconds(3));
    assert_eq!(driver.ledger().all(), &vec![trip(1, 1), trip(2, 3), trip(3, 2)]);
}

#[test]
fn a_finished_run_stays_finished() {
    let mut driver = Driver::new(Vec::new(), step());
    driver.on_report(&report(1, true, vec![trip(1, 1)]));
    assert_eq!(
        driver.on_report(&report(2, false, vec![trip(2, 1)])),
        Action::Finish(Outcome::Completed)
    );
    assert_eq!(driver.on_saved(false), Action::Finish(Outcome::Completed));
    assert_eq!(driver.time(), Clock::from_seconds(1));
    assert_eq!(driver.ledger().len(), 1);
}

#[test]
fn a_clock_that_goes_back_ends_the_run() {
    let mut driver = Driver::new(Vec::new(), step());
    driver.on_report(&report(5, false, vec![trip(1, 1)]));
    let action = driver.on_report(&report(4, false, vec![trip(2, 1)]));
    assert_eq!(action, Action::Finish(Outcome::ClockWentBack));
    assert_eq!(driver.time(), Clock::from_seconds(5));
    assert_eq!(driver.ledger().len(), 1);
    let mut same = Driver::new(Vec::new(), step());
    same.on_report(&report(5, false, Vec::new()));
    assert_eq!(same.on_report(&report(5, false, Vec::new())), Action::Advance(step()));
}

#[test]
fn a_time_bound_stops_the_run() {
    let bound = HaltCondition::TimeBound(Clock::from_seconds(3));
    let mut driver = Driver::new(vec![bound], step());
    assert_eq!(driver.on_report(&report(2, false, Vec::new())), Action::Advance(step()));
    assert_eq!(
        driver.on_report(&report(4, false, vec![trip(1, 1)])),
        Action::Finish(Outcome::Halted(0))
    );
    assert_eq!(driver.ledger().len(), 1);
}

#[test]
fn save_at_saves_then_stops() {
    let conditions = vec![
        HaltCondition::TimeBound(Clock::from_seconds(100)),
        HaltCondition::SaveAt(Clock::from_seconds(2)),
    ];
    let mut driver = Driver::new(conditions, step());
    assert_eq!(driver.on_report(&report(1, false, Vec::new())), Action::Advance(step()));
    let action = driver.on_report(&report(2, false, vec![trip(1, 1)]));
    assert_eq!(action, Action::Save(Clock::from_seconds(2)));
    assert_eq!(driver.phase(), Phase::Saving { halt: Some(1), done: false });
    assert_eq!(driver.ledger().len(), 1);
    assert_eq!(driver.on_report(&report(3, false, Vec::new())), Action::Save(Clock::from_seconds(2)));
    assert_eq!(driver.time(), Clock::from_seconds(2));
    assert_eq!(driver.on_saved(true), Action::Finish(Outcome::Halted(1)));
}

#[test]
fn a_failed_save_ends_the_run() {
    let mut driver = Driver::new(vec![HaltCondition::SaveAt(Clock::from_seconds(2))], step());
    assert_eq!(
        driver.on_report(&report(2, false, Vec::new())),
        Action::Save(Clock::from_seconds(2))
    );
    assert_eq!(driver.on_saved(false), Action::Finish(Outcome::SaveFailed));
    assert_eq!(driver.outcome(), Some(Outcome::SaveFailed));
}

#[test]
fn a_save_result_counts_only_when_awaited() {
    let mut driver = Driver::new(Vec::new(), step());
    assert_eq!(driver.on_saved(false), Action::Advance(step()));
    assert_eq!(driver.phase(), Phase::Stepping);
}

#[test]
fn a_missed_tick_is_not_saved() {
    let mut driver = Driver::new(vec![HaltCondition::SaveAt(Clock::from_seconds(2))], step());
    assert_eq!(driver.on_report(&report(1, false, Vec::new())), Action::Advance(step()));
    assert_eq!(driver.on_report(&report(3, false, Vec::new())), Action::Advance(step()));
    assert_eq!(driver.on_report(&report(4, true, Vec::new())), Action::Finish(Outcome::Completed));
}

#[test]
fn a_checkpoint_saves_and_lets_the_run_go_on() {
    let every = HaltCondition::CheckpointEvery(Duration::from_seconds(30));
    let mut driver = Driver::new(vec![every], Duration::from_seconds(10));
    assert_eq!(
        driver.on_report(&report(10, false, Vec::new())),
        Action::Advance(Duration::from_seconds(10))
    );
    assert_eq!(
        driver.on_report(&report(30, false, Vec::new())),
        Action::Save(Clock::from_seconds(30))
    );
    assert_eq!(driver.on_saved(true), Action::Advance(Duration::from_seconds(10)));
    assert_eq!(
        driver.on_report(&report(60, true, Vec::new())),
        Action::Save(Clock::from_seconds(60))
    );
    assert_eq!(driver.on_saved(true), Action::Finish(Outcome::Completed));
}

#[test]
fn a_checkpoint_of_no_ticks_never_fires() {
    let never = HaltCondition::CheckpointEvery(Duration::zero());
    let mut driver = Driver::new(vec![never], step());
    assert_eq!(driver.on_report(&report(0, false, Vec::new())), Action::Advance(step()));
    assert!(!condition_fires(never, Clock::zero(), &Vec::new()));
}

#[test]
fn always_stops_after_one_step() {
    let mut driver = Driver::new(vec![HaltCondition::Always], step());
    assert_eq!(
        driver.on_report(&report(1, false, vec![trip(1, 1)])),
        Action::Finish(Outcome::Halted(0))
    );
    assert_eq!(driver.ledger().len(), 1);
}

#[test]
fn a_halt_goes_before_completion() {
    let mut driver = Driver::new(vec![HaltCondition::Always], step());
    assert_eq!(driver.on_report(&report(1, true, Vec::new())), Action::Finish(Outcome::Halted(0)));
}

#[test]
fn custom_conditions_read_their_verdicts() {
    let conditions = vec![HaltCondition::Custom(1), HaltCondition::Custom(5)];
    let mut driver = Driver::new(conditions, step());
    let mut quiet = report(1, false, Vec::new());
    quiet.custom = vec![true, false];
    assert_eq!(driver.on_report(&quiet), Action::Advance(step()));
    let mut loud = report(2, false, Vec::new());
    loud.custom = vec![false, true];
    assert_eq!(driver.on_report(&loud), Action::Finish(Outcome::Halted(0)));
}

#[test]
fn the_first_condition_that_stops_is_reported() {
    let conditions = vec![
        HaltCondition::CheckpointEvery(Duration::from_seconds(1)),
        HaltCondition::TimeBound(Clock::from_seconds(9)),
        HaltCondition::SaveAt(Clock::from_seconds(5)),
        HaltCondition::Always,
    ];
    let time = Clock::from_seconds(5);
    assert_eq!(scan_conditions(&conditions, time, &Vec::new()), (true, Some(2)));
    assert_eq!(scan_conditions(&conditions, Clock::from_seconds(9), &Vec::new()), (true, Some(1)));
    assert_eq!(scan_conditions(&conditions, Clock::from_ticks(1), &Vec::new()), (false, Some(3)));
    assert_eq!(scan_conditions(&Vec::new(), time, &Vec::new()), (false, None));
    let quiet = vec![HaltCondition::TimeBound(Clock::from_seconds(9)), HaltCondition::Custom(0)];
    assert_eq!(scan_conditions(&quiet, time, &vec![false]), (false, None));
    assert_eq!(scan_conditions(&quiet, time, &vec![true]), (false, Some(1)));
}

#[test]
fn conditions_fire_as_described() {
    let none = Vec::new();
    let t = Clock::from_seconds;
    assert!(condition_fires(HaltCondition::TimeBound(t(3)), t(3), &none));
    assert!(condition_fires(HaltCondition::TimeBound(t(3)), t(4), &none));
    assert!(!condition_fires(HaltCondition::TimeBound(t(3)), t(2), &none));
    assert!(condition_fires(HaltCondition::SaveAt(t(3)), t(3), &none));
    assert!(!condition_fires(HaltCondition::SaveAt(t(3)), t(4), &none));
    assert!(condition_fires(HaltCondition::Always, t(0), &none));
    assert!(!condition_fires(HaltCondition::Custom(0), t(0), &none));
    assert!(condition_fires(HaltCondition::Custom(1), t(0), &vec![false, true]));
    assert!(!condition_fires(HaltCondition::Custom(0), t(0), &vec![false, true]));
    let every = HaltCondition::CheckpointEvery(Duration::from_seconds(30));
    assert!(condition_fires(every, t(90), &none));
    assert!(!condition_fires(every, t(91), &none));
}

#[test]
fn settling_a_step() {
    assert_eq!(settle(Some(4), false), Phase::Finished(Outcome::Halted(4)));
    assert_eq!(settle(Some(4), true), Phase::Finished(Outcome::Halted(4)));
    assert_eq!(settle(None, true), Phase::Finished(Outcome::Completed));
    assert_eq!(settle(None, false), Phase::Stepping);
}

#[test]
fn identical_reports_give_identical_ledgers() {
    let reports = || {
        vec![
            report(1, false, vec![trip(1, 1), trip(2, 1)]),
            report(2, false, Vec::new()),
            report(3, false, vec![trip(3, 2)]),
            report(4, true, vec![trip(4, 4)]),
        ]
    };
    let mut a = Driver::new(Vec::new(), step());
    let mut b = Driver::new(Vec::new(), step());
    for r in reports() {
        a.on_report(&r);
    }
    for r in reports() {
        b.on_report(&r);
    }
    assert_eq!(a.ledger().all(), b.ledger().all());
    assert_eq!(a.time(), b.time());
    assert_eq!(a.outcome(), b.outcome());
}
