use street_sim::baseline::PrebakedResults;
use street_sim::challenges::{
    all_challenges, challenges_picker, Challenge, ChallengeTransition, GameplayMode, Goal,
    Hotkey, SplashChoice,
};
use street_sim::clock::Duration;
use street_sim::scoring::{
    evaluate, find_wait, is_reduced_by, EvalError, FailReason, RouteWait, RunStats, Verdict,
};
use street_sim::stats::DurationStats;
use street_sim::trip::TripMode;

fn stats_with_median(ticks: u64) -> DurationStats {
    DurationStats {
        count: 3,
        min: Duration::from_ticks(0),
        median: Duration::from_ticks(ticks),
        p90: Duration::from_ticks(ticks + 1),
        p99: Duration::from_ticks(ticks + 2),
        max: Duration::from_ticks(ticks + 3),
    }
}

fn run_on(map_name: &str) -> RunStats {
    RunStats {
        map_name: map_name.to_string(),
        trips: PrebakedResults::new(),
        route_waits: Vec::new(),
        badness: 0,
    }
}

fn bike_run(map_name: &str, median: u64) -> RunStats {
    let mut run = run_on(map_name);
    run.trips.insert(TripMode::Bike, stats_with_median(median));
    run
}

fn bus_run(map_name: &str, route: &str, wait: u64) -> RunStats {
    let mut run = run_on(map_name);
    run.route_waits.push(RouteWait {
        route: "7".to_string(),
        average_wait: Duration::from_ticks(1),
    });
    run.route_waits.push(RouteWait {
        route: route.to_string(),
        average_wait: Duration::from_ticks(wait),
    });
    run
}

fn challenge(index: usize) -> Challenge {
    all_challenges().swap_remove(index)
}

#[test]
fn catalog_has_five_challenges() {
    let all = all_challenges();
    let titles: Vec<&str> = all.iter().map(|c| c.title.as_str()).collect();
    assert_eq!(
        titles,
        vec![
            "Speed up route 48 (just Montlake area)",
            "Speed up route 48 (larger section)",
            "Gridlock all of the everything",
            "Speed up all bike trips",
            "Speed up all car trips",
        ]
    );
    let maps: Vec<&str> = all.iter().map(|c| c.map_name.as_str()).collect();
    assert_eq!(maps, vec!["montlake", "23rd", "montlake", "montlake", "montlake"]);
    assert_eq!(
        all[0].description,
        "Decrease the average waiting time between all of route 48's stops by at least 30s"
    );
    assert_eq!(
        all[1].description,
        "Decrease the average waiting time between all of 48's stops by at least 30s"
    );
    assert_eq!(all[2].description, "Make traffic as BAD as possible!");
    assert_eq!(
        all[3].description,
        "Reduce the 50%ile trip times of bikes by at least 1 minute"
    );
    assert_eq!(
        all[4].description,
        "Reduce the 50%ile trip times of drivers by at least 5 minutes"
    );
}

#[test]
fn catalog_goals_carry_the_stated_numbers() {
    let all = all_challenges();
    assert!(matches!(&all[0].gameplay, GameplayMode::OptimizeBus(route) if route == "48"));
    assert!(matches!(
        &all[0].goal,
        Goal::ReduceAverageWaitBy(route, by) if route == "48" && *by == Duration::from_seconds(30)
    ));
    assert!(matches!(
        &all[1].goal,
        Goal::ReduceAverageWaitBy(route, by) if route == "48" && *by == Duration::from_seconds(30)
    ));
    assert!(matches!(all[2].gameplay, GameplayMode::CreateGridlock));
    assert!(matches!(all[2].goal, Goal::IncreaseBadnessAbove(0)));
    assert!(matches!(all[3].gameplay, GameplayMode::FasterTrips(TripMode::Bike)));
    assert!(matches!(
        all[3].goal,
        Goal::ReduceMedianBy(TripMode::Bike, by) if by == Duration::from_seconds(60)
    ));
    assert!(matches!(all[4].gameplay, GameplayMode::FasterTrips(TripMode::Drive)));
    assert!(matches!(
        all[4].goal,
        Goal::ReduceMedianBy(TripMode::Drive, by) if by == Duration::from_seconds(300)
    ));
    for challenge in &all {
        assert!(challenge.is_consistent());
        let copy = challenge.duplicate();
        assert_eq!(copy.title, challenge.title);
        assert_eq!(copy.map_name, challenge.map_name);
        assert!(copy.is_consistent());
    }
}

#[test]
fn bike_challenge_passes_with_a_minute_gained() {
    let bikes = challenge(3);
    assert_eq!(bikes.title, "Speed up all bike trips");
    let d = 9_000;
    let baseline = bike_run("montlake", d);
    assert_eq!(evaluate(&bikes, &bike_run("montlake", d - 600), &baseline), Ok(Verdict::Pass));
    assert_eq!(evaluate(&bikes, &bike_run("montlake", d - 601), &baseline), Ok(Verdict::Pass));
    assert_eq!(evaluate(&bikes, &bike_run("montlake", 0), &baseline), Ok(Verdict::Pass));
}

#[test]
fn bike_challenge_fails_on_an_unchanged_network() {
    let bikes = challenge(3);
    let d = 9_000;
    let baseline = bike_run("montlake", d);
    assert_eq!(
        evaluate(&bikes, &bike_run("montlake", d), &baseline),
        Ok(Verdict::Fail(FailReason::MedianNotReduced {
            baseline: Duration::from_ticks(d),
            current: Duration::from_ticks(d),
            required: Duration::from_seconds(60),
        }))
    );
    assert_eq!(
        evaluate(&bikes, &bike_run("montlake", d - 599), &baseline),
        Ok(Verdict::Fail(FailReason::MedianNotReduced {
            baseline: Duration::from_ticks(d),
            current: Duration::from_ticks(d - 599),
            required: Duration::from_seconds(60),
        }))
    );
    assert!(matches!(
        evaluate(&bikes, &bike_run("montlake", d + 5000), &baseline),
        Ok(Verdict::Fail(_))
    ));
}

#[test]
fn a_short_baseline_cannot_be_beaten() {
    let bikes = challenge(3);
    let baseline = bike_run("montlake", 599);
    assert!(matches!(
        evaluate(&bikes, &bike_run("montlake", 0), &baseline),
        Ok(Verdict::Fail(_))
    ));
    let huge = bike_run("montlake", u64::MAX);
    assert!(matches!(evaluate(&bikes, &huge, &huge), Ok(Verdict::Fail(_))));
}

#[test]
fn car_challenge_asks_for_five_minutes() {
    let cars = challenge(4);
    let mut baseline = run_on("montlake");
    baseline.trips.insert(TripMode::Drive, stats_with_median(10_000));
    let mut good = run_on("montlake");
    good.trips.insert(TripMode::Drive, stats_with_median(7_000));
    let mut close = run_on("montlake");
    close.trips.insert(TripMode::Drive, stats_with_median(7_001));
    assert_eq!(evaluate(&cars, &good, &baseline), Ok(Verdict::Pass));
    assert!(matches!(evaluate(&cars, &close, &baseline), Ok(Verdict::Fail(_))));
}

#[test]
fn scoring_reads_only_the_baseline_of_its_map() {
    let bikes = challenge(3);
    let current = bike_run("montlake", 100);
    assert_eq!(
        evaluate(&bikes, &current, &bike_run("23rd", 9_000)),
        Err(EvalError::WrongBaseline)
    );
    assert_eq!(
        evaluate(&bikes, &bike_run("23rd", 100), &bike_run("montlake", 9_000)),
        Err(EvalError::WrongMap)
    );
}

#[test]
fn scoring_needs_both_measures() {
    let bikes = challenge(3);
    assert_eq!(
        evaluate(&bikes, &bike_run("montlake", 100), &run_on("montlake")),
        Err(EvalError::MissingBaseline)
    );
    assert_eq!(
        evaluate(&bikes, &run_on("montlake"), &bike_run("montlake", 100)),
        Err(EvalError::MissingMeasure)
    );
    let bus = challenge(0);
    assert_eq!(
        evaluate(&bus, &bus_run("montlake", "48", 10), &bus_run("montlake", "49", 1000)),
        Err(EvalError::MissingBaseline)
    );
    assert_eq!(
        evaluate(&bus, &bus_run("montlake", "49", 10), &bus_run("montlake", "48", 1000)),
        Err(EvalError::MissingMeasure)
    );
}

#[test]
fn a_goal_that_does_not_fit_is_an_error() {
    let odd = Challenge {
        title: "odd".to_string(),
        description: "odd".to_string(),
        map_name: "montlake".to_string(),
        gameplay: GameplayMode::CreateGridlock,
        goal: Goal::ReduceMedianBy(TripMode::Bike, Duration::from_seconds(60)),
    };
    assert!(!odd.is_consistent());
    assert_eq!(
        evaluate(&odd, &bike_run("montlake", 0), &bike_run("montlake", 9_000)),
        Err(EvalError::GoalMismatch)
    );
    let other_mode = Challenge {
        title: "odd".to_string(),
        description: "odd".to_string(),
        map_name: "montlake".to_string(),
        gameplay: GameplayMode::FasterTrips(TripMode::Drive),
        goal: Goal::ReduceMedianBy(TripMode::Bike, Duration::from_seconds(60)),
    };
    assert_eq!(
        evaluate(&other_mode, &bike_run("montlake", 0), &bike_run("montlake", 9_000)),
        Err(EvalError::GoalMismatch)
    );
    let other_route = Challenge {
        title: "odd".to_string(),
        description: "odd".to_string(),
        map_name: "montlake".to_string(),
        gameplay: GameplayMode::OptimizeBus("48".to_string()),
        goal: Goal::ReduceAverageWaitBy("49".to_string(), Duration::from_seconds(30)),
    };
    assert_eq!(
        evaluate(&other_route, &run_on("montlake"), &run_on("montlake")),
        Err(EvalError::GoalMismatch)
    );
}

#[test]
fn bus_challenge_asks_for_thirty_seconds() {
    let bus = challenge(0);
    let baseline = bus_run("montlake", "48", 1_000);
    assert_eq!(evaluate(&bus, &bus_run("montlake", "48", 700), &baseline), Ok(Verdict::Pass));
    assert_eq!(
        evaluate(&bus, &bus_run("montlake", "48", 701), &baseline),
        Ok(Verdict::Fail(FailReason::WaitNotReduced {
            baseline: Duration::from_ticks(1_000),
            current: Duration::from_ticks(701),
            required: Duration::from_seconds(30),
        }))
    );
    let larger = challenge(1);
    assert_eq!(
        evaluate(&larger, &bus_run("23rd", "48", 700), &bus_run("23rd", "48", 1_000)),
        Ok(Verdict::Pass)
    );
    assert_eq!(
        evaluate(&larger, &bus_run("montlake", "48", 700), &baseline),
        Err(EvalError::WrongMap)
    );
}

#[test]
fn gridlock_is_scored_without_a_baseline() {
    let gridlock = challenge(2);
    let mut calm = run_on("montlake");
    calm.badness = 0;
    let mut jammed = run_on("montlake");
    jammed.badness = 1;
    let elsewhere = run_on("23rd");
    assert_eq!(
        evaluate(&gridlock, &calm, &elsewhere),
        Ok(Verdict::Fail(FailReason::NotBadEnough { badness: 0, threshold: 0 }))
    );
    assert_eq!(evaluate(&gridlock, &jammed, &elsewhere), Ok(Verdict::Pass));
    assert_eq!(evaluate(&gridlock, &jammed, &run_on("montlake")), Ok(Verdict::Pass));
    assert_eq!(evaluate(&gridlock, &elsewhere, &calm), Err(EvalError::WrongMap));
}

#[test]
fn the_first_wait_of_a_route_counts() {
    let waits = vec![
        RouteWait { route: "7".to_string(), average_wait: Duration::from_ticks(1) },
        RouteWait { route: "48".to_string(), average_wait: Duration::from_ticks(2) },
        RouteWait { route: "48".to_string(), average_wait: Duration::from_ticks(3) },
    ];
    assert_eq!(find_wait(&waits, &"48".to_string()), Some(Duration::from_ticks(2)));
    assert_eq!(find_wait(&waits, &"7".to_string()), Some(Duration::from_ticks(1)));
    assert_eq!(find_wait(&waits, &"8".to_string()), None);
    assert_eq!(find_wait(&Vec::new(), &"8".to_string()), None);
}

#[test]
fn reduction_is_measured_without_wrapping() {
    let d = Duration::from_ticks;
    assert!(is_reduced_by(d(40), d(100), d(60)));
    assert!(!is_reduced_by(d(41), d(100), d(60)));
    assert!(is_reduced_by(d(0), d(0), d(0)));
    assert!(!is_reduced_by(d(u64::MAX), d(u64::MAX), d(1)));
    assert!(!is_reduced_by(d(1), d(0), d(u64::MAX)));
}

#[test]
fn picker_finds_a_challenge_by_its_title() {
    let splash = challenges_picker("Speed up all bike trips").unwrap();
    assert_eq!(splash.challenge.title, "Speed up all bike trips");
    assert_eq!(splash.challenge.map_name, "montlake");
    assert!(matches!(splash.challenge.gameplay, GameplayMode::FasterTrips(TripMode::Bike)));
    assert_eq!(
        splash.summary,
        vec![
            "Reduce the 50%ile trip times of bikes by at least 1 minute",
            "",
            "Proposals:",
            "",
            "- example bus lane fix (untested)",
            "- example signal retiming (score 500)",
        ]
    );
    assert_eq!(
        splash.menu,
        vec![
            SplashChoice::BackToChallenges,
            SplashChoice::StartChallenge,
            SplashChoice::LoadProposal
        ]
    );
    for challenge in all_challenges() {
        let found = challenges_picker(&challenge.title).unwrap();
        assert_eq!(found.challenge.title, challenge.title);
        assert_eq!(found.challenge.description, challenge.description);
        assert_eq!(found.summary[0], challenge.description);
    }
}

#[test]
fn picker_knows_no_other_title() {
    assert!(challenges_picker("").is_none());
    assert!(challenges_picker("Speed up all bike trip").is_none());
    assert!(challenges_picker("speed up all bike trips").is_none());
}

#[test]
fn menu_of_a_challenge() {
    assert_eq!(SplashChoice::BackToChallenges.label(), "back to challenges");
    assert_eq!(SplashChoice::StartChallenge.label(), "start challenge");
    assert_eq!(SplashChoice::LoadProposal.label(), "load existing proposal");
    assert_eq!(SplashChoice::BackToChallenges.hotkey(), Hotkey::Escape);
    assert_eq!(SplashChoice::StartChallenge.hotkey(), Hotkey::S);
    assert_eq!(SplashChoice::LoadProposal.hotkey(), Hotkey::L);
}

#[test]
fn challenge_screen_answers_the_menu() {
    let splash = challenges_picker("Speed up route 48 (larger section)").unwrap();
    assert!(matches!(splash.event(None, "montlake"), ChallengeTransition::Keep));
    assert!(matches!(
        splash.event(Some(SplashChoice::LoadProposal), "montlake"),
        ChallengeTransition::Keep
    ));
    assert!(matches!(
        splash.event(Some(SplashChoice::BackToChallenges), "montlake"),
        ChallengeTransition::BackToPicker
    ));
    match splash.event(Some(SplashChoice::StartChallenge), "montlake") {
        ChallengeTransition::Start { load, gameplay } => {
            assert_eq!(load, Some("../data/maps/23rd.bin".to_string()));
            assert!(matches!(gameplay, GameplayMode::OptimizeBus(route) if route == "48"));
        }
        other => panic!("{:?}", other),
    }
    match splash.event(Some(SplashChoice::StartChallenge), "23rd") {
        ChallengeTransition::Start { load, gameplay } => {
            assert_eq!(load, None);
            assert!(matches!(gameplay, GameplayMode::OptimizeBus(route) if route == "48"));
        }
        other => panic!("{:?}", other),
    }
}
