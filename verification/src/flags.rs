//! The configuration of a run: what to load, how to seed, when to save.

use crate::clock::{filename_spec, parse_spec, Clock, Duration};
use crate::driver::HaltCondition;
use crate::rng::{seeded_words, RandomStream};
use crate::spawn::DemandProfile;
use vstd::prelude::*;

verus! {

/// Why a configuration was turned down.
#[derive(Clone, Copy, Debug, PartialEq, Eq, Structural)]
pub enum ConfigError {
    /// A run that is scored, or recorded as a baseline, needs a seed.
    MissingSeed,
    /// The time at which to save is not a well-formed time.
    MalformedTime,
}

/// The path of the file of a map.
pub open spec fn path_map_spec(map_name: Seq<char>) -> Seq<char> {
    "../data/maps/"@ + map_name + ".bin"@
}

pub fn path_map(map_name: &str) -> (r: String)
    ensures
        r@ == path_map_spec(map_name@),
{
    let mut path = "../data/maps/".to_owned();
    path.append(map_name);
    path.append(".bin");
    path
}

/// The path of the file of a scenario on a map.
pub open spec fn path_scenario_spec(map_name: Seq<char>, scenario_name: Seq<char>) -> Seq<char> {
    "../data/scenarios/"@ + map_name + "/"@ + scenario_name + ".bin"@
}

pub fn path_scenario(map_name: &str, scenario_name: &str) -> (r: String)
    ensures
        r@ == path_scenario_spec(map_name@, scenario_name@),
{
    let mut path = "../data/scenarios/".to_owned();
    path.append(map_name);
    path.append("/");
    path.append(scenario_name);
    path.append(".bin");
    path
}

/// The path of the state of a scenario saved at a tick.
pub open spec fn path_savestate_spec(scenario_name: Seq<char>, tick: Clock) -> Seq<char> {
    "../data/save/"@ + scenario_name + "/"@ + filename_spec(tick.ticks as nat)
}

pub fn path_savestate(scenario_name: &str, tick: Clock) -> (r: String)
    ensures
        r@ == path_savestate_spec(scenario_name@, tick),
{
    let mut path = "../data/save/".to_owned();
    path.append(scenario_name);
    path.append("/");
    let name = tick.as_filename();
    path.append(name.as_str());
    path
}

/// The path of the file that holds the baseline of all challenges.
pub fn path_prebaked_results() -> (r: &'static str)
    ensures
        r@ == "../data/prebaked_results.json"@,
{
    "../data/prebaked_results.json"
}

/// The named options of a run.
#[derive(Debug)]
pub struct SimOptions {
    pub run_name: String,
}

impl SimOptions {
    pub fn new(run_name: &str) -> (r: SimOptions)
        ensures
            r.run_name@ == run_name@,
    {
        SimOptions { run_name: run_name.to_owned() }
    }
}

/// What a simulation is started from. Read once at the start of a run.
#[derive(Debug)]
pub struct SimFlags {
    /// The scenario or saved state to load.
    pub load: String,
    /// Whether to apply the corrections of the map.
    pub use_map_fixes: bool,
    /// The seed of the random stream, if the run is to be reproducible.
    pub rng_seed: Option<u8>,
    pub opts: SimOptions,
}

/// `SimFlags` as a mathematical value.
pub struct SimFlagsView {
    pub load: Seq<char>,
    pub use_map_fixes: bool,
    pub rng_seed: Option<u8>,
    pub run_name: Seq<char>,
}

impl View for SimFlags {
    type V = SimFlagsView;

    open spec fn view(&self) -> SimFlagsView {
        SimFlagsView {
            load: self.load@,
            use_map_fixes: self.use_map_fixes,
            rng_seed: self.rng_seed,
            run_name: self.opts.run_name@,
        }
    }
}

/// The flags of the reference run of a scenario on a map.
pub open spec fn baseline_flags(map_name: Seq<char>, scenario_name: Seq<char>, seed: u8)
    -> SimFlagsView {
    SimFlagsView {
        load: path_scenario_spec(map_name, scenario_name),
        use_map_fixes: true,
        rng_seed: Some(seed),
        run_name: "prebaked"@,
    }
}

impl SimFlags {
    /// The flags of the reference run of a scenario on a map: the
    /// corrections of the map applied, the seed fixed. Without a seed no
    /// baseline is recorded.
    pub fn for_baseline(map_name: &str, scenario_name: &str, seed: Option<u8>) -> (r: Result<
        SimFlags,
        ConfigError,
    >)
        ensures
            seed is None ==> r is Err && r->Err_0 == ConfigError::MissingSeed,
            seed is Some ==> r is Ok && r->Ok_0@ == baseline_flags(
                map_name@,
                scenario_name@,
                seed->0,
            ),
    {
        match seed {
            None => Err(ConfigError::MissingSeed),
            Some(value) => Ok(
                SimFlags {
                    load: path_scenario(map_name, scenario_name),
                    use_map_fixes: true,
                    rng_seed: Some(value),
                    opts: SimOptions::new("prebaked"),
                },
            ),
        }
    }

    /// The same flags, loading the named map instead.
    pub fn on_map(&self, map_name: &str) -> (r: SimFlags)
        ensures
            r@ == (SimFlagsView { load: path_map_spec(map_name@), ..self@ }),
    {
        SimFlags {
            load: path_map(map_name),
            use_map_fixes: self.use_map_fixes,
            rng_seed: self.rng_seed,
            opts: SimOptions { run_name: self.opts.run_name.clone() },
        }
    }

    /// The random stream that the seed fixes. Flags without a seed give no
    /// stream: a stream from the system's entropy has to be asked for by
    /// its own name.
    pub fn make_rng(&self) -> (r: Option<RandomStream>)
        ensures
            self.rng_seed is None ==> r is None,
            self.rng_seed is Some ==> r is Some && r->0.words() == seeded_words(self.rng_seed->0),
    {
        match self.rng_seed {
            Some(seed) => Some(RandomStream::seeded(seed)),
            None => None,
        }
    }
}

/// What the batch program is started with.
#[derive(Debug)]
pub struct HeadlessFlags {
    /// The map or saved state to load.
    pub load: String,
    /// The seed of the random stream, if any.
    pub rng_seed: Option<u8>,
    /// The time at which to save the state and stop, as text.
    pub save_at: Option<String>,
    /// Whether to start with the big demand instead of the small.
    pub big_sim: bool,
    /// The name under which states are saved.
    pub scenario_name: String,
}

/// How the random stream of a run is seeded.
#[derive(Clone, Copy, Debug, PartialEq, Eq, Structural)]
pub enum Seeding {
    /// From this seed: the run can be reproduced.
    Fixed(u8),
    /// From the system's entropy: the run cannot be reproduced, and the
    /// caller has to say so in its output.
    Entropy,
}

/// What the batch program is to do.
#[derive(Debug)]
pub struct RunPlan {
    pub load: String,
    pub scenario_name: String,
    pub seeding: Seeding,
    pub profile: DemandProfile,
    pub conditions: Vec<HaltCondition>,
}

/// `RunPlan` as a mathematical value.
pub struct RunPlanView {
    pub load: Seq<char>,
    pub scenario_name: Seq<char>,
    pub seeding: Seeding,
    pub profile: DemandProfile,
    pub conditions: Seq<HaltCondition>,
}

impl View for RunPlan {
    type V = RunPlanView;

    open spec fn view(&self) -> RunPlanView {
        RunPlanView {
            load: self.load@,
            scenario_name: self.scenario_name@,
            seeding: self.seeding,
            profile: self.profile,
            conditions: self.conditions@,
        }
    }
}

/// The span between two states that a batch run saves on its own.
pub const CHECKPOINT_SECONDS: u32 = 30;

/// The conditions of a batch run: a state saved every thirty seconds, and,
/// where a time to save at is given, a save at that tick that ends the run.
pub open spec fn plan_conditions(save_at: Option<Clock>) -> Seq<HaltCondition> {
    match save_at {
        None => seq![HaltCondition::CheckpointEvery(Duration { ticks: 300 })],
        Some(tick) => seq![
            HaltCondition::CheckpointEvery(Duration { ticks: 300 }),
            HaltCondition::SaveAt(tick),
        ],
    }
}

/// The plan that the flags ask for, given the time to save at.
pub open spec fn plan_of(
    load: Seq<char>,
    rng_seed: Option<u8>,
    big_sim: bool,
    scenario_name: Seq<char>,
    save_at: Option<Clock>,
) -> RunPlanView {
    RunPlanView {
        load,
        scenario_name,
        seeding: match rng_seed {
            Some(seed) => Seeding::Fixed(seed),
            None => Seeding::Entropy,
        },
        profile: if big_sim {
            DemandProfile::Big
        } else {
            DemandProfile::Small
        },
        conditions: plan_conditions(save_at),
    }
}

/// The plan of a batch run with the time to save at already read.
pub fn plan_with(flags: &HeadlessFlags, save_at: Option<Clock>) -> (r: RunPlan)
    ensures
        r@ == plan_of(flags.load@, flags.rng_seed, flags.big_sim, flags.scenario_name@, save_at),
{
    let mut conditions: Vec<HaltCondition> = Vec::new();
    conditions.push(HaltCondition::CheckpointEvery(Duration::from_seconds(CHECKPOINT_SECONDS)));
    match save_at {
        Some(tick) => {
            conditions.push(HaltCondition::SaveAt(tick));
        },
        None => {},
    }
    assert(conditions@ =~= plan_conditions(save_at));
    RunPlan {
        load: flags.load.clone(),
        scenario_name: flags.scenario_name.clone(),
        seeding: match flags.rng_seed {
            Some(seed) => Seeding::Fixed(seed),
            None => Seeding::Entropy,
        },
        profile: DemandProfile::from_switch(flags.big_sim),
        conditions,
    }
}

/// The plan of a batch run. A time to save at that cannot be read is an
/// error of the configuration, and nothing is planned.
pub fn plan_run(flags: &HeadlessFlags) -> (r: Result<RunPlan, ConfigError>)
    ensures
        flags.save_at is Some && parse_spec(flags.save_at->0@) is None ==> r is Err && r->Err_0
            == ConfigError::MalformedTime,
        flags.save_at is Some && parse_spec(flags.save_at->0@) is Some ==> r is Ok && r->Ok_0@
            == plan_of(
            flags.load@,
            flags.rng_seed,
            flags.big_sim,
            flags.scenario_name@,
            parse_spec(flags.save_at->0@),
        ),
        flags.save_at is None ==> r is Ok && r->Ok_0@ == plan_of(
            flags.load@,
            flags.rng_seed,
            flags.big_sim,
            flags.scenario_name@,
            None,
        ),
{
    match &flags.save_at {
        None => Ok(plan_with(flags, None)),
        Some(text) => match Clock::parse(text.as_str()) {
            Some(tick) => Ok(plan_with(flags, Some(tick))),
            None => Err(ConfigError::MalformedTime),
        },
    }
}

/// Whether demand is to be spawned: only a run that starts at zero gets
/// any, a run taken up from a saved state has its own.
pub fn should_spawn(start: Clock) -> (r: bool)
    ensures
        r == (start.ticks == 0),
{
    start.ticks == 0
}

} // verus!
