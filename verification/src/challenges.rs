//! The catalog of challenges, and the screen that presents one of them.

use crate::clock::Duration;
use crate::flags::{path_map, path_map_spec};
use crate::trip::TripMode;
use vstd::prelude::*;

verus! {

/// What a challenge measures.
#[derive(Debug)]
pub enum GameplayMode {
    /// The bus route with this name is to run better.
    OptimizeBus(String),
    /// Traffic is to come to a standstill.
    CreateGridlock,
    /// Trips of this mode are to get faster.
    FasterTrips(TripMode),
}

/// `GameplayMode` as a mathematical value.
pub enum GameplayView {
    OptimizeBus(Seq<char>),
    CreateGridlock,
    FasterTrips(TripMode),
}

impl View for GameplayMode {
    type V = GameplayView;

    open spec fn view(&self) -> GameplayView {
        match self {
            GameplayMode::OptimizeBus(route) => GameplayView::OptimizeBus(route@),
            GameplayMode::CreateGridlock => GameplayView::CreateGridlock,
            GameplayMode::FasterTrips(mode) => GameplayView::FasterTrips(*mode),
        }
    }
}

impl GameplayMode {
    /// A copy with the same value.
    pub fn duplicate(&self) -> (r: GameplayMode)
        ensures
            r@ == self@,
    {
        match self {
            GameplayMode::OptimizeBus(route) => GameplayMode::OptimizeBus(route.clone()),
            GameplayMode::CreateGridlock => GameplayMode::CreateGridlock,
            GameplayMode::FasterTrips(mode) => GameplayMode::FasterTrips(*mode),
        }
    }
}

/// What a run has to reach to pass a challenge, with its threshold.
#[derive(Debug)]
pub enum Goal {
    /// The median trip time of the mode falls by at least the span.
    ReduceMedianBy(TripMode, Duration),
    /// The average wait between the stops of the route falls by at least
    /// the span.
    ReduceAverageWaitBy(String, Duration),
    /// The badness of traffic rises above the threshold.
    IncreaseBadnessAbove(u64),
}

/// `Goal` as a mathematical value.
pub enum GoalView {
    ReduceMedianBy(TripMode, Duration),
    ReduceAverageWaitBy(Seq<char>, Duration),
    IncreaseBadnessAbove(u64),
}

impl View for Goal {
    type V = GoalView;

    open spec fn view(&self) -> GoalView {
        match self {
            Goal::ReduceMedianBy(mode, span) => GoalView::ReduceMedianBy(*mode, *span),
            Goal::ReduceAverageWaitBy(route, span) => GoalView::ReduceAverageWaitBy(route@, *span),
            Goal::IncreaseBadnessAbove(threshold) => GoalView::IncreaseBadnessAbove(*threshold),
        }
    }
}

impl Goal {
    /// A copy with the same value.
    pub fn duplicate(&self) -> (r: Goal)
        ensures
            r@ == self@,
    {
        match self {
            Goal::ReduceMedianBy(mode, span) => Goal::ReduceMedianBy(*mode, *span),
            Goal::ReduceAverageWaitBy(route, span) => Goal::ReduceAverageWaitBy(
                route.clone(),
                *span,
            ),
            Goal::IncreaseBadnessAbove(threshold) => Goal::IncreaseBadnessAbove(*threshold),
        }
    }
}

/// Whether a goal measures what the gameplay mode is about.
pub open spec fn goal_fits(gameplay: GameplayView, goal: GoalView) -> bool {
    match (gameplay, goal) {
        (GameplayView::FasterTrips(a), GoalView::ReduceMedianBy(b, _)) => a == b,
        (GameplayView::OptimizeBus(a), GoalView::ReduceAverageWaitBy(b, _)) => a == b,
        (GameplayView::CreateGridlock, GoalView::IncreaseBadnessAbove(_)) => true,
        _ => false,
    }
}

/// A scored objective on one map.
#[derive(Debug)]
pub struct Challenge {
    pub title: String,
    pub description: String,
    pub map_name: String,
    pub gameplay: GameplayMode,
    pub goal: Goal,
}

/// `Challenge` as a mathematical value.
pub struct ChallengeView {
    pub title: Seq<char>,
    pub description: Seq<char>,
    pub map_name: Seq<char>,
    pub gameplay: GameplayView,
    pub goal: GoalView,
}

impl View for Challenge {
    type V = ChallengeView;

    open spec fn view(&self) -> ChallengeView {
        ChallengeView {
            title: self.title@,
            description: self.description@,
            map_name: self.map_name@,
            gameplay: self.gameplay@,
            goal: self.goal@,
        }
    }
}

impl Challenge {
    /// A copy with the same value.
    pub fn duplicate(&self) -> (r: Challenge)
        ensures
            r@ == self@,
    {
        Challenge {
            title: self.title.clone(),
            description: self.description.clone(),
            map_name: self.map_name.clone(),
            gameplay: self.gameplay.duplicate(),
            goal: self.goal.duplicate(),
        }
    }

    /// Whether the goal of the challenge measures what its mode is about.
    pub fn is_consistent(&self) -> (r: bool)
        ensures
            r == goal_fits(self.gameplay@, self.goal@),
    {
        match (&self.gameplay, &self.goal) {
            (GameplayMode::FasterTrips(a), Goal::ReduceMedianBy(b, _)) => *a == *b,
            (GameplayMode::OptimizeBus(a), Goal::ReduceAverageWaitBy(b, _)) => *a == *b,
            (GameplayMode::CreateGridlock, Goal::IncreaseBadnessAbove(_)) => true,
            _ => false,
        }
    }
}

/// The catalog: the five challenges, in the order in which they are offered.
pub open spec fn catalog() -> Seq<ChallengeView> {
    seq![
        ChallengeView {
            title: "Speed up route 48 (just Montlake area)"@,
            description: "Decrease the average waiting time between all of route 48's stops by at least 30s"@,
            map_name: "montlake"@,
            gameplay: GameplayView::OptimizeBus("48"@),
            goal: GoalView::ReduceAverageWaitBy("48"@, Duration { ticks: 300 }),
        },
        ChallengeView {
            title: "Speed up route 48 (larger section)"@,
            description: "Decrease the average waiting time between all of 48's stops by at least 30s"@,
            map_name: "23rd"@,
            gameplay: GameplayView::OptimizeBus("48"@),
            goal: GoalView::ReduceAverageWaitBy("48"@, Duration { ticks: 300 }),
        },
        ChallengeView {
            title: "Gridlock all of the everything"@,
            description: "Make traffic as BAD as possible!"@,
            map_name: "montlake"@,
            gameplay: GameplayView::CreateGridlock,
            goal: GoalView::IncreaseBadnessAbove(0),
        },
        ChallengeView {
            title: "Speed up all bike trips"@,
            description: "Reduce the 50%ile trip times of bikes by at least 1 minute"@,
            map_name: "montlake"@,
            gameplay: GameplayView::FasterTrips(TripMode::Bike),
            goal: GoalView::ReduceMedianBy(TripMode::Bike, Duration { ticks: 600 }),
        },
        ChallengeView {
            title: "Speed up all car trips"@,
            description: "Reduce the 50%ile trip times of drivers by at least 5 minutes"@,
            map_name: "montlake"@,
            gameplay: GameplayView::FasterTrips(TripMode::Drive),
            goal: GoalView::ReduceMedianBy(TripMode::Drive, Duration { ticks: 3000 }),
        },
    ]
}

/// The values of a list of challenges.
pub open spec fn challenge_views(challenges: Seq<Challenge>) -> Seq<ChallengeView> {
    challenges.map_values(|c: Challenge| c@)
}

/// The catalog of challenges.
pub fn all_challenges() -> (r: Vec<Challenge>)
    ensures
        challenge_views(r@) == catalog(),
{
    let mut all: Vec<Challenge> = Vec::new();
    all.push(
        Challenge {
            title: "Speed up route 48 (just Montlake area)".to_owned(),
            description: "Decrease the average waiting time between all of route 48's stops by at least 30s".to_owned(),
            map_name: "montlake".to_owned(),
            gameplay: GameplayMode::OptimizeBus("48".to_owned()),
            goal: Goal::ReduceAverageWaitBy("48".to_owned(), Duration::from_seconds(30)),
        },
    );
    all.push(
        Challenge {
            title: "Speed up route 48 (larger section)".to_owned(),
            description: "Decrease the average waiting time between all of 48's stops by at least 30s".to_owned(),
            map_name: "23rd".to_owned(),
            gameplay: GameplayMode::OptimizeBus("48".to_owned()),
            goal: Goal::ReduceAverageWaitBy("48".to_owned(), Duration::from_seconds(30)),
        },
    );
    all.push(
        Challenge {
            title: "Gridlock all of the everything".to_owned(),
            description: "Make traffic as BAD as possible!".to_owned(),
            map_name: "montlake".to_owned(),
            gameplay: GameplayMode::CreateGridlock,
            goal: Goal::IncreaseBadnessAbove(0),
        },
    );
    all.push(
        Challenge {
            title: "Speed up all bike trips".to_owned(),
            description: "Reduce the 50%ile trip times of bikes by at least 1 minute".to_owned(),
            map_name: "montlake".to_owned(),
            gameplay: GameplayMode::FasterTrips(TripMode::Bike),
            goal: Goal::ReduceMedianBy(TripMode::Bike, Duration::from_minutes(1)),
        },
    );
    all.push(
        Challenge {
            title: "Speed up all car trips".to_owned(),
            description: "Reduce the 50%ile trip times of drivers by at least 5 minutes".to_owned(),
            map_name: "montlake".to_owned(),
            gameplay: GameplayMode::FasterTrips(TripMode::Drive),
            goal: Goal::ReduceMedianBy(TripMode::Drive, Duration::from_minutes(5)),
        },
    );
    assert(challenge_views(all@) =~= catalog());
    all
}

/// Every challenge of the catalog has a goal that fits its mode.
pub proof fn lemma_catalog_consistent()
    ensures
        forall|i: int|
            0 <= i < catalog().len() ==> goal_fits(
                (#[trigger] catalog()[i]).gameplay,
                catalog()[i].goal,
            ),
{
}

/// The place of the first challenge with the given title, or the length.
pub open spec fn title_place(challenges: Seq<ChallengeView>, title: Seq<char>) -> int
    decreases challenges.len(),
{
    if challenges.len() == 0 || challenges[0].title == title {
        0
    } else {
        1 + title_place(challenges.drop_first(), title)
    }
}

/// A key that selects a menu entry.
#[derive(Clone, Copy, Debug, PartialEq, Eq, Structural)]
pub enum Hotkey {
    Escape,
    S,
    L,
}

/// What the player asks of the screen of one challenge.
#[derive(Clone, Copy, Debug, PartialEq, Eq, Structural)]
pub enum SplashChoice {
    BackToChallenges,
    StartChallenge,
    LoadProposal,
}

impl SplashChoice {
    /// The words of the entry on the menu.
    pub open spec fn label_spec(self) -> Seq<char> {
        match self {
            SplashChoice::BackToChallenges => "back to challenges"@,
            SplashChoice::StartChallenge => "start challenge"@,
            SplashChoice::LoadProposal => "load existing proposal"@,
        }
    }

    pub fn label(self) -> (r: &'static str)
        ensures
            r@ == self.label_spec(),
    {
        match self {
            SplashChoice::BackToChallenges => "back to challenges",
            SplashChoice::StartChallenge => "start challenge",
            SplashChoice::LoadProposal => "load existing proposal",
        }
    }

    /// The key of the entry on the menu.
    pub fn hotkey(self) -> (r: Hotkey)
        ensures
            r == match self {
                SplashChoice::BackToChallenges => Hotkey::Escape,
                SplashChoice::StartChallenge => Hotkey::S,
                SplashChoice::LoadProposal => Hotkey::L,
            },
    {
        match self {
            SplashChoice::BackToChallenges => Hotkey::Escape,
            SplashChoice::StartChallenge => Hotkey::S,
            SplashChoice::LoadProposal => Hotkey::L,
        }
    }
}

/// The screen that presents one challenge: the lines of its summary, its
/// menu, and the challenge itself.
#[derive(Debug)]
pub struct ChallengeSplash {
    pub summary: Vec<String>,
    pub menu: Vec<SplashChoice>,
    pub challenge: Challenge,
}

/// The lines shown for a challenge with the given description.
pub open spec fn summary_lines(description: Seq<char>) -> Seq<Seq<char>> {
    seq![
        description,
        ""@,
        "Proposals:"@,
        ""@,
        "- example bus lane fix (untested)"@,
        "- example signal retiming (score 500)"@,
    ]
}

/// The entries of the menu of a challenge, in their order.
pub open spec fn splash_menu() -> Seq<SplashChoice> {
    seq![SplashChoice::BackToChallenges, SplashChoice::StartChallenge, SplashChoice::LoadProposal]
}

/// The texts of a list of strings.
pub open spec fn line_views(lines: Seq<String>) -> Seq<Seq<char>> {
    lines.map_values(|line: String| line@)
}

/// The screen for the challenge that the player picked by its title: the
/// first of the catalog with that title, or nothing where none has it.
pub fn challenges_picker(title: &str) -> (r: Option<ChallengeSplash>)
    ensures
        title_place(catalog(), title@) < catalog().len() ==> r is Some && r->0.challenge@
            == catalog()[title_place(catalog(), title@)] && line_views(r->0.summary@)
            == summary_lines(r->0.challenge@.description) && r->0.menu@ == splash_menu(),
        title_place(catalog(), title@) >= catalog().len() ==> r is None,
{
    let wanted = title.to_owned();
    let all = all_challenges();
    let mut i: usize = 0;
    assert(challenge_views(all@).len() == all@.len());
    assert(challenge_views(all@).skip(0) =~= challenge_views(all@));
    while i < all.len()
        invariant
            i <= all.len(),
            wanted@ == title@,
            challenge_views(all@) == catalog(),
            title_place(catalog(), title@) == i + title_place(catalog().skip(i as int), title@),
        decreases all.len() - i,
    {
        assert(challenge_views(all@)[i as int] == all@[i as int]@);
        assert(catalog().skip(i as int)[0] == catalog()[i as int]);
        if all[i].title == wanted {
            let challenge = all[i].duplicate();
            let mut summary: Vec<String> = Vec::new();
            summary.push(challenge.description.clone());
            summary.push("".to_owned());
            summary.push("Proposals:".to_owned());
            summary.push("".to_owned());
            summary.push("- example bus lane fix (untested)".to_owned());
            summary.push("- example signal retiming (score 500)".to_owned());
            let mut menu: Vec<SplashChoice> = Vec::new();
            menu.push(SplashChoice::BackToChallenges);
            menu.push(SplashChoice::StartChallenge);
            menu.push(SplashChoice::LoadProposal);
            assert(line_views(summary@) =~= summary_lines(challenge@.description));
            assert(menu@ =~= splash_menu());
            return Some(ChallengeSplash { summary, menu, challenge });
        }
        assert(catalog().skip(i as int).drop_first() =~= catalog().skip(i + 1));
        i += 1;
    }
    None
}


/// What the screen of a challenge leads to.
#[derive(Debug)]
pub enum ChallengeTransition {
    /// The screen stays.
    Keep,
    /// The list of challenges takes the place of the screen.
    BackToPicker,
    /// The challenge starts in the given mode, after the map at the path,
    /// if there is one, has been loaded.
    Start { load: Option<String>, gameplay: GameplayMode },
}

/// `ChallengeTransition` as a mathematical value.
pub enum ChallengeTransitionView {
    Keep,
    BackToPicker,
    Start { load: Option<Seq<char>>, gameplay: GameplayView },
}

impl View for ChallengeTransition {
    type V = ChallengeTransitionView;

    open spec fn view(&self) -> ChallengeTransitionView {
        match self {
            ChallengeTransition::Keep => ChallengeTransitionView::Keep,
            ChallengeTransition::BackToPicker => ChallengeTransitionView::BackToPicker,
            ChallengeTransition::Start { load, gameplay } => ChallengeTransitionView::Start {
                load: match load {
                    Some(path) => Some(path@),
                    None => None,
                },
                gameplay: gameplay@,
            },
        }
    }
}

/// Where the screen of a challenge goes. Going back leads to the list.
/// Starting leads to the challenge's mode, and loads the challenge's map
/// first where another map is loaded. Anything else leaves the screen.
pub open spec fn challenge_leads(
    challenge: ChallengeView,
    action: Option<SplashChoice>,
    current_map: Seq<char>,
) -> ChallengeTransitionView {
    match action {
        Some(SplashChoice::BackToChallenges) => ChallengeTransitionView::BackToPicker,
        Some(SplashChoice::StartChallenge) => ChallengeTransitionView::Start {
            load: if challenge.map_name != current_map {
                Some(path_map_spec(challenge.map_name))
            } else {
                None
            },
            gameplay: challenge.gameplay,
        },
        _ => ChallengeTransitionView::Keep,
    }
}

impl ChallengeSplash {
    /// Answers the action that the player chose on the menu, if any, given
    /// the name of the map that is loaded.
    pub fn event(&self, action: Option<SplashChoice>, current_map: &str) -> (r:
        ChallengeTransition)
        ensures
            r@ == challenge_leads(self.challenge@, action, current_map@),
    {
        match action {
            Some(SplashChoice::BackToChallenges) => ChallengeTransition::BackToPicker,
            Some(SplashChoice::StartChallenge) => {
                let current = current_map.to_owned();
                let load = if self.challenge.map_name != current {
                    Some(path_map(self.challenge.map_name.as_str()))
                } else {
                    None
                };
                ChallengeTransition::Start { load, gameplay: self.challenge.gameplay.duplicate() }
            },
            _ => ChallengeTransition::Keep,
        }
    }
}

} // verus!
