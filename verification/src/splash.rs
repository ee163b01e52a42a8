//! The decisions of the opening screen: which entry of the menu leads
//! where. The screen itself, its wizard and its drawing are the caller's.

use crate::flags::{path_map, path_map_spec};
use vstd::prelude::*;

verus! {

/// Whether two texts are the same.
pub fn same_text(a: &str, b: &str) -> (r: bool)
    ensures
        r == (a@ == b@),
{
    let left = a.to_owned();
    let right = b.to_owned();
    left == right
}

/// An entry of the opening menu.
#[derive(Clone, Copy, Debug, PartialEq, Eq, Structural)]
pub enum MenuEntry {
    Sandbox,
    LoadMap,
    Edit,
    Tutorial,
    Debug,
    MissionEdit,
    ABTest,
    About,
    Quit,
}

/// A key that selects an entry of the opening menu.
#[derive(Clone, Copy, Debug, PartialEq, Eq, Structural)]
pub enum MenuKey {
    S,
    L,
    E,
    T,
    D,
    M,
    A,
}

/// The entries of the opening menu, in their order.
pub open spec fn menu_spec() -> Seq<MenuEntry> {
    seq![
        MenuEntry::Sandbox,
        MenuEntry::LoadMap,
        MenuEntry::Edit,
        MenuEntry::Tutorial,
        MenuEntry::Debug,
        MenuEntry::MissionEdit,
        MenuEntry::ABTest,
        MenuEntry::About,
        MenuEntry::Quit,
    ]
}

/// The entry that a text names, if any.
pub open spec fn entry_with_label(label: Seq<char>) -> Option<MenuEntry> {
    if label == "Sandbox mode"@ {
        Some(MenuEntry::Sandbox)
    } else if label == "Load another map"@ {
        Some(MenuEntry::LoadMap)
    } else if label == "Edit map"@ {
        Some(MenuEntry::Edit)
    } else if label == "Tutorial"@ {
        Some(MenuEntry::Tutorial)
    } else if label == "Debug mode"@ {
        Some(MenuEntry::Debug)
    } else if label == "Mission Edit Mode"@ {
        Some(MenuEntry::MissionEdit)
    } else if label == "A/B Test Mode"@ {
        Some(MenuEntry::ABTest)
    } else if label == "About"@ {
        Some(MenuEntry::About)
    } else if label == "Quit"@ {
        Some(MenuEntry::Quit)
    } else {
        None
    }
}

impl MenuEntry {
    /// The words of the entry.
    pub open spec fn label_spec(self) -> Seq<char> {
        match self {
            MenuEntry::Sandbox => "Sandbox mode"@,
            MenuEntry::LoadMap => "Load another map"@,
            MenuEntry::Edit => "Edit map"@,
            MenuEntry::Tutorial => "Tutorial"@,
            MenuEntry::Debug => "Debug mode"@,
            MenuEntry::MissionEdit => "Mission Edit Mode"@,
            MenuEntry::ABTest => "A/B Test Mode"@,
            MenuEntry::About => "About"@,
            MenuEntry::Quit => "Quit"@,
        }
    }

    pub fn label(self) -> (r: &'static str)
        ensures
            r@ == self.label_spec(),
    {
        match self {
            MenuEntry::Sandbox => "Sandbox mode",
            MenuEntry::LoadMap => "Load another map",
            MenuEntry::Edit => "Edit map",
            MenuEntry::Tutorial => "Tutorial",
            MenuEntry::Debug => "Debug mode",
            MenuEntry::MissionEdit => "Mission Edit Mode",
            MenuEntry::ABTest => "A/B Test Mode",
            MenuEntry::About => "About",
            MenuEntry::Quit => "Quit",
        }
    }

    /// The key of the entry; the last two have none.
    pub fn hotkey(self) -> (r: Option<MenuKey>)
        ensures
            r == match self {
                MenuEntry::Sandbox => Some(MenuKey::S),
                MenuEntry::LoadMap => Some(MenuKey::L),
                MenuEntry::Edit => Some(MenuKey::E),
                MenuEntry::Tutorial => Some(MenuKey::T),
                MenuEntry::Debug => Some(MenuKey::D),
                MenuEntry::MissionEdit => Some(MenuKey::M),
                MenuEntry::ABTest => Some(MenuKey::A),
                MenuEntry::About => None,
                MenuEntry::Quit => None,
            },
    {
        match self {
            MenuEntry::Sandbox => Some(MenuKey::S),
            MenuEntry::LoadMap => Some(MenuKey::L),
            MenuEntry::Edit => Some(MenuKey::E),
            MenuEntry::Tutorial => Some(MenuKey::T),
            MenuEntry::Debug => Some(MenuKey::D),
            MenuEntry::MissionEdit => Some(MenuKey::M),
            MenuEntry::ABTest => Some(MenuKey::A),
            MenuEntry::About => None,
            MenuEntry::Quit => None,
        }
    }

    /// The entries of the opening menu, in their order.
    pub fn menu() -> (r: Vec<MenuEntry>)
        ensures
            r@ == menu_spec(),
    {
        let mut entries: Vec<MenuEntry> = Vec::new();
        entries.push(MenuEntry::Sandbox);
        entries.push(MenuEntry::LoadMap);
        entries.push(MenuEntry::Edit);
        entries.push(MenuEntry::Tutorial);
        entries.push(MenuEntry::Debug);
        entries.push(MenuEntry::MissionEdit);
        entries.push(MenuEntry::ABTest);
        entries.push(MenuEntry::About);
        entries.push(MenuEntry::Quit);
        assert(entries@ =~= menu_spec());
        entries
    }

    /// The entry that a text names. A text that names none gives nothing.
    pub fn from_label(label: &str) -> (r: Option<MenuEntry>)
        ensures
            r == entry_with_label(label@),
    {
        if same_text(label, "Sandbox mode") {
            Some(MenuEntry::Sandbox)
        } else if same_text(label, "Load another map") {
            Some(MenuEntry::LoadMap)
        } else if same_text(label, "Edit map") {
            Some(MenuEntry::Edit)
        } else if same_text(label, "Tutorial") {
            Some(MenuEntry::Tutorial)
        } else if same_text(label, "Debug mode") {
            Some(MenuEntry::Debug)
        } else if same_text(label, "Mission Edit Mode") {
            Some(MenuEntry::MissionEdit)
        } else if same_text(label, "A/B Test Mode") {
            Some(MenuEntry::ABTest)
        } else if same_text(label, "About") {
            Some(MenuEntry::About)
        } else if same_text(label, "Quit") {
            Some(MenuEntry::Quit)
        } else {
            None
        }
    }
}

/// A part of the program that the opening screen leads to.
#[derive(Clone, Copy, Debug, PartialEq, Eq, Structural)]
pub enum Mode {
    Sandbox,
    Edit,
    Tutorial,
    Debug,
    MissionEdit,
    ABTest,
}

/// How the stack of screens changes.
#[derive(Debug)]
pub enum Transition {
    /// The screen stays.
    Keep,
    /// The screen leaves.
    Pop,
    /// The mode comes on top.
    Push(Mode),
    /// The map at the path is loaded, then the sandbox comes on top.
    LoadMapAndPush(String),
    /// A fresh opening screen takes the place of this one and takes over
    /// its screensaver.
    ReplaceWithSplash,
}

/// `Transition` as a mathematical value.
pub enum TransitionView {
    Keep,
    Pop,
    Push(Mode),
    LoadMapAndPush(Seq<char>),
    ReplaceWithSplash,
}

impl View for Transition {
    type V = TransitionView;

    open spec fn view(&self) -> TransitionView {
        match self {
            Transition::Keep => TransitionView::Keep,
            Transition::Pop => TransitionView::Pop,
            Transition::Push(mode) => TransitionView::Push(*mode),
            Transition::LoadMapAndPush(path) => TransitionView::LoadMapAndPush(path@),
            Transition::ReplaceWithSplash => TransitionView::ReplaceWithSplash,
        }
    }
}

/// What the dialog that follows an entry has come to.
#[derive(Debug)]
pub enum Followup {
    /// The dialog is still open, or the entry has none.
    Pending,
    /// The player picked the map of this name.
    Picked(String),
    /// The player left the dialog.
    Aborted,
    /// The player has read the text.
    Acknowledged,
}

/// `Followup` as a mathematical value.
pub enum FollowupView {
    Pending,
    Picked(Seq<char>),
    Aborted,
    Acknowledged,
}

impl View for Followup {
    type V = FollowupView;

    open spec fn view(&self) -> FollowupView {
        match self {
            Followup::Pending => FollowupView::Pending,
            Followup::Picked(name) => FollowupView::Picked(name@),
            Followup::Aborted => FollowupView::Aborted,
            Followup::Acknowledged => FollowupView::Acknowledged,
        }
    }
}

/// Why the menu could not be followed.
#[derive(Clone, Copy, Debug, PartialEq, Eq, Structural)]
pub enum MenuError {
    /// The text names no entry of the menu.
    UnknownEntry,
}

/// Where an entry leads, given what its dialog has come to; nothing while
/// the dialog is open.
pub open spec fn entry_leads(entry: MenuEntry, followup: FollowupView) -> Option<TransitionView> {
    match entry {
        MenuEntry::Sandbox => Some(TransitionView::Push(Mode::Sandbox)),
        MenuEntry::LoadMap => match followup {
            FollowupView::Picked(name) => Some(
                TransitionView::LoadMapAndPush(path_map_spec(name)),
            ),
            FollowupView::Aborted => Some(TransitionView::ReplaceWithSplash),
            _ => None,
        },
        MenuEntry::Edit => Some(TransitionView::Push(Mode::Edit)),
        MenuEntry::Tutorial => Some(TransitionView::Push(Mode::Tutorial)),
        MenuEntry::Debug => Some(TransitionView::Push(Mode::Debug)),
        MenuEntry::MissionEdit => Some(TransitionView::Push(Mode::MissionEdit)),
        MenuEntry::ABTest => Some(TransitionView::Push(Mode::ABTest)),
        MenuEntry::About => match followup {
            FollowupView::Acknowledged => Some(TransitionView::ReplaceWithSplash),
            _ => None,
        },
        MenuEntry::Quit => Some(TransitionView::Pop),
    }
}

/// Where the opening screen goes: nowhere while nothing is chosen, else
/// where the chosen entry leads. A choice that names no entry is an error.
pub open spec fn splash_leads(choice: Option<Seq<char>>, followup: FollowupView) -> Result<
    Option<TransitionView>,
    MenuError,
> {
    match choice {
        None => Ok(None),
        Some(label) => match entry_with_label(label) {
            None => Err(MenuError::UnknownEntry),
            Some(entry) => Ok(entry_leads(entry, followup)),
        },
    }
}

/// The value of an optional transition.
pub open spec fn optional_view(transition: Option<Transition>) -> Option<TransitionView> {
    match transition {
        Some(t) => Some(t@),
        None => None,
    }
}

/// Where an entry leads, given what its dialog has come to.
pub fn follow_entry(entry: MenuEntry, followup: &Followup) -> (r: Option<Transition>)
    ensures
        optional_view(r) == entry_leads(entry, followup@),
{
    match entry {
        MenuEntry::Sandbox => Some(Transition::Push(Mode::Sandbox)),
        MenuEntry::LoadMap => match followup {
            Followup::Picked(name) => Some(Transition::LoadMapAndPush(path_map(name.as_str()))),
            Followup::Aborted => Some(Transition::ReplaceWithSplash),
            _ => None,
        },
        MenuEntry::Edit => Some(Transition::Push(Mode::Edit)),
        MenuEntry::Tutorial => Some(Transition::Push(Mode::Tutorial)),
        MenuEntry::Debug => Some(Transition::Push(Mode::Debug)),
        MenuEntry::MissionEdit => Some(Transition::Push(Mode::MissionEdit)),
        MenuEntry::ABTest => Some(Transition::Push(Mode::ABTest)),
        MenuEntry::About => match followup {
            Followup::Acknowledged => Some(Transition::ReplaceWithSplash),
            _ => None,
        },
        MenuEntry::Quit => Some(Transition::Pop),
    }
}

/// Where the opening screen goes, given the entry that the player chose,
/// if any, and what the dialog of that entry has come to.
pub fn splash_screen(choice: Option<&str>, followup: &Followup) -> (r: Result<
    Option<Transition>,
    MenuError,
>)
    ensures
        match splash_leads(
            match choice {
                Some(label) => Some(label@),
                None => None,
            },
            followup@,
        ) {
            Ok(leads) => r is Ok && optional_view(r->Ok_0) == leads,
            Err(error) => r is Err && r->Err_0 == error,
        },
{
    match choice {
        None => Ok(None),
        Some(label) => match MenuEntry::from_label(label) {
            None => Err(MenuError::UnknownEntry),
            Some(entry) => Ok(follow_entry(entry, followup)),
        },
    }
}

/// How the event loop is to run.
#[derive(Clone, Copy, Debug, PartialEq, Eq, Structural)]
pub enum EventLoopMode {
    Animation,
    InputOnly,
}

/// What the opening screen answers to an event: the transition that the
/// menu decided on; without one, it leaves where the wizard was aborted
/// and stays otherwise. The loop animates while a screensaver runs.
pub fn event(decided: Option<Transition>, aborted: bool, has_screensaver: bool) -> (r: (
    Transition,
    EventLoopMode,
))
    ensures
        r.0@ == match decided {
            Some(t) => t@,
            None => if aborted {
                TransitionView::Pop
            } else {
                TransitionView::Keep
            },
        },
        r.1 == if has_screensaver {
            EventLoopMode::Animation
        } else {
            EventLoopMode::InputOnly
        },
{
    let transition = match decided {
        Some(t) => t,
        None => if aborted {
            Transition::Pop
        } else {
            Transition::Keep
        },
    };
    let mode = if has_screensaver {
        EventLoopMode::Animation
    } else {
        EventLoopMode::InputOnly
    };
    (transition, mode)
}

/// The opening screen, as far as its decisions go: whether a screensaver
/// runs behind the menu.
#[derive(Clone, Copy, Debug, PartialEq, Eq, Structural)]
pub struct SplashScreen {
    pub has_screensaver: bool,
}

/// How the loop runs: it animates while a screensaver does.
pub open spec fn loop_mode(has_screensaver: bool) -> EventLoopMode {
    if has_screensaver {
        EventLoopMode::Animation
    } else {
        EventLoopMode::InputOnly
    }
}

/// The text that an optional choice holds.
pub open spec fn choice_view(choice: Option<&str>) -> Option<Seq<char>> {
    match choice {
        Some(label) => Some(label@),
        None => None,
    }
}

impl SplashScreen {
    pub fn new_without_screensaver() -> (r: SplashScreen)
        ensures
            !r.has_screensaver,
    {
        SplashScreen { has_screensaver: false }
    }

    pub fn new_with_screensaver() -> (r: SplashScreen)
        ensures
            r.has_screensaver,
    {
        SplashScreen { has_screensaver: true }
    }

    /// Answers an event: follows the menu, and says how the loop is to
    /// run. A screen that is replaced hands its screensaver over to the
    /// screen that takes its place, and animates no longer. A choice that
    /// names no entry is an error and leaves the screen as it was.
    pub fn event(&mut self, choice: Option<&str>, followup: &Followup, aborted: bool) -> (r:
        Result<(Transition, EventLoopMode), MenuError>)
        ensures
            match splash_leads(choice_view(choice), followup@) {
                Err(error) => r is Err && r->Err_0 == error && *final(self) == *old(self),
                Ok(leads) => r is Ok && r->Ok_0.0@ == (match leads {
                    Some(t) => t,
                    None => if aborted {
                        TransitionView::Pop
                    } else {
                        TransitionView::Keep
                    },
                }) && final(self).has_screensaver == (old(self).has_screensaver && !(leads
                    == Some(TransitionView::ReplaceWithSplash))) && r->Ok_0.1 == loop_mode(
                    final(self).has_screensaver,
                ),
            },
    {
        match splash_screen(choice, followup) {
            Err(error) => Err(error),
            Ok(decided) => {
                match &decided {
                    Some(Transition::ReplaceWithSplash) => {
                        self.has_screensaver = false;
                    },
                    _ => {},
                }
                Ok(event(decided, aborted, self.has_screensaver))
            },
        }
    }
}

/// The texts of a list of names.
pub open spec fn name_views(names: Seq<String>) -> Seq<Seq<char>> {
    names.map_values(|name: String| name@)
}

/// The maps offered for loading: all but the one that is loaded, in the
/// order in which they are listed.
pub fn map_choices(all_maps: &Vec<String>, current: &str) -> (r: Vec<String>)
    ensures
        name_views(r@) == name_views(all_maps@).filter(|name: Seq<char>| name != current@),
{
    let ghost keep = |name: Seq<char>| name != current@;
    let ghost names = name_views(all_maps@);
    let mut out: Vec<String> = Vec::new();
    let mut i: usize = 0;
    proof {
        reveal(Seq::filter);
        assert(names.take(0) =~= Seq::<Seq<char>>::empty());
        assert(name_views(out@) =~= names.take(0).filter(keep));
    }
    while i < all_maps.len()
        invariant
            i <= all_maps.len(),
            names == name_views(all_maps@),
            keep == |name: Seq<char>| name != current@,
            name_views(out@) == names.take(i as int).filter(keep),
        decreases all_maps.len() - i,
    {
        let ghost before = out@;
        proof {
            reveal(Seq::filter);
            let longer = names.take(i + 1);
            assert(longer.drop_last() =~= names.take(i as int));
            assert(longer.last() == all_maps@[i as int]@);
        }
        if !same_text(all_maps[i].as_str(), current) {
            out.push(all_maps[i].clone());
            assert(name_views(out@) =~= name_views(before).push(all_maps@[i as int]@));
        }
        i += 1;
    }
    assert(names.take(all_maps.len() as int) =~= names);
    out
}

/// The text shown about the program.
pub open spec fn about_spec() -> Seq<Seq<char>> {
    seq![
        "Author: Dustin Carlino (dabreegster@gmail.com)"@,
        "http://github.com/dabreegster/abstreet"@,
        "Map data from OpenStreetMap and King County GIS"@,
        ""@,
        "Press ENTER to continue"@,
    ]
}

pub fn about_lines() -> (r: Vec<String>)
    ensures
        name_views(r@) == about_spec(),
{
    let mut lines: Vec<String> = Vec::new();
    lines.push("Author: Dustin Carlino (dabreegster@gmail.com)".to_owned());
    lines.push("http://github.com/dabreegster/abstreet".to_owned());
    lines.push("Map data from OpenStreetMap and King County GIS".to_owned());
    lines.push("".to_owned());
    lines.push("Press ENTER to continue".to_owned());
    assert(name_views(lines@) =~= about_spec());
    lines
}

} // verus!
