//! The pages of the interface and the state each page starts with.

use vstd::prelude::*;

verus! {

/// The page the interface shows.
#[derive(Clone, Copy, Debug, PartialEq, Eq, Structural)]
pub enum Pages {
    Onboarding,
    Overview,
    Player,
    Show { id: i64, season: i64 },
    Episode { id: i64 },
}

/// State of the onboarding page: whether the entered server is being tried,
/// and the last error met when trying one.
#[derive(Clone, Debug, Default)]
pub struct Onboarding {
    pub try_request: bool,
    pub last_error: Option<String>,
}

/// State of the overview page (it has none).
#[derive(Clone, Copy, Debug, PartialEq, Eq, Structural)]
pub struct Overview;

/// State of a series page: the series and the selected season.
#[derive(Clone, Copy, Debug, PartialEq, Eq, Structural)]
pub struct Show {
    pub id: i64,
    pub season: i64,
}

/// State of an episode page: the episode.
#[derive(Clone, Copy, Debug, PartialEq, Eq, Structural)]
pub struct Episode {
    pub id: i64,
}

/// The state of the page shown. The player page keeps its state (the seek
/// position, a fraction of seconds) with the interface.
#[derive(Clone, Debug)]
pub enum PageState {
    Onboarding(Onboarding),
    Overview(Overview),
    Player,
    Show(Show),
    Episode(Episode),
}

/// The state a page starts with.
pub open spec fn default_state(page: Pages) -> PageState {
    match page {
        Pages::Overview => PageState::Overview(Overview),
        Pages::Onboarding => PageState::Onboarding(Onboarding { try_request: false, last_error: None }),
        Pages::Show { id, season } => PageState::Show(Show { id, season }),
        Pages::Episode { id } => PageState::Episode(Episode { id }),
        Pages::Player => PageState::Player,
    }
}

impl Pages {
    /// The state this page starts with.
    pub fn get_default_state(&self) -> (r: PageState)
        ensures
            r == default_state(*self),
    {
        match self {
            Pages::Overview => PageState::Overview(Overview),
            Pages::Onboarding => PageState::Onboarding(Onboarding { try_request: false, last_error: None }),
            Pages::Show { id, season } => PageState::Show(Show { id: *id, season: *season }),
            Pages::Episode { id } => PageState::Episode(Episode { id: *id }),
            Pages::Player => PageState::Player,
        }
    }
}

} // verus!
