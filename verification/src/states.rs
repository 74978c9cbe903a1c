use vstd::prelude::*;

verus! {

/// Top-level screens of the game.
#[derive(Debug, Clone, Copy, PartialEq, Eq, Structural, Hash)]
pub enum AppState {
    Loading,
    MainMenu,
    InGame,
    Paused,
    RewardSelect,
    GameOver,
    Victory,
}

impl Default for AppState {
    fn default() -> (s: Self)
        ensures
            s == AppState::Loading,
    {
        AppState::Loading
    }
}

/// Lock state of the room the player stands in.
#[derive(Debug, Clone, Copy, PartialEq, Eq, Structural, Hash)]
pub enum RoomState {
    Idle,
    Locked,
    Cleared,
    BossFight,
}

impl Default for RoomState {
    fn default() -> (s: Self)
        ensures
            s == RoomState::Idle,
    {
        RoomState::Idle
    }
}

/// The screen a key press or loading leads to, if any: loading ends in the
/// main menu once the configuration is ready; Enter starts a run from the
/// main menu and returns to it from the defeat and victory screens; Escape
/// pauses a run and resumes a paused one.
pub open spec fn spec_screen_after_input(
    state: AppState,
    configs_ready: bool,
    enter: bool,
    escape: bool,
) -> Option<AppState> {
    match state {
        AppState::Loading => if configs_ready {
            Some(AppState::MainMenu)
        } else {
            None
        },
        AppState::MainMenu => if enter {
            Some(AppState::InGame)
        } else {
            None
        },
        AppState::InGame => if escape {
            Some(AppState::Paused)
        } else {
            None
        },
        AppState::Paused => if escape {
            Some(AppState::InGame)
        } else {
            None
        },
        AppState::GameOver | AppState::Victory => if enter {
            Some(AppState::MainMenu)
        } else {
            None
        },
        AppState::RewardSelect => None,
    }
}

/// The screen to switch to after this frame's keys, if any.
pub fn screen_after_input(state: AppState, configs_ready: bool, enter: bool, escape: bool) -> (next:
    Option<AppState>)
    ensures
        next == spec_screen_after_input(state, configs_ready, enter, escape),
{
    match state {
        AppState::Loading => if configs_ready {
            Some(AppState::MainMenu)
        } else {
            None
        },
        AppState::MainMenu => if enter {
            Some(AppState::InGame)
        } else {
            None
        },
        AppState::InGame => if escape {
            Some(AppState::Paused)
        } else {
            None
        },
        AppState::Paused => if escape {
            Some(AppState::InGame)
        } else {
            None
        },
        AppState::GameOver | AppState::Victory => if enter {
            Some(AppState::MainMenu)
        } else {
            None
        },
        AppState::RewardSelect => None,
    }
}

/// Escape pressed twice brings a run back from the pause screen, Enter on a
/// result screen always goes back to the main menu, and the reward screen is
/// left only by taking a reward.
pub proof fn lemma_screen_flow(configs_ready: bool, enter: bool)
    ensures
        ({
            let paused = spec_screen_after_input(AppState::InGame, configs_ready, enter, true);
            &&& paused == Some(AppState::Paused)
            &&& spec_screen_after_input(AppState::Paused, configs_ready, enter, true) == Some(
                AppState::InGame,
            )
        }),
        spec_screen_after_input(AppState::GameOver, configs_ready, true, false) == Some(
            AppState::MainMenu,
        ),
        spec_screen_after_input(AppState::Victory, configs_ready, true, true) == Some(
            AppState::MainMenu,
        ),
        forall|e: bool, x: bool| spec_screen_after_input(AppState::RewardSelect, configs_ready, e, x) is None,
{
}

} // verus!
