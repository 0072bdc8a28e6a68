//! The states of an arcade game's program and what takes it from one to the
//! other. Each function here decides; reading keys and events, and telling
//! the engine, is the caller's.

use crate::chars::{decimal_text, push_decimal};
use vstd::prelude::*;
use vstd::string::StringExecFns;

verus! {

/// What the program shows.
#[derive(Clone, Copy, Debug, PartialEq, Eq, Hash, Structural)]
pub enum AppState {
    MainMenu,
    Game,
    GameOver,
}

/// Whether the world of the game moves.
#[derive(Clone, Copy, Debug, PartialEq, Eq, Hash, Structural)]
pub enum SimulationState {
    Running,
    Paused,
}

/// The state to enter when the key for the game may have been pressed: the
/// game, unless it is shown already.
pub open spec fn spec_transition_to_game_state(pressed: bool, current: AppState) -> Option<
    AppState,
> {
    if pressed && current != AppState::Game {
        Some(AppState::Game)
    } else {
        None
    }
}

#[verifier::when_used_as_spec(spec_transition_to_game_state)]
pub fn transition_to_game_state(pressed: bool, current: AppState) -> (next: Option<AppState>)
    ensures
        next == spec_transition_to_game_state(pressed, current),
{
    if pressed && current != AppState::Game {
        Some(AppState::Game)
    } else {
        None
    }
}

/// The states to enter when the key for the main menu may have been
/// pressed: the menu, with the world paused, unless the menu is shown
/// already.
pub open spec fn spec_transition_to_main_menu_state(pressed: bool, current: AppState) -> Option<
    (AppState, SimulationState),
> {
    if pressed && current != AppState::MainMenu {
        Some((AppState::MainMenu, SimulationState::Paused))
    } else {
        None
    }
}

#[verifier::when_used_as_spec(spec_transition_to_main_menu_state)]
pub fn transition_to_main_menu_state(pressed: bool, current: AppState) -> (next: Option<
    (AppState, SimulationState),
>)
    ensures
        next == spec_transition_to_main_menu_state(pressed, current),
{
    if pressed && current != AppState::MainMenu {
        Some((AppState::MainMenu, SimulationState::Paused))
    } else {
        None
    }
}

/// The state to enter after `events` reports that the game is over: that of
/// a game that is over, if there was any report.
pub fn handle_game_over(events: usize) -> (next: Option<AppState>)
    ensures
        next == if events > 0 {
            Some(AppState::GameOver)
        } else {
            None::<AppState>
        },
{
    if events > 0 {
        Some(AppState::GameOver)
    } else {
        None
    }
}

/// What is said of a final score.
pub open spec fn final_score_text(score: nat) -> Seq<char> {
    "Your final score is: "@ + decimal_text(score)
}

/// What is said of a final score.
pub fn final_score_message(score: usize) -> (out: String)
    ensures
        out@ == final_score_text(score as nat),
{
    let mut out = String::new();
    out.append("Your final score is: ");
    push_decimal(&mut out, score);
    out
}

} // verus!
