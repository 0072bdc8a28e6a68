use corekit::game_states::{
    final_score_message, handle_game_over, transition_to_game_state,
    transition_to_main_menu_state, AppState, SimulationState,
};

#[test]
fn the_game_key_enters_the_game() {
    assert_eq!(transition_to_game_state(true, AppState::MainMenu), Some(AppState::Game));
    assert_eq!(transition_to_game_state(true, AppState::GameOver), Some(AppState::Game));
    assert_eq!(transition_to_game_state(true, AppState::Game), None);
    assert_eq!(transition_to_game_state(false, AppState::MainMenu), None);
}

#[test]
fn the_menu_key_enters_the_menu_and_pauses() {
    let paused = Some((AppState::MainMenu, SimulationState::Paused));
    assert_eq!(transition_to_main_menu_state(true, AppState::Game), paused);
    assert_eq!(transition_to_main_menu_state(true, AppState::GameOver), paused);
    assert_eq!(transition_to_main_menu_state(true, AppState::MainMenu), None);
    assert_eq!(transition_to_main_menu_state(false, AppState::Game), None);
}

#[test]
fn game_over_events() {
    assert_eq!(handle_game_over(0), None);
    assert_eq!(handle_game_over(1), Some(AppState::GameOver));
    assert_eq!(handle_game_over(7), Some(AppState::GameOver));
    assert_eq!(final_score_message(0), "Your final score is: 0");
    assert_eq!(final_score_message(1203), "Your final score is: 1203");
    assert_eq!(final_score_message(usize::MAX), format!("Your final score is: {}", usize::MAX));
}
