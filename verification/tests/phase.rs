use snake_core::geometry::Arena;
use snake_core::phase::{
    dead_controls, in_game, on_enter_keys, transition_to_game, GamePhase, GameState,
};
use snake_core::round::Round;

fn default_arena() -> Arena {
    Arena { width: 40, height: 22, tile: 32 }
}

#[test]
fn pause_toggles_between_playing_and_paused() {
    let mut round = Round::new(default_arena());
    assert_eq!(round.phase, GamePhase::Playing);
    round.pause_controls(true);
    assert_eq!(round.phase, GamePhase::Paused);
    round.pause_controls(false);
    assert_eq!(round.phase, GamePhase::Paused);
    round.pause_controls(true);
    assert_eq!(round.phase, GamePhase::Playing);
}

#[test]
fn pause_never_leaves_dead() {
    let mut round = Round::new(default_arena());
    round.phase = GamePhase::Dead;
    round.pause_controls(true);
    assert_eq!(round.phase, GamePhase::Dead);
}

#[test]
fn start_key_transitions() {
    assert_eq!(transition_to_game(GameState::MainMenu, true), GameState::InGame);
    assert_eq!(transition_to_game(GameState::MainMenu, false), GameState::MainMenu);
    assert_eq!(on_enter_keys(GameState::EnterGame, true), GameState::InGame);
    assert_eq!(on_enter_keys(GameState::EnterGame, false), GameState::EnterGame);
    assert_eq!(dead_controls(GameState::InGame, true), GameState::EnterGame);
    assert_eq!(dead_controls(GameState::InGame, false), GameState::InGame);
}

#[test]
fn in_game_only_for_the_running_state() {
    assert!(in_game(GameState::InGame));
    assert!(!in_game(GameState::MainMenu));
    assert!(!in_game(GameState::AssetLoading));
    assert!(!in_game(GameState::EnterGame));
    assert!(!in_game(GameState::LeaveGame));
}
