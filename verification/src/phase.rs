//! The outer game lifecycle and the in-round phase state machines.

#![allow(unused_imports)]
use vstd::prelude::*;

verus! {

/// Outer lifecycle of the application; a round's phase exists only while the
/// state is `InGame`.
#[derive(Clone, Copy, Debug, PartialEq, Eq, Structural)]
pub enum GameState {
    AssetLoading,
    MainMenu,
    EnterGame,
    InGame,
    LeaveGame,
}

/// Sub-state of a running round.  `Playing` and `Paused` toggle freely;
/// `Dead` is terminal for the round.
#[derive(Clone, Copy, Debug, PartialEq, Eq, Structural)]
pub enum GamePhase {
    Playing,
    Paused,
    Dead,
}

/// Result of a pause input: `Playing` and `Paused` swap, `Dead` is kept.
pub open spec fn pause_toggle_spec(phase: GamePhase) -> GamePhase {
    match phase {
        GamePhase::Playing => GamePhase::Paused,
        GamePhase::Paused => GamePhase::Playing,
        GamePhase::Dead => GamePhase::Dead,
    }
}

/// Whether the outer state hosts a running round.
pub open spec fn in_game_spec(state: GameState) -> bool {
    state == GameState::InGame
}

/// Executable counterpart of [`in_game_spec`].
pub fn in_game(state: GameState) -> (r: bool)
    ensures
        r == in_game_spec(state),
{
    match state {
        GameState::InGame => true,
        _ => false,
    }
}

/// Main-menu input handling: holding the start key enters the round.
pub fn transition_to_game(state: GameState, start_pressed: bool) -> (r: GameState)
    ensures
        start_pressed ==> r == GameState::InGame,
        !start_pressed ==> r == state,
{
    if start_pressed {
        GameState::InGame
    } else {
        state
    }
}

/// Character-selection input handling: pressing the start key enters the
/// round.
pub fn on_enter_keys(state: GameState, start_pressed: bool) -> (r: GameState)
    ensures
        start_pressed ==> r == GameState::InGame,
        !start_pressed ==> r == state,
{
    if start_pressed {
        GameState::InGame
    } else {
        state
    }
}

/// Game-over input handling: pressing the start key returns to the
/// pre-round entry state.
pub fn dead_controls(state: GameState, start_pressed: bool) -> (r: GameState)
    ensures
        start_pressed ==> r == GameState::EnterGame,
        !start_pressed ==> r == state,
{
    if start_pressed {
        GameState::EnterGame
    } else {
        state
    }
}

} // verus!
