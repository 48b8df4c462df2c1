//! Players: identity, control scheme, snake reference and score.

#![allow(unused_imports)]
use vstd::prelude::*;

use crate::control::ControlScheme;

verus! {

/// A display name.
#[derive(Clone, Debug)]
pub struct Named(pub String);

/// A player's score: non-negative, non-decreasing during a round and reset
/// on round entry.
#[derive(Clone, Copy, Debug, PartialEq, Eq, Structural)]
pub struct Score {
    pub value: u32,
}

/// The index of the snake a player steers, if one has been attached by
/// round setup.
#[derive(Clone, Copy, Debug, PartialEq, Eq, Structural)]
pub struct SnakeHeadRef(pub Option<usize>);

/// One participant of a round.
#[derive(Debug)]
pub struct Player {
    pub name: Named,
    pub control_scheme: ControlScheme,
    pub snake_head_ref: SnakeHeadRef,
    pub score: Score,
}

} // verus!
