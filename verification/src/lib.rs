//! Simulation core of a grid-movement snake game.
//!
//! Independent snake entities steer, grow, collide and die on a shared
//! bounded arena while an apple-seeking objective drives scoring and a
//! difficulty ramp.  The crate covers input-to-direction resolution, the
//! fixed-timestep movement algorithm (segment-chain propagation and
//! rotation), growth-on-eat, collision detection (wall / body / apple),
//! per-player death tracking, global game-over detection, apple
//! relocation and the score-driven tick-rate curve.
//!
//! The host engine (window, rendering, asset loading, raw input polling)
//! stays outside: it hands the core plain values (newly pressed key
//! symbols, a pause flag) once per fixed tick and reads back positions,
//! facings, scores and the game phase.

#![allow(unused_imports)]
use vstd::prelude::*;

pub mod control;
pub mod direction;
pub mod entities;
pub mod geometry;
pub mod phase;
pub mod player;
pub mod rng;
pub mod round;

verus! {

/// Width of one grid tile in world units.
pub const TILE_SIZE: u32 = 32;

/// Default arena width, in tiles.
pub const WORLD_SIZE_X: u32 = 40;

/// Default arena height, in tiles.
pub const WORLD_SIZE_Y: u32 = 22;

/// Fixed-tick interval at round start, in microseconds (8 ticks per second).
pub const INITIAL_TICK_MICROS: u64 = 125_000;

} // verus!
