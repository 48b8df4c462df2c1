//! Randomness for apple placement, drawn from the host's RNG crate.

#![allow(unused_imports)]
use vstd::prelude::*;

use crate::geometry::{Arena, Pos};

verus! {

/// Relies on `bevy_turborand::GlobalRng::new` and the delegated
/// `TurboRand::i64` method: a freshly seeded generator samples a value
/// within the given inclusive bounds.  The method panics only on an empty
/// range, which the precondition rules out; nothing more is assumed of
/// which value comes back.
#[verifier::external_body]
fn sample_inclusive(lo: i64, hi: i64) -> (r: i64)
    requires
        lo <= hi,
    ensures
        lo <= r <= hi,
{
    let mut rng = bevy_turborand::GlobalRng::new();
    bevy_turborand::DelegatedRng::i64(&mut rng, lo..=hi)
}

/// A random point within the arena bounds: each coordinate is sampled over
/// the full symmetric range of the arena.  Callers learn only that the
/// point is in bounds, which holds of every outcome.
pub fn get_random_point(arena: &Arena) -> (p: Pos)
    requires
        arena.wf(),
    ensures
        arena.in_bounds_spec(p),
{
    let hx = arena.half_extent_x();
    let hy = arena.half_extent_y();
    let x = sample_inclusive(-hx, hx);
    let y = sample_inclusive(-hy, hy);
    Pos { x, y }
}

} // verus!
