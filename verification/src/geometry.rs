//! Arena bounds, world positions and the circle-overlap test.

#![allow(unused_imports)]
use vstd::prelude::*;

use crate::direction::SnakeDirection;

verus! {

/// Every world coordinate the core handles stays within this magnitude; the
/// bound leaves ample room for exact squared-distance arithmetic in `i128`.
pub const POS_LIMIT: i64 = 0x4000_0000_0000;

/// Upper bound on the world span (tiles times tile size) of an arena axis.
pub const MAX_SPAN: u64 = 0x10_0000;

/// A position in world units.  All simulation coordinates are integers: grid
/// points are multiples of the tile size and the apple may sit on any unit.
#[derive(Clone, Copy, Debug, PartialEq, Eq, Structural)]
pub struct Pos {
    pub x: i64,
    pub y: i64,
}

/// Whether a position is within the coordinate magnitude the core handles.
pub open spec fn pos_ok(p: Pos) -> bool {
    &&& -POS_LIMIT <= p.x <= POS_LIMIT
    &&& -POS_LIMIT <= p.y <= POS_LIMIT
}

/// Two circles are touching when the Euclidean distance between their centers
/// is strictly less than the sum of their radii; stated over squares so the
/// test is exact on integers.  Circles whose center distance equals the radius
/// sum do not touch.
pub open spec fn circles_touch_spec(a: Pos, ar: int, b: Pos, br: int) -> bool {
    (a.x - b.x) * (a.x - b.x) + (a.y - b.y) * (a.y - b.y) < (ar + br) * (ar + br)
}

/// Executable circle-overlap test, exact for all in-range inputs.
pub fn circles_touching(a: Pos, ar: u32, b: Pos, br: u32) -> (r: bool)
    requires
        pos_ok(a),
        pos_ok(b),
    ensures
        r == circles_touch_spec(a, ar as int, b, br as int),
{
    let dx: i128 = a.x as i128 - b.x as i128;
    let dy: i128 = a.y as i128 - b.y as i128;
    let rr: i128 = ar as i128 + br as i128;
    proof {
        assert(dx * dx <= 0x4000_0000_0000_0000_0000_0000_0000int && dx * dx >= 0)
            by (nonlinear_arith)
            requires -0x8000_0000_0000i128 <= dx <= 0x8000_0000_0000i128;
        assert(dy * dy <= 0x4000_0000_0000_0000_0000_0000_0000int && dy * dy >= 0)
            by (nonlinear_arith)
            requires -0x8000_0000_0000i128 <= dy <= 0x8000_0000_0000i128;
        assert(rr * rr <= 0x1_0000_0000_0000_0000_0000int && rr * rr >= 0)
            by (nonlinear_arith)
            requires 0 <= rr <= 0x2_0000_0000i128;
    }
    dx * dx + dy * dy < rr * rr
}

/// The collision threshold is exact: centers at distance whose square equals
/// the squared radius sum do not register, any strictly smaller squared
/// distance does.
pub proof fn lemma_collision_threshold(a: Pos, b: Pos, ar: int, br: int)
    ensures
        (a.x - b.x) * (a.x - b.x) + (a.y - b.y) * (a.y - b.y) == (ar + br) * (ar + br)
            ==> !circles_touch_spec(a, ar, b, br),
        (a.x - b.x) * (a.x - b.x) + (a.y - b.y) * (a.y - b.y) < (ar + br) * (ar + br)
            ==> circles_touch_spec(a, ar, b, br),
{
}

/// The grid arena: width and height in tiles and the tile size in world
/// units.  World-space bounds are symmetric about the origin.
#[derive(Clone, Copy, Debug, PartialEq, Eq, Structural)]
pub struct Arena {
    pub width: u32,
    pub height: u32,
    pub tile: u32,
}

impl Arena {
    /// Basic well-formedness: non-degenerate sizes and a world span small
    /// enough that every coordinate the round produces stays far inside
    /// [`POS_LIMIT`].
    pub open spec fn wf(self) -> bool {
        &&& 1 <= self.tile
        &&& 1 <= self.width
        &&& 1 <= self.height
        &&& self.width * self.tile <= MAX_SPAN
        &&& self.height * self.tile <= MAX_SPAN
    }

    /// Half of the world span along x: positions beyond it are out of bounds.
    pub open spec fn half_extent_x_spec(self) -> int {
        (self.width * self.tile) / 2
    }

    /// Half of the world span along y.
    pub open spec fn half_extent_y_spec(self) -> int {
        (self.height * self.tile) / 2
    }

    /// Executable counterpart of [`Self::half_extent_x_spec`].
    pub fn half_extent_x(&self) -> (r: i64)
        requires
            self.wf(),
        ensures
            r == self.half_extent_x_spec(),
    {
        ((self.width as u64 * self.tile as u64) / 2) as i64
    }

    /// Executable counterpart of [`Self::half_extent_y_spec`].
    pub fn half_extent_y(&self) -> (r: i64)
        requires
            self.wf(),
        ensures
            r == self.half_extent_y_spec(),
    {
        ((self.height as u64 * self.tile as u64) / 2) as i64
    }

    /// A position is in bounds while it does not exceed any wall; sitting
    /// exactly on a wall still counts as inside.
    pub open spec fn in_bounds_spec(self, p: Pos) -> bool {
        &&& -self.half_extent_x_spec() <= p.x <= self.half_extent_x_spec()
        &&& -self.half_extent_y_spec() <= p.y <= self.half_extent_y_spec()
    }

    /// A position at most one tile beyond a wall; where a head that was in
    /// bounds can be right after one movement step.
    pub open spec fn near_bounds_spec(self, p: Pos) -> bool {
        &&& -self.half_extent_x_spec() - self.tile <= p.x
            <= self.half_extent_x_spec() + self.tile
        &&& -self.half_extent_y_spec() - self.tile <= p.y
            <= self.half_extent_y_spec() + self.tile
    }

    /// Executable counterpart of [`Self::in_bounds_spec`].
    pub fn in_bounds(&self, p: Pos) -> (r: bool)
        requires
            self.wf(),
        ensures
            r == self.in_bounds_spec(p),
    {
        let hx = self.half_extent_x();
        let hy = self.half_extent_y();
        -hx <= p.x && p.x <= hx && -hy <= p.y && p.y <= hy
    }
}

/// Any near-bounds position of a well-formed arena is a valid coordinate.
pub proof fn lemma_near_bounds_pos_ok(arena: Arena, p: Pos)
    requires
        arena.wf(),
        arena.near_bounds_spec(p),
    ensures
        pos_ok(p),
{
}

/// One movement step: `r` is the position one `step` away from `p` in
/// direction `d`.
pub open spec fn stepped(p: Pos, d: SnakeDirection, step: u32, r: Pos) -> bool {
    &&& r.x == p.x + d.dx() * step
    &&& r.y == p.y + d.dy() * step
}

/// Moves `p` one `step` in direction `d`.
pub fn step_pos(p: Pos, d: SnakeDirection, step: u32) -> (r: Pos)
    requires
        pos_ok(p),
        step <= MAX_SPAN,
    ensures
        stepped(p, d, step, r),
{
    match d {
        SnakeDirection::Left => Pos { x: p.x - step as i64, y: p.y },
        SnakeDirection::Right => Pos { x: p.x + step as i64, y: p.y },
        SnakeDirection::Up => Pos { x: p.x, y: p.y + step as i64 },
        SnakeDirection::Down => Pos { x: p.x, y: p.y - step as i64 },
    }
}

/// The facing derived from travelling from `from` to `to`: the vertical sign
/// is examined first, then the horizontal one; no movement yields no facing.
pub open spec fn travel_facing_spec(from: Pos, to: Pos) -> Option<SnakeDirection> {
    if to.y > from.y {
        Some(SnakeDirection::Up)
    } else if to.y < from.y {
        Some(SnakeDirection::Down)
    } else if to.x > from.x {
        Some(SnakeDirection::Right)
    } else if to.x < from.x {
        Some(SnakeDirection::Left)
    } else {
        None
    }
}

/// Executable counterpart of [`travel_facing_spec`].
pub fn travel_facing(from: Pos, to: Pos) -> (r: Option<SnakeDirection>)
    ensures
        r == travel_facing_spec(from, to),
{
    if to.y > from.y {
        Some(SnakeDirection::Up)
    } else if to.y < from.y {
        Some(SnakeDirection::Down)
    } else if to.x > from.x {
        Some(SnakeDirection::Right)
    } else if to.x < from.x {
        Some(SnakeDirection::Left)
    } else {
        None
    }
}

} // verus!
