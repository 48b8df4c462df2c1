//! The four travel directions and the rules that relate them.

#![allow(unused_imports)]
use vstd::prelude::*;

verus! {

/// A direction a snake can face or travel in, one per grid axis and sign.
#[derive(Clone, Copy, Debug, PartialEq, Eq, Structural)]
pub enum SnakeDirection {
    Left,
    Right,
    Up,
    Down,
}

impl SnakeDirection {
    /// The direction that points the opposite way (Left <-> Right, Up <-> Down).
    pub open spec fn opposite_spec(self) -> SnakeDirection {
        match self {
            SnakeDirection::Left => SnakeDirection::Right,
            SnakeDirection::Right => SnakeDirection::Left,
            SnakeDirection::Up => SnakeDirection::Down,
            SnakeDirection::Down => SnakeDirection::Up,
        }
    }

    /// Executable counterpart of [`Self::opposite_spec`].
    pub fn opposite(self) -> (r: SnakeDirection)
        ensures
            r == self.opposite_spec(),
    {
        match self {
            SnakeDirection::Left => SnakeDirection::Right,
            SnakeDirection::Right => SnakeDirection::Left,
            SnakeDirection::Up => SnakeDirection::Down,
            SnakeDirection::Down => SnakeDirection::Up,
        }
    }

    /// Unit offset of this direction along the x axis.
    pub open spec fn dx(self) -> int {
        match self {
            SnakeDirection::Left => -1,
            SnakeDirection::Right => 1,
            SnakeDirection::Up => 0,
            SnakeDirection::Down => 0,
        }
    }

    /// Unit offset of this direction along the y axis.
    pub open spec fn dy(self) -> int {
        match self {
            SnakeDirection::Left => 0,
            SnakeDirection::Right => 0,
            SnakeDirection::Up => 1,
            SnakeDirection::Down => -1,
        }
    }
}

/// A candidate direction is acceptable unless it is the exact opposite of the
/// current one: a snake may not reverse into itself.
pub open spec fn valid_direction_spec(prev: SnakeDirection, cand: SnakeDirection) -> bool {
    cand != prev.opposite_spec()
}

/// Whether switching from direction `prev` to `cand` is allowed.
pub fn valid_direction(prev: &SnakeDirection, cand: &SnakeDirection) -> (r: bool)
    ensures
        r == valid_direction_spec(*prev, *cand),
{
    match prev {
        SnakeDirection::Left => *cand != SnakeDirection::Right,
        SnakeDirection::Right => *cand != SnakeDirection::Left,
        SnakeDirection::Up => *cand != SnakeDirection::Down,
        SnakeDirection::Down => *cand != SnakeDirection::Up,
    }
}

/// The direction a snake keeps after an input tick: the candidate wins unless
/// it is missing or the exact opposite of the current direction.
pub open spec fn apply_input(
    current: SnakeDirection,
    candidate: Option<SnakeDirection>,
) -> SnakeDirection {
    match candidate {
        Some(d) => if valid_direction_spec(current, d) {
            d
        } else {
            current
        },
        None => current,
    }
}

/// An opposite-direction input never changes the current direction, and any
/// other candidate always wins.
pub proof fn lemma_opposite_direction_rejected(
    current: SnakeDirection,
    candidate: SnakeDirection,
)
    ensures
        candidate == current.opposite_spec() ==> apply_input(current, Some(candidate)) == current,
        candidate != current.opposite_spec() ==> apply_input(current, Some(candidate)) == candidate,
{
}

} // verus!
