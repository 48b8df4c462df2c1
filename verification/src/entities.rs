//! Round-scoped entity storage: snake chain segments live in an arena of
//! slots keyed by generational ids, so a dangling reference is detected as a
//! failed lookup instead of aliasing a newer entity.

#![allow(unused_imports)]
use vstd::prelude::*;

use crate::direction::SnakeDirection;
use crate::geometry::Pos;

verus! {

/// The role a chain segment currently holds.  The chain's last element is
/// always the one `Tail`; the mark moves when the snake grows.
#[derive(Clone, Copy, Debug, PartialEq, Eq, Structural)]
pub enum SegmentRole {
    Body,
    Tail,
}

/// One body or tail segment of a snake chain.
#[derive(Clone, Copy, Debug, PartialEq, Eq, Structural)]
pub struct Segment {
    /// Position in world units.
    pub pos: Pos,
    /// Facing used by the rendering layer; the tail turns with the chain.
    pub facing: SnakeDirection,
    /// Bounding radius in world units.
    pub radius: u32,
    /// Body or tail mark.
    pub role: SegmentRole,
    /// Whether the segment can kill a head on overlap.
    pub collidible: bool,
}

/// A generational handle to a segment slot.
#[derive(Clone, Copy, Debug, PartialEq, Eq, Structural)]
pub struct SegmentId {
    pub index: usize,
    pub generation: u64,
}

/// One storage slot: a segment and the generation that currently owns the
/// slot.  After a despawn the slot keeps its last payload but is not live.
#[derive(Clone, Copy, Debug)]
pub struct Slot {
    pub generation: u64,
    pub live: bool,
    pub seg: Segment,
}

/// The arena that owns all chain segments of a round.  Ids handed out stay
/// valid until the segment is despawned; a stale id never resolves.
#[derive(Debug)]
pub struct SegmentArena {
    pub slots: Vec<Slot>,
}

impl SegmentArena {
    /// Whether `id` currently resolves to a live segment.
    pub open spec fn live(self, id: SegmentId) -> bool {
        &&& id.index < self.slots@.len()
        &&& self.slots@[id.index as int].live
        &&& self.slots@[id.index as int].generation == id.generation
    }

    /// The segment `id` resolves to (meaningful only while `live(id)`).
    pub open spec fn seg(self, id: SegmentId) -> Segment {
        self.slots@[id.index as int].seg
    }

    /// An empty arena.
    pub fn new() -> (r: Self)
        ensures
            r.slots@.len() == 0,
            forall|id: SegmentId| !(#[trigger] r.live(id)),
    {
        SegmentArena { slots: Vec::new() }
    }

    /// Stores a new segment and returns a fresh id: one that resolved to
    /// nothing before the call.  Existing segments are untouched.
    pub fn spawn(&mut self, seg: Segment) -> (id: SegmentId)
        ensures
            final(self).live(id),
            final(self).seg(id) == seg,
            !old(self).live(id),
            id.index == old(self).slots@.len(),
            final(self).slots@.len() == old(self).slots@.len() + 1,
            forall|j: SegmentId| j.index != id.index
                ==> #[trigger] final(self).live(j) == old(self).live(j),
            forall|j: SegmentId| old(self).live(j)
                ==> #[trigger] final(self).seg(j) == old(self).seg(j),
            forall|i: int| 0 <= i < old(self).slots@.len()
                ==> #[trigger] final(self).slots@[i] == old(self).slots@[i],
    {
        let id = SegmentId { index: self.slots.len(), generation: 0 };
        self.slots.push(Slot { generation: 0, live: true, seg });
        id
    }

    /// Removes the segment behind `id` if it is live; afterwards no id with
    /// that slot index resolves, and every other segment is untouched.  A
    /// stale or out-of-range id is a no-op.
    pub fn despawn(&mut self, id: SegmentId)
        ensures
            final(self).slots@.len() == old(self).slots@.len(),
            old(self).live(id)
                ==> forall|j: SegmentId| j.index == id.index
                    ==> !(#[trigger] final(self).live(j)),
            forall|j: SegmentId| j.index != id.index
                ==> #[trigger] final(self).live(j) == old(self).live(j),
            forall|j: SegmentId| old(self).live(j) && j.index != id.index
                ==> #[trigger] final(self).seg(j) == old(self).seg(j),
            !old(self).live(id) ==> final(self).slots@ == old(self).slots@,
    {
        if id.index < self.slots.len() {
            let slot = self.slots[id.index];
            if slot.live && slot.generation == id.generation {
                let bumped: u64 = if slot.generation < u64::MAX {
                    slot.generation + 1
                } else {
                    slot.generation
                };
                self.slots[id.index] = Slot { generation: bumped, live: false, seg: slot.seg };
            }
        }
    }

    /// Looks `id` up; a dangling id yields `None`.
    pub fn get(&self, id: SegmentId) -> (r: Option<Segment>)
        ensures
            r is Some <==> self.live(id),
            self.live(id) ==> r == Some(self.seg(id)),
    {
        if id.index < self.slots.len() {
            let slot = self.slots[id.index];
            if slot.live && slot.generation == id.generation {
                Some(slot.seg)
            } else {
                None
            }
        } else {
            None
        }
    }

    /// Overwrites the position of the live segment behind `id`.
    pub fn set_pos(&mut self, id: SegmentId, p: Pos)
        requires
            old(self).live(id),
        ensures
            final(self).slots@.len() == old(self).slots@.len(),
            forall|j: SegmentId| #[trigger] final(self).live(j) == old(self).live(j),
            final(self).seg(id) == (Segment { pos: p, ..old(self).seg(id) }),
            forall|j: SegmentId| old(self).live(j) && j.index != id.index
                ==> #[trigger] final(self).seg(j) == old(self).seg(j),
    {
        let slot = self.slots[id.index];
        self.slots[id.index] = Slot { seg: Segment { pos: p, ..slot.seg }, ..slot };
    }

    /// Overwrites the facing of the live segment behind `id`.
    pub fn set_facing(&mut self, id: SegmentId, f: SnakeDirection)
        requires
            old(self).live(id),
        ensures
            final(self).slots@.len() == old(self).slots@.len(),
            forall|j: SegmentId| #[trigger] final(self).live(j) == old(self).live(j),
            final(self).seg(id) == (Segment { facing: f, ..old(self).seg(id) }),
            forall|j: SegmentId| old(self).live(j) && j.index != id.index
                ==> #[trigger] final(self).seg(j) == old(self).seg(j),
    {
        let slot = self.slots[id.index];
        self.slots[id.index] = Slot { seg: Segment { facing: f, ..slot.seg }, ..slot };
    }

    /// Overwrites the role mark of the live segment behind `id`.
    pub fn set_role(&mut self, id: SegmentId, role: SegmentRole)
        requires
            old(self).live(id),
        ensures
            final(self).slots@.len() == old(self).slots@.len(),
            forall|j: SegmentId| #[trigger] final(self).live(j) == old(self).live(j),
            final(self).seg(id) == (Segment { role: role, ..old(self).seg(id) }),
            forall|j: SegmentId| old(self).live(j) && j.index != id.index
                ==> #[trigger] final(self).seg(j) == old(self).seg(j),
    {
        let slot = self.slots[id.index];
        self.slots[id.index] = Slot { seg: Segment { role: role, ..slot.seg }, ..slot };
    }
}

/// The ordered list of chain segment ids a head owns, nearest first, the
/// tail last.
#[derive(Debug)]
pub struct BodyRef(pub Vec<SegmentId>);

/// A snake: the head's own state plus the owned chain of body segment ids.
/// A dead snake keeps its state for rendering but is excluded from movement
/// and collision checks.
#[derive(Debug)]
pub struct SnakeHead {
    /// Head position in world units.
    pub pos: Pos,
    /// Current travel direction.
    pub direction: SnakeDirection,
    /// Facing used by the rendering layer; follows `direction`.
    pub facing: SnakeDirection,
    /// Bounding radius of the head in world units.
    pub radius: u32,
    /// Set once the head has hit a wall or a collidible segment.
    pub dead: bool,
    /// The owned chain, from head-adjacent to tail.
    pub body: BodyRef,
}

} // verus!
