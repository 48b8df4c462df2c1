//! The round context: all mutable state of one running round, and the
//! per-tick systems that update it.  The host drives one call sequence per
//! fixed tick; movement strictly precedes collision detection, and growth
//! and apple relocation are applied after collision detection.
//!
//! A collision marks only the snake that hit something as dead; the round
//! as a whole ends (phase `Dead`) only once every head is dead.

#![allow(unused_imports)]
use vstd::prelude::*;

use crate::control::{lookup_key, resolve_candidate, ControlScheme};
use crate::direction::{apply_input, valid_direction, valid_direction_spec, SnakeDirection};
use crate::entities::{BodyRef, Segment, SegmentArena, SegmentId, SegmentRole, Slot, SnakeHead};
use crate::geometry::{
    circles_touch_spec, circles_touching, pos_ok, step_pos, stepped, travel_facing,
    travel_facing_spec, Arena, Pos,
};
use crate::phase::{pause_toggle_spec, GamePhase};
use crate::player::{Named, Player, Score, SnakeHeadRef};
use crate::rng::get_random_point;
use crate::INITIAL_TICK_MICROS;

verus! {

/// Bounding radius of the apple, in world units.
pub const APPLE_RADIUS: u32 = 8;

/// Notification that the apple was eaten and must relocate.
#[derive(Clone, Copy, Debug)]
pub struct MoveAppleEvent;

/// Notification that the snake with the carried index ate the apple and
/// must grow by one segment.
#[derive(Clone, Copy, Debug, PartialEq, Eq, Structural)]
pub struct GrowSnakeEvent(pub usize);

/// The single apple of a round: a world position and a bounding radius.
/// It is never despawned; eating it only relocates it.
#[derive(Clone, Copy, Debug, PartialEq, Eq, Structural)]
pub struct Apple {
    pub pos: Pos,
    pub radius: u32,
}

/// The id at position `i` of snake `k`'s chain (0 is head-adjacent).
pub open spec fn cid(snakes: Seq<SnakeHead>, k: int, i: int) -> SegmentId {
    snakes[k].body.0@[i]
}

/// Snake `k`'s chain is intact: every id resolves, the last segment and
/// only it carries the tail mark, every segment can collide, and the head
/// and all segments sit at valid coordinates.
pub open spec fn snake_wf(arena: Arena, segs: SegmentArena, snakes: Seq<SnakeHead>, k: int) -> bool {
    &&& 1 <= snakes[k].body.0@.len()
    &&& arena.near_bounds_spec(snakes[k].pos)
    &&& forall|i: int|
        0 <= i < snakes[k].body.0@.len() ==> segs.live(#[trigger] cid(snakes, k, i))
    &&& forall|i: int|
        0 <= i < snakes[k].body.0@.len()
            ==> (#[trigger] segs.seg(cid(snakes, k, i))).role == (if i + 1
            == snakes[k].body.0@.len() {
            SegmentRole::Tail
        } else {
            SegmentRole::Body
        })
    &&& forall|i: int|
        0 <= i < snakes[k].body.0@.len() ==> (#[trigger] segs.seg(cid(snakes, k, i))).collidible
    &&& forall|i: int|
        0 <= i < snakes[k].body.0@.len() ==> arena.near_bounds_spec(
            (#[trigger] segs.seg(cid(snakes, k, i))).pos,
        )
}

/// All chains are intact.
pub open spec fn snakes_wf(arena: Arena, segs: SegmentArena, snakes: Seq<SnakeHead>) -> bool {
    forall|k: int| 0 <= k < snakes.len() ==> #[trigger] snake_wf(arena, segs, snakes, k)
}

/// No segment belongs to two chain positions, within or across snakes.
pub open spec fn chains_disjoint(snakes: Seq<SnakeHead>) -> bool {
    forall|k1: int, i1: int, k2: int, i2: int|
        0 <= k1 < snakes.len() && 0 <= i1 < snakes[k1].body.0@.len() && 0 <= k2 < snakes.len()
            && 0 <= i2 < snakes[k2].body.0@.len() && (k1 != k2 || i1 != i2)
            ==> #[trigger] cid(snakes, k1, i1) != #[trigger] cid(snakes, k2, i2)
}

/// Player references are valid snake indices, no two players steer the
/// same snake, and every control scheme is well-formed.
pub open spec fn players_wf(players: Seq<Player>, n_snakes: nat) -> bool {
    &&& forall|p: int|
        0 <= p < players.len()
            ==> ((#[trigger] players[p].snake_head_ref.0) matches Some(k) ==> k < n_snakes)
    &&& forall|p1: int, p2: int|
        0 <= p1 < p2 < players.len() && (#[trigger] players[p1].snake_head_ref.0) is Some && (
        #[trigger] players[p2].snake_head_ref.0) is Some ==> players[p1].snake_head_ref.0
            != players[p2].snake_head_ref.0
    &&& forall|p: int| 0 <= p < players.len() ==> (#[trigger] players[p].control_scheme).wf()
}

/// Every live slot of the storage sits at a valid coordinate, so a head
/// circle can be tested against any collidible segment.
pub open spec fn segs_bounded(arena: Arena, segs: SegmentArena) -> bool {
    forall|j: int|
        0 <= j < segs.slots@.len() && (#[trigger] segs.slots@[j]).live
            ==> arena.near_bounds_spec(segs.slots@[j].seg.pos)
}

/// Whether a head circle at `hp` with radius `hr` overlaps a live
/// collidible segment among the first `n` storage slots.
pub open spec fn hits_collidible_upto(segs: SegmentArena, n: int, hp: Pos, hr: u32) -> bool {
    exists|j: int|
        0 <= j < n && j < segs.slots@.len() && (#[trigger] segs.slots@[j]).live
            && segs.slots@[j].seg.collidible && circles_touch_spec(
            hp,
            hr as int,
            segs.slots@[j].seg.pos,
            segs.slots@[j].seg.radius as int,
        )
}

/// Whether a head circle at `hp` with radius `hr` overlaps some live
/// collidible segment of the storage.
pub open spec fn hits_collidible(segs: SegmentArena, hp: Pos, hr: u32) -> bool {
    hits_collidible_upto(segs, segs.slots@.len() as int, hp, hr)
}

/// A live head dies this tick exactly when it exceeds an arena bound or
/// overlaps a collidible segment.
pub open spec fn should_die(arena: Arena, segs: SegmentArena, s: SnakeHead) -> bool {
    !arena.in_bounds_spec(s.pos) || hits_collidible(segs, s.pos, s.radius)
}

/// Whether player `p` eats the apple this tick: its snake was alive at
/// tick start (per the `dead0` flags) and the head circle overlaps the
/// apple circle.  A player without an attached snake eats nothing.
pub open spec fn ate(
    players: Seq<Player>,
    snakes: Seq<SnakeHead>,
    apple: Apple,
    dead0: Seq<bool>,
    p: int,
) -> bool {
    players[p].snake_head_ref.0 matches Some(k) && k < snakes.len() && k < dead0.len()
        && !dead0[k as int] && circles_touch_spec(
        apple.pos,
        apple.radius as int,
        snakes[k as int].pos,
        snakes[k as int].radius as int,
    )
}

/// The players among the first `n` that eat the apple this tick, in player
/// order.
pub open spec fn eaters_upto(
    players: Seq<Player>,
    snakes: Seq<SnakeHead>,
    apple: Apple,
    dead0: Seq<bool>,
    n: int,
) -> Seq<usize>
    decreases n,
{
    if n <= 0 {
        Seq::empty()
    } else {
        let rest = eaters_upto(players, snakes, apple, dead0, n - 1);
        if ate(players, snakes, apple, dead0, n - 1) {
            rest.push((n - 1) as usize)
        } else {
            rest
        }
    }
}

/// One application of the difficulty ramp: the tick interval shrinks to
/// ninety-five hundredths of its value, rounded down.
pub open spec fn decelerate_spec(m: int) -> int {
    m * 95 / 100
}

/// The tick interval after `n` apples, starting from `m`.
pub open spec fn decel_iter(m: int, n: nat) -> int
    decreases n,
{
    if n == 0 {
        m
    } else {
        decelerate_spec(decel_iter(m, (n - 1) as nat))
    }
}

/// One deceleration step never increases the interval and keeps it
/// non-negative.
pub proof fn lemma_decelerate_le(m: int)
    requires
        0 <= m,
    ensures
        0 <= decelerate_spec(m) <= m,
{
    assert(m * 95 <= m * 100) by (nonlinear_arith)
        requires 0 <= m;
    assert(0 <= m * 95) by (nonlinear_arith)
        requires 0 <= m;
    vstd::arithmetic::div_mod::lemma_div_is_ordered(m * 95, m * 100, 100);
    vstd::arithmetic::div_mod::lemma_div_by_multiple(m, 100);
    vstd::arithmetic::div_mod::lemma_div_is_ordered(0, m * 95, 100);
}

/// The eater list is strictly increasing, stays in range, and holds
/// exactly the players that ate.
pub proof fn lemma_eaters_upto_props(
    players: Seq<Player>,
    snakes: Seq<SnakeHead>,
    apple: Apple,
    dead0: Seq<bool>,
    n: int,
)
    requires
        n <= usize::MAX,
    ensures
        ({
            let e = eaters_upto(players, snakes, apple, dead0, n);
            &&& forall|i: int| 0 <= i < e.len() ==> 0 <= #[trigger] e[i] < n
            &&& forall|i: int, j: int| 0 <= i < j < e.len() ==> e[i] < e[j]
            &&& forall|i: int| 0 <= i < e.len() ==> ate(players, snakes, apple, dead0, #[trigger] e[i] as int)
            &&& forall|p: int| 0 <= p < n && ate(players, snakes, apple, dead0, p) ==> e.contains(
                (p as usize),
            )
        }),
    decreases n,
{
    if n > 0 {
        lemma_eaters_upto_props(players, snakes, apple, dead0, n - 1);
        let e0 = eaters_upto(players, snakes, apple, dead0, n - 1);
        let e = eaters_upto(players, snakes, apple, dead0, n);
        if ate(players, snakes, apple, dead0, n - 1) {
            assert(e == e0.push(((n - 1) as usize)));
            assert(((n - 1) as usize) as int == n - 1);
            assert(e[e.len() - 1] == ((n - 1) as usize));
            assert forall|i: int| 0 <= i < e.len() implies 0 <= #[trigger] e[i] < n by {
                if i < e0.len() {
                    assert(e[i] == e0[i]);
                }
            }
            assert forall|i: int, j: int| 0 <= i < j < e.len() implies e[i] < e[j] by {
                if j < e0.len() {
                    assert(e[i] == e0[i] && e[j] == e0[j]);
                } else {
                    assert(e[i] == e0[i] && 0 <= e0[i] < n - 1);
                    assert(e[j] == ((n - 1) as usize));
                }
            }
            assert forall|i: int| 0 <= i < e.len() implies ate(
                players,
                snakes,
                apple,
                dead0,
                #[trigger] e[i] as int,
            ) by {
                if i < e0.len() {
                    assert(e[i] == e0[i]);
                    assert(ate(players, snakes, apple, dead0, e0[i] as int));
                }
            }
        } else {
            assert(e == e0);
        }
        assert forall|p: int|
            0 <= p < n && ate(players, snakes, apple, dead0, p) implies e.contains(
            (p as usize),
        ) by {
            if p == n - 1 {
                assert(e[e.len() - 1] == (p as usize));
            } else {
                assert(e0.contains((p as usize)));
                let i = choose|i: int| 0 <= i < e0.len() && e0[i] == (p as usize);
                assert(e[i] == (p as usize));
            }
        }
    }
}

/// Who eats depends only on the player references, the apple, the tick
/// start flags and each head's position and radius; any other difference
/// between two snake lists does not matter.
pub proof fn lemma_eaters_frame(
    players: Seq<Player>,
    snakes1: Seq<SnakeHead>,
    snakes2: Seq<SnakeHead>,
    apple: Apple,
    dead0: Seq<bool>,
    n: int,
)
    requires
        snakes2.len() == snakes1.len(),
        forall|k: int|
            0 <= k < snakes1.len() ==> (#[trigger] snakes2[k]).pos == snakes1[k].pos && snakes2[
                k
            ].radius == snakes1[k].radius,
    ensures
        forall|p: int|
            #[trigger] ate(players, snakes2, apple, dead0, p) == ate(
                players,
                snakes1,
                apple,
                dead0,
                p,
            ),
        eaters_upto(players, snakes2, apple, dead0, n) == eaters_upto(
            players,
            snakes1,
            apple,
            dead0,
            n,
        ),
    decreases n,
{
    assert forall|p: int| #[trigger]
        ate(players, snakes2, apple, dead0, p) == ate(players, snakes1, apple, dead0, p) by {
        if players[p].snake_head_ref.0 is Some {
            let k = players[p].snake_head_ref.0->0;
            if k < snakes1.len() {
                assert(snakes2[k as int].pos == snakes1[k as int].pos);
            }
        }
    }
    if n > 0 {
        lemma_eaters_frame(players, snakes1, snakes2, apple, dead0, n - 1);
    }
}

/// Difficulty monotonicity: across any number of eat events the tick
/// interval never increases, stays non-negative, and each further eat can
/// only shrink it.
pub proof fn lemma_difficulty_monotonic(m: int, n: nat)
    requires
        0 <= m,
    ensures
        0 <= decel_iter(m, n) <= m,
        decel_iter(m, n + 1) <= decel_iter(m, n),
    decreases n,
{
    if n == 0 {
        lemma_decelerate_le(m);
    } else {
        lemma_difficulty_monotonic(m, (n - 1) as nat);
        lemma_decelerate_le(decel_iter(m, (n - 1) as nat));
        lemma_decelerate_le(decel_iter(m, n));
    }
}

/// Whether one of the first `p` players steers snake `k`.
pub open spec fn steered_before(players: Seq<Player>, k: int, p: int) -> bool {
    exists|q: int|
        0 <= q < p && (#[trigger] players[q].snake_head_ref.0) == Some(k as usize)
}

/// Whether `id` belongs to the chain of one of the first `n` snakes that is
/// not dead (the chains movement touches).
pub open spec fn touched_chain(snakes: Seq<SnakeHead>, n: int, id: SegmentId) -> bool {
    exists|j: int, i: int|
        0 <= j < n && j < snakes.len() && !snakes[j].dead && 0 <= i < snakes[j].body.0@.len()
            && #[trigger] cid(snakes, j, i) == id
}

/// Propagates one chain one tick: each segment takes the position its
/// predecessor (the lead for segment 0) held before the call, and the tail
/// turns to face its direction of travel.  A dangling id would be skipped;
/// the round invariant rules that out, so the contract assumes an intact
/// chain.
fn move_chain(segs: &mut SegmentArena, body: &Vec<SegmentId>, lead_pos: Pos)
    requires
        forall|i: int| 0 <= i < body@.len() ==> old(segs).live(#[trigger] body@[i]),
        forall|i: int, j: int| 0 <= i < j < body@.len() ==> body@[i] != body@[j],
    ensures
        final(segs).slots@.len() == old(segs).slots@.len(),
        forall|id: SegmentId| #[trigger] final(segs).live(id) == old(segs).live(id),
        forall|id: SegmentId|
            old(segs).live(id) && !body@.contains(id) ==> #[trigger] final(segs).seg(id) == old(
                segs,
            ).seg(id),
        moved_chain(*old(segs), *final(segs), body@, lead_pos),
{
    let ghost pre = *segs;
    let mut prev = lead_pos;
    let mut i: usize = 0;
    while i < body.len()
        invariant
            i <= body@.len(),
            forall|j: int| 0 <= j < body@.len() ==> pre.live(#[trigger] body@[j]),
            forall|j1: int, j2: int| 0 <= j1 < j2 < body@.len() ==> body@[j1] != body@[j2],
            segs.slots@.len() == pre.slots@.len(),
            forall|id: SegmentId| #[trigger] segs.live(id) == pre.live(id),
            forall|id: SegmentId|
                pre.live(id) && !body@.contains(id) ==> #[trigger] segs.seg(id) == pre.seg(id),
            forall|j: int|
                0 <= j < i ==> (#[trigger] segs.seg(body@[j])).pos == (if j == 0 {
                    lead_pos
                } else {
                    pre.seg(body@[j - 1]).pos
                }),
            forall|j: int|
                0 <= j < i ==> {
                    &&& (#[trigger] segs.seg(body@[j])).role == pre.seg(body@[j]).role
                    &&& segs.seg(body@[j]).radius == pre.seg(body@[j]).radius
                    &&& segs.seg(body@[j]).collidible == pre.seg(body@[j]).collidible
                },
            forall|j: int|
                0 <= j < i && j < body@.len() - 1 ==> (#[trigger] segs.seg(body@[j])).facing
                    == pre.seg(body@[j]).facing,
            i > 0 && i == body@.len() ==> segs.seg(body@[i - 1]).facing == (
            match travel_facing_spec(pre.seg(body@[i - 1]).pos, segs.seg(body@[i - 1]).pos) {
                Some(f) => f,
                None => pre.seg(body@[i - 1]).facing,
            }),
            forall|j: int| i <= j < body@.len() ==> #[trigger] segs.seg(body@[j]) == pre.seg(
                body@[j],
            ),
            prev == (if i == 0 {
                lead_pos
            } else {
                pre.seg(body@[i - 1]).pos
            }),
        decreases body@.len() - i,
    {
        let id = body[i];
        match segs.get(id) {
            Some(seg) => {
                let old_pos = seg.pos;
                segs.set_pos(id, prev);
                if i + 1 == body.len() {
                    match travel_facing(old_pos, prev) {
                        Some(f) => segs.set_facing(id, f),
                        None => {},
                    }
                }
                prev = old_pos;
            },
            None => {},
        }
        i = i + 1;
    }
}

/// Movement propagation along one chain: after the tick, segment 0 holds
/// the position the lead (head) held before, segment `i` the position its
/// predecessor held before; only positions move, except that the tail turns
/// to face the direction it travelled.
pub open spec fn moved_chain(
    pre: SegmentArena,
    post: SegmentArena,
    body: Seq<SegmentId>,
    lead: Pos,
) -> bool {
    &&& forall|i: int|
        0 <= i < body.len() ==> (#[trigger] post.seg(body[i])).pos == (if i == 0 {
            lead
        } else {
            pre.seg(body[i - 1]).pos
        })
    &&& forall|i: int|
        0 <= i < body.len() ==> {
            &&& (#[trigger] post.seg(body[i])).role == pre.seg(body[i]).role
            &&& post.seg(body[i]).radius == pre.seg(body[i]).radius
            &&& post.seg(body[i]).collidible == pre.seg(body[i]).collidible
        }
    &&& forall|i: int|
        0 <= i < body.len() - 1 ==> (#[trigger] post.seg(body[i])).facing == pre.seg(
            body[i],
        ).facing
    &&& body.len() > 0 ==> post.seg(body[body.len() - 1]).facing == (match travel_facing_spec(
        pre.seg(body[body.len() - 1]).pos,
        post.seg(body[body.len() - 1]).pos,
    ) {
        Some(f) => f,
        None => pre.seg(body[body.len() - 1]).facing,
    })
}

/// The propagation relation also holds against an earlier storage snapshot
/// in which the chain's segments had the same values.
pub proof fn lemma_moved_chain_pre_frame(
    pre: SegmentArena,
    mid: SegmentArena,
    post: SegmentArena,
    body: Seq<SegmentId>,
    lead: Pos,
)
    requires
        moved_chain(mid, post, body, lead),
        forall|i: int| 0 <= i < body.len() ==> #[trigger] pre.seg(body[i]) == mid.seg(body[i]),
    ensures
        moved_chain(pre, post, body, lead),
{
    assert forall|i: int| 0 <= i < body.len() implies (#[trigger] pre.seg(body[i])) == mid.seg(
        body[i],
    ) by {}
}

/// A propagated chain keeps being propagated when later updates leave its
/// segments alone.
pub proof fn lemma_moved_chain_frame(
    pre: SegmentArena,
    mid: SegmentArena,
    post: SegmentArena,
    body: Seq<SegmentId>,
    lead: Pos,
)
    requires
        moved_chain(pre, mid, body, lead),
        forall|i: int| 0 <= i < body.len() ==> #[trigger] post.seg(body[i]) == mid.seg(body[i]),
    ensures
        moved_chain(pre, post, body, lead),
{
    assert forall|i: int| 0 <= i < body.len() implies (#[trigger] post.seg(body[i])) == mid.seg(
        body[i],
    ) by {}
}

/// A chain stays intact when its snake keeps the same body list and head
/// position and the storage keeps its segments, whatever happened to other
/// snakes' fields or segments.
pub proof fn lemma_snake_wf_frame(
    arena: Arena,
    segs1: SegmentArena,
    segs2: SegmentArena,
    s1: Seq<SnakeHead>,
    s2: Seq<SnakeHead>,
    k: int,
)
    requires
        0 <= k < s1.len(),
        k < s2.len(),
        snake_wf(arena, segs1, s1, k),
        s2[k].body == s1[k].body,
        s2[k].pos == s1[k].pos,
        forall|i: int|
            0 <= i < s1[k].body.0@.len() ==> #[trigger] segs2.live(cid(s1, k, i)) == segs1.live(
                cid(s1, k, i),
            ),
        forall|i: int|
            0 <= i < s1[k].body.0@.len() ==> #[trigger] segs2.seg(cid(s1, k, i)) == segs1.seg(
                cid(s1, k, i),
            ),
    ensures
        snake_wf(arena, segs2, s2, k),
{
    assert forall|i: int| 0 <= i < s2[k].body.0@.len() implies {
        &&& segs2.live(#[trigger] cid(s2, k, i))
        &&& segs2.seg(cid(s2, k, i)).role == (if i + 1 == s2[k].body.0@.len() {
            SegmentRole::Tail
        } else {
            SegmentRole::Body
        })
        &&& segs2.seg(cid(s2, k, i)).collidible
        &&& arena.near_bounds_spec(segs2.seg(cid(s2, k, i)).pos)
    } by {
        assert(cid(s2, k, i) == cid(s1, k, i));
        assert(segs1.live(cid(s1, k, i)));
        assert(segs2.live(cid(s1, k, i)) == segs1.live(cid(s1, k, i)));
        assert(segs2.seg(cid(s1, k, i)) == segs1.seg(cid(s1, k, i)));
        assert(segs1.seg(cid(s1, k, i)).collidible);
        assert(arena.near_bounds_spec(segs1.seg(cid(s1, k, i)).pos));
    }
}

/// Chains stay disjoint when every snake keeps its body list.
pub proof fn lemma_chains_disjoint_frame(s1: Seq<SnakeHead>, s2: Seq<SnakeHead>)
    requires
        chains_disjoint(s1),
        s2.len() == s1.len(),
        forall|k: int| 0 <= k < s2.len() ==> (#[trigger] s2[k]).body == s1[k].body,
    ensures
        chains_disjoint(s2),
{
    assert forall|k1: int, i1: int, k2: int, i2: int|
        0 <= k1 < s2.len() && 0 <= i1 < s2[k1].body.0@.len() && 0 <= k2 < s2.len() && 0 <= i2
            < s2[k2].body.0@.len() && (k1 != k2 || i1 != i2) implies #[trigger] cid(s2, k1, i1)
        != #[trigger] cid(s2, k2, i2) by {
        assert(cid(s2, k1, i1) == cid(s1, k1, i1));
        assert(cid(s2, k2, i2) == cid(s1, k2, i2));
        assert(cid(s1, k1, i1) != cid(s1, k2, i2));
    }
}

/// All mutable state of one running round.
#[derive(Debug)]
pub struct Round {
    pub arena: Arena,
    pub segments: SegmentArena,
    pub snakes: Vec<SnakeHead>,
    pub players: Vec<Player>,
    pub apple: Apple,
    pub phase: GamePhase,
    /// Fixed-tick interval in microseconds; shrinks as apples are eaten.
    pub tick_micros: u64,
}

impl Round {
    /// Round-wide well-formedness, preserved by every system.
    pub open spec fn wf(self) -> bool {
        &&& self.arena.wf()
        &&& snakes_wf(self.arena, self.segments, self.snakes@)
        &&& chains_disjoint(self.snakes@)
        &&& segs_bounded(self.arena, self.segments)
        &&& players_wf(self.players@, self.snakes@.len())
        &&& self.arena.in_bounds_spec(self.apple.pos)
        &&& self.tick_micros <= INITIAL_TICK_MICROS
    }

    /// Every head that is still alive sits within the walls; restored by
    /// the death check of every tick.
    pub open spec fn live_heads_in_bounds(self) -> bool {
        forall|k: int|
            0 <= k < self.snakes@.len() && !(#[trigger] self.snakes@[k]).dead
                ==> self.arena.in_bounds_spec(self.snakes@[k].pos)
    }

    /// Round setup has attached a snake to every player.
    pub open spec fn players_attached(self) -> bool {
        forall|p: int|
            0 <= p < self.players@.len()
                ==> (#[trigger] self.players@[p].snake_head_ref.0) is Some
    }

    /// Whether some player steers snake `k`.
    pub open spec fn steered(self, k: int) -> bool {
        steered_before(self.players@, k, self.players@.len() as int)
    }

    /// Every head, dead ones included, reports dead.
    pub open spec fn all_heads_dead(self) -> bool {
        forall|k: int| 0 <= k < self.snakes@.len() ==> (#[trigger] self.snakes@[k]).dead
    }

    /// A fresh round on `arena`: no players, no snakes, the apple parked at
    /// the origin, phase `Playing` and the initial tick interval.
    pub fn new(arena: Arena) -> (r: Round)
        requires
            arena.wf(),
        ensures
            r.wf(),
            r.arena == arena,
            r.snakes@.len() == 0,
            r.players@.len() == 0,
            r.segments.slots@.len() == 0,
            r.phase == GamePhase::Playing,
            r.tick_micros == INITIAL_TICK_MICROS,
            r.apple == (Apple { pos: Pos { x: 0, y: 0 }, radius: APPLE_RADIUS }),
    {
        Round {
            arena,
            segments: SegmentArena::new(),
            snakes: Vec::new(),
            players: Vec::new(),
            apple: Apple { pos: Pos { x: 0, y: 0 }, radius: APPLE_RADIUS },
            phase: GamePhase::Playing,
            tick_micros: INITIAL_TICK_MICROS,
        }
    }

    /// Resets the fixed-tick interval to the round-start baseline; run on
    /// entry to the round.
    pub fn init_game(&mut self)
        requires
            old(self).wf(),
        ensures
            final(self).wf(),
            *final(self) == (Round { tick_micros: INITIAL_TICK_MICROS, ..*old(self) }),
    {
        self.tick_micros = INITIAL_TICK_MICROS;
    }

    /// A pause input toggles `Playing` and `Paused`; a dead round stays
    /// dead.  Nothing else moves.
    pub fn pause_controls(&mut self, pause_pressed: bool)
        requires
            old(self).wf(),
        ensures
            final(self).wf(),
            pause_pressed ==> final(self).phase == pause_toggle_spec(old(self).phase),
            !pause_pressed ==> final(self).phase == old(self).phase,
            *final(self) == (Round { phase: final(self).phase, ..*old(self) }),
    {
        if pause_pressed {
            self.phase = match self.phase {
                GamePhase::Playing => GamePhase::Paused,
                GamePhase::Paused => GamePhase::Playing,
                GamePhase::Dead => GamePhase::Dead,
            };
        }
    }

    /// Level-triggered global death check: the round's phase becomes `Dead`
    /// exactly when every head (including already dead ones) reports dead.
    pub fn check_all_dead(&mut self)
        requires
            old(self).wf(),
        ensures
            final(self).wf(),
            old(self).all_heads_dead() ==> final(self).phase == GamePhase::Dead,
            !old(self).all_heads_dead() ==> final(self).phase == old(self).phase,
            *final(self) == (Round { phase: final(self).phase, ..*old(self) }),
    {
        let mut all_dead = true;
        let mut k: usize = 0;
        while k < self.snakes.len()
            invariant
                k <= self.snakes@.len(),
                all_dead == (forall|j: int| 0 <= j < k ==> (#[trigger] self.snakes@[j]).dead),
            decreases self.snakes@.len() - k,
        {
            if !self.snakes[k].dead {
                all_dead = false;
            }
            k = k + 1;
        }
        if all_dead {
            self.phase = GamePhase::Dead;
        }
    }

    /// Consumes the queued apple-relocation notifications: each one moves
    /// the apple to a fresh random point within the arena.  No check
    /// against snake bodies is made, so the apple may legally land on or
    /// near a chain.
    pub fn move_apple_handler(&mut self, requests: &Vec<MoveAppleEvent>)
        requires
            old(self).wf(),
        ensures
            final(self).wf(),
            requests@.len() == 0 ==> final(self).apple == old(self).apple,
            final(self).apple.radius == old(self).apple.radius,
            final(self).arena.in_bounds_spec(final(self).apple.pos),
            *final(self) == (Round { apple: final(self).apple, ..*old(self) }),
    {
        let ghost pre = *self;
        let mut n: usize = 0;
        while n < requests.len()
            invariant
                n <= requests@.len(),
                pre.arena.wf(),
                self.arena.in_bounds_spec(self.apple.pos),
                self.apple.radius == pre.apple.radius,
                n == 0 ==> self.apple == pre.apple,
                *self == (Round { apple: self.apple, ..pre }),
            decreases requests@.len() - n,
        {
            let p = get_random_point(&self.arena);
            self.apple.pos = p;
            n = n + 1;
        }
    }

    /// Control resolution: for every player, the newly pressed keys resolve
    /// to at most one direction candidate (last mapped key wins) and the
    /// player's snake takes it unless it is the exact opposite of its
    /// current direction.  Snakes no player steers are untouched.
    pub fn game_keys(&mut self, pressed: &Vec<u32>)
        requires
            old(self).wf(),
            old(self).players_attached(),
        ensures
            final(self).wf(),
            final(self).players == old(self).players,
            final(self).segments == old(self).segments,
            final(self).apple == old(self).apple,
            final(self).phase == old(self).phase,
            final(self).tick_micros == old(self).tick_micros,
            final(self).arena == old(self).arena,
            final(self).snakes@.len() == old(self).snakes@.len(),
            forall|p: int|
                0 <= p < old(self).players@.len()
                    ==> ((#[trigger] old(self).players@[p].snake_head_ref.0) matches Some(k)
                    ==> final(self).snakes@[k as int] == (SnakeHead {
                    direction: apply_input(
                        old(self).snakes@[k as int].direction,
                        resolve_candidate(
                            old(self).players@[p].control_scheme.directional_controls@,
                            pressed@,
                        ),
                    ),
                    ..old(self).snakes@[k as int]
                })),
            forall|k: int|
                0 <= k < old(self).snakes@.len() && !old(self).steered(k)
                    ==> final(self).snakes@[k] == old(self).snakes@[k],
            forall|k: int|
                0 <= k < old(self).snakes@.len() ==> (#[trigger] final(self).snakes@[k])
                    == (SnakeHead {
                    direction: final(self).snakes@[k].direction,
                    ..old(self).snakes@[k]
                }),
    {
        let ghost pre = *self;
        let mut p: usize = 0;
        while p < self.players.len()
            invariant
                pre.wf(),
                pre.players_attached(),
                p <= pre.players@.len(),
                self.players == pre.players,
                self.segments == pre.segments,
                self.apple == pre.apple,
                self.phase == pre.phase,
                self.tick_micros == pre.tick_micros,
                self.arena == pre.arena,
                self.snakes@.len() == pre.snakes@.len(),
                forall|q: int|
                    0 <= q < p
                        ==> ((#[trigger] pre.players@[q].snake_head_ref.0) matches Some(k)
                        ==> self.snakes@[k as int] == (SnakeHead {
                        direction: apply_input(
                            pre.snakes@[k as int].direction,
                            resolve_candidate(
                                pre.players@[q].control_scheme.directional_controls@,
                                pressed@,
                            ),
                        ),
                        ..pre.snakes@[k as int]
                    })),
                forall|k: int|
                    0 <= k < pre.snakes@.len() && !steered_before(pre.players@, k, p as int)
                        ==> self.snakes@[k] == pre.snakes@[k],
                forall|k: int|
                    0 <= k < pre.snakes@.len() ==> (#[trigger] self.snakes@[k]) == (SnakeHead {
                        direction: self.snakes@[k].direction,
                        ..pre.snakes@[k]
                    }),
            decreases pre.players@.len() - p,
        {
            let cand = self.players[p].control_scheme.resolve(pressed);
            match self.players[p].snake_head_ref.0 {
                Some(k) => {
                    if let Some(d) = cand {
                        let cur = self.snakes[k].direction;
                        if valid_direction(&cur, &d) {
                            self.snakes[k].direction = d;
                        }
                    }
                },
                None => {},
            }
            p = p + 1;
        }
        proof {
            assert forall|k: int| 0 <= k < pre.snakes@.len() implies snake_wf(
                self.arena,
                self.segments,
                self.snakes@,
                k,
            ) by {
                assert(snake_wf(pre.arena, pre.segments, pre.snakes@, k));
                lemma_snake_wf_frame(
                    pre.arena,
                    pre.segments,
                    self.segments,
                    pre.snakes@,
                    self.snakes@,
                    k,
                );
            }
            lemma_chains_disjoint_frame(pre.snakes@, self.snakes@);
        }
    }

    /// Movement engine: advances every live snake one tile in its current
    /// direction and lets the chain follow: each segment takes the position
    /// its predecessor held before this tick.  The head's facing is set from
    /// its direction and the tail's from its direction of travel.  Dead
    /// snakes and their segments do not move.
    pub fn move_snakes(&mut self)
        requires
            old(self).wf(),
            old(self).live_heads_in_bounds(),
        ensures
            final(self).wf(),
            final(self).players == old(self).players,
            final(self).apple == old(self).apple,
            final(self).phase == old(self).phase,
            final(self).tick_micros == old(self).tick_micros,
            final(self).arena == old(self).arena,
            final(self).snakes@.len() == old(self).snakes@.len(),
            final(self).segments.slots@.len() == old(self).segments.slots@.len(),
            forall|id: SegmentId| #[trigger]
                final(self).segments.live(id) == old(self).segments.live(id),
            forall|j: int|
                0 <= j < old(self).snakes@.len() && old(self).snakes@[j].dead
                    ==> final(self).snakes@[j] == old(self).snakes@[j],
            forall|j: int|
                0 <= j < old(self).snakes@.len() && !old(self).snakes@[j].dead ==> {
                    &&& (#[trigger] final(self).snakes@[j]) == (SnakeHead {
                        pos: final(self).snakes@[j].pos,
                        facing: old(self).snakes@[j].direction,
                        ..old(self).snakes@[j]
                    })
                    &&& stepped(
                        old(self).snakes@[j].pos,
                        old(self).snakes@[j].direction,
                        old(self).arena.tile,
                        final(self).snakes@[j].pos,
                    )
                },
            forall|j: int|
                0 <= j < old(self).snakes@.len() && !old(self).snakes@[j].dead
                    ==> #[trigger] moved_chain(
                    old(self).segments,
                    final(self).segments,
                    old(self).snakes@[j].body.0@,
                    old(self).snakes@[j].pos,
                ),
            forall|id: SegmentId|
                old(self).segments.live(id) && !touched_chain(
                    old(self).snakes@,
                    old(self).snakes@.len() as int,
                    id,
                ) ==> (#[trigger] final(self).segments.seg(id)) == old(self).segments.seg(id),
    {
        let ghost pre = *self;
        let mut k: usize = 0;
        while k < self.snakes.len()
            invariant
                pre.wf(),
                pre.live_heads_in_bounds(),
                k <= pre.snakes@.len(),
                self.arena == pre.arena,
                self.players == pre.players,
                self.apple == pre.apple,
                self.phase == pre.phase,
                self.tick_micros == pre.tick_micros,
                self.snakes@.len() == pre.snakes@.len(),
                self.segments.slots@.len() == pre.segments.slots@.len(),
                forall|id: SegmentId| #[trigger]
                    self.segments.live(id) == pre.segments.live(id),
                forall|j: int|
                    k <= j < pre.snakes@.len() ==> self.snakes@[j] == pre.snakes@[j],
                forall|j: int|
                    0 <= j < k && pre.snakes@[j].dead ==> self.snakes@[j] == pre.snakes@[j],
                forall|j: int|
                    0 <= j < k && !pre.snakes@[j].dead ==> {
                        &&& (#[trigger] self.snakes@[j]) == (SnakeHead {
                            pos: self.snakes@[j].pos,
                            facing: pre.snakes@[j].direction,
                            ..pre.snakes@[j]
                        })
                        &&& stepped(
                            pre.snakes@[j].pos,
                            pre.snakes@[j].direction,
                            pre.arena.tile,
                            self.snakes@[j].pos,
                        )
                    },
                forall|j: int|
                    0 <= j < k && !pre.snakes@[j].dead ==> #[trigger] moved_chain(
                        pre.segments,
                        self.segments,
                        pre.snakes@[j].body.0@,
                        pre.snakes@[j].pos,
                    ),
                forall|id: SegmentId|
                    pre.segments.live(id) && !touched_chain(pre.snakes@, k as int, id)
                        ==> (#[trigger] self.segments.seg(id)) == pre.segments.seg(id),
            decreases pre.snakes@.len() - k,
        {
            let ghost mid = *self;
            let dead = self.snakes[k].dead;
            if !dead {
                let dir = self.snakes[k].direction;
                let old_pos = self.snakes[k].pos;
                proof {
                    assert(snake_wf(pre.arena, pre.segments, pre.snakes@, k as int));
                    crate::geometry::lemma_near_bounds_pos_ok(pre.arena, old_pos);
                    assert(pre.arena.tile <= crate::geometry::MAX_SPAN) by (nonlinear_arith)
                        requires
                            1 <= pre.arena.width,
                            pre.arena.width * pre.arena.tile <= crate::geometry::MAX_SPAN,
                            0 <= pre.arena.tile;
                    assert forall|i: int|
                        0 <= i < self.snakes@[k as int].body.0@.len()
                            implies self.segments.live(#[trigger] self.snakes@[k as int].body.0@[i])
                    by {
                        assert(self.snakes@[k as int].body.0@[i] == cid(pre.snakes@, k as int, i));
                        assert(pre.segments.live(cid(pre.snakes@, k as int, i)));
                    }
                    assert forall|i1: int, i2: int|
                        0 <= i1 < i2 < self.snakes@[k as int].body.0@.len()
                            implies self.snakes@[k as int].body.0@[i1]
                            != self.snakes@[k as int].body.0@[i2]
                    by {
                        assert(cid(pre.snakes@, k as int, i1) != cid(pre.snakes@, k as int, i2));
                    }
                }
                let new_pos = step_pos(old_pos, dir, self.arena.tile);
                move_chain(&mut self.segments, &self.snakes[k].body.0, old_pos);
                self.snakes[k].pos = new_pos;
                self.snakes[k].facing = dir;
                proof {
                    let ghost body = pre.snakes@[k as int].body.0@;
                    // this chain's segments were still at their pre-tick
                    // values when it was propagated
                    assert forall|i: int| 0 <= i < body.len()
                        implies #[trigger] mid.segments.seg(body[i]) == pre.segments.seg(body[i])
                    by {
                        let id = cid(pre.snakes@, k as int, i);
                        assert(body[i] == id);
                        assert(pre.segments.live(id));
                        assert forall|j2: int, i2: int|
                            0 <= j2 < k as int && j2 < pre.snakes@.len() && !pre.snakes@[j2].dead
                                && 0 <= i2 < pre.snakes@[j2].body.0@.len()
                                implies #[trigger] cid(pre.snakes@, j2, i2) != id
                        by {
                            assert(cid(pre.snakes@, j2, i2) != cid(pre.snakes@, k as int, i));
                        }
                        assert(!touched_chain(pre.snakes@, k as int, id));
                    }
                    lemma_moved_chain_pre_frame(
                        pre.segments,
                        mid.segments,
                        self.segments,
                        body,
                        old_pos,
                    );
                    // chains processed earlier keep their propagation: their
                    // segments are disjoint from this chain's
                    assert forall|j: int|
                        0 <= j < k && !pre.snakes@[j].dead implies #[trigger] moved_chain(
                            pre.segments,
                            self.segments,
                            pre.snakes@[j].body.0@,
                            pre.snakes@[j].pos,
                        )
                    by {
                        let bj = pre.snakes@[j].body.0@;
                        assert(snake_wf(pre.arena, pre.segments, pre.snakes@, j));
                        assert forall|i: int| 0 <= i < bj.len()
                            implies #[trigger] self.segments.seg(bj[i]) == mid.segments.seg(bj[i])
                        by {
                            assert(bj[i] == cid(pre.snakes@, j, i));
                            assert(pre.segments.live(cid(pre.snakes@, j, i)));
                            assert forall|i2: int| 0 <= i2 < body.len()
                                implies bj[i] != body[i2]
                            by {
                                assert(cid(pre.snakes@, j, i) != cid(pre.snakes@, k as int, i2));
                            }
                            assert(!body.contains(bj[i]));
                            assert(mid.segments.live(bj[i]));
                        }
                        lemma_moved_chain_frame(
                            pre.segments,
                            mid.segments,
                            self.segments,
                            bj,
                            pre.snakes@[j].pos,
                        );
                    }
                    // untouched segments stay untouched
                    assert forall|id: SegmentId|
                        pre.segments.live(id) && !touched_chain(pre.snakes@, k as int + 1, id)
                            implies (#[trigger] self.segments.seg(id)) == pre.segments.seg(id)
                    by {
                        assert(!touched_chain(pre.snakes@, k as int, id));
                        assert(mid.segments.seg(id) == pre.segments.seg(id));
                        assert forall|i2: int| 0 <= i2 < body.len() implies id != body[i2] by {
                            assert(body[i2] == cid(pre.snakes@, k as int, i2));
                        }
                        assert(!body.contains(id));
                        assert(mid.segments.live(id));
                    }
                }
            }
            k = k + 1;
        }
        proof {
            self.lemma_move_snakes_wf(pre);
        }
    }

    /// Re-establishes well-formedness after movement.
    proof fn lemma_move_snakes_wf(self, pre: Round)
        requires
            pre.wf(),
            pre.live_heads_in_bounds(),
            self.arena == pre.arena,
            self.players == pre.players,
            self.apple == pre.apple,
            self.tick_micros == pre.tick_micros,
            self.snakes@.len() == pre.snakes@.len(),
            self.segments.slots@.len() == pre.segments.slots@.len(),
            forall|id: SegmentId| #[trigger] self.segments.live(id) == pre.segments.live(id),
            forall|j: int|
                0 <= j < pre.snakes@.len() && pre.snakes@[j].dead
                    ==> self.snakes@[j] == pre.snakes@[j],
            forall|j: int|
                0 <= j < pre.snakes@.len() && !pre.snakes@[j].dead ==> {
                    &&& (#[trigger] self.snakes@[j]) == (SnakeHead {
                        pos: self.snakes@[j].pos,
                        facing: pre.snakes@[j].direction,
                        ..pre.snakes@[j]
                    })
                    &&& stepped(
                        pre.snakes@[j].pos,
                        pre.snakes@[j].direction,
                        pre.arena.tile,
                        self.snakes@[j].pos,
                    )
                },
            forall|j: int|
                0 <= j < pre.snakes@.len() && !pre.snakes@[j].dead ==> #[trigger] moved_chain(
                    pre.segments,
                    self.segments,
                    pre.snakes@[j].body.0@,
                    pre.snakes@[j].pos,
                ),
            forall|id: SegmentId|
                pre.segments.live(id) && !touched_chain(
                    pre.snakes@,
                    pre.snakes@.len() as int,
                    id,
                ) ==> (#[trigger] self.segments.seg(id)) == pre.segments.seg(id),
        ensures
            self.wf(),
    {
        assert forall|k: int| 0 <= k < self.snakes@.len() implies #[trigger] snake_wf(
            self.arena,
            self.segments,
            self.snakes@,
            k,
        ) by {
            assert(snake_wf(pre.arena, pre.segments, pre.snakes@, k));
            let body = pre.snakes@[k].body.0@;
            assert(self.snakes@[k].body == pre.snakes@[k].body);
            if pre.snakes@[k].dead {
                // this chain was not touched at all
                assert forall|i: int| 0 <= i < body.len()
                    implies #[trigger] self.segments.seg(cid(pre.snakes@, k, i)) == pre.segments.seg(
                        cid(pre.snakes@, k, i),
                    )
                by {
                    let id = cid(pre.snakes@, k, i);
                    assert(pre.segments.live(id));
                    assert forall|j2: int, i2: int|
                        0 <= j2 < pre.snakes@.len() && !pre.snakes@[j2].dead && 0 <= i2
                            < pre.snakes@[j2].body.0@.len()
                            implies id != cid(pre.snakes@, j2, i2)
                    by {
                        assert(cid(pre.snakes@, k, i) != cid(pre.snakes@, j2, i2));
                    }
                    assert(!touched_chain(pre.snakes@, pre.snakes@.len() as int, id));
                }
                lemma_snake_wf_frame(
                    pre.arena,
                    pre.segments,
                    self.segments,
                    pre.snakes@,
                    self.snakes@,
                    k,
                );
            } else {
                assert(moved_chain(pre.segments, self.segments, body, pre.snakes@[k].pos));
                assert(pre.arena.in_bounds_spec(pre.snakes@[k].pos));
                assert forall|i: int| 0 <= i < body.len() implies {
                    &&& self.segments.live(#[trigger] cid(self.snakes@, k, i))
                    &&& self.segments.seg(cid(self.snakes@, k, i)).role == (if i + 1
                        == body.len() {
                        SegmentRole::Tail
                    } else {
                        SegmentRole::Body
                    })
                    &&& self.segments.seg(cid(self.snakes@, k, i)).collidible
                    &&& self.arena.near_bounds_spec(self.segments.seg(cid(self.snakes@, k, i)).pos)
                } by {
                    assert(cid(self.snakes@, k, i) == cid(pre.snakes@, k, i));
                    assert(cid(self.snakes@, k, i) == body[i]);
                    assert(pre.segments.live(body[i]));
                    assert(self.segments.seg(body[i]).role == pre.segments.seg(body[i]).role);
                    assert(pre.segments.seg(body[i]).collidible);
                    if i == 0 {
                        assert(self.segments.seg(body[i]).pos == pre.snakes@[k].pos);
                    } else {
                        assert(self.segments.seg(body[i]).pos == pre.segments.seg(
                            body[i - 1],
                        ).pos);
                        assert(body[i - 1] == cid(pre.snakes@, k, i - 1));
                        assert(pre.arena.near_bounds_spec(
                            pre.segments.seg(cid(pre.snakes@, k, i - 1)).pos,
                        ));
                    }
                }
                assert(self.arena.near_bounds_spec(self.snakes@[k].pos));
            }
        }
        lemma_chains_disjoint_frame(pre.snakes@, self.snakes@);
        assert forall|j: int|
            0 <= j < self.segments.slots@.len() && (#[trigger] self.segments.slots@[j]).live
            implies self.arena.near_bounds_spec(self.segments.slots@[j].seg.pos)
        by {
            assert(self.segments.slots@.len() <= usize::MAX) by {
                assert(vstd::std_specs::vec::spec_vec_len(&self.segments.slots)
                    == self.segments.slots@.len());
            }
            let id = SegmentId { index: j as usize, generation: self.segments.slots@[j].generation };
            assert(id.index as int == j);
            assert(self.segments.live(id));
            assert(pre.segments.live(id));
            assert(self.segments.seg(id) == self.segments.slots@[j].seg);
            if touched_chain(pre.snakes@, pre.snakes@.len() as int, id) {
                let (jj, ii) = choose|jj: int, ii: int|
                    0 <= jj < pre.snakes@.len() && !pre.snakes@[jj].dead
                        && 0 <= ii < pre.snakes@[jj].body.0@.len()
                        && #[trigger] cid(pre.snakes@, jj, ii) == id;
                assert(snake_wf(pre.arena, pre.segments, pre.snakes@, jj));
                assert(moved_chain(
                    pre.segments,
                    self.segments,
                    pre.snakes@[jj].body.0@,
                    pre.snakes@[jj].pos,
                ));
                let bj = pre.snakes@[jj].body.0@;
                assert(bj[ii] == cid(pre.snakes@, jj, ii));
                if ii == 0 {
                    assert(self.segments.seg(bj[0]).pos == pre.snakes@[jj].pos);
                } else {
                    assert(self.segments.seg(bj[ii]).pos == pre.segments.seg(bj[ii - 1]).pos);
                    assert(bj[ii - 1] == cid(pre.snakes@, jj, ii - 1));
                    assert(pre.arena.near_bounds_spec(
                        pre.segments.seg(cid(pre.snakes@, jj, ii - 1)).pos,
                    ));
                }
            } else {
                assert(self.segments.seg(id) == pre.segments.seg(id));
            }
        }
    }

    /// Collision engine, death half: every live head is tested against the
    /// arena walls and against every collidible segment (its own chain and
    /// every other snake's); any hit marks that head dead.  Heads already
    /// dead are skipped, and nothing else changes.
    pub fn check_death_collision(&mut self)
        requires
            old(self).wf(),
        ensures
            final(self).wf(),
            final(self).live_heads_in_bounds(),
            final(self).players == old(self).players,
            final(self).segments == old(self).segments,
            final(self).apple == old(self).apple,
            final(self).phase == old(self).phase,
            final(self).tick_micros == old(self).tick_micros,
            final(self).arena == old(self).arena,
            final(self).snakes@.len() == old(self).snakes@.len(),
            forall|k: int|
                0 <= k < old(self).snakes@.len() ==> (#[trigger] final(self).snakes@[k])
                    == (SnakeHead {
                    dead: old(self).snakes@[k].dead || should_die(
                        old(self).arena,
                        old(self).segments,
                        old(self).snakes@[k],
                    ),
                    ..old(self).snakes@[k]
                }),
    {
        let ghost pre = *self;
        let mut k: usize = 0;
        while k < self.snakes.len()
            invariant
                pre.wf(),
                k <= pre.snakes@.len(),
                self.arena == pre.arena,
                self.players == pre.players,
                self.segments == pre.segments,
                self.apple == pre.apple,
                self.phase == pre.phase,
                self.tick_micros == pre.tick_micros,
                self.snakes@.len() == pre.snakes@.len(),
                forall|j: int| k <= j < pre.snakes@.len() ==> self.snakes@[j] == pre.snakes@[j],
                forall|j: int|
                    0 <= j < k ==> (#[trigger] self.snakes@[j]) == (SnakeHead {
                        dead: pre.snakes@[j].dead || should_die(
                            pre.arena,
                            pre.segments,
                            pre.snakes@[j],
                        ),
                        ..pre.snakes@[j]
                    }),
            decreases pre.snakes@.len() - k,
        {
            let dead = self.snakes[k].dead;
            if !dead {
                let hp = self.snakes[k].pos;
                let hr = self.snakes[k].radius;
                proof {
                    assert(snake_wf(pre.arena, pre.segments, pre.snakes@, k as int));
                    crate::geometry::lemma_near_bounds_pos_ok(pre.arena, hp);
                }
                let mut hit = false;
                let n = self.segments.slots.len();
                let mut j: usize = 0;
                while j < n
                    invariant
                        pre.wf(),
                        self.segments == pre.segments,
                        self.arena == pre.arena,
                        n == self.segments.slots@.len(),
                        j <= n,
                        pos_ok(hp),
                        hit == hits_collidible_upto(self.segments, j as int, hp, hr),
                    decreases n - j,
                {
                    let slot = self.segments.slots[j];
                    if slot.live && slot.seg.collidible {
                        proof {
                            crate::geometry::lemma_near_bounds_pos_ok(pre.arena, slot.seg.pos);
                        }
                        if circles_touching(hp, hr, slot.seg.pos, slot.seg.radius) {
                            hit = true;
                        }
                    }
                    j = j + 1;
                }
                let in_walls = self.arena.in_bounds(hp);
                if hit || !in_walls {
                    self.snakes[k].dead = true;
                }
                proof {
                    assert(hit == hits_collidible(pre.segments, hp, hr));
                }
            }
            k = k + 1;
        }
        proof {
            assert forall|k: int| 0 <= k < pre.snakes@.len() implies #[trigger] snake_wf(
                self.arena,
                self.segments,
                self.snakes@,
                k,
            ) by {
                assert(snake_wf(pre.arena, pre.segments, pre.snakes@, k));
                lemma_snake_wf_frame(
                    pre.arena,
                    pre.segments,
                    self.segments,
                    pre.snakes@,
                    self.snakes@,
                    k,
                );
            }
            lemma_chains_disjoint_frame(pre.snakes@, self.snakes@);
        }
    }

    /// Collision engine, apple half: every player whose snake was alive at
    /// tick start (`dead_at_tick_start`, indexed by snake) is tested
    /// against the apple; on overlap the player scores one point, the tick
    /// interval shrinks by the deceleration factor, and one grow event for
    /// the snake plus one relocation request are emitted (returned in
    /// player order).  An eat on the tick the head died still counts.
    pub fn check_apple_collision(&mut self, dead_at_tick_start: &Vec<bool>) -> (eats: Vec<
        GrowSnakeEvent,
    >)
        requires
            old(self).wf(),
            dead_at_tick_start@.len() == old(self).snakes@.len(),
            forall|p: int|
                0 <= p < old(self).players@.len()
                    ==> (#[trigger] old(self).players@[p]).score.value < u32::MAX,
        ensures
            final(self).wf(),
            final(self).segments == old(self).segments,
            final(self).snakes == old(self).snakes,
            final(self).apple == old(self).apple,
            final(self).phase == old(self).phase,
            final(self).arena == old(self).arena,
            final(self).players@.len() == old(self).players@.len(),
            ({
                let eaters = eaters_upto(
                    old(self).players@,
                    old(self).snakes@,
                    old(self).apple,
                    dead_at_tick_start@,
                    old(self).players@.len() as int,
                );
                &&& eats@.len() == eaters.len()
                &&& forall|i: int|
                    0 <= i < eats@.len() ==> (#[trigger] eats@[i]).0 == (old(self).players@[
                        eaters[i] as int
                    ].snake_head_ref.0)->0
                &&& forall|i: int|
                    0 <= i < eats@.len() ==> ate(
                        old(self).players@,
                        old(self).snakes@,
                        old(self).apple,
                        dead_at_tick_start@,
                        eaters[i] as int,
                    )
                &&& final(self).tick_micros == decel_iter(
                    old(self).tick_micros as int,
                    eaters.len(),
                )
            }),
            forall|p: int|
                0 <= p < old(self).players@.len() ==> (#[trigger] final(self).players@[p])
                    == (Player {
                    score: Score {
                        value: (old(self).players@[p].score.value + (if ate(
                            old(self).players@,
                            old(self).snakes@,
                            old(self).apple,
                            dead_at_tick_start@,
                            p,
                        ) {
                            1int
                        } else {
                            0int
                        })) as u32,
                    },
                    ..old(self).players@[p]
                }),
    {
        let ghost pre = *self;
        let ghost dead0 = dead_at_tick_start@;
        let mut eats: Vec<GrowSnakeEvent> = Vec::new();
        let mut p: usize = 0;
        while p < self.players.len()
            invariant
                pre.wf(),
                dead0 == dead_at_tick_start@,
                dead0.len() == pre.snakes@.len(),
                forall|q: int|
                    0 <= q < pre.players@.len()
                        ==> (#[trigger] pre.players@[q]).score.value < u32::MAX,
                p <= pre.players@.len(),
                self.arena == pre.arena,
                self.segments == pre.segments,
                self.snakes == pre.snakes,
                self.apple == pre.apple,
                self.phase == pre.phase,
                self.players@.len() == pre.players@.len(),
                ({
                    let eaters = eaters_upto(pre.players@, pre.snakes@, pre.apple, dead0, p as int);
                    &&& eats@.len() == eaters.len()
                    &&& forall|i: int|
                        0 <= i < eats@.len() ==> (#[trigger] eats@[i]).0 == (pre.players@[
                            eaters[i] as int
                        ].snake_head_ref.0)->0
                    &&& forall|i: int|
                        0 <= i < eats@.len() ==> ate(
                            pre.players@,
                            pre.snakes@,
                            pre.apple,
                            dead0,
                            eaters[i] as int,
                        )
                    &&& self.tick_micros == decel_iter(pre.tick_micros as int, eaters.len())
                }),
                self.tick_micros <= pre.tick_micros,
                forall|q: int|
                    0 <= q < p ==> (#[trigger] self.players@[q]) == (Player {
                        score: Score {
                            value: (pre.players@[q].score.value + (if ate(
                                pre.players@,
                                pre.snakes@,
                                pre.apple,
                                dead0,
                                q,
                            ) {
                                1int
                            } else {
                                0int
                            })) as u32,
                        },
                        ..pre.players@[q]
                    }),
                forall|q: int| p <= q < pre.players@.len() ==> self.players@[q] == pre.players@[q],
            decreases pre.players@.len() - p,
        {
            let ghost eaters_pre = eaters_upto(pre.players@, pre.snakes@, pre.apple, dead0, p as int);
            let ghost mid = *self;
            let head_ref = self.players[p].snake_head_ref.0;
            let mut did_eat = false;
            match head_ref {
                Some(k) => {
                    let k_dead0 = if k < dead_at_tick_start.len() {
                        dead_at_tick_start[k]
                    } else {
                        true
                    };
                    if !k_dead0 {
                        proof {
                            assert(k < pre.snakes@.len());
                            assert(snake_wf(pre.arena, pre.segments, pre.snakes@, k as int));
                            crate::geometry::lemma_near_bounds_pos_ok(
                                pre.arena,
                                pre.snakes@[k as int].pos,
                            );
                            crate::geometry::lemma_near_bounds_pos_ok(pre.arena, pre.apple.pos);
                        }
                        let hp = self.snakes[k].pos;
                        let hr = self.snakes[k].radius;
                        if circles_touching(self.apple.pos, self.apple.radius, hp, hr) {
                            did_eat = true;
                            eats.push(GrowSnakeEvent(k));
                            let sc = self.players[p].score.value;
                            self.players[p].score.value = sc + 1;
                            proof {
                                lemma_decelerate_le(self.tick_micros as int);
                            }
                            self.tick_micros = self.tick_micros * 95 / 100;
                        }
                    }
                },
                None => {},
            }
            proof {
                let pi = p as int;
                assert(mid.players@[pi] == pre.players@[pi]);
                assert(did_eat == ate(pre.players@, pre.snakes@, pre.apple, dead0, pi));
                let eaters1 = eaters_upto(pre.players@, pre.snakes@, pre.apple, dead0, pi + 1);
                assert(eaters1 == (if ate(pre.players@, pre.snakes@, pre.apple, dead0, pi) {
                    eaters_pre.push(p)
                } else {
                    eaters_pre
                }));
            }
            p = p + 1;
        }
        proof {
            assert forall|k: int| 0 <= k < pre.snakes@.len() implies #[trigger] snake_wf(
                self.arena,
                self.segments,
                self.snakes@,
                k,
            ) by {
                assert(snake_wf(pre.arena, pre.segments, pre.snakes@, k));
            }
        }
        eats
    }

    /// Growth: appends a fresh segment at the current tail's position,
    /// re-tags the previous tail as an ordinary body segment and marks the
    /// new one as the tail, so the chain grows by exactly one.  A head that
    /// no longer exists, or one already dead, is swallowed as a no-op.
    pub fn grow_snake(&mut self, head: usize)
        requires
            old(self).wf(),
        ensures
            final(self).wf(),
            final(self).players == old(self).players,
            final(self).apple == old(self).apple,
            final(self).phase == old(self).phase,
            final(self).tick_micros == old(self).tick_micros,
            final(self).arena == old(self).arena,
            final(self).snakes@.len() == old(self).snakes@.len(),
            forall|id: SegmentId| #[trigger]
                old(self).segments.live(id) ==> {
                    &&& final(self).segments.live(id)
                    &&& final(self).segments.seg(id).pos == old(self).segments.seg(id).pos
                    &&& final(self).segments.seg(id).radius == old(self).segments.seg(id).radius
                    &&& final(self).segments.seg(id).collidible == old(self).segments.seg(
                        id,
                    ).collidible
                },
            forall|k: int|
                0 <= k < old(self).snakes@.len() ==> (#[trigger] final(self).snakes@[k])
                    == (SnakeHead {
                    body: final(self).snakes@[k].body,
                    ..old(self).snakes@[k]
                }),
            (head >= old(self).snakes@.len() || old(self).snakes@[head as int].dead) ==> {
                &&& final(self).snakes == old(self).snakes
                &&& final(self).segments == old(self).segments
            },
            (head < old(self).snakes@.len() && !old(self).snakes@[head as int].dead) ==> ({
                let k = head as int;
                let oldlen = old(self).snakes@[k].body.0@.len() as int;
                let tail_id = cid(old(self).snakes@, k, oldlen - 1);
                let new_id = final(self).snakes@[k].body.0@[oldlen];
                &&& final(self).segments.slots@.len() == old(self).segments.slots@.len() + 1
                &&& forall|id: SegmentId|
                    id.index < old(self).segments.slots@.len()
                        ==> (#[trigger] final(self).segments.live(id)) == old(self).segments.live(
                        id,
                    )
                &&& final(self).snakes@[k].body.0@ == old(self).snakes@[k].body.0@.push(new_id)
                &&& !old(self).segments.live(new_id)
                &&& final(self).segments.live(new_id)
                &&& final(self).segments.seg(new_id) == (Segment {
                    role: SegmentRole::Tail,
                    ..old(self).segments.seg(tail_id)
                })
                &&& final(self).segments.seg(tail_id) == (Segment {
                    role: SegmentRole::Body,
                    ..old(self).segments.seg(tail_id)
                })
                &&& final(self).snakes@[k] == (SnakeHead {
                    body: final(self).snakes@[k].body,
                    ..old(self).snakes@[k]
                })
                &&& forall|j: int|
                    0 <= j < old(self).snakes@.len() && j != k ==> final(self).snakes@[j] == old(
                        self,
                    ).snakes@[j]
                &&& forall|id: SegmentId| #[trigger]
                    old(self).segments.live(id) ==> final(self).segments.live(id)
                &&& forall|id: SegmentId|
                    old(self).segments.live(id) && id != tail_id
                        ==> #[trigger] final(self).segments.seg(id) == old(self).segments.seg(id)
            }),
    {
        let ghost pre = *self;
        if head >= self.snakes.len() {
            return ;
        }
        if self.snakes[head].dead {
            return ;
        }
        proof {
            assert(snake_wf(pre.arena, pre.segments, pre.snakes@, head as int));
        }
        let bl = self.snakes[head].body.0.len();
        let tail_id = self.snakes[head].body.0[bl - 1];
        let tail_seg = match self.segments.get(tail_id) {
            Some(s) => s,
            None => {
                return ;
            },
        };
        let new_seg = Segment {
            pos: tail_seg.pos,
            facing: tail_seg.facing,
            radius: tail_seg.radius,
            role: SegmentRole::Tail,
            collidible: true,
        };
        let new_id = self.segments.spawn(new_seg);
        self.segments.set_role(tail_id, SegmentRole::Body);
        self.snakes[head].body.0.push(new_id);
        proof {
            let k = head as int;
            let oldlen = pre.snakes@[k].body.0@.len() as int;
            let body1 = self.snakes@[k].body.0@;
            assert(body1 == pre.snakes@[k].body.0@.push(new_id));
            // the grown chain is intact
            assert(snake_wf(self.arena, self.segments, self.snakes@, k)) by {
                assert forall|i: int| 0 <= i < body1.len() implies {
                    &&& self.segments.live(#[trigger] cid(self.snakes@, k, i))
                    &&& self.segments.seg(cid(self.snakes@, k, i)).role == (if i + 1
                        == body1.len() {
                        SegmentRole::Tail
                    } else {
                        SegmentRole::Body
                    })
                    &&& self.segments.seg(cid(self.snakes@, k, i)).collidible
                    &&& self.arena.near_bounds_spec(self.segments.seg(cid(self.snakes@, k, i)).pos)
                } by {
                    if i < oldlen {
                        assert(cid(self.snakes@, k, i) == cid(pre.snakes@, k, i));
                        assert(pre.segments.live(cid(pre.snakes@, k, i)));
                        if i == oldlen - 1 {
                            assert(cid(pre.snakes@, k, i) == tail_id);
                        } else {
                            assert(cid(pre.snakes@, k, i) != cid(pre.snakes@, k, oldlen - 1));
                            assert(self.segments.seg(cid(pre.snakes@, k, i)) == pre.segments.seg(
                                cid(pre.snakes@, k, i),
                            ));
                        }
                        assert(pre.arena.near_bounds_spec(
                            pre.segments.seg(cid(pre.snakes@, k, i)).pos,
                        ));
                    } else {
                        assert(cid(self.snakes@, k, i) == new_id);
                        assert(self.segments.seg(new_id) == new_seg);
                        assert(pre.arena.near_bounds_spec(
                            pre.segments.seg(cid(pre.snakes@, k, oldlen - 1)).pos,
                        ));
                    }
                }
            }
            // other chains are untouched
            assert forall|j: int| 0 <= j < pre.snakes@.len() && j != k implies #[trigger] snake_wf(
                self.arena,
                self.segments,
                self.snakes@,
                j,
            ) by {
                assert(snake_wf(pre.arena, pre.segments, pre.snakes@, j));
                assert forall|i: int| 0 <= i < pre.snakes@[j].body.0@.len() implies {
                    &&& #[trigger] self.segments.live(cid(pre.snakes@, j, i)) == pre.segments.live(
                        cid(pre.snakes@, j, i),
                    )
                    &&& self.segments.seg(cid(pre.snakes@, j, i)) == pre.segments.seg(
                        cid(pre.snakes@, j, i),
                    )
                } by {
                    assert(pre.segments.live(cid(pre.snakes@, j, i)));
                    assert(cid(pre.snakes@, j, i) != cid(pre.snakes@, k, oldlen - 1));
                }
                lemma_snake_wf_frame(
                    pre.arena,
                    pre.segments,
                    self.segments,
                    pre.snakes@,
                    self.snakes@,
                    j,
                );
            }
            // disjointness: the new id resolved to nothing before the call
            assert forall|k1: int, i1: int, k2: int, i2: int|
                0 <= k1 < self.snakes@.len() && 0 <= i1 < self.snakes@[k1].body.0@.len() && 0 <= k2
                    < self.snakes@.len() && 0 <= i2 < self.snakes@[k2].body.0@.len() && (k1 != k2
                    || i1 != i2) implies #[trigger] cid(self.snakes@, k1, i1)
                != #[trigger] cid(self.snakes@, k2, i2) by {
                if k1 == k && i1 == oldlen {
                    assert(cid(self.snakes@, k1, i1) == new_id);
                    assert(snake_wf(pre.arena, pre.segments, pre.snakes@, k2));
                    assert(cid(self.snakes@, k2, i2) == cid(pre.snakes@, k2, i2));
                    assert(pre.segments.live(cid(pre.snakes@, k2, i2)));
                } else if k2 == k && i2 == oldlen {
                    assert(cid(self.snakes@, k2, i2) == new_id);
                    assert(snake_wf(pre.arena, pre.segments, pre.snakes@, k1));
                    assert(cid(self.snakes@, k1, i1) == cid(pre.snakes@, k1, i1));
                    assert(pre.segments.live(cid(pre.snakes@, k1, i1)));
                } else {
                    assert(cid(self.snakes@, k1, i1) == cid(pre.snakes@, k1, i1));
                    assert(cid(self.snakes@, k2, i2) == cid(pre.snakes@, k2, i2));
                    assert(cid(pre.snakes@, k1, i1) != cid(pre.snakes@, k2, i2));
                }
            }
            // every live slot still sits at a valid coordinate
            assert forall|j: int|
                0 <= j < self.segments.slots@.len() && (#[trigger] self.segments.slots@[j]).live
                implies self.arena.near_bounds_spec(self.segments.slots@[j].seg.pos)
            by {
                assert(self.segments.slots@.len() <= usize::MAX) by {
                    assert(vstd::std_specs::vec::spec_vec_len(&self.segments.slots)
                        == self.segments.slots@.len());
                }
                let id = SegmentId {
                    index: j as usize,
                    generation: self.segments.slots@[j].generation,
                };
                assert(id.index as int == j);
                assert(self.segments.live(id));
                assert(self.segments.seg(id) == self.segments.slots@[j].seg);
                if j < pre.segments.slots@.len() {
                    assert(pre.segments.live(id));
                    assert(pre.arena.near_bounds_spec(pre.segments.slots@[j].seg.pos));
                    if id == tail_id {
                        assert(self.segments.seg(id).pos == pre.segments.seg(id).pos);
                    } else {
                        assert(self.segments.seg(id) == pre.segments.seg(id));
                    }
                } else {
                    assert(self.segments.seg(id) == new_seg);
                    assert(pre.arena.near_bounds_spec(pre.segments.seg(
                        cid(pre.snakes@, k, oldlen - 1),
                    ).pos));
                }
            }
        }
    }

    /// Creates the round's participants: one player on the arrow keys and
    /// one on W/A/S/D, each with no snake attached yet and a zero score.
    pub fn init_char_selection(&mut self)
        requires
            old(self).wf(),
            old(self).players@.len() == 0,
        ensures
            final(self).wf(),
            *final(self) == (Round { players: final(self).players, ..*old(self) }),
            final(self).players@.len() == 2,
            forall|p: int|
                0 <= p < 2 ==> {
                    &&& (#[trigger] final(self).players@[p]).snake_head_ref.0 is None
                    &&& final(self).players@[p].score.value == 0
                },
            final(self).players@[0].control_scheme.directional_controls@ == seq![
                (crate::control::KEY_ARROW_UP, SnakeDirection::Up),
                (crate::control::KEY_ARROW_LEFT, SnakeDirection::Left),
                (crate::control::KEY_ARROW_DOWN, SnakeDirection::Down),
                (crate::control::KEY_ARROW_RIGHT, SnakeDirection::Right),
            ],
            final(self).players@[1].control_scheme.directional_controls@ == seq![
                (crate::control::KEY_W, SnakeDirection::Up),
                (crate::control::KEY_A, SnakeDirection::Left),
                (crate::control::KEY_S, SnakeDirection::Down),
                (crate::control::KEY_D, SnakeDirection::Right),
            ],
            final(self).players@[0].name.0@ == "Player 1"@,
            final(self).players@[1].name.0@ == "Player 2"@,
    {
        let mut controls_1: Vec<(u32, SnakeDirection)> = Vec::new();
        controls_1.push((crate::control::KEY_ARROW_UP, SnakeDirection::Up));
        controls_1.push((crate::control::KEY_ARROW_LEFT, SnakeDirection::Left));
        controls_1.push((crate::control::KEY_ARROW_DOWN, SnakeDirection::Down));
        controls_1.push((crate::control::KEY_ARROW_RIGHT, SnakeDirection::Right));
        let key_map_1 = ControlScheme { directional_controls: controls_1 };
        let mut controls_2: Vec<(u32, SnakeDirection)> = Vec::new();
        controls_2.push((crate::control::KEY_W, SnakeDirection::Up));
        controls_2.push((crate::control::KEY_A, SnakeDirection::Left));
        controls_2.push((crate::control::KEY_S, SnakeDirection::Down));
        controls_2.push((crate::control::KEY_D, SnakeDirection::Right));
        let key_map_2 = ControlScheme { directional_controls: controls_2 };
        proof {
            assert(key_map_1.directional_controls@ =~= seq![
                (crate::control::KEY_ARROW_UP, SnakeDirection::Up),
                (crate::control::KEY_ARROW_LEFT, SnakeDirection::Left),
                (crate::control::KEY_ARROW_DOWN, SnakeDirection::Down),
                (crate::control::KEY_ARROW_RIGHT, SnakeDirection::Right),
            ]);
            assert(key_map_2.directional_controls@ =~= seq![
                (crate::control::KEY_W, SnakeDirection::Up),
                (crate::control::KEY_A, SnakeDirection::Left),
                (crate::control::KEY_S, SnakeDirection::Down),
                (crate::control::KEY_D, SnakeDirection::Right),
            ]);
            assert(key_map_1.wf());
            assert(key_map_2.wf());
        }
        self.players.push(
            Player {
                name: Named("Player 1".to_owned()),
                control_scheme: key_map_1,
                snake_head_ref: SnakeHeadRef(None),
                score: Score { value: 0 },
            },
        );
        self.players.push(
            Player {
                name: Named("Player 2".to_owned()),
                control_scheme: key_map_2,
                snake_head_ref: SnakeHeadRef(None),
                score: Score { value: 0 },
            },
        );
    }

    /// Round setup: gives every participant a fresh snake and parks the
    /// apple at a random point.  Player `p`'s snake starts at the origin
    /// shifted up by two tiles per player index, faces right and owns two
    /// body segments and a tail, all one tile to the head's left.
    pub fn setup_players(&mut self)
        requires
            old(self).wf(),
            old(self).snakes@.len() == 0,
            (old(self).players@.len() - 1) * 2 * old(self).arena.tile <= old(
                self,
            ).arena.half_extent_y_spec(),
        ensures
            final(self).wf(),
            final(self).live_heads_in_bounds(),
            final(self).players_attached(),
            final(self).arena == old(self).arena,
            final(self).phase == old(self).phase,
            final(self).tick_micros == old(self).tick_micros,
            final(self).snakes@.len() == old(self).players@.len(),
            final(self).players@.len() == old(self).players@.len(),
            final(self).apple.radius == old(self).apple.radius,
            final(self).arena.in_bounds_spec(final(self).apple.pos),
            forall|p: int|
                0 <= p < old(self).players@.len() ==> (#[trigger] final(self).players@[p])
                    == (Player {
                    snake_head_ref: SnakeHeadRef(Some(p as usize)),
                    ..old(self).players@[p]
                }),
            forall|k: int|
                0 <= k < final(self).snakes@.len() ==> {
                    let s = #[trigger] final(self).snakes@[k];
                    &&& s.pos.x == 0
                    &&& s.pos.y == k * 2 * old(self).arena.tile
                    &&& s.direction == SnakeDirection::Right
                    &&& s.facing == SnakeDirection::Right
                    &&& s.radius == old(self).arena.tile / 2
                    &&& !s.dead
                    &&& s.body.0@.len() == 3
                },
            forall|k: int, i: int|
                0 <= k < final(self).snakes@.len() && 0 <= i < 3 ==> {
                    let seg = final(self).segments.seg(#[trigger] cid(final(self).snakes@, k, i));
                    &&& seg.pos.x == -(old(self).arena.tile as int)
                    &&& seg.pos.y == k * 2 * old(self).arena.tile
                    &&& seg.radius == old(self).arena.tile / 2
                    &&& seg.facing == SnakeDirection::Right
                },
    {
        let ghost pre = *self;
        let tile = self.arena.tile;
        let n = self.players.len();
        let mut p: usize = 0;
        while p < n
            invariant
                pre.wf(),
                pre.snakes@.len() == 0,
                (pre.players@.len() - 1) * 2 * pre.arena.tile <= pre.arena.half_extent_y_spec(),
                tile == pre.arena.tile,
                n == pre.players@.len(),
                p <= n,
                self.arena == pre.arena,
                self.phase == pre.phase,
                self.tick_micros == pre.tick_micros,
                self.apple == pre.apple,
                self.players@.len() == pre.players@.len(),
                self.snakes@.len() == p,
                forall|q: int| p <= q < n ==> self.players@[q] == pre.players@[q],
                forall|q: int|
                    0 <= q < p ==> (#[trigger] self.players@[q]) == (Player {
                        snake_head_ref: SnakeHeadRef(Some(q as usize)),
                        ..pre.players@[q]
                    }),
                forall|k: int|
                    0 <= k < p ==> {
                        let s = #[trigger] self.snakes@[k];
                        &&& s.pos.x == 0
                        &&& s.pos.y == k * 2 * pre.arena.tile
                        &&& s.direction == SnakeDirection::Right
                        &&& s.facing == SnakeDirection::Right
                        &&& s.radius == pre.arena.tile / 2
                        &&& !s.dead
                        &&& s.body.0@.len() == 3
                    },
                forall|k: int, i: int|
                    0 <= k < p && 0 <= i < 3 ==> {
                        let seg = self.segments.seg(#[trigger] cid(self.snakes@, k, i));
                        &&& seg.pos.x == -(pre.arena.tile as int)
                        &&& seg.pos.y == k * 2 * pre.arena.tile
                        &&& seg.radius == pre.arena.tile / 2
                        &&& seg.facing == SnakeDirection::Right
                    },
                snakes_wf(self.arena, self.segments, self.snakes@),
                chains_disjoint(self.snakes@),
                segs_bounded(self.arena, self.segments),
                forall|k: int|
                    0 <= k < p ==> self.arena.in_bounds_spec((#[trigger] self.snakes@[k]).pos),
            decreases n - p,
        {
            let ghost mid = *self;
            proof {
                assert((p as int) * 2 * pre.arena.tile <= (pre.players@.len() - 1) * 2
                    * pre.arena.tile) by (nonlinear_arith)
                    requires
                        p < pre.players@.len(),
                        0 <= pre.arena.tile;
                assert(0 <= (p as int) * 2 * pre.arena.tile) by (nonlinear_arith)
                    requires
                        0 <= p,
                        0 <= pre.arena.tile;
                assert((p as int) * 2 <= (p as int) * 2 * pre.arena.tile) by (nonlinear_arith)
                    requires
                        1 <= pre.arena.tile,
                        0 <= p;
            }
            let y64: u64 = (p as u64) * 2 * (tile as u64);
            let y: i64 = y64 as i64;
            let head_pos = Pos { x: 0, y };
            let body_pos = Pos { x: -(tile as i64), y };
            let seg = Segment {
                pos: body_pos,
                facing: SnakeDirection::Right,
                radius: tile / 2,
                role: SegmentRole::Body,
                collidible: true,
            };
            let id0 = self.segments.spawn(seg);
            let id1 = self.segments.spawn(seg);
            let id2 = self.segments.spawn(Segment { role: SegmentRole::Tail, ..seg });
            let mut body: Vec<SegmentId> = Vec::new();
            body.push(id0);
            body.push(id1);
            body.push(id2);
            self.snakes.push(
                SnakeHead {
                    pos: head_pos,
                    direction: SnakeDirection::Right,
                    facing: SnakeDirection::Right,
                    radius: tile / 2,
                    dead: false,
                    body: BodyRef(body),
                },
            );
            self.players[p].snake_head_ref = SnakeHeadRef(Some(p));
            proof {
                let ghost pk = p as int;
                assert(self.snakes@[pk].body.0@ =~= seq![id0, id1, id2]);
                assert(id0 != id1 && id0 != id2 && id1 != id2);
                // chains of earlier snakes are untouched
                assert forall|k: int| 0 <= k < pk implies #[trigger] snake_wf(
                    self.arena,
                    self.segments,
                    self.snakes@,
                    k,
                ) by {
                    assert(snake_wf(mid.arena, mid.segments, mid.snakes@, k));
                    assert forall|i: int| 0 <= i < mid.snakes@[k].body.0@.len() implies {
                        &&& #[trigger] self.segments.live(cid(mid.snakes@, k, i))
                            == mid.segments.live(cid(mid.snakes@, k, i))
                        &&& self.segments.seg(cid(mid.snakes@, k, i)) == mid.segments.seg(
                            cid(mid.snakes@, k, i),
                        )
                    } by {
                        assert(mid.segments.live(cid(mid.snakes@, k, i)));
                    }
                    assert(self.snakes@[k] == mid.snakes@[k]);
                    lemma_snake_wf_frame(
                        self.arena,
                        mid.segments,
                        self.segments,
                        mid.snakes@,
                        self.snakes@,
                        k,
                    );
                }
                // the new chain is intact
                assert(snake_wf(self.arena, self.segments, self.snakes@, pk)) by {
                    assert(cid(self.snakes@, pk, 0) == id0);
                    assert(cid(self.snakes@, pk, 1) == id1);
                    assert(cid(self.snakes@, pk, 2) == id2);
                }
                // earlier seg facts survive the three spawns
                assert forall|k: int, i: int| 0 <= k < pk && 0 <= i < 3 implies {
                    let sg = self.segments.seg(#[trigger] cid(self.snakes@, k, i));
                    &&& sg.pos.x == -(pre.arena.tile as int)
                    &&& sg.pos.y == k * 2 * pre.arena.tile
                    &&& sg.radius == pre.arena.tile / 2
                    &&& sg.facing == SnakeDirection::Right
                } by {
                    assert(snake_wf(mid.arena, mid.segments, mid.snakes@, k));
                    assert(cid(self.snakes@, k, i) == cid(mid.snakes@, k, i));
                    assert(mid.segments.live(cid(mid.snakes@, k, i)));
                    assert(self.segments.seg(cid(mid.snakes@, k, i)) == mid.segments.seg(
                        cid(mid.snakes@, k, i),
                    ));
                }
                // disjointness including the new chain
                assert forall|k1: int, i1: int, k2: int, i2: int|
                    0 <= k1 < self.snakes@.len() && 0 <= i1 < self.snakes@[k1].body.0@.len() && 0
                        <= k2 < self.snakes@.len() && 0 <= i2 < self.snakes@[k2].body.0@.len() && (
                    k1 != k2 || i1 != i2) implies #[trigger] cid(self.snakes@, k1, i1)
                    != #[trigger] cid(self.snakes@, k2, i2) by {
                    if k1 < pk && k2 < pk {
                        assert(cid(self.snakes@, k1, i1) == cid(mid.snakes@, k1, i1));
                        assert(cid(self.snakes@, k2, i2) == cid(mid.snakes@, k2, i2));
                        assert(cid(mid.snakes@, k1, i1) != cid(mid.snakes@, k2, i2));
                    } else if k1 == pk && k2 < pk {
                        assert(snake_wf(mid.arena, mid.segments, mid.snakes@, k2));
                        assert(cid(self.snakes@, k2, i2) == cid(mid.snakes@, k2, i2));
                        assert(mid.segments.live(cid(mid.snakes@, k2, i2)));
                    } else if k2 == pk && k1 < pk {
                        assert(snake_wf(mid.arena, mid.segments, mid.snakes@, k1));
                        assert(cid(self.snakes@, k1, i1) == cid(mid.snakes@, k1, i1));
                        assert(mid.segments.live(cid(mid.snakes@, k1, i1)));
                    }
                }
            }
            p = p + 1;
        }
        let ap = get_random_point(&self.arena);
        self.apple.pos = ap;
    }

    /// One fixed tick while the round is `Playing`: control resolution,
    /// then movement, then collision detection (death first, then apple —
    /// an apple eaten on the death tick still counts), then the deferred
    /// growth and apple relocation, then phase aggregation.  Returns the
    /// grow events that fired, one per player that ate, in player order.
    /// Outside `Playing` the tick is a no-op.
    #[verifier::rlimit(100)]
    pub fn tick(&mut self, pressed: &Vec<u32>) -> (eats: Vec<GrowSnakeEvent>)
        requires
            old(self).wf(),
            old(self).live_heads_in_bounds(),
            old(self).players_attached(),
            forall|p: int|
                0 <= p < old(self).players@.len()
                    ==> (#[trigger] old(self).players@[p]).score.value < u32::MAX,
        ensures
            final(self).wf(),
            final(self).live_heads_in_bounds(),
            final(self).players_attached(),
            final(self).arena == old(self).arena,
            final(self).players@.len() == old(self).players@.len(),
            final(self).snakes@.len() == old(self).snakes@.len(),
            old(self).phase != GamePhase::Playing ==> *final(self) == *old(self) && eats@.len()
                == 0,
            old(self).phase == GamePhase::Playing ==> ({
                let dead0 = old(self).snakes@.map_values(|s: SnakeHead| s.dead);
                let eaters = eaters_upto(
                    old(self).players@,
                    final(self).snakes@,
                    old(self).apple,
                    dead0,
                    old(self).players@.len() as int,
                );
                &&& forall|p: int|
                    0 <= p < old(self).players@.len()
                        ==> ((#[trigger] old(self).players@[p].snake_head_ref.0) matches Some(k)
                        ==> final(self).snakes@[k as int].direction == apply_input(
                        old(self).snakes@[k as int].direction,
                        resolve_candidate(
                            old(self).players@[p].control_scheme.directional_controls@,
                            pressed@,
                        ),
                    ))
                &&& forall|k: int|
                    0 <= k < old(self).snakes@.len() && !old(self).snakes@[k].dead ==> stepped(
                        old(self).snakes@[k].pos,
                        final(self).snakes@[k].direction,
                        old(self).arena.tile,
                        (#[trigger] final(self).snakes@[k]).pos,
                    )
                &&& forall|k: int|
                    0 <= k < old(self).snakes@.len() && old(self).snakes@[k].dead
                        ==> (#[trigger] final(self).snakes@[k]).pos == old(self).snakes@[k].pos
                            && final(self).snakes@[k].dead
                &&& forall|k: int|
                    0 <= k < old(self).snakes@.len() && !old(self).snakes@[k].dead
                        ==> ((#[trigger] final(self).snakes@[k]).dead <==> (!old(
                        self,
                    ).arena.in_bounds_spec(final(self).snakes@[k].pos) || hits_collidible_upto(
                        final(self).segments,
                        old(self).segments.slots@.len() as int,
                        final(self).snakes@[k].pos,
                        final(self).snakes@[k].radius,
                    )))
                &&& forall|k: int, i: int|
                    0 <= k < old(self).snakes@.len() && !old(self).snakes@[k].dead && 0 <= i < old(
                        self,
                    ).snakes@[k].body.0@.len() ==> (#[trigger] final(self).segments.seg(
                        cid(old(self).snakes@, k, i),
                    )).pos == (if i == 0 {
                        old(self).snakes@[k].pos
                    } else {
                        old(self).segments.seg(cid(old(self).snakes@, k, i - 1)).pos
                    })
                &&& forall|p: int|
                    0 <= p < old(self).players@.len()
                        ==> (#[trigger] final(self).players@[p]).score.value == old(
                        self,
                    ).players@[p].score.value + (if ate(
                        old(self).players@,
                        final(self).snakes@,
                        old(self).apple,
                        dead0,
                        p,
                    ) {
                        1int
                    } else {
                        0int
                    })
                &&& final(self).tick_micros == decel_iter(
                    old(self).tick_micros as int,
                    eaters.len(),
                )
                &&& eats@.len() == eaters.len()
                &&& forall|k: int|
                    0 <= k < old(self).snakes@.len()
                        ==> (#[trigger] final(self).snakes@[k]).body.0@.len() == old(
                        self,
                    ).snakes@[k].body.0@.len() + (if (exists|p: int|
                        0 <= p < old(self).players@.len() && (#[trigger] old(
                            self,
                        ).players@[p].snake_head_ref.0) == Some(k as usize) && ate(
                            old(self).players@,
                            final(self).snakes@,
                            old(self).apple,
                            dead0,
                            p,
                        )) && !final(self).snakes@[k].dead {
                        1int
                    } else {
                        0int
                    })
                &&& (final(self).phase == GamePhase::Dead <==> final(self).all_heads_dead())
                &&& (final(self).phase == GamePhase::Dead || final(self).phase
                    == GamePhase::Playing)
                &&& (eaters.len() == 0 ==> final(self).apple == old(self).apple)
                &&& final(self).apple.radius == old(self).apple.radius
            }),
    {
        let ghost s0 = *self;
        if self.phase != GamePhase::Playing {
            return Vec::new();
        }
        // snapshot of the tick-start death flags, indexed by snake
        let mut dead0v: Vec<bool> = Vec::new();
        let mut k: usize = 0;
        while k < self.snakes.len()
            invariant
                *self == s0,
                k <= s0.snakes@.len(),
                dead0v@.len() == k,
                forall|j: int| 0 <= j < k ==> dead0v@[j] == (#[trigger] s0.snakes@[j]).dead,
            decreases s0.snakes@.len() - k,
        {
            let d = self.snakes[k].dead;
            dead0v.push(d);
            k = k + 1;
        }
        let ghost dead0 = dead0v@;
        proof {
            assert(dead0 =~= s0.snakes@.map_values(|s: SnakeHead| s.dead));
        }
        self.game_keys(pressed);
        let ghost s1 = *self;
        proof {
            assert(s1.live_heads_in_bounds()) by {
                assert forall|k2: int|
                    0 <= k2 < s1.snakes@.len() && !(#[trigger] s1.snakes@[k2]).dead
                    implies s1.arena.in_bounds_spec(s1.snakes@[k2].pos) by {
                    assert(s1.snakes@[k2] == (SnakeHead {
                        direction: s1.snakes@[k2].direction,
                        ..s0.snakes@[k2]
                    }));
                }
            }
        }
        self.move_snakes();
        let ghost s2 = *self;
        self.check_death_collision();
        let ghost s3 = *self;
        proof {
            assert forall|p: int| 0 <= p < s3.players@.len()
                implies (#[trigger] s3.players@[p]).score.value < u32::MAX by {
                assert(s3.players@[p] == s0.players@[p]);
            }
        }
        let eats = self.check_apple_collision(&dead0v);
        let ghost s4 = *self;
        let ghost eaters = eaters_upto(
            s3.players@,
            s3.snakes@,
            s3.apple,
            dead0,
            s3.players@.len() as int,
        );
        proof {
            assert(s3.players@.len() <= usize::MAX) by {
                assert(vstd::std_specs::vec::spec_vec_len(&self.players) == self.players@.len());
            }
            lemma_eaters_upto_props(s3.players@, s3.snakes@, s3.apple, dead0, s3.players@.len() as int);
            // events carry pairwise distinct snake indices
            assert forall|i1: int, i2: int| 0 <= i1 < i2 < eats@.len()
                implies (#[trigger] eats@[i1]).0 != (#[trigger] eats@[i2]).0 by {
                assert(eaters[i1] < eaters[i2]);
                assert(ate(s3.players@, s3.snakes@, s3.apple, dead0, eaters[i1] as int));
                assert(ate(s3.players@, s3.snakes@, s3.apple, dead0, eaters[i2] as int));
                assert(s3.players@[eaters[i1] as int].snake_head_ref.0
                    != s3.players@[eaters[i2] as int].snake_head_ref.0);
            }
            assert forall|i: int| 0 <= i < eats@.len()
                implies (#[trigger] eats@[i]).0 < s4.snakes@.len() by {
                assert(ate(s3.players@, s3.snakes@, s3.apple, dead0, eaters[i] as int));
            }
        }
        // one relocation request per eat notification
        let mut apple_events: Vec<MoveAppleEvent> = Vec::new();
        let mut ai: usize = 0;
        while ai < eats.len()
            invariant
                *self == s4,
                ai <= eats@.len(),
                apple_events@.len() == ai,
            decreases eats@.len() - ai,
        {
            apple_events.push(MoveAppleEvent);
            ai = ai + 1;
        }
        // deferred growth: one event per confirmed eat
        let mut gi: usize = 0;
        while gi < eats.len()
            invariant
                self.wf(),
                gi <= eats@.len(),
                self.arena == s4.arena,
                self.players == s4.players,
                self.apple == s4.apple,
                self.phase == s4.phase,
                self.tick_micros == s4.tick_micros,
                self.snakes@.len() == s4.snakes@.len(),
                forall|i1: int, i2: int|
                    0 <= i1 < i2 < eats@.len() ==> (#[trigger] eats@[i1]).0 != (
                    #[trigger] eats@[i2]).0,
                forall|i: int| 0 <= i < eats@.len() ==> (#[trigger] eats@[i]).0 < s4.snakes@.len(),
                forall|k2: int|
                    0 <= k2 < s4.snakes@.len() ==> (#[trigger] self.snakes@[k2]) == (SnakeHead {
                        body: self.snakes@[k2].body,
                        ..s4.snakes@[k2]
                    }),
                forall|k2: int|
                    0 <= k2 < s4.snakes@.len() ==> (#[trigger] self.snakes@[k2]).body.0@.len()
                        == s4.snakes@[k2].body.0@.len() + (if (exists|j: int|
                        0 <= j < gi && (#[trigger] eats@[j]).0 == k2) && !s4.snakes@[k2].dead {
                        1int
                    } else {
                        0int
                    }),
                forall|id: SegmentId| #[trigger]
                    s4.segments.live(id) ==> {
                        &&& self.segments.live(id)
                        &&& self.segments.seg(id).pos == s4.segments.seg(id).pos
                        &&& self.segments.seg(id).radius == s4.segments.seg(id).radius
                        &&& self.segments.seg(id).collidible == s4.segments.seg(id).collidible
                    },
                self.segments.slots@.len() >= s4.segments.slots@.len(),
                forall|id: SegmentId|
                    id.index < s4.segments.slots@.len()
                        ==> (#[trigger] self.segments.live(id)) == s4.segments.live(id),
            decreases eats@.len() - gi,
        {
            let ghost mid = *self;
            let ev = eats[gi];
            self.grow_snake(ev.0);
            proof {
                assert forall|k2: int| 0 <= k2 < s4.snakes@.len()
                    implies (#[trigger] self.snakes@[k2]).body.0@.len() == s4.snakes@[
                    k2
                ].body.0@.len() + (if (exists|j: int|
                    0 <= j < gi + 1 && (#[trigger] eats@[j]).0 == k2) && !s4.snakes@[k2].dead {
                    1int
                } else {
                    0int
                }) by {
                    if k2 == ev.0 {
                        assert(eats@[gi as int].0 == k2);
                        assert(exists|j: int| 0 <= j < gi + 1 && (#[trigger] eats@[j]).0 == k2);
                        assert(!(exists|j: int| 0 <= j < gi && (#[trigger] eats@[j]).0 == k2));
                        assert(mid.snakes@[k2].dead == s4.snakes@[k2].dead);
                        if s4.snakes@[k2].dead {
                            assert(self.snakes == mid.snakes);
                        } else {
                            assert(self.snakes@[k2].body.0@.len() == mid.snakes@[k2].body.0@.len()
                                + 1);
                        }
                    } else {
                        assert(self.snakes@[k2] == mid.snakes@[k2]);
                        assert((exists|j: int| 0 <= j < gi + 1 && (#[trigger] eats@[j]).0 == k2)
                            == (exists|j: int| 0 <= j < gi && (#[trigger] eats@[j]).0 == k2));
                    }
                }
            }
            gi = gi + 1;
        }
        let ghost s5 = *self;
        self.move_apple_handler(&apple_events);
        self.check_all_dead();
        let ghost s7 = *self;
        proof {
            // who ate reads only positions and radii, which growth kept
            lemma_eaters_frame(
                s3.players@,
                s3.snakes@,
                s7.snakes@,
                s3.apple,
                dead0,
                s3.players@.len() as int,
            );
            assert(s0.players@ == s3.players@ && s0.apple == s3.apple);
            // the grown chains are exactly those of surviving eaters
            assert forall|k2: int| #![trigger s7.snakes@[k2]] 0 <= k2 < s0.snakes@.len()
                implies ((exists|j: int| 0 <= j < eats@.len() && (#[trigger] eats@[j]).0 == k2)
                    == (exists|p: int|
                    0 <= p < s0.players@.len() && (#[trigger] s0.players@[p].snake_head_ref.0)
                        == Some(k2 as usize) && ate(s0.players@, s7.snakes@, s0.apple, dead0, p)))
            by {
                if exists|j: int| 0 <= j < eats@.len() && (#[trigger] eats@[j]).0 == k2 {
                    let j = choose|j: int| 0 <= j < eats@.len() && (#[trigger] eats@[j]).0 == k2;
                    let p = eaters[j] as int;
                    assert(ate(s3.players@, s3.snakes@, s3.apple, dead0, p));
                    assert(eats@[j].0 == (s3.players@[p].snake_head_ref.0)->0);
                    assert(s0.players@[p].snake_head_ref.0 == Some(k2 as usize));
                    assert(ate(s0.players@, s7.snakes@, s0.apple, dead0, p));
                }
                if exists|p: int|
                    0 <= p < s0.players@.len() && (#[trigger] s0.players@[p].snake_head_ref.0)
                        == Some(k2 as usize) && ate(s0.players@, s7.snakes@, s0.apple, dead0, p) {
                    let p = choose|p: int|
                        0 <= p < s0.players@.len() && (#[trigger] s0.players@[p].snake_head_ref.0)
                            == Some(k2 as usize) && ate(s0.players@, s7.snakes@, s0.apple, dead0, p);
                    assert(ate(s3.players@, s3.snakes@, s3.apple, dead0, p));
                    assert(eaters.contains((p as usize)));
                    let j = choose|j: int| 0 <= j < eaters.len() && eaters[j] == (p as usize);
                    assert(eats@[j].0 == (s3.players@[p].snake_head_ref.0)->0);
                    assert(eats@[j].0 == k2);
                }
            }
            // directions, positions and death flags survive to the end
            assert forall|k2: int| 0 <= k2 < s0.snakes@.len() implies {
                &&& (#[trigger] s7.snakes@[k2]).direction == s2.snakes@[k2].direction
                &&& s7.snakes@[k2].pos == s2.snakes@[k2].pos
                &&& s7.snakes@[k2].dead == s3.snakes@[k2].dead
                &&& s7.snakes@[k2].radius == s2.snakes@[k2].radius
            } by {
                assert(s3.snakes@[k2] == (SnakeHead {
                    dead: s3.snakes@[k2].dead,
                    ..s2.snakes@[k2]
                }));
                assert(s7.snakes@[k2] == (SnakeHead {
                    body: s7.snakes@[k2].body,
                    ..s4.snakes@[k2]
                }));
            }
            // propagation facts carry from the movement pass to the end
            assert forall|k2: int, i: int|
                0 <= k2 < s0.snakes@.len() && !s0.snakes@[k2].dead && 0 <= i < s0.snakes@[
                    k2
                ].body.0@.len() implies (#[trigger] s7.segments.seg(cid(s0.snakes@, k2, i))).pos
                == (if i == 0 {
                    s0.snakes@[k2].pos
                } else {
                    s0.segments.seg(cid(s0.snakes@, k2, i - 1)).pos
                }) by {
                assert(s1.snakes@[k2] == (SnakeHead {
                    direction: s1.snakes@[k2].direction,
                    ..s0.snakes@[k2]
                }));
                assert(moved_chain(
                    s1.segments,
                    s2.segments,
                    s1.snakes@[k2].body.0@,
                    s1.snakes@[k2].pos,
                ));
                let body = s0.snakes@[k2].body.0@;
                assert(body[i] == cid(s0.snakes@, k2, i));
                assert(snake_wf(s0.arena, s0.segments, s0.snakes@, k2));
                assert(s0.segments.live(cid(s0.snakes@, k2, i)));
                assert(s2.segments.live(body[i]));
                assert(s4.segments.live(body[i]));
                assert(s7.segments.seg(body[i]).pos == s4.segments.seg(body[i]).pos);
            }
            // the first slots (all that existed when death was checked)
            // keep their liveness, positions, radii and collidibility
            assert(s2.segments.slots@.len() == s0.segments.slots@.len());
            let n0 = s0.segments.slots@.len() as int;
            assert forall|j: int| 0 <= j < n0 implies {
                &&& j < s7.segments.slots@.len()
                &&& (#[trigger] s7.segments.slots@[j]).live == s2.segments.slots@[j].live
                &&& (s2.segments.slots@[j].live ==> {
                    &&& s7.segments.slots@[j].seg.pos == s2.segments.slots@[j].seg.pos
                    &&& s7.segments.slots@[j].seg.radius == s2.segments.slots@[j].seg.radius
                    &&& s7.segments.slots@[j].seg.collidible == s2.segments.slots@[
                        j
                    ].seg.collidible
                })
            } by {
                assert(s2.segments.slots@.len() <= usize::MAX) by {
                    assert(vstd::std_specs::vec::spec_vec_len(&self.segments.slots)
                        >= 0);
                    assert(vstd::std_specs::vec::spec_vec_len(&self.segments.slots)
                        == self.segments.slots@.len());
                }
                if s2.segments.slots@[j].live {
                    let id = SegmentId {
                        index: j as usize,
                        generation: s2.segments.slots@[j].generation,
                    };
                    assert(id.index as int == j);
                    assert(s2.segments.live(id));
                    assert(s4.segments.live(id));
                    assert(s7.segments.live(id));
                    assert(s7.segments.seg(id) == s7.segments.slots@[j].seg);
                    assert(s7.segments.seg(id).pos == s4.segments.seg(id).pos);
                    assert(s7.segments.seg(id).radius == s4.segments.seg(id).radius);
                    assert(s7.segments.seg(id).collidible == s4.segments.seg(id).collidible);
                } else {
                    if s7.segments.slots@[j].live {
                        let id7 = SegmentId {
                            index: j as usize,
                            generation: s7.segments.slots@[j].generation,
                        };
                        assert(id7.index as int == j);
                        assert(s7.segments.live(id7));
                        assert(s4.segments.live(id7));
                        assert(false);
                    }
                }
            }
            // exact death condition, stated over the end-of-tick state
            assert forall|k2: int| 0 <= k2 < s0.snakes@.len() && !s0.snakes@[k2].dead
                implies ((#[trigger] s7.snakes@[k2]).dead <==> (!s0.arena.in_bounds_spec(
                s7.snakes@[k2].pos,
            ) || hits_collidible_upto(
                s7.segments,
                n0,
                s7.snakes@[k2].pos,
                s7.snakes@[k2].radius,
            ))) by {
                assert(s3.snakes@[k2] == (SnakeHead {
                    dead: s2.snakes@[k2].dead || should_die(
                        s2.arena,
                        s2.segments,
                        s2.snakes@[k2],
                    ),
                    ..s2.snakes@[k2]
                }));
                assert(s2.snakes@[k2].dead == s0.snakes@[k2].dead);
                assert(s7.snakes@[k2].pos == s2.snakes@[k2].pos);
                assert(s7.snakes@[k2].radius == s2.snakes@[k2].radius);
                let hp = s2.snakes@[k2].pos;
                let hr = s2.snakes@[k2].radius;
                if hits_collidible(s2.segments, hp, hr) {
                    let j = choose|j: int|
                        0 <= j < s2.segments.slots@.len() && (#[trigger] s2.segments.slots@[
                            j
                        ]).live && s2.segments.slots@[j].seg.collidible && circles_touch_spec(
                            hp,
                            hr as int,
                            s2.segments.slots@[j].seg.pos,
                            s2.segments.slots@[j].seg.radius as int,
                        );
                    assert(0 <= j < n0 && j < s7.segments.slots@.len()
                        && s7.segments.slots@[j].live && s7.segments.slots@[j].seg.collidible
                        && circles_touch_spec(
                        hp,
                        hr as int,
                        s7.segments.slots@[j].seg.pos,
                        s7.segments.slots@[j].seg.radius as int,
                    ));
                    assert(hits_collidible_upto(s7.segments, n0, hp, hr));
                }
                if hits_collidible_upto(s7.segments, n0, hp, hr) {
                    let j = choose|j: int|
                        0 <= j < n0 && j < s7.segments.slots@.len() && (
                        #[trigger] s7.segments.slots@[j]).live && s7.segments.slots@[
                            j
                        ].seg.collidible && circles_touch_spec(
                            hp,
                            hr as int,
                            s7.segments.slots@[j].seg.pos,
                            s7.segments.slots@[j].seg.radius as int,
                        );
                    assert(0 <= j < s2.segments.slots@.len() && s2.segments.slots@[j].live
                        && s2.segments.slots@[j].seg.collidible && circles_touch_spec(
                        hp,
                        hr as int,
                        s2.segments.slots@[j].seg.pos,
                        s2.segments.slots@[j].seg.radius as int,
                    ));
                    assert(hits_collidible(s2.segments, hp, hr));
                }
            }
        }
        eats
    }

    /// Tears down every round-scoped entity: players, snakes and their
    /// segments.  The apple entity stays, as it is recreated per round.
    pub fn tear_down_players(&mut self)
        requires
            old(self).wf(),
        ensures
            final(self).wf(),
            final(self).players@.len() == 0,
            final(self).snakes@.len() == 0,
            final(self).segments.slots@.len() == 0,
            final(self).arena == old(self).arena,
            final(self).apple == old(self).apple,
            final(self).phase == old(self).phase,
            final(self).tick_micros == old(self).tick_micros,
    {
        self.players = Vec::new();
        self.snakes = Vec::new();
        self.segments = SegmentArena::new();
    }
}

} // verus!
