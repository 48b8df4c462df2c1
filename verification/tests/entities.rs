use snake_core::direction::SnakeDirection;
use snake_core::entities::{Segment, SegmentArena, SegmentId, SegmentRole};
use snake_core::geometry::Pos;

fn body_segment(x: i64, y: i64) -> Segment {
    Segment {
        pos: Pos { x, y },
        facing: SnakeDirection::Right,
        radius: 16,
        role: SegmentRole::Body,
        collidible: true,
    }
}

#[test]
fn spawned_segments_resolve() {
    let mut arena = SegmentArena::new();
    let id = arena.spawn(body_segment(0, 0));
    let got = arena.get(id).unwrap();
    assert_eq!(got.pos, Pos { x: 0, y: 0 });
    assert_eq!(got.role, SegmentRole::Body);
    assert!(got.collidible);
}

#[test]
fn despawned_segments_stop_resolving() {
    let mut arena = SegmentArena::new();
    let id = arena.spawn(body_segment(1, 2));
    let other = arena.spawn(body_segment(3, 4));
    arena.despawn(id);
    assert!(arena.get(id).is_none());
    assert!(arena.get(other).is_some());
}

#[test]
fn stale_generation_does_not_resolve() {
    let mut arena = SegmentArena::new();
    let id = arena.spawn(body_segment(1, 2));
    arena.despawn(id);
    let stale = SegmentId { index: id.index, generation: id.generation };
    assert!(arena.get(stale).is_none());
    let bumped = SegmentId { index: id.index, generation: id.generation + 1 };
    assert!(arena.get(bumped).is_none());
}

#[test]
fn out_of_range_id_does_not_resolve() {
    let arena = SegmentArena::new();
    assert!(arena.get(SegmentId { index: 7, generation: 0 }).is_none());
}

#[test]
fn updates_hit_only_their_segment() {
    let mut arena = SegmentArena::new();
    let a = arena.spawn(body_segment(0, 0));
    let b = arena.spawn(body_segment(10, 10));
    arena.set_pos(a, Pos { x: 5, y: 6 });
    arena.set_role(b, SegmentRole::Tail);
    arena.set_facing(b, SnakeDirection::Up);
    assert_eq!(arena.get(a).unwrap().pos, Pos { x: 5, y: 6 });
    assert_eq!(arena.get(a).unwrap().role, SegmentRole::Body);
    assert_eq!(arena.get(b).unwrap().pos, Pos { x: 10, y: 10 });
    assert_eq!(arena.get(b).unwrap().role, SegmentRole::Tail);
    assert_eq!(arena.get(b).unwrap().facing, SnakeDirection::Up);
}
