use snake_core::direction::SnakeDirection;
use snake_core::geometry::{circles_touching, step_pos, travel_facing, Arena, Pos};

#[test]
fn circles_at_exact_radius_sum_do_not_touch() {
    // centers 7 apart, radii 3 + 4 == 7: edge-touching is not a collision
    let a = Pos { x: 0, y: 0 };
    let b = Pos { x: 7, y: 0 };
    assert!(!circles_touching(a, 3, b, 4));
}

#[test]
fn circles_just_inside_radius_sum_touch() {
    let a = Pos { x: 0, y: 0 };
    let b = Pos { x: 6, y: 0 };
    assert!(circles_touching(a, 3, b, 4));
}

#[test]
fn circles_diagonal_threshold_is_exact() {
    // 3-4-5 triangle: centers exactly 5 apart
    let a = Pos { x: 0, y: 0 };
    let b = Pos { x: 3, y: 4 };
    assert!(!circles_touching(a, 2, b, 3));
    assert!(circles_touching(a, 3, b, 3));
}

#[test]
fn circle_test_is_symmetric() {
    let a = Pos { x: -10, y: 20 };
    let b = Pos { x: 5, y: 12 };
    assert_eq!(circles_touching(a, 9, b, 9), circles_touching(b, 9, a, 9));
}

#[test]
fn arena_half_extents() {
    let arena = Arena { width: 40, height: 22, tile: 32 };
    assert_eq!(arena.half_extent_x(), 640);
    assert_eq!(arena.half_extent_y(), 352);
}

#[test]
fn arena_bounds_are_closed() {
    let arena = Arena { width: 40, height: 22, tile: 32 };
    assert!(arena.in_bounds(Pos { x: 640, y: 352 }));
    assert!(arena.in_bounds(Pos { x: -640, y: -352 }));
    assert!(arena.in_bounds(Pos { x: 0, y: 0 }));
    assert!(!arena.in_bounds(Pos { x: 641, y: 0 }));
    assert!(!arena.in_bounds(Pos { x: 0, y: -353 }));
}

#[test]
fn smallest_arena_is_a_single_point() {
    let arena = Arena { width: 1, height: 1, tile: 1 };
    assert_eq!(arena.half_extent_x(), 0);
    assert_eq!(arena.half_extent_y(), 0);
    assert!(arena.in_bounds(Pos { x: 0, y: 0 }));
    assert!(!arena.in_bounds(Pos { x: 1, y: 0 }));
    assert!(!arena.in_bounds(Pos { x: 0, y: -1 }));
}

#[test]
fn step_moves_one_tile() {
    let p = Pos { x: 64, y: -32 };
    assert_eq!(step_pos(p, SnakeDirection::Right, 32), Pos { x: 96, y: -32 });
    assert_eq!(step_pos(p, SnakeDirection::Left, 32), Pos { x: 32, y: -32 });
    assert_eq!(step_pos(p, SnakeDirection::Up, 32), Pos { x: 64, y: 0 });
    assert_eq!(step_pos(p, SnakeDirection::Down, 32), Pos { x: 64, y: -64 });
}

#[test]
fn travel_facing_follows_motion() {
    let o = Pos { x: 0, y: 0 };
    assert_eq!(travel_facing(o, Pos { x: 0, y: 32 }), Some(SnakeDirection::Up));
    assert_eq!(travel_facing(o, Pos { x: 0, y: -32 }), Some(SnakeDirection::Down));
    assert_eq!(travel_facing(o, Pos { x: 32, y: 0 }), Some(SnakeDirection::Right));
    assert_eq!(travel_facing(o, Pos { x: -32, y: 0 }), Some(SnakeDirection::Left));
    assert_eq!(travel_facing(o, o), None);
}
