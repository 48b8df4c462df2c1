use snake_core::control::{KEY_ARROW_DOWN, KEY_ARROW_LEFT, KEY_ARROW_UP, KEY_S, KEY_W};
use snake_core::direction::SnakeDirection;
use snake_core::entities::SegmentRole;
use snake_core::geometry::{Arena, Pos};
use snake_core::phase::GamePhase;
use snake_core::round::{MoveAppleEvent, Round};
use snake_core::INITIAL_TICK_MICROS;

fn default_arena() -> Arena {
    Arena { width: 40, height: 22, tile: 32 }
}

/// A fresh two-player round with the apple parked far from the action.
fn fresh_round() -> Round {
    let mut round = Round::new(default_arena());
    round.init_char_selection();
    round.init_game();
    round.setup_players();
    round.apple.pos = Pos { x: 600, y: -300 };
    round
}

fn seg_pos(round: &Round, snake: usize, i: usize) -> Pos {
    let id = round.snakes[snake].body.0[i];
    round.segments.get(id).unwrap().pos
}

#[test]
fn setup_places_snakes_and_chains() {
    let round = fresh_round();
    assert_eq!(round.snakes.len(), 2);
    assert_eq!(round.players.len(), 2);
    assert_eq!(round.players[0].snake_head_ref.0, Some(0));
    assert_eq!(round.players[1].snake_head_ref.0, Some(1));
    assert_eq!(round.snakes[0].pos, Pos { x: 0, y: 0 });
    assert_eq!(round.snakes[1].pos, Pos { x: 0, y: 64 });
    assert_eq!(round.snakes[0].direction, SnakeDirection::Right);
    assert_eq!(round.snakes[0].body.0.len(), 3);
    for i in 0..3 {
        assert_eq!(seg_pos(&round, 0, i), Pos { x: -32, y: 0 });
        assert_eq!(seg_pos(&round, 1, i), Pos { x: -32, y: 64 });
    }
    let tail = round.segments.get(round.snakes[0].body.0[2]).unwrap();
    assert_eq!(tail.role, SegmentRole::Tail);
    let body = round.segments.get(round.snakes[0].body.0[0]).unwrap();
    assert_eq!(body.role, SegmentRole::Body);
    assert_eq!(round.tick_micros, INITIAL_TICK_MICROS);
}

#[test]
fn example_scenario() {
    // arena 40 x 22 tiles, tile 32; snake at the origin facing right with
    // two body segments and a tail
    let mut round = fresh_round();
    let eats = round.tick(&Vec::new());
    assert_eq!(eats.len(), 0);
    // after one tick moving right: head at +32, first body segment at the
    // old head position, tail at the old first-body position
    assert_eq!(round.snakes[0].pos.x, 32);
    assert_eq!(round.snakes[0].pos.y, 0);
    assert_eq!(seg_pos(&round, 0, 0), Pos { x: 0, y: 0 });
    assert_eq!(seg_pos(&round, 0, 2), Pos { x: -32, y: 0 });
    // an eat event grows the chain to 4 and decelerates the tick interval
    round.apple.pos = Pos { x: 64, y: 0 };
    let prev_interval = round.tick_micros;
    let eats = round.tick(&Vec::new());
    assert_eq!(eats.len(), 1);
    assert_eq!(eats[0].0, 0);
    assert_eq!(round.snakes[0].body.0.len(), 4);
    assert_eq!(round.tick_micros, prev_interval * 95 / 100);
    assert_eq!(round.tick_micros, 118_750);
    assert_eq!(round.players[0].score.value, 1);
    assert_eq!(round.players[1].score.value, 0);
    // growth re-tags the tail: the old tail is now an ordinary body segment
    let old_tail = round.segments.get(round.snakes[0].body.0[2]).unwrap();
    assert_eq!(old_tail.role, SegmentRole::Body);
    let new_tail = round.segments.get(round.snakes[0].body.0[3]).unwrap();
    assert_eq!(new_tail.role, SegmentRole::Tail);
    // the new tail sits where the tail was after the movement pass
    assert_eq!(new_tail.pos, Pos { x: -32, y: 0 });
}

#[test]
fn opposite_direction_input_is_rejected() {
    let mut round = fresh_round();
    // snake 0 faces right; the left arrow is the exact opposite
    round.tick(&vec![KEY_ARROW_LEFT]);
    assert_eq!(round.snakes[0].direction, SnakeDirection::Right);
    assert_eq!(round.snakes[0].pos.x, 32);
    // a perpendicular input is taken
    round.tick(&vec![KEY_ARROW_UP]);
    assert_eq!(round.snakes[0].direction, SnakeDirection::Up);
    assert_eq!(round.snakes[0].pos, Pos { x: 32, y: 32 });
    // now Down (arrow handled by player 1's scheme) is the opposite of Up
    round.tick(&vec![KEY_ARROW_DOWN]);
    assert_eq!(round.snakes[0].direction, SnakeDirection::Up);
}

#[test]
fn chain_length_never_decreases() {
    let mut round = fresh_round();
    let mut prev_len = round.snakes[0].body.0.len();
    for t in 0..6 {
        if t == 2 {
            // stage one eat along the way
            round.apple.pos = Pos {
                x: round.snakes[0].pos.x + 32,
                y: round.snakes[0].pos.y,
            };
        } else {
            round.apple.pos = Pos { x: 600, y: -300 };
        }
        round.tick(&Vec::new());
        let len = round.snakes[0].body.0.len();
        assert!(len >= prev_len);
        prev_len = len;
    }
    assert_eq!(prev_len, 4);
}

#[test]
fn difficulty_is_monotone_across_eats() {
    let mut round = fresh_round();
    let mut prev = round.tick_micros;
    for _ in 0..3 {
        round.apple.pos = Pos {
            x: round.snakes[0].pos.x + 32,
            y: round.snakes[0].pos.y,
        };
        round.tick(&Vec::new());
        assert!(round.tick_micros <= prev);
        prev = round.tick_micros;
    }
    assert_eq!(round.players[0].score.value, 3);
    // 125000 -> 118750 -> 112812 -> 107171
    assert_eq!(round.tick_micros, 107_171);
}

#[test]
fn wall_collision_kills_only_that_snake() {
    let mut round = fresh_round();
    round.snakes[0].pos = Pos { x: 640, y: 0 };
    round.tick(&Vec::new());
    assert!(round.snakes[0].dead);
    assert!(!round.snakes[1].dead);
    assert_eq!(round.phase, GamePhase::Playing);
    // a dead snake stops moving
    let frozen = round.snakes[0].pos;
    round.tick(&Vec::new());
    assert_eq!(round.snakes[0].pos, frozen);
    assert!(round.snakes[0].dead);
}

#[test]
fn sitting_on_the_wall_is_not_a_collision() {
    let mut round = fresh_round();
    // head lands exactly on the wall: in bounds, still alive
    round.snakes[0].pos = Pos { x: 608, y: 0 };
    round.tick(&Vec::new());
    assert_eq!(round.snakes[0].pos.x, 640);
    assert!(!round.snakes[0].dead);
    // the next step crosses it
    round.tick(&Vec::new());
    assert!(round.snakes[0].dead);
}

#[test]
fn body_collision_kills_the_head_that_hit() {
    let mut round = fresh_round();
    // steer snake 1 (W/A/S/D) down into snake 0's chain
    round.tick(&vec![KEY_S]);
    assert_eq!(round.snakes[1].direction, SnakeDirection::Down);
    assert!(!round.snakes[1].dead);
    round.tick(&Vec::new());
    // snake 1's head reached (0, 0), where snake 0's chain now lies
    assert_eq!(round.snakes[1].pos, Pos { x: 0, y: 0 });
    assert!(round.snakes[1].dead);
    assert!(!round.snakes[0].dead);
    assert_eq!(round.phase, GamePhase::Playing);
}

#[test]
fn global_death_needs_every_head() {
    let mut round = fresh_round();
    round.snakes[0].dead = true;
    round.tick(&Vec::new());
    assert_eq!(round.phase, GamePhase::Playing);
    round.snakes[1].dead = true;
    round.tick(&Vec::new());
    assert_eq!(round.phase, GamePhase::Dead);
    // a dead round no longer ticks
    let pos = round.snakes[1].pos;
    let eats = round.tick(&vec![KEY_W]);
    assert_eq!(eats.len(), 0);
    assert_eq!(round.snakes[1].pos, pos);
}

#[test]
fn paused_round_does_not_move() {
    let mut round = fresh_round();
    round.pause_controls(true);
    assert_eq!(round.phase, GamePhase::Paused);
    let pos = round.snakes[0].pos;
    round.tick(&Vec::new());
    assert_eq!(round.snakes[0].pos, pos);
    round.pause_controls(true);
    round.tick(&Vec::new());
    assert_eq!(round.snakes[0].pos, Pos { x: 32, y: 0 });
}

#[test]
fn an_apple_eaten_on_the_death_tick_still_counts() {
    let mut round = fresh_round();
    // snake 1 will crash into snake 0's chain at the origin on its second
    // tick; the apple waits on that very spot
    round.apple.pos = Pos { x: 0, y: 0 };
    round.tick(&vec![KEY_S]);
    assert_eq!(round.players[1].score.value, 0);
    let eats = round.tick(&Vec::new());
    assert!(round.snakes[1].dead);
    assert_eq!(eats.len(), 1);
    assert_eq!(eats[0].0, 1);
    assert_eq!(round.players[1].score.value, 1);
    assert_eq!(round.tick_micros, 118_750);
    // growth for the head that just died is dropped silently
    assert_eq!(round.snakes[1].body.0.len(), 3);
}

#[test]
fn grow_snake_is_safe_on_missing_or_dead_heads() {
    let mut round = fresh_round();
    round.grow_snake(99);
    assert_eq!(round.snakes[0].body.0.len(), 3);
    assert_eq!(round.snakes[1].body.0.len(), 3);
    round.snakes[1].dead = true;
    round.grow_snake(1);
    assert_eq!(round.snakes[1].body.0.len(), 3);
    round.grow_snake(0);
    assert_eq!(round.snakes[0].body.0.len(), 4);
}

#[test]
fn apple_relocation_stays_in_bounds() {
    let mut round = fresh_round();
    let before = round.apple.pos;
    round.move_apple_handler(&Vec::new());
    assert_eq!(round.apple.pos, before);
    for _ in 0..20 {
        round.move_apple_handler(&vec![MoveAppleEvent]);
        let p = round.apple.pos;
        assert!(-640 <= p.x && p.x <= 640);
        assert!(-352 <= p.y && p.y <= 352);
    }
}

#[test]
fn teardown_clears_round_entities() {
    let mut round = fresh_round();
    round.tear_down_players();
    assert_eq!(round.players.len(), 0);
    assert_eq!(round.snakes.len(), 0);
}

#[test]
fn default_schemes_follow_the_key_maps() {
    let round = fresh_round();
    let p1 = &round.players[0].control_scheme;
    let p2 = &round.players[1].control_scheme;
    assert_eq!(p1.direction_changed(KEY_ARROW_UP), Some(SnakeDirection::Up));
    assert_eq!(p1.direction_changed(KEY_W), None);
    assert_eq!(p2.direction_changed(KEY_W), Some(SnakeDirection::Up));
    assert_eq!(p2.direction_changed(KEY_S), Some(SnakeDirection::Down));
    assert_eq!(round.players[0].name.0, "Player 1");
    assert_eq!(round.players[1].name.0, "Player 2");
}

#[test]
fn tail_facing_turns_with_travel() {
    let mut round = fresh_round();
    // steer snake 0 down; the tail follows the corner a few ticks later
    round.tick(&vec![KEY_ARROW_DOWN]);
    round.tick(&Vec::new());
    round.tick(&Vec::new());
    let tail = round.segments.get(round.snakes[0].body.0[2]).unwrap();
    assert_eq!(tail.pos, Pos { x: 0, y: 0 });
    assert_eq!(tail.facing, SnakeDirection::Right);
    round.tick(&Vec::new());
    let tail = round.segments.get(round.snakes[0].body.0[2]).unwrap();
    assert_eq!(tail.pos, Pos { x: 0, y: -32 });
    assert_eq!(tail.facing, SnakeDirection::Down);
}
