use snake_core::control::{
    ControlScheme, KEY_ARROW_DOWN, KEY_ARROW_LEFT, KEY_ARROW_RIGHT, KEY_ARROW_UP,
};
use snake_core::direction::{valid_direction, SnakeDirection};

fn arrow_scheme() -> ControlScheme {
    let mut scheme = ControlScheme::new();
    assert!(scheme.bind(KEY_ARROW_UP, SnakeDirection::Up));
    assert!(scheme.bind(KEY_ARROW_LEFT, SnakeDirection::Left));
    assert!(scheme.bind(KEY_ARROW_DOWN, SnakeDirection::Down));
    assert!(scheme.bind(KEY_ARROW_RIGHT, SnakeDirection::Right));
    scheme
}

#[test]
fn direction_changed_finds_bound_keys() {
    let scheme = arrow_scheme();
    assert_eq!(scheme.direction_changed(KEY_ARROW_UP), Some(SnakeDirection::Up));
    assert_eq!(scheme.direction_changed(KEY_ARROW_RIGHT), Some(SnakeDirection::Right));
    assert_eq!(scheme.direction_changed(999), None);
}

#[test]
fn binding_a_key_twice_is_rejected() {
    let mut scheme = arrow_scheme();
    assert!(!scheme.bind(KEY_ARROW_UP, SnakeDirection::Down));
    assert_eq!(scheme.direction_changed(KEY_ARROW_UP), Some(SnakeDirection::Up));
}

#[test]
fn last_mapped_key_wins() {
    let scheme = arrow_scheme();
    let pressed = vec![KEY_ARROW_UP, KEY_ARROW_LEFT];
    assert_eq!(scheme.resolve(&pressed), Some(SnakeDirection::Left));
}

#[test]
fn unmapped_keys_produce_no_candidate_and_clear_nothing() {
    let scheme = arrow_scheme();
    assert_eq!(scheme.resolve(&vec![999, 1000]), None);
    // an unmapped key pressed after a mapped one does not clear the candidate
    assert_eq!(scheme.resolve(&vec![KEY_ARROW_DOWN, 999]), Some(SnakeDirection::Down));
    assert_eq!(scheme.resolve(&Vec::new()), None);
}

#[test]
fn opposite_directions_are_invalid() {
    assert!(!valid_direction(&SnakeDirection::Left, &SnakeDirection::Right));
    assert!(!valid_direction(&SnakeDirection::Right, &SnakeDirection::Left));
    assert!(!valid_direction(&SnakeDirection::Up, &SnakeDirection::Down));
    assert!(!valid_direction(&SnakeDirection::Down, &SnakeDirection::Up));
    assert!(valid_direction(&SnakeDirection::Left, &SnakeDirection::Up));
    assert!(valid_direction(&SnakeDirection::Up, &SnakeDirection::Up));
}

#[test]
fn opposite_is_an_involution() {
    for d in [
        SnakeDirection::Left,
        SnakeDirection::Right,
        SnakeDirection::Up,
        SnakeDirection::Down,
    ] {
        assert_eq!(d.opposite().opposite(), d);
        assert!(d.opposite() != d);
    }
}
