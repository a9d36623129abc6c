use snake_game::geometry::{Coordinate, Direction};
use snake_game::input::{Key, KeyAction};
use snake_game::game::Game;

const ALL: [Direction; 4] = [Direction::UP, Direction::DOWN, Direction::LEFT, Direction::RIGHT];

#[test]
fn opposite_pairs() {
    assert_eq!(Direction::UP.get_opposite(), Direction::DOWN);
    assert_eq!(Direction::DOWN.get_opposite(), Direction::UP);
    assert_eq!(Direction::LEFT.get_opposite(), Direction::RIGHT);
    assert_eq!(Direction::RIGHT.get_opposite(), Direction::LEFT);
}

#[test]
fn opposite_is_an_involution_without_fixed_point() {
    for d in ALL {
        assert_eq!(d.get_opposite().get_opposite(), d);
        assert_ne!(d.get_opposite(), d);
    }
}

#[test]
fn coordinates_compare_by_fields() {
    assert_eq!(Coordinate { x: 3, y: 4 }, Coordinate { x: 3, y: 4 });
    assert_ne!(Coordinate { x: 3, y: 4 }, Coordinate { x: 4, y: 3 });
    assert!(Coordinate { x: 1, y: 9 } < Coordinate { x: 2, y: 0 });
}

#[test]
fn heading_keys_turn() {
    let game = Game::new(5);
    assert_eq!(game.get_user_key(Key::Char('w'), false, 200), KeyAction::Turn(Direction::UP));
    assert_eq!(game.get_user_key(Key::Char('a'), false, 200), KeyAction::Turn(Direction::LEFT));
    assert_eq!(game.get_user_key(Key::Char('s'), false, 5000), KeyAction::Turn(Direction::DOWN));
    assert_eq!(game.get_user_key(Key::Char('d'), false, 201), KeyAction::Turn(Direction::RIGHT));
}

#[test]
fn heading_keys_turn_with_control_held() {
    let game = Game::new(5);
    assert_eq!(game.get_user_key(Key::Char('w'), true, 300), KeyAction::Turn(Direction::UP));
    assert_eq!(game.get_user_key(Key::Char('d'), true, 300), KeyAction::Turn(Direction::RIGHT));
}

#[test]
fn control_c_interrupts() {
    let game = Game::new(5);
    assert_eq!(game.get_user_key(Key::Char('c'), true, 200), KeyAction::Interrupt);
    assert_eq!(game.get_user_key(Key::Char('c'), false, 200), KeyAction::Ignored);
}

#[test]
fn unknown_keys_are_ignored() {
    let game = Game::new(5);
    assert_eq!(game.get_user_key(Key::Char('x'), false, 200), KeyAction::Ignored);
    assert_eq!(game.get_user_key(Key::Char('W'), false, 200), KeyAction::Ignored);
    assert_eq!(game.get_user_key(Key::Other, true, 200), KeyAction::Ignored);
}

#[test]
fn early_presses_are_debounced() {
    let game = Game::new(5);
    assert_eq!(game.freeze_time_ms, 200);
    assert_eq!(game.get_user_key(Key::Char('w'), false, 199), KeyAction::Debounced);
    assert_eq!(game.get_user_key(Key::Char('c'), true, 0), KeyAction::Debounced);
    assert_eq!(game.get_user_key(Key::Other, false, 10), KeyAction::Debounced);
}

#[test]
fn debounce_follows_the_configured_interval() {
    let mut game = Game::new(5);
    game.freeze_time_ms = 50;
    assert_eq!(game.get_user_key(Key::Char('w'), false, 49), KeyAction::Debounced);
    assert_eq!(game.get_user_key(Key::Char('w'), false, 50), KeyAction::Turn(Direction::UP));
    game.freeze_time_ms = 0;
    assert_eq!(game.get_user_key(Key::Char('a'), false, 0), KeyAction::Turn(Direction::LEFT));
}

#[test]
fn freeze_time_accessors_follow_the_field() {
    let mut game = Game::new(5);
    assert_eq!(game.get_freeze_time_ms(), 200);
    game.set_freeze_time_ms(75);
    assert_eq!(game.freeze_time_ms, 75);
    assert_eq!(game.get_freeze_time_ms(), 75);
    assert_eq!(game.get_user_key(Key::Char('s'), false, 74), KeyAction::Debounced);
    assert_eq!(game.get_user_key(Key::Char('s'), false, 75), KeyAction::Turn(Direction::DOWN));
}
