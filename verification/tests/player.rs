use raycaster::player::Player;
use raycaster::player::PLAYER_SPEED;
use raycaster::player::PLAYER_TURN_SPEED;
use raycaster::input::Input;
use raycaster::input::Key;
use raycaster::input::KeyState;
use raycaster::map::GridMap;
use raycaster::fixed::Vec2;
use raycaster::fixed::SCALE;

#[test]
fn new_player_faces_along_positive_x() {
    let p = Player::new(Vec2 { x: 2048, y: 2048 });
    assert_eq!(p.position, Vec2 { x: 2048, y: 2048 });
    assert_eq!(p.velocity, Vec2 { x: 0, y: 0 });
    assert_eq!(p.facing, 0);
    assert_eq!(p.forward, Vec2 { x: SCALE, y: 0 });
    assert_eq!(p.right, Vec2 { x: 0, y: SCALE });
    assert_eq!(p.speed, PLAYER_SPEED);
    assert_eq!(p.turn_speed, PLAYER_TURN_SPEED);
}

#[test]
fn set_facing_installs_the_rotated_vectors() {
    let mut p = Player::new(Vec2 { x: 0, y: 0 });
    // A quarter turn: cosine 0, sine one unit.
    p.set_facing(1608, 0, SCALE);
    assert_eq!(p.facing, 1608);
    assert_eq!(p.forward, Vec2 { x: 0, y: SCALE });
    assert_eq!(p.right, Vec2 { x: -SCALE, y: 0 });
}

#[test]
fn forward_key_moves_along_the_forward_vector() {
    let map = GridMap::new(4, 4, 1024);
    let mut p = Player::new(Vec2 { x: 2048, y: 2048 });
    let mut input = Input::new();
    input.pressed(Key::Forward);
    p.update(&map, &input, SCALE, 0);
    assert_eq!(p.velocity, Vec2 { x: PLAYER_SPEED, y: 0 });
    assert_eq!(p.position, Vec2 { x: 2048 + PLAYER_SPEED, y: 2048 });
}

#[test]
fn back_key_moves_against_the_forward_vector() {
    let map = GridMap::new(4, 4, 1024);
    let mut p = Player::new(Vec2 { x: 2048, y: 2048 });
    let mut input = Input::new();
    input.pressed(Key::Back);
    p.update(&map, &input, SCALE, 0);
    assert_eq!(p.velocity, Vec2 { x: -PLAYER_SPEED, y: 0 });
    assert_eq!(p.position, Vec2 { x: 2048 - PLAYER_SPEED, y: 2048 });
}

#[test]
fn later_movement_key_wins_over_earlier() {
    // Forward and strafe-left both held: the strafe assignment comes later
    // in key order and overwrites the forward one; they do not sum.
    let map = GridMap::new(4, 4, 1024);
    let mut p = Player::new(Vec2 { x: 2048, y: 2048 });
    let mut input = Input::new();
    input.pressed(Key::Forward);
    input.pressed(Key::StrafeLeft);
    p.update(&map, &input, SCALE, 0);
    assert_eq!(p.velocity, Vec2 { x: 0, y: -PLAYER_SPEED });
}

#[test]
fn turn_keys_adjust_the_facing_by_the_turn_speed() {
    let map = GridMap::new(4, 4, 1024);
    let mut p = Player::new(Vec2 { x: 2048, y: 2048 });
    let mut input = Input::new();
    input.pressed(Key::TurnRight);
    p.update(&map, &input, 1023, 51);
    assert_eq!(p.facing, PLAYER_TURN_SPEED);
    assert_eq!(p.forward, Vec2 { x: 1023, y: 51 });
    assert_eq!(p.right, Vec2 { x: -51, y: 1023 });
    input.released(Key::TurnRight);
    input.pressed(Key::TurnLeft);
    p.update(&map, &input, SCALE, 0);
    assert_eq!(p.facing, 0);
}

#[test]
fn update_slides_along_a_wall_instead_of_entering_it() {
    // One occupied cell ahead: walking straight at its near face leaves the
    // player exactly one radius away from it.
    let mut map = GridMap::new(4, 4, 1024);
    map.set(2, 2, 1);
    map.regenerate_segments();
    let mut p = Player::new(Vec2 { x: 400, y: 1536 });
    let mut input = Input::new();
    input.pressed(Key::Forward);
    // Walk forward several frames toward the wall face at world x = 1.
    for _ in 0..10 {
        p.update(&map, &input, SCALE, 0);
    }
    assert_eq!(p.position.y, 1536);
    assert_eq!(p.position.x, 1024 - p.radius);
}

#[test]
fn input_tracks_press_age_and_release() {
    let mut input = Input::new();
    assert!(matches!(input.get_keystate(Key::Forward), KeyState::Released));
    assert!(!input.get_pressed(Key::Forward));

    input.pressed(Key::Forward);
    assert!(matches!(input.get_keystate(Key::Forward), KeyState::JustPressed));
    assert!(input.get_pressed(Key::Forward));
    assert!(input.get_just_pressed(Key::Forward));
    assert!(!input.get_released(Key::Forward));

    input.update();
    assert!(matches!(input.get_keystate(Key::Forward), KeyState::Pressed));
    assert!(input.get_pressed(Key::Forward));
    assert!(!input.get_just_pressed(Key::Forward));

    input.released(Key::Forward);
    assert!(matches!(input.get_keystate(Key::Forward), KeyState::Released));
    assert!(!input.get_pressed(Key::Forward));
    assert!(input.get_released(Key::Forward));

    // Other keys are untouched throughout.
    assert!(matches!(input.get_keystate(Key::TurnLeft), KeyState::Released));
}
