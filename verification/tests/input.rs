use insta_kill::input::DebugMode;
use insta_kill::input::MouseWorldCoords;
use insta_kill::input::PlayerInput;
use insta_kill::vec2::Vec2;

#[test]
fn the_movement_keys_give_a_direction_one_unit_long() {
    let mut input = PlayerInput::default();
    input.player_movement(false, false, true, false);
    assert_eq!(input.move_direction, Vec2::new(1000, 0));
    input.player_movement(true, false, false, true);
    assert_eq!(input.move_direction, Vec2::new(-707, -707));
    input.player_movement(true, true, true, true);
    assert_eq!(input.move_direction, Vec2::new(0, 0));
    input.player_movement(false, true, false, false);
    assert_eq!(input.move_direction, Vec2::new(0, 1000));
}

#[test]
fn the_input_is_cleared_before_each_tick() {
    let mut input = PlayerInput::default();
    input.attack = true;
    input.dash = true;
    input.fetch_scroll_events(true);
    assert_eq!(input.scroll, -1);
    input.fetch_scroll_events(false);
    assert_eq!(input.scroll, 1);
    input.reset_player_input();
    assert_eq!(input, PlayerInput::default());
    assert_eq!(input.scroll, 0);
    assert_eq!(MouseWorldCoords::default().0, Vec2::new(0, 0));
}

#[test]
fn the_debug_overlay_is_switched_by_its_key() {
    let mut d = DebugMode::default();
    d.toggle_debug_mode(false);
    assert!(!d.active);
    d.toggle_debug_mode(true);
    assert!(d.active);
    d.toggle_debug_mode(true);
    assert!(!d.active);
}
