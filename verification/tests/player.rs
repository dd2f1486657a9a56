use insta_kill::collision::ColliderId;
use insta_kill::cooldown::Cooldown;
use insta_kill::cooldown::CooldownMode;
use insta_kill::player::player_changed_state;
use insta_kill::player::Player;
use insta_kill::player::PlayerChangedState;
use insta_kill::player::PlayerState;
use insta_kill::player::DASH_COOLDOWN;
use insta_kill::player::HOOK_TIME;
use insta_kill::vec2::Vec2;

fn player_at(x: i32, y: i32) -> Player {
    Player::new(ColliderId(0), ColliderId(1), Vec2::new(x, y))
}

#[test]
fn a_new_player_idles_with_its_hurtbox_on() {
    let p = player_at(100_000, 100_000);
    assert_eq!(p.state, PlayerState::Idling);
    assert_eq!(PlayerState::default(), PlayerState::Idling);
    assert!(p.hurtbox_enabled);
    assert!(!p.dash_hitbox_enabled);
    assert!(!p.disabled);
    assert_eq!(p.velocity, Vec2::new(0, 0));
}

#[test]
fn dash_waits_for_its_cooldown() {
    let mut p = player_at(0, 0);
    let mut timer = Cooldown::new(DASH_COOLDOWN, CooldownMode::Once);
    assert!(!p.trigger_dash(&mut timer, 1_000_000, true));
    assert_eq!(p.state, PlayerState::Idling);
    assert_eq!(timer.elapsed(), 1_000_000);
    assert!(p.trigger_dash(&mut timer, 1_600_000, true));
    assert_eq!(p.state, PlayerState::Dashing);
    assert_eq!(timer.elapsed(), 0);
    assert!(!timer.finished());
}

#[test]
fn dash_needs_its_input() {
    let mut p = player_at(0, 0);
    let mut timer = Cooldown::ready(DASH_COOLDOWN);
    assert!(!p.trigger_dash(&mut timer, 16_000, false));
    assert_eq!(p.state, PlayerState::Idling);
    assert!(timer.finished());
}

#[test]
fn dash_starts_from_a_slide_but_not_from_a_hook_or_a_dash() {
    let mut timer = Cooldown::ready(DASH_COOLDOWN);
    let mut sliding = player_at(0, 0);
    sliding.state = PlayerState::Sliding;
    assert!(sliding.trigger_dash(&mut timer, 0, true));
    assert_eq!(sliding.state, PlayerState::Dashing);

    let mut timer = Cooldown::ready(DASH_COOLDOWN);
    let mut hooking = player_at(0, 0);
    hooking.state = PlayerState::Hooking;
    assert!(!hooking.trigger_dash(&mut timer, 0, true));
    assert_eq!(hooking.state, PlayerState::Hooking);
    assert!(timer.finished());

    let mut dashing = player_at(0, 0);
    dashing.state = PlayerState::Dashing;
    assert!(!dashing.trigger_dash(&mut timer, 0, true));
    assert_eq!(dashing.state, PlayerState::Dashing);
}

#[test]
fn hook_is_thrown_on_foot_only() {
    let mut p = player_at(0, 0);
    p.trigger_hook(false);
    assert_eq!(p.state, PlayerState::Idling);
    p.trigger_hook(true);
    assert_eq!(p.state, PlayerState::Hooking);
    let mut d = player_at(0, 0);
    d.state = PlayerState::Dashing;
    d.trigger_hook(true);
    assert_eq!(d.state, PlayerState::Dashing);
    let mut s = player_at(0, 0);
    s.state = PlayerState::Sliding;
    s.trigger_hook(true);
    assert_eq!(s.state, PlayerState::Sliding);
}

#[test]
fn movement_switches_between_idling_and_moving() {
    let mut p = player_at(0, 0);
    p.player_movement(Vec2::new(1000, 0));
    assert_eq!(p.state, PlayerState::Moving);
    assert_eq!(p.velocity, Vec2::new(400_000, 0));
    assert_eq!(p.current_direction, Vec2::new(1000, 0));
    p.player_movement(Vec2::new(707, 707));
    assert_eq!(p.velocity, Vec2::new(282_842, 282_842));
    p.player_movement(Vec2::new(0, 0));
    assert_eq!(p.state, PlayerState::Idling);
    assert_eq!(p.velocity, Vec2::new(0, 0));
    assert_eq!(p.current_direction, Vec2::new(707, 707));
}

#[test]
fn movement_is_held_while_hooking_and_left_alone_while_dashing() {
    let mut p = player_at(0, 0);
    p.state = PlayerState::Hooking;
    p.velocity = Vec2::new(5, 5);
    p.player_movement(Vec2::new(1000, 0));
    assert_eq!(p.state, PlayerState::Hooking);
    assert_eq!(p.velocity, Vec2::new(0, 0));
    let mut d = player_at(0, 0);
    d.state = PlayerState::Dashing;
    d.velocity = Vec2::new(800_000, 0);
    d.player_movement(Vec2::new(0, 1000));
    assert_eq!(d.state, PlayerState::Dashing);
    assert_eq!(d.velocity, Vec2::new(800_000, 0));
}

#[test]
fn slide_pulls_toward_the_target_and_ends_near_it() {
    let mut p = player_at(0, 0);
    p.state = PlayerState::Sliding;
    p.hook_target_pos = Vec2::new(300_000, 0);
    p.slide_player();
    assert_eq!(p.state, PlayerState::Sliding);
    assert_eq!(p.velocity, Vec2::new(1_200_000, 0));
    p.position = Vec2::new(211_000, 0);
    p.slide_player();
    assert_eq!(p.state, PlayerState::Idling);
}

#[test]
fn slide_measures_from_the_hurtbox() {
    let mut p = player_at(0, 100_000);
    p.state = PlayerState::Sliding;
    p.hook_target_pos = Vec2::new(0, 0);
    p.slide_player();
    assert_eq!(p.state, PlayerState::Idling);
    let mut q = player_at(0, 100_001);
    q.state = PlayerState::Sliding;
    q.hook_target_pos = Vec2::new(0, 0);
    q.slide_player();
    assert_eq!(q.state, PlayerState::Sliding);
}

#[test]
fn dash_ends_with_its_animation() {
    let mut p = player_at(0, 0);
    p.state = PlayerState::Dashing;
    p.leave_dash(false);
    assert_eq!(p.state, PlayerState::Dashing);
    p.leave_dash(true);
    assert_eq!(p.state, PlayerState::Idling);
    p.state = PlayerState::Moving;
    p.leave_dash(true);
    assert_eq!(p.state, PlayerState::Moving);
}

#[test]
fn hook_comes_back_after_its_time() {
    let mut p = player_at(0, 0);
    p.state = PlayerState::Hooking;
    p.stop_hooking(HOOK_TIME - 1);
    assert_eq!(p.state, PlayerState::Hooking);
    p.stop_hooking(HOOK_TIME);
    assert_eq!(p.state, PlayerState::Idling);
}

#[test]
fn a_catch_turns_hooking_into_sliding() {
    let mut p = player_at(0, 0);
    assert!(!p.hook_caught(Vec2::new(9, 9)));
    assert_eq!(p.state, PlayerState::Idling);
    p.state = PlayerState::Hooking;
    assert!(p.hook_caught(Vec2::new(9, 9)));
    assert_eq!(p.state, PlayerState::Sliding);
    assert_eq!(p.hook_target_pos, Vec2::new(9, 9));
}

#[test]
fn a_dash_heads_for_the_cursor() {
    let mut p = player_at(0, 0);
    p.state = PlayerState::Dashing;
    let change =
        PlayerChangedState { old_state: PlayerState::Moving, new_state: PlayerState::Dashing };
    let trail = p.move_player(change, Vec2::new(0, 500_000));
    assert!(trail.is_empty());
    assert_eq!(p.velocity, Vec2::new(0, 800_000));
    assert_eq!(p.facing, Vec2::new(0, 800_000));
}

#[test]
fn a_dash_out_of_a_slide_is_boosted_and_leaves_a_trail() {
    let mut p = player_at(10_000, 20_000);
    p.state = PlayerState::Dashing;
    p.velocity = Vec2::new(1_200_000, 0);
    let change =
        PlayerChangedState { old_state: PlayerState::Sliding, new_state: PlayerState::Dashing };
    let trail = p.move_player(change, Vec2::new(0, 500_000));
    assert_eq!(p.velocity, Vec2::new(1_600_000, 0));
    assert_eq!(trail.len(), 3);
    assert_eq!(trail[0].pos, Vec2::new(10_000, 20_000));
    assert_eq!(trail[1].pos, Vec2::new(160_000, 20_000));
    assert_eq!(trail[2].pos, Vec2::new(310_000, 20_000));
    assert_eq!(trail[0].dir, Vec2::new(1000, 0));
    assert_eq!(trail[2].scale_factor, 3000);
}

#[test]
fn a_dash_out_of_a_slide_at_rest_heads_for_the_cursor() {
    let mut p = player_at(0, 0);
    p.state = PlayerState::Dashing;
    let change =
        PlayerChangedState { old_state: PlayerState::Sliding, new_state: PlayerState::Dashing };
    let trail = p.move_player(change, Vec2::new(-500_000, 0));
    assert_eq!(p.velocity, Vec2::new(-1_600_000, 0));
    assert_eq!(trail.len(), 3);
    assert_eq!(trail[1].pos, Vec2::new(0, 0));
}

#[test]
fn other_changes_launch_nothing() {
    let mut p = player_at(0, 0);
    let before = p;
    let change =
        PlayerChangedState { old_state: PlayerState::Idling, new_state: PlayerState::Moving };
    let trail = p.move_player(change, Vec2::new(5, 5));
    assert!(trail.is_empty());
    assert_eq!(p, before);
}

#[test]
fn dashing_switches_the_colliders() {
    let mut p = player_at(0, 0);
    p.facing = Vec2::new(1, 1);
    p.toggle_player_collider(PlayerChangedState {
        old_state: PlayerState::Idling,
        new_state: PlayerState::Dashing,
    });
    assert!(!p.hurtbox_enabled);
    assert!(p.dash_hitbox_enabled);
    assert_eq!(p.facing, Vec2::new(1, 1));
    p.toggle_player_collider(PlayerChangedState {
        old_state: PlayerState::Dashing,
        new_state: PlayerState::Idling,
    });
    assert!(p.hurtbox_enabled);
    assert!(!p.dash_hitbox_enabled);
    assert_eq!(p.facing, Vec2::new(0, 0));
}

#[test]
fn the_sprite_flips_with_the_direction() {
    let mut p = player_at(0, 0);
    p.current_direction = Vec2::new(-1000, 0);
    p.adjust_sprite_flip();
    assert!(p.flip_x);
    p.current_direction = Vec2::new(0, 1000);
    p.adjust_sprite_flip();
    assert!(p.flip_x);
    p.state = PlayerState::Dashing;
    p.adjust_sprite_flip();
    assert!(!p.flip_x);
    p.state = PlayerState::Hooking;
    p.flip_x = true;
    p.current_direction = Vec2::new(1000, 0);
    p.adjust_sprite_flip();
    assert!(p.flip_x);
}

#[test]
fn a_change_of_state_is_announced_once() {
    let mut p = player_at(0, 0);
    let mut announced = PlayerState::Idling;
    assert_eq!(player_changed_state(&p, &mut announced), None);
    p.state = PlayerState::Moving;
    assert_eq!(
        player_changed_state(&p, &mut announced),
        Some(PlayerChangedState { old_state: PlayerState::Idling, new_state: PlayerState::Moving })
    );
    assert_eq!(announced, PlayerState::Moving);
    assert_eq!(player_changed_state(&p, &mut announced), None);
}

#[test]
fn each_state_has_its_animation() {
    assert_eq!(PlayerState::Idling.animation_index(), 0);
    assert_eq!(PlayerState::Moving.animation_index(), 1);
    assert_eq!(PlayerState::Dashing.animation_index(), 2);
    assert_eq!(PlayerState::Hooking.animation_index(), 3);
    assert_eq!(PlayerState::Sliding.animation_index(), 4);
}

#[test]
fn the_landing_is_below_the_player() {
    let p = player_at(5_000, 60_000);
    assert_eq!(p.dash_landing_position(), Vec2::new(5_000, 10_000));
}
