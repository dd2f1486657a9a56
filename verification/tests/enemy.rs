use insta_kill::collision::ColliderId;
use insta_kill::cooldown::Cooldown;
use insta_kill::cooldown::CooldownMode;
use insta_kill::enemy::ArcherState;
use insta_kill::enemy::Enemy;
use insta_kill::enemy::EnemyArcher;
use insta_kill::enemy::EnemyKind;
use insta_kill::enemy::EnemyProjectile;
use insta_kill::enemy::MOVING_COOLDOWN;
use insta_kill::vec2::Vec2;

fn archer_state(e: &Enemy) -> ArcherState {
    match e.kind {
        EnemyKind::Archer(a) => a.state,
        EnemyKind::Bat(_) => panic!("not an archer"),
    }
}

fn resting_archer(position: Vec2, shot_time: u64) -> Enemy {
    let mut e = Enemy::archer(ColliderId(9), position, shot_time);
    let mut a = EnemyArcher::new(shot_time);
    a.moving_cooldown = Cooldown::new(MOVING_COOLDOWN, CooldownMode::Once);
    e.kind = EnemyKind::Archer(a);
    e
}

#[test]
fn an_idle_archer_waits_for_its_rest_and_then_pursues() {
    let player = Vec2::new(1_000_000, 0);
    let mut e = resting_archer(Vec2::new(0, 0), 300_000);
    e.think(player, 1_900_000);
    e.move_enemy(player, 1_900_000);
    assert_eq!(archer_state(&e), ArcherState::Idling);
    assert_eq!(e.position, Vec2::new(0, 0));
    e.think(player, 200_000);
    e.move_enemy(player, 200_000);
    assert_eq!(archer_state(&e), ArcherState::Moving);
    assert_eq!(e.position, Vec2::new(16_000, 0));
}

#[test]
fn a_new_archer_may_walk_at_once() {
    let player = Vec2::new(1_000_000, 0);
    let mut e = Enemy::archer(ColliderId(1), Vec2::new(0, 0), 300_000);
    assert_eq!(e.score, 200);
    assert_eq!(archer_state(&e), ArcherState::Idling);
    e.think(player, 16_000);
    assert_eq!(archer_state(&e), ArcherState::Moving);
}

#[test]
fn a_walking_archer_takes_aim_in_range() {
    let mut e = Enemy::archer(ColliderId(1), Vec2::new(0, 0), 300_000);
    e.think(Vec2::new(500_001, 0), 16_000);
    assert_eq!(archer_state(&e), ArcherState::Moving);
    e.think(Vec2::new(500_000, 0), 16_000);
    assert_eq!(archer_state(&e), ArcherState::Shooting);
}

#[test]
fn an_archer_shoots_when_its_shot_is_over_and_then_rests() {
    let player = Vec2::new(300_000, 400_000);
    let mut e = Enemy::archer(ColliderId(1), Vec2::new(0, 0), 300_000);
    e.think(player, 16_000);
    assert_eq!(archer_state(&e), ArcherState::Shooting);
    assert_eq!(e.spawn_projectile(player, ColliderId(50)), None);
    e.think(player, 299_999);
    assert_eq!(e.spawn_projectile(player, ColliderId(50)), None);
    e.think(player, 1);
    let arrow = e.spawn_projectile(player, ColliderId(50));
    assert_eq!(
        arrow,
        Some(EnemyProjectile {
            collider: ColliderId(50),
            position: Vec2::new(6_000, 8_000),
            direction: Vec2::new(600, 800),
            disabled: false,
        })
    );
    assert_eq!(archer_state(&e), ArcherState::Idling);
    e.think(player, 1_999_999);
    assert_eq!(archer_state(&e), ArcherState::Idling);
    e.think(player, 1);
    assert_eq!(archer_state(&e), ArcherState::Shooting);
}

#[test]
fn an_archer_on_top_of_the_player_shoots_along_the_x_axis() {
    let player = Vec2::new(0, 0);
    let mut e = Enemy::archer(ColliderId(1), Vec2::new(0, 0), 0);
    e.think(player, 16_000);
    let arrow = e.spawn_projectile(player, ColliderId(2)).unwrap();
    assert_eq!(arrow.direction, Vec2::new(1000, 0));
    assert_eq!(arrow.position, Vec2::new(10_000, 0));
}

#[test]
fn a_stunned_archer_neither_walks_nor_shoots() {
    let player = Vec2::new(100_000, 0);
    let mut e = Enemy::archer(ColliderId(1), Vec2::new(0, 0), 0);
    e.stunned = true;
    e.think(player, 16_000);
    assert_eq!(archer_state(&e), ArcherState::Stunned);
    e.move_enemy(player, 16_000);
    assert_eq!(e.position, Vec2::new(0, 0));
    assert_eq!(e.spawn_projectile(player, ColliderId(2)), None);
    e.think(player, 5_000_000);
    assert_eq!(archer_state(&e), ArcherState::Stunned);
}

#[test]
fn the_archer_machine_by_its_parts() {
    let mut a = EnemyArcher::new(100);
    a.trigger_shooting(true);
    assert_eq!(a.state, ArcherState::Idling);
    a.trigger_moving();
    assert_eq!(a.state, ArcherState::Moving);
    a.trigger_shooting(false);
    assert_eq!(a.state, ArcherState::Moving);
    a.trigger_shooting(true);
    assert_eq!(a.state, ArcherState::Shooting);
    assert!(!a.fire());
    a.tick_cooldowns(100);
    assert!(a.fire());
    assert_eq!(a.state, ArcherState::Idling);
    assert_eq!(a.moving_cooldown.elapsed(), 0);
    a.trigger_moving();
    assert_eq!(a.state, ArcherState::Idling);
    a.trigger_stunned(false);
    assert_eq!(a.state, ArcherState::Idling);
    a.trigger_stunned(true);
    assert_eq!(a.state, ArcherState::Stunned);
    assert_eq!(ArcherState::default(), ArcherState::Idling);
    assert_eq!(ArcherState::Shooting.animation_index(), 2);
    assert_eq!(ArcherState::Stunned.animation_index(), 3);
    assert_eq!(ArcherState::Idling.animation_index(), 0);
    assert_eq!(ArcherState::Moving.animation_index(), 1);
}

#[test]
fn a_bat_flies_at_the_player_unless_flagged() {
    let player = Vec2::new(0, 1_000_000);
    let mut b = Enemy::bat(ColliderId(3), Vec2::new(0, 0));
    assert_eq!(b.score, 0);
    b.think(player, 100_000);
    b.move_enemy(player, 100_000);
    assert_eq!(b.position, Vec2::new(0, 10_000));
    b.stunned = true;
    b.move_enemy(player, 100_000);
    assert_eq!(b.position, Vec2::new(0, 10_000));
    b.stunned = false;
    b.disabled = true;
    b.move_enemy(player, 100_000);
    assert_eq!(b.position, Vec2::new(0, 10_000));
}

#[test]
fn an_enemy_on_top_of_the_player_stays() {
    let mut b = Enemy::bat(ColliderId(3), Vec2::new(7, 7));
    b.move_enemy(Vec2::new(7, 7), 1_000_000);
    assert_eq!(b.position, Vec2::new(7, 7));
}

#[test]
fn defeat_takes_effect_once() {
    let mut b = Enemy::bat(ColliderId(3), Vec2::new(0, 0));
    assert!(b.defeat(100));
    assert!(b.disabled);
    assert_eq!(b.score, 100);
    assert!(!b.defeat(50));
    assert!(b.disabled);
    assert_eq!(b.score, 100);
}

#[test]
fn a_strayed_enemy_is_brought_back() {
    let player = Vec2::new(0, 0);
    let mut near = Enemy::bat(ColliderId(3), Vec2::new(1_199_999, 0));
    near.redeploy(player);
    assert_eq!(near.position, Vec2::new(1_199_999, 0));
    let mut far = Enemy::bat(ColliderId(3), Vec2::new(1_200_000, 0));
    far.redeploy(player);
    assert_eq!(far.position, Vec2::new(-900_000, 0));
    let mut up = Enemy::bat(ColliderId(3), Vec2::new(100_000, -2_000_000));
    up.redeploy(Vec2::new(100_000, 0));
    assert_eq!(up.position, Vec2::new(100_000, 900_000));
}

#[test]
fn enemies_face_the_player() {
    let mut b = Enemy::bat(ColliderId(3), Vec2::new(10, 0));
    b.adjust_sprite_flip(Vec2::new(0, 0));
    assert!(b.flip_x);
    b.adjust_sprite_flip(Vec2::new(10, 0));
    assert!(!b.flip_x);
}

#[test]
fn arrows_fly_along_their_direction() {
    let mut arrow = EnemyProjectile {
        collider: ColliderId(4),
        position: Vec2::new(0, 0),
        direction: Vec2::new(600, 800),
        disabled: false,
    };
    arrow.move_projectile(100_000);
    assert_eq!(arrow.position, Vec2::new(39_000, 52_000));
    assert!(arrow.disable());
    assert!(arrow.disabled);
    assert!(!arrow.disable());
}
