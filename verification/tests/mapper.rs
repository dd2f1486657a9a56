use insta_kill::collision::find_owner;
use insta_kill::collision::find_party;
use insta_kill::collision::sweep;
use insta_kill::collision::ColliderId;
use insta_kill::collision::CollisionEvent;
use insta_kill::enemy::Enemy;
use insta_kill::enemy::EnemyProjectile;
use insta_kill::mapper::defeat_on_contact;
use insta_kill::mapper::hook_enemy_collision;
use insta_kill::mapper::player_reflection_projectiles_collisions;
use insta_kill::mapper::projectile_strike_collisions;
use insta_kill::mapper::touched;
use insta_kill::player::Player;
use insta_kill::player::PlayerState;
use insta_kill::reflection_projectile::ReflectionProjectile;
use insta_kill::reflection_projectile::SpawnReflectionProjectile;
use insta_kill::strike::SpawnStrike;
use insta_kill::strike::Strike;
use insta_kill::vec2::Vec2;

fn bats() -> Vec<Enemy> {
    vec![
        Enemy::bat(ColliderId(10), Vec2::new(0, 0)),
        Enemy::bat(ColliderId(11), Vec2::new(5, 5)),
        Enemy::bat(ColliderId(12), Vec2::new(9, 9)),
    ]
}

fn strike(id: u64, rot: Vec2) -> Strike {
    Strike::new(ColliderId(id), SpawnStrike { rot, strike_index: 0 })
}

#[test]
fn started_gives_the_pair_and_stopped_nothing() {
    let a = ColliderId(1);
    let b = ColliderId(2);
    assert_eq!(CollisionEvent::Started(a, b).started(), Some((a, b)));
    assert_eq!(CollisionEvent::Stopped(a, b).started(), None);
}

#[test]
fn the_first_owner_is_found() {
    let enemies = bats();
    assert_eq!(find_owner(&enemies, ColliderId(11)), Some(1));
    assert_eq!(find_owner(&enemies, ColliderId(99)), None);
    assert_eq!(find_party(&enemies, ColliderId(99), ColliderId(12)), Some(2));
    assert_eq!(find_party(&enemies, ColliderId(12), ColliderId(10)), Some(2));
    assert_eq!(find_party(&enemies, ColliderId(98), ColliderId(99)), None);
    let empty: Vec<Enemy> = Vec::new();
    assert_eq!(find_owner(&empty, ColliderId(10)), None);
}

#[test]
fn a_strike_defeats_the_enemy_it_touches() {
    let mut enemies = bats();
    let strikes = vec![strike(20, Vec2::new(1, 0))];
    let events = vec![CollisionEvent::Started(ColliderId(20), ColliderId(11))];
    defeat_on_contact(&mut enemies, &strikes, 100, &events);
    assert!(!enemies[0].disabled);
    assert!(enemies[1].disabled);
    assert_eq!(enemies[1].score, 100);
    assert!(!enemies[2].disabled);
}

#[test]
fn the_order_of_the_colliders_does_not_matter() {
    let mut enemies = bats();
    let strikes = vec![strike(20, Vec2::new(1, 0))];
    let events = vec![CollisionEvent::Started(ColliderId(12), ColliderId(20))];
    defeat_on_contact(&mut enemies, &strikes, 100, &events);
    assert!(enemies[2].disabled);
    assert_eq!(enemies[2].score, 100);
}

#[test]
fn overlaps_that_stop_are_ignored() {
    let mut enemies = bats();
    let before = enemies.clone();
    let strikes = vec![strike(20, Vec2::new(1, 0))];
    let events = vec![CollisionEvent::Stopped(ColliderId(20), ColliderId(11))];
    defeat_on_contact(&mut enemies, &strikes, 100, &events);
    assert_eq!(enemies, before);
}

#[test]
fn overlaps_with_strangers_are_ignored() {
    let mut enemies = bats();
    let before = enemies.clone();
    let strikes = vec![strike(20, Vec2::new(1, 0))];
    let events = vec![
        CollisionEvent::Started(ColliderId(77), ColliderId(11)),
        CollisionEvent::Started(ColliderId(20), ColliderId(78)),
        CollisionEvent::Started(ColliderId(10), ColliderId(11)),
    ];
    defeat_on_contact(&mut enemies, &strikes, 100, &events);
    assert_eq!(enemies, before);
}

#[test]
fn a_disabled_enemy_is_not_hit_again() {
    let mut enemies = bats();
    let strikes = vec![strike(20, Vec2::new(1, 0))];
    let events = vec![
        CollisionEvent::Started(ColliderId(20), ColliderId(11)),
        CollisionEvent::Started(ColliderId(20), ColliderId(11)),
        CollisionEvent::Started(ColliderId(11), ColliderId(20)),
    ];
    defeat_on_contact(&mut enemies, &strikes, 100, &events);
    let after_first = enemies.clone();
    defeat_on_contact(&mut enemies, &strikes, 50, &events);
    assert_eq!(enemies, after_first);
    assert_eq!(enemies[1].score, 100);
}

#[test]
fn a_strike_sends_an_arrow_back() {
    let mut arrows = vec![EnemyProjectile {
        collider: ColliderId(30),
        position: Vec2::new(70_000, -5_000),
        direction: Vec2::new(-1000, 0),
        disabled: false,
    }];
    let strikes = vec![strike(20, Vec2::new(0, 250_000))];
    let events = vec![
        CollisionEvent::Started(ColliderId(30), ColliderId(20)),
        CollisionEvent::Started(ColliderId(20), ColliderId(30)),
    ];
    let requests = projectile_strike_collisions(&mut arrows, &strikes, &events);
    assert!(arrows[0].disabled);
    assert_eq!(
        requests,
        vec![SpawnReflectionProjectile { pos: Vec2::new(70_000, -5_000), dir: Vec2::new(0, 1000) }]
    );
}

#[test]
fn a_strike_that_faces_nowhere_reflects_along_the_x_axis() {
    let mut arrows = vec![EnemyProjectile {
        collider: ColliderId(30),
        position: Vec2::new(1, 2),
        direction: Vec2::new(-1000, 0),
        disabled: false,
    }];
    let strikes = vec![strike(20, Vec2::new(0, 0))];
    let events = vec![CollisionEvent::Started(ColliderId(20), ColliderId(30))];
    let requests = projectile_strike_collisions(&mut arrows, &strikes, &events);
    assert_eq!(requests.len(), 1);
    assert_eq!(requests[0].dir, Vec2::new(1000, 0));
}

#[test]
fn a_reflected_arrow_counts_what_it_brings_down() {
    let mut enemies = bats();
    let mut reflections = vec![ReflectionProjectile::new(
        ColliderId(40),
        SpawnReflectionProjectile { pos: Vec2::new(0, 0), dir: Vec2::new(1000, 0) },
    )];
    let events = vec![
        CollisionEvent::Started(ColliderId(40), ColliderId(10)),
        CollisionEvent::Started(ColliderId(12), ColliderId(40)),
        CollisionEvent::Started(ColliderId(40), ColliderId(10)),
    ];
    player_reflection_projectiles_collisions(&mut reflections, &mut enemies, &events);
    assert!(enemies[0].disabled);
    assert_eq!(enemies[0].score, 200);
    assert!(!enemies[1].disabled);
    assert!(enemies[2].disabled);
    assert_eq!(enemies[2].score, 200);
    assert_eq!(reflections[0].enemy_counter(), 2);
}

#[test]
fn the_player_is_hurt_by_what_is_in_play() {
    let body = ColliderId(0);
    let mut enemies = bats();
    let events = vec![CollisionEvent::Started(ColliderId(11), body)];
    assert!(touched(body, &enemies, &events));
    assert!(touched(body, &enemies, &vec![CollisionEvent::Started(body, ColliderId(11))]));
    assert!(!touched(body, &enemies, &vec![CollisionEvent::Stopped(body, ColliderId(11))]));
    assert!(!touched(body, &enemies, &vec![CollisionEvent::Started(ColliderId(5), ColliderId(11))]));
    assert!(!touched(body, &enemies, &Vec::new()));
    enemies[1].disabled = true;
    assert!(!touched(body, &enemies, &events));
}

#[test]
fn the_hook_catches_an_enemy_and_the_player_slides() {
    let mut player = Player::new(ColliderId(0), ColliderId(1), Vec2::new(0, 0));
    player.state = PlayerState::Hooking;
    let mut enemies = bats();
    let events = vec![
        CollisionEvent::Started(ColliderId(12), ColliderId(60)),
        CollisionEvent::Started(ColliderId(60), ColliderId(11)),
    ];
    hook_enemy_collision(&mut player, Some(ColliderId(60)), &mut enemies, &events);
    assert_eq!(player.state, PlayerState::Sliding);
    assert_eq!(player.hook_target_pos, Vec2::new(9, 9));
    assert!(enemies[2].stunned);
    assert!(!enemies[1].stunned);
}

#[test]
fn the_hook_catches_nothing_unless_it_is_out() {
    let mut player = Player::new(ColliderId(0), ColliderId(1), Vec2::new(0, 0));
    let mut enemies = bats();
    let events = vec![CollisionEvent::Started(ColliderId(12), ColliderId(60))];
    hook_enemy_collision(&mut player, Some(ColliderId(60)), &mut enemies, &events);
    assert_eq!(player.state, PlayerState::Idling);
    assert!(!enemies[2].stunned);
    player.state = PlayerState::Hooking;
    hook_enemy_collision(&mut player, None, &mut enemies, &events);
    assert_eq!(player.state, PlayerState::Hooking);
    enemies[2].stunned = true;
    hook_enemy_collision(&mut player, Some(ColliderId(60)), &mut enemies, &events);
    assert_eq!(player.state, PlayerState::Hooking);
}

#[test]
fn sweep_keeps_what_is_in_play_in_order() {
    let mut enemies = bats();
    enemies[1].disabled = true;
    sweep(&mut enemies);
    assert_eq!(enemies.len(), 2);
    assert_eq!(enemies[0].collider, ColliderId(10));
    assert_eq!(enemies[1].collider, ColliderId(12));
    sweep(&mut enemies);
    assert_eq!(enemies.len(), 2);
}
