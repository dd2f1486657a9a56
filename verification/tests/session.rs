use insta_kill::collision::ColliderId;
use insta_kill::collision::CollisionEvent;
use insta_kill::enemy::Enemy;
use insta_kill::input::MouseWorldCoords;
use insta_kill::input::PlayerInput;
use insta_kill::session::GameOverState;
use insta_kill::session::GameState;
use insta_kill::session::Session;
use insta_kill::session::SpeedTimer;
use insta_kill::vec2::Vec2;
use insta_kill::world::Clips;
use insta_kill::world::Frame;

fn play_clips() -> Clips {
    Clips { dash: 300_000, hook: 275_000, shot: 300_000, dash_landing: 400_000 }
}

fn play_frame(dt: u64, input: PlayerInput) -> Frame {
    Frame {
        dt,
        input,
        cursor: MouseWorldCoords(Vec2::new(100_000, 0)),
        player_position: Vec2::new(0, 0),
        archer_heading: Vec2::new(1000, 0),
        bat_heading: Vec2::new(0, 1000),
    }
}

fn playing_with_a_kill() -> Session {
    let mut s = Session::new(play_clips());
    s.assets_loaded();
    s.world.enemies.push(Enemy::bat(ColliderId(500), Vec2::new(0, 0)));
    let mut attack = PlayerInput::default();
    attack.attack = true;
    s.tick(play_frame(16_000, attack), &Vec::new());
    let hitbox = s.world.strikes[0].collider;
    s.tick(
        play_frame(16_000, PlayerInput::default()),
        &vec![CollisionEvent::Started(hitbox, ColliderId(500))],
    );
    s
}

fn game_over_with_a_kill() -> Session {
    let mut s = playing_with_a_kill();
    s.world.enemies.push(Enemy::bat(ColliderId(501), Vec2::new(0, 0)));
    let report = s
        .tick(
            play_frame(16_000, PlayerInput::default()),
            &vec![CollisionEvent::Started(ColliderId(501), ColliderId(0))],
        )
        .unwrap();
    assert!(report.game_over);
    s
}

#[test]
fn a_session_waits_for_its_assets() {
    let mut s = Session::new(play_clips());
    assert_eq!(s.state, GameState::AssetLoading);
    assert_eq!(GameState::default(), GameState::AssetLoading);
    assert_eq!(GameOverState::default(), GameOverState::GameOver);
    assert!(s.tick(play_frame(16_000, PlayerInput::default()), &Vec::new()).is_none());
    assert_eq!(s.state, GameState::AssetLoading);
    s.assets_loaded();
    assert_eq!(s.state, GameState::Gaming);
    assert!(s.world.player.is_some());
    s.assets_loaded();
    assert_eq!(s.world.next_collider, 2);
}

#[test]
fn play_counts_time_and_score() {
    let s = playing_with_a_kill();
    assert_eq!(s.state, GameState::Gaming);
    assert_eq!(s.world.score.score(), 100);
    assert_eq!(s.world.kills.kills(), 1);
    assert_eq!(s.speed_timer.elapsed, 32_000);
}

#[test]
fn the_defeat_of_the_player_ends_the_play_and_keeps_the_score() {
    let s = game_over_with_a_kill();
    assert_eq!(s.state, GameState::GameOver);
    assert_eq!(s.game_over, GameOverState::GameOver);
    assert!(s.world.player.is_none());
    assert_eq!(s.world.score.score(), 100);
    assert_eq!(s.world.kills.kills(), 1);
}

#[test]
fn score_and_kills_are_zero_on_entering_the_restart() {
    let mut s = game_over_with_a_kill();
    let mut other = PlayerInput::default();
    other.restart = true;
    other.attack = true;
    assert!(s.tick(play_frame(16_000, other), &Vec::new()).is_none());
    assert_eq!(s.state, GameState::GameOver);
    assert_eq!(s.world.score.score(), 100);
    let mut escape = PlayerInput::default();
    escape.escape = true;
    s.tick(play_frame(16_000, escape), &Vec::new());
    assert_eq!(s.state, GameState::Restart);
    assert_eq!(s.world.score.score(), 0);
    assert_eq!(s.world.kills.kills(), 0);
    assert_eq!(s.speed_timer.elapsed, 0);
    assert!(s.world.enemies.is_empty());
    assert!(s.world.projectiles.is_empty());
    assert!(s.world.reflections.is_empty());
}

#[test]
fn play_begins_anew_after_the_restart_time() {
    let mut s = game_over_with_a_kill();
    let mut escape = PlayerInput::default();
    escape.escape = true;
    s.tick(play_frame(16_000, escape), &Vec::new());
    s.tick(play_frame(199_999, PlayerInput::default()), &Vec::new());
    assert_eq!(s.state, GameState::Restart);
    assert!(s.world.player.is_none());
    s.tick(play_frame(1, PlayerInput::default()), &Vec::new());
    assert_eq!(s.state, GameState::Gaming);
    let p = s.world.player.unwrap();
    assert_eq!(p.position, Vec2::new(100_000, 100_000));
    assert!(!p.disabled);
    assert_eq!(s.world.score.score(), 0);
}

#[test]
fn the_game_over_screens_follow_each_other() {
    let mut s = game_over_with_a_kill();
    s.trigger_leaderboard();
    assert_eq!(s.game_over, GameOverState::GameOver);
    s.trigger_loading();
    assert_eq!(s.game_over, GameOverState::Loading);
    s.trigger_loading();
    assert_eq!(s.game_over, GameOverState::Loading);
    let mut restart = PlayerInput::default();
    restart.restart = true;
    assert!(!s.restart(restart));
    s.trigger_leaderboard();
    assert_eq!(s.game_over, GameOverState::Leaderboard);
    assert!(s.restart(restart));
    s.tick(play_frame(16_000, restart), &Vec::new());
    assert_eq!(s.state, GameState::Restart);
    assert_eq!(s.world.score.score(), 0);
}

#[test]
fn screens_do_not_change_while_the_game_is_played() {
    let mut s = playing_with_a_kill();
    s.trigger_loading();
    s.trigger_leaderboard();
    assert_eq!(s.game_over, GameOverState::GameOver);
    assert_eq!(s.state, GameState::Gaming);
}

#[test]
fn a_new_game_over_starts_on_the_first_screen() {
    let mut s = game_over_with_a_kill();
    s.trigger_loading();
    s.trigger_leaderboard();
    let mut escape = PlayerInput::default();
    escape.escape = true;
    s.tick(play_frame(16_000, escape), &Vec::new());
    s.tick(play_frame(200_000, PlayerInput::default()), &Vec::new());
    assert_eq!(s.state, GameState::Gaming);
    s.world.enemies.push(Enemy::bat(ColliderId(900), Vec2::new(0, 0)));
    let body = s.world.player.unwrap().collider_entity;
    s.tick(
        play_frame(16_000, PlayerInput::default()),
        &vec![CollisionEvent::Started(ColliderId(900), body)],
    );
    assert_eq!(s.state, GameState::GameOver);
    assert_eq!(s.game_over, GameOverState::GameOver);
}

#[test]
fn the_speed_timer_counts_whole_seconds() {
    let mut t = SpeedTimer::default();
    t.tick(42_500_000);
    assert_eq!(t.seconds(), 42);
    t.tick(u64::MAX);
    assert_eq!(t.elapsed, u64::MAX);
}

#[test]
fn the_text_field_shows_on_the_first_screen_and_the_board_is_awaited_on_the_second() {
    let s = playing_with_a_kill();
    assert!(!s.text_field_shown());
    assert!(!s.awaits_leaderboard());
    let mut s = game_over_with_a_kill();
    assert!(s.text_field_shown());
    assert!(!s.awaits_leaderboard());
    s.trigger_loading();
    assert!(!s.text_field_shown());
    assert!(s.awaits_leaderboard());
    s.trigger_leaderboard();
    assert!(!s.text_field_shown());
    assert!(!s.awaits_leaderboard());
}
