use insta_kill::collision::ColliderId;
use insta_kill::strike::SpawnStrike;
use insta_kill::strike::Strike;
use insta_kill::strike::StrikeCooldown;
use insta_kill::strike::CHAIN_COOLDOWN;
use insta_kill::strike::STRIKE_COOLDOWN;
use insta_kill::vec2::Vec2;

fn rot() -> Vec2 {
    Vec2::new(1000, 0)
}

#[test]
fn quick_attacks_advance_the_index_and_wrap() {
    let mut chain = StrikeCooldown::new();
    let first = chain.frame(16_000, true, rot());
    assert_eq!(first, Some(SpawnStrike { rot: rot(), strike_index: 0 }));
    assert_eq!(chain.strike_index, 1);
    assert!(chain.absolute_cooldown.finished());
    let second = chain.frame(400_000, true, rot());
    assert_eq!(second, Some(SpawnStrike { rot: rot(), strike_index: 1 }));
    assert_eq!(chain.strike_index, 2);
    assert!(chain.absolute_cooldown.finished());
    let third = chain.frame(499_999, true, rot());
    assert_eq!(third, Some(SpawnStrike { rot: rot(), strike_index: 2 }));
    assert_eq!(chain.strike_index, 0);
    assert!(!chain.absolute_cooldown.finished());
    assert_eq!(chain.absolute_cooldown.duration(), STRIKE_COOLDOWN);
}

#[test]
fn the_lockout_swallows_attacks_until_it_is_over() {
    let mut chain = StrikeCooldown::new();
    chain.frame(16_000, true, rot());
    chain.frame(16_000, true, rot());
    chain.frame(16_000, true, rot());
    assert_eq!(chain.frame(100_000, true, rot()), None);
    assert_eq!(chain.frame(99_999, true, rot()), None);
    assert_eq!(chain.strike_index, 0);
    let next = chain.frame(1, true, rot());
    assert_eq!(next, Some(SpawnStrike { rot: rot(), strike_index: 0 }));
    assert_eq!(chain.strike_index, 1);
}

#[test]
fn a_late_attack_starts_a_new_chain_without_lockout() {
    let mut chain = StrikeCooldown::new();
    chain.frame(16_000, true, rot());
    chain.frame(16_000, true, rot());
    assert_eq!(chain.strike_index, 2);
    let late = chain.frame(CHAIN_COOLDOWN, true, rot());
    assert_eq!(late, Some(SpawnStrike { rot: rot(), strike_index: 0 }));
    assert_eq!(chain.strike_index, 1);
    assert!(chain.absolute_cooldown.finished());
}

#[test]
fn the_window_closes_over_idle_frames() {
    let mut chain = StrikeCooldown::new();
    chain.frame(16_000, true, rot());
    assert_eq!(chain.strike_index, 1);
    for _ in 0..31 {
        assert_eq!(chain.frame(16_000, false, rot()), None);
    }
    assert_eq!(chain.strike_index, 1);
    chain.frame(16_000, false, rot());
    assert_eq!(chain.strike_index, 0);
    assert!(chain.absolute_cooldown.finished());
}

#[test]
fn the_parts_of_a_frame_can_be_run_one_by_one() {
    let mut chain = StrikeCooldown::default();
    chain.tick_strike_cooldown(10);
    chain.reset_chain();
    assert_eq!(chain.trigger_strike(false, rot()), None);
    assert_eq!(
        chain.trigger_strike(true, rot()),
        Some(SpawnStrike { rot: rot(), strike_index: 0 })
    );
    assert_eq!(chain.chain_cooldown.duration(), CHAIN_COOLDOWN);
    assert_eq!(chain.chain_cooldown.elapsed(), 0);
}

#[test]
fn strikes_alternate_their_flip_and_the_last_is_larger() {
    let a = SpawnStrike { rot: rot(), strike_index: 0 };
    let b = SpawnStrike { rot: rot(), strike_index: 1 };
    let c = SpawnStrike { rot: rot(), strike_index: 2 };
    assert!(!a.flip_y());
    assert!(b.flip_y());
    assert!(!c.flip_y());
    assert_eq!(a.scale(), 1500);
    assert_eq!(b.scale(), 1500);
    assert_eq!(c.scale(), 2000);
}

#[test]
fn a_strike_lasts_a_tenth_of_a_second() {
    let mut s = Strike::new(ColliderId(7), SpawnStrike { rot: rot(), strike_index: 1 });
    assert_eq!(s.collider, ColliderId(7));
    assert_eq!(s.strike_index, 1);
    assert!(!s.tick(99_999));
    assert!(s.tick(1));
    assert!(s.tick(16_000));
}
