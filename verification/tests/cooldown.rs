use insta_kill::cooldown::Cooldown;
use insta_kill::cooldown::CooldownMode;

#[test]
fn once_finishes_when_ticks_reach_duration_and_stays_finished() {
    let mut c = Cooldown::new(100, CooldownMode::Once);
    assert!(!c.finished());
    c.tick(40);
    assert!(!c.finished());
    assert!(!c.just_finished());
    assert_eq!(c.elapsed(), 40);
    c.tick(60);
    assert!(c.finished());
    assert!(c.just_finished());
    assert_eq!(c.elapsed(), 100);
    c.tick(10);
    assert!(c.finished());
    assert!(!c.just_finished());
    assert_eq!(c.elapsed(), 100);
    c.tick(1_000_000);
    assert!(c.finished());
    assert!(!c.just_finished());
}

#[test]
fn once_reports_just_finished_on_one_tick_only() {
    let mut c = Cooldown::new(100, CooldownMode::Once);
    let mut firings = 0;
    for _ in 0..50 {
        c.tick(7);
        if c.just_finished() {
            firings += 1;
        }
    }
    assert_eq!(firings, 1);
    c.reset();
    assert!(!c.finished());
    assert_eq!(c.elapsed(), 0);
    for _ in 0..50 {
        c.tick(7);
        if c.just_finished() {
            firings += 1;
        }
    }
    assert_eq!(firings, 2);
}

#[test]
fn once_saturates_at_duration() {
    let mut c = Cooldown::new(100, CooldownMode::Once);
    c.tick(u64::MAX);
    assert_eq!(c.elapsed(), 100);
    assert!(c.finished());
}

#[test]
fn repeating_carries_the_rest_into_the_next_cycle() {
    let mut c = Cooldown::new(100, CooldownMode::Repeating);
    c.tick(250);
    assert!(c.just_finished());
    assert!(c.finished());
    assert_eq!(c.elapsed(), 50);
    c.tick(10);
    assert!(!c.just_finished());
    assert!(!c.finished());
    assert_eq!(c.elapsed(), 60);
    c.tick(40);
    assert!(c.just_finished());
    assert_eq!(c.elapsed(), 0);
}

#[test]
fn repeating_fires_once_per_cycle() {
    let mut c = Cooldown::new(1_300_000, CooldownMode::Repeating);
    let mut firings = 0;
    for _ in 0..1000 {
        c.tick(16_666);
        if c.just_finished() {
            firings += 1;
        }
    }
    assert_eq!(firings, 16_666_000 / 1_300_000);
    assert_eq!(c.elapsed(), 16_666_000 % 1_300_000);
}

#[test]
fn repeating_does_not_overflow_on_huge_ticks() {
    let mut c = Cooldown::new(u64::MAX, CooldownMode::Repeating);
    c.tick(u64::MAX - 1);
    assert!(!c.just_finished());
    c.tick(u64::MAX - 1);
    assert!(c.just_finished());
    assert_eq!(c.elapsed(), u64::MAX - 2);
}

#[test]
fn repeating_reset_clears_finished() {
    let mut c = Cooldown::new(10, CooldownMode::Repeating);
    c.tick(10);
    assert!(c.finished());
    c.reset();
    assert!(!c.finished());
    assert!(!c.just_finished());
}

#[test]
fn zero_duration_is_finished_at_once() {
    let c = Cooldown::new(0, CooldownMode::Once);
    assert!(c.finished());
    let mut r = Cooldown::new(0, CooldownMode::Repeating);
    assert!(!r.finished());
    r.tick(0);
    assert!(r.finished());
    assert_eq!(r.elapsed(), 0);
}

#[test]
fn ready_cooldown_is_finished() {
    let c = Cooldown::ready(2_500_000);
    assert!(c.finished());
    assert!(!c.just_finished());
    assert_eq!(c.elapsed(), 2_500_000);
    assert_eq!(c.duration(), 2_500_000);
    assert_eq!(c.mode(), CooldownMode::Once);
}

#[test]
fn rearm_sets_duration_and_starts_over() {
    let mut c = Cooldown::ready(10);
    c.rearm(500_000);
    assert!(!c.finished());
    assert_eq!(c.elapsed(), 0);
    assert_eq!(c.duration(), 500_000);
}

#[test]
fn permille_is_elapsed_over_duration() {
    let mut c = Cooldown::new(350_000, CooldownMode::Once);
    assert_eq!(c.permille(), 0);
    c.tick(175_000);
    assert_eq!(c.permille(), 500);
    c.tick(175_000);
    assert_eq!(c.permille(), 1000);
    assert_eq!(Cooldown::new(0, CooldownMode::Once).permille(), 1000);
}
