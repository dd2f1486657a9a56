use insta_kill::score::ComboMeter;
use insta_kill::score::DeathCounter;
use insta_kill::score::KillCounter;
use insta_kill::score::PlayerScore;
use insta_kill::score::COMBO_FULL;

#[test]
fn score_adds_and_never_decreases() {
    let mut s = PlayerScore::new();
    assert_eq!(s.score(), 0);
    s.add(100);
    assert_eq!(s.score(), 100);
    s.add(0);
    assert_eq!(s.score(), 100);
    s.add(25);
    assert_eq!(s.score(), 125);
}

#[test]
fn score_stops_at_the_largest_value() {
    let mut s = PlayerScore { score: u32::MAX - 10 };
    s.add(200);
    assert_eq!(s.score(), u32::MAX);
    s.add(1);
    assert_eq!(s.score(), u32::MAX);
}

#[test]
fn kill_counter_counts_one_by_one() {
    let mut k = KillCounter::new();
    assert_eq!(k.kills(), 0);
    k.increase();
    k.increase();
    assert_eq!(k.kills(), 2);
    let mut full = KillCounter { kills: u32::MAX };
    full.increase();
    assert_eq!(full.kills(), u32::MAX);
}

#[test]
fn death_counter_counts_one_by_one() {
    let mut d = DeathCounter::new();
    d.increase();
    assert_eq!(d.kills(), 1);
    assert_eq!(DeathCounter::default().kills(), 0);
}

#[test]
fn defaults_start_at_zero() {
    assert_eq!(PlayerScore::default().score(), 0);
    assert_eq!(KillCounter::default().kills(), 0);
    assert_eq!(ComboMeter::default().progress(), COMBO_FULL);
}

#[test]
fn combo_meter_decays_to_zero_and_no_further() {
    let mut m = ComboMeter::new();
    assert_eq!(m.progress(), 100_000_000);
    m.decay_combo_progress(1_000_000);
    assert_eq!(m.progress(), 80_000_000);
    m.decay_combo_progress(4_000_000);
    assert_eq!(m.progress(), 0);
    m.decay_combo_progress(u64::MAX);
    assert_eq!(m.progress(), 0);
}

#[test]
fn combo_meter_rises_to_full_and_no_further() {
    let mut m = ComboMeter { progress: 10_000_000 };
    m.increase(30_000_000);
    assert_eq!(m.progress(), 40_000_000);
    m.increase(u32::MAX);
    assert_eq!(m.progress(), COMBO_FULL);
    m.decay(1);
    assert_eq!(m.progress(), COMBO_FULL - 1);
}
