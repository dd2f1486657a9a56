use insta_kill::audio::string_bar;
use insta_kill::audio::Bar;
use insta_kill::audio::GameAudio;

#[test]
fn the_volume_stays_between_nothing_and_full() {
    let mut a = GameAudio::default();
    assert_eq!(a.main_volume, 50);
    a.update(5);
    assert_eq!(a.main_volume, 55);
    a.update(-60);
    assert_eq!(a.main_volume, 0);
    a.update(i16::MAX);
    assert_eq!(a.main_volume, 100);
    a.update(i16::MIN);
    assert_eq!(a.main_volume, 0);
}

#[test]
fn the_wheel_turns_the_volume_by_one_step() {
    let mut a = GameAudio::default();
    a.update_main_volume(0);
    assert_eq!(a.main_volume, 50);
    a.update_main_volume(-1);
    assert_eq!(a.main_volume, 55);
    a.update_main_volume(1);
    a.update_main_volume(1);
    assert_eq!(a.main_volume, 45);
}

#[test]
fn the_bar_has_twenty_marks() {
    assert_eq!(string_bar(0), "____________________");
    assert_eq!(string_bar(50), "XXXXXXXXXX__________");
    assert_eq!(string_bar(51), "XXXXXXXXXXX_________");
    assert_eq!(string_bar(100), "XXXXXXXXXXXXXXXXXXXX");
    assert_eq!(string_bar(255), "XXXXXXXXXXXXXXXXXXXX");
    assert_eq!(string_bar(1), "X___________________");
}

#[test]
fn the_bar_shows_after_a_turn_and_hides_after_its_time() {
    let mut bar = Bar::default();
    assert!(!bar.visible);
    bar.tick(16_000, 1);
    assert!(bar.visible);
    bar.tick(499_999, 0);
    assert!(bar.visible);
    bar.tick(1, 0);
    assert!(!bar.visible);
    bar.tick(16_000, -1);
    assert!(bar.visible);
    bar.tick(400_000, 1);
    bar.tick(400_000, 0);
    assert!(bar.visible);
    bar.tick(100_000, 0);
    assert!(!bar.visible);
}
