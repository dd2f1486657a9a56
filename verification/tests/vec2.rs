use insta_kill::vec2::integer_sqrt;
use insta_kill::vec2::saturate;
use insta_kill::vec2::step;
use insta_kill::vec2::Vec2;

#[test]
fn integer_sqrt_rounds_down() {
    assert_eq!(integer_sqrt(0), 0);
    assert_eq!(integer_sqrt(1), 1);
    assert_eq!(integer_sqrt(2), 1);
    assert_eq!(integer_sqrt(3), 1);
    assert_eq!(integer_sqrt(4), 2);
    assert_eq!(integer_sqrt(24), 4);
    assert_eq!(integer_sqrt(25), 5);
    assert_eq!(integer_sqrt(500_000), 707);
    assert_eq!(integer_sqrt(u128::MAX), u64::MAX);
}

#[test]
fn distance_squared_is_exact() {
    let a = Vec2::new(0, 0);
    let b = Vec2::new(3, 4);
    assert_eq!(a.distance_squared(b), 25);
    assert_eq!(b.distance_squared(a), 25);
    assert_eq!(a.distance_squared(a), 0);
}

#[test]
fn distance_squared_saturates() {
    let a = Vec2::new(i32::MIN, i32::MIN);
    let b = Vec2::new(i32::MAX, i32::MAX);
    assert_eq!(a.distance_squared(b), u64::MAX);
    let c = Vec2::new(i32::MIN, 0);
    let d = Vec2::new(i32::MAX, 0);
    assert_eq!(c.distance_squared(d), 4294967295u64 * 4294967295u64);
}

#[test]
fn within_compares_with_the_square_of_the_radius() {
    let a = Vec2::new(0, 0);
    assert!(a.within(Vec2::new(3, 4), 5));
    assert!(!a.within(Vec2::new(3, 4), 4));
    assert!(a.within(a, 0));
}

#[test]
fn toward_scales_to_the_length() {
    let a = Vec2::new(0, 0);
    assert_eq!(a.toward(Vec2::new(3000, 4000), 5000), Vec2::new(3000, 4000));
    assert_eq!(a.toward(Vec2::new(3000, 4000), 500), Vec2::new(300, 400));
    assert_eq!(a.toward(Vec2::new(-3000, 4000), 5000), Vec2::new(-3000, 4000));
    assert_eq!(a.toward(Vec2::new(0, -7), 1000), Vec2::new(0, -1000));
    assert_eq!(Vec2::new(10, 10).toward(Vec2::new(20, 10), 3), Vec2::new(3, 0));
}

#[test]
fn toward_the_same_point_is_zero() {
    let a = Vec2::new(17, -4);
    assert_eq!(a.toward(a, 1000), Vec2::new(0, 0));
    assert!(a.toward(a, 1000).is_zero());
    assert_eq!(Vec2::new(0, 0).with_length(400_000), Vec2::new(0, 0));
}

#[test]
fn with_length_normalizes_a_diagonal() {
    assert_eq!(Vec2::new(1, 1).with_length(1000), Vec2::new(707, 707));
    assert_eq!(Vec2::new(-1, 1).with_length(1000), Vec2::new(-707, 707));
    assert_eq!(Vec2::new(1, 0).with_length(400_000), Vec2::new(400_000, 0));
}

#[test]
fn toward_handles_the_widest_displacement() {
    let a = Vec2::new(i32::MIN, i32::MIN);
    let b = Vec2::new(i32::MAX, i32::MAX);
    let d = a.toward(b, u32::MAX);
    assert!(d.x > 0 && d.y > 0);
    assert_eq!(d.x, i32::MAX);
    assert_eq!(a.toward(b, 1000), Vec2::new(707, 707));
}

#[test]
fn heading_is_one_unit_long() {
    assert_eq!(Vec2::new(0, 0).heading(), Vec2::new(1000, 0));
    assert_eq!(Vec2::new(0, 5).heading(), Vec2::new(0, 1000));
    assert_eq!(Vec2::new(-30, -40).heading(), Vec2::new(-600, -800));
}

#[test]
fn plus_and_minus_saturate() {
    assert_eq!(Vec2::new(1, 2).plus(Vec2::new(3, -5)), Vec2::new(4, -3));
    assert_eq!(Vec2::new(i32::MAX, i32::MIN).plus(Vec2::new(1, -1)), Vec2::new(i32::MAX, i32::MIN));
    assert_eq!(Vec2::new(1, 2).minus(Vec2::new(3, -5)), Vec2::new(-2, 7));
    assert_eq!(Vec2::new(i32::MIN, i32::MAX).minus(Vec2::new(1, -1)), Vec2::new(i32::MIN, i32::MAX));
    assert_eq!(saturate(i64::MAX), i32::MAX);
    assert_eq!(saturate(i64::MIN), i32::MIN);
    assert_eq!(saturate(-7), -7);
}

#[test]
fn advanced_moves_toward_the_target() {
    let a = Vec2::new(0, 0);
    assert_eq!(a.advanced(Vec2::new(1_000_000, 0), 16_000), Vec2::new(16_000, 0));
    assert_eq!(a.advanced(a, 16_000), a);
}

#[test]
fn from_units_counts_in_thousandths() {
    assert_eq!(Vec2::from_units(100, -10), Vec2::new(100_000, -10_000));
    assert_eq!(Vec2::from_units(i32::MAX, i32::MIN), Vec2::new(i32::MAX, i32::MIN));
    assert_eq!(Vec2::origin(), Vec2::new(0, 0));
}

#[test]
fn step_is_speed_times_time() {
    assert_eq!(step(400_000, 16_666), 6666);
    assert_eq!(step(80_000, 200_000), 16_000);
    assert_eq!(step(0, 1_000_000), 0);
    assert_eq!(step(1, 999_999), 0);
    assert_eq!(step(u32::MAX, u64::MAX), u32::MAX);
}
