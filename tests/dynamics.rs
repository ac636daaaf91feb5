use cbb_2d::dynamic::{DynamicAttributes, MAX_FORCE};
use cbb_2d::game_object::GameObjectAttributes;

#[test]
fn friction_below_zero_is_stored_as_zero() {
    let mut d = DynamicAttributes::new(1000, 500);
    d.set_friction(-500);
    assert_eq!(d.friction, 0);
}

#[test]
fn friction_above_one_is_stored_as_one() {
    let mut d = DynamicAttributes::new(1000, 500);
    d.set_friction(1700);
    assert_eq!(d.friction, 1000);
}

#[test]
fn friction_in_range_is_kept() {
    let mut d = DynamicAttributes::new(1000, 0);
    d.set_friction(300);
    assert_eq!(d.friction, 300);
    d.set_friction(0);
    assert_eq!(d.friction, 0);
    d.set_friction(1000);
    assert_eq!(d.friction, 1000);
}

#[test]
fn friction_is_clamped_at_construction() {
    assert_eq!(DynamicAttributes::new(1000, -500).friction, 0);
    assert_eq!(DynamicAttributes::new(1000, 1700).friction, 1000);
    assert_eq!(DynamicAttributes::new(1000, 200).friction, 200);
}

#[test]
fn large_force_is_scaled_to_max_force() {
    let mut d = DynamicAttributes::new(1000, 0);
    d.apply_force((300_000, 400_000));
    assert_eq!((d.fx, d.fy), (60_000, 80_000));
    assert_eq!(d.fx * d.fx + d.fy * d.fy, MAX_FORCE * MAX_FORCE);
}

#[test]
fn negative_large_force_keeps_its_direction() {
    let mut d = DynamicAttributes::new(1000, 0);
    d.apply_force((-300_000, 400_000));
    assert_eq!((d.fx, d.fy), (-60_000, 80_000));
}

#[test]
fn force_within_limit_is_kept() {
    let mut d = DynamicAttributes::new(1000, 0);
    d.apply_force((30_000, -40_000));
    assert_eq!((d.fx, d.fy), (30_000, -40_000));
    d.apply_force((MAX_FORCE, 0));
    assert_eq!((d.fx, d.fy), (MAX_FORCE, 0));
}

#[test]
fn extreme_force_never_exceeds_max_force() {
    let mut d = DynamicAttributes::new(1000, 0);
    for &(x, y) in &[
        (i64::MAX, i64::MAX),
        (i64::MIN, i64::MIN),
        (i64::MIN, 1),
        (123_456_789, -987_654_321),
        (100_001, 0),
    ] {
        d.apply_force((x, y));
        let n = (d.fx as i128) * (d.fx as i128) + (d.fy as i128) * (d.fy as i128);
        assert!(n <= (MAX_FORCE as i128) * (MAX_FORCE as i128));
        assert!(d.fx.signum() == x.signum() || d.fx == 0);
        assert!(d.fy.signum() == y.signum() || d.fy == 0);
    }
}

#[test]
fn new_force_replaces_the_pending_one() {
    let mut d = DynamicAttributes::new(1000, 0);
    d.apply_force((50_000, 0));
    d.apply_force((0, 20_000));
    assert_eq!((d.fx, d.fy), (0, 20_000));
}

#[test]
fn update_position_follows_the_euler_step() {
    let mut d = DynamicAttributes::new(500, 200);
    let mut base = GameObjectAttributes::new(0, (100_000, 100_000), (30_000, 30_000));
    d.apply_force((100_000, 0));
    d.update_position(&mut base, 16);
    // acceleration 100 / 0.5 = 200, then 20% friction: 160 per second
    assert_eq!((d.vel_x, d.vel_y), (160_000, 0));
    // 160 * 0.016 = 2.56
    assert_eq!(base.get_position(), (102_560, 100_000));
    // the force stays until replaced
    d.update_position(&mut base, 16);
    assert_eq!(d.vel_x, 288_000);
    assert_eq!(base.get_position(), (107_168, 100_000));
}

#[test]
fn velocity_decays_under_friction_without_force() {
    let mut d = DynamicAttributes::new(1000, 500);
    let mut base = GameObjectAttributes::new(0, (0, 0), (10_000, 10_000));
    d.set_velocity((-100_000, 40_000));
    d.update_position(&mut base, 1000);
    assert_eq!((d.vel_x, d.vel_y), (-50_000, 20_000));
    assert_eq!(base.get_position(), (-50_000, 20_000));
}

#[test]
fn deletion_request_is_latched() {
    let mut a = GameObjectAttributes::new(3, (1, 2), (3, 4));
    assert!(!a.is_deletion_requested());
    a.request_deletion();
    assert!(a.is_deletion_requested());
    a.set_position((5, 6));
    assert!(a.is_deletion_requested());
    assert_eq!(a.get_position(), (5, 6));
}
