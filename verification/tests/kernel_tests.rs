use smarticles::kernel::get_partial_velocity;
use smarticles::vec2::Vec2F;

#[test]
fn zero_distance_gives_zero() {
    for force in [-1000i64, -100, 0, 100, 1000] {
        for radius in [0i64, 30000, 80000, 127000] {
            let r = get_partial_velocity(Vec2F { x: 0, y: 0 }, radius, force);
            assert_eq!((r.x, r.y), (0, 0));
        }
    }
}

#[test]
fn out_of_range_gives_zero() {
    for force in [-200i64, 0, 200] {
        let r = get_partial_velocity(Vec2F { x: 90000, y: 0 }, 80000, force);
        assert_eq!((r.x, r.y), (0, 0));
        let r = get_partial_velocity(Vec2F { x: 80000, y: 0 }, 80000, force);
        assert_eq!((r.x, r.y), (0, 0));
        let r = get_partial_velocity(Vec2F { x: 0, y: -100000 }, 80000, force);
        assert_eq!((r.x, r.y), (0, 0));
    }
}

#[test]
fn close_force_repels_regardless_of_sign() {
    // at 15 world units, the close force is 40 * (15000 - 30000) / 30000 = -20
    // (away from the other particle), whatever the configured force says
    for force in [-200i64, -1, 0, 1, 200] {
        let r = get_partial_velocity(Vec2F { x: 15000, y: 0 }, 80000, force);
        assert_eq!((r.x, r.y), (-20, 0));
    }
}

#[test]
fn mid_range_exact_value() {
    // at 40 world units the ramp has saturated: min(2*(40000-30000), 20000)
    // = 20000, so the magnitude is -100 * 20000 / 40000 = -50
    let r = get_partial_velocity(Vec2F { x: 40000, y: 0 }, 80000, -100);
    assert_eq!((r.x, r.y), (-50, 0));
    // attraction with the opposite sign
    let r = get_partial_velocity(Vec2F { x: 40000, y: 0 }, 80000, 100);
    assert_eq!((r.x, r.y), (50, 0));
}

#[test]
fn mid_range_ramp_value_before_plateau() {
    // at 35 world units the ramp is still rising: min(2*5000, 20000) = 10000,
    // magnitude -100 * 10000 / 40000 = -25
    let r = get_partial_velocity(Vec2F { x: 35000, y: 0 }, 80000, -100);
    assert_eq!((r.x, r.y), (-25, 0));
}

#[test]
fn diagonal_distance_scales_components() {
    // distance (30000, 40000) has length 50000; magnitude -50 splits as
    // (-30, -40) along the unit direction
    let r = get_partial_velocity(Vec2F { x: 30000, y: 40000 }, 60000, -100);
    assert_eq!((r.x, r.y), (-30, -40));
}

#[test]
fn magnitude_continuous_at_ramp_start() {
    // the close force reaches zero exactly at the ramp start, and the
    // mid-range ramp starts from zero just past it: no jump
    let at_boundary = get_partial_velocity(Vec2F { x: 30000, y: 0 }, 80000, -100);
    assert_eq!((at_boundary.x, at_boundary.y), (0, 0));
    let just_past = get_partial_velocity(Vec2F { x: 30001, y: 0 }, 80000, -100);
    assert_eq!((just_past.x, just_past.y), (0, 0));
    let just_before = get_partial_velocity(Vec2F { x: 29999, y: 0 }, 80000, -100);
    assert_eq!((just_before.x, just_before.y), (0, 0));
}
