//! The force kernel: maps the distance vector between two particles, the
//! configured action radius and the scaled configured force to a velocity
//! contribution.
//!
//! Three distance regimes (`r` is the distance in fixed-point units):
//! - `r == 0`: zero (the direction is undefined);
//! - `0 < r <= RAMP_START_FP`: an always-repulsive close force whose
//!   magnitude ramps linearly from `CLOSE_FORCE_FP` at `r = 0` down to zero
//!   at `r = RAMP_START_FP`, whatever the configured force;
//! - `RAMP_START_FP < r < action_radius`: the configured force scaled by a
//!   ramp that rises linearly from zero at `r = RAMP_START_FP` and saturates
//!   to a plateau at `r = RAMP_START_FP + RAMP_LENGTH_FP`;
//! - `r >= action_radius`: zero (out of range).

use vstd::prelude::*;

use crate::math::{abs, div_tz, isqrt, isqrt_spec, lemma_tz_div_le, spec_min, tz_div};
use crate::vec2::Vec2F;
use crate::{CLOSE_FORCE_FP, POS_LIMIT, RAMP_DEN, RAMP_LENGTH_FP, RAMP_START_FP};

verus! {

/// Numerator of the mid-range ramp at distance `r`: rises linearly from
/// zero at `RAMP_START_FP`, saturates at `2 * RAMP_LENGTH_FP`. Dividing by
/// `RAMP_DEN` yields the original ramp fraction.
pub open spec fn ramp_num_spec(r: int) -> int {
    spec_min(2 * (r - RAMP_START_FP), 2 * RAMP_LENGTH_FP)
}

/// Signed magnitude of the force kernel at distance `r` (fixed-point), for
/// the given action radius (fixed-point) and scaled force. A positive
/// result pulls the particle toward the other one.
pub open spec fn kernel_mag_spec(r: int, action_radius: int, force: int) -> int {
    if RAMP_START_FP < r && r < action_radius {
        tz_div(force * ramp_num_spec(r), RAMP_DEN as int)
    } else if 0 < r && r <= RAMP_START_FP {
        tz_div(CLOSE_FORCE_FP * (r - RAMP_START_FP), RAMP_START_FP as int)
    } else {
        0
    }
}

/// Euclidean length of `(dx, dy)`, rounded down.
pub open spec fn dist_fp(dx: int, dy: int) -> int {
    isqrt_spec((dx * dx + dy * dy) as nat) as int
}

/// The kernel's velocity contribution: the unit vector from the acted-upon
/// particle toward the other one, scaled by `kernel_mag_spec`.
pub open spec fn kernel_dv_spec(dx: int, dy: int, action_radius: int, force: int) -> (int, int) {
    let r = dist_fp(dx, dy);
    if r == 0 {
        (0, 0)
    } else {
        let m = kernel_mag_spec(r, action_radius, force);
        (tz_div(dx * m, r), tz_div(dy * m, r))
    }
}

/// The ramp numerator: `-|x - zero - const_start| + x - zero + const_start`,
/// which rises linearly from zero at `x = zero` and stays constant at
/// `2 * const_start` once `x` passes `zero + const_start`.
pub fn ramp_then_const(x: i64, zero: i64, const_start: i64) -> (r: i64)
    requires
        abs(x as int) <= 8 * POS_LIMIT,
        0 < zero <= FOUR_BILLION,
        0 < const_start <= FOUR_BILLION,
    ensures
        r == spec_min(2 * (x - zero), 2 * (const_start as int)),
{
    let d: i64 = x - zero - const_start;
    let a: i64 = if d >= 0 {
        d
    } else {
        -d
    };
    -a + x - zero + const_start
}

/// Bound used by `ramp_then_const` to rule out overflow.
pub const FOUR_BILLION: i64 = 4_000_000_000;

/// The magnitude never exceeds the close force plus the scaled force.
pub proof fn lemma_kernel_mag_bound(r: int, action_radius: int, force: int)
    ensures
        abs(kernel_mag_spec(r, action_radius, force)) <= CLOSE_FORCE_FP + abs(force),
{
    if RAMP_START_FP < r && r < action_radius {
        assert(abs(force * ramp_num_spec(r)) <= abs(force) * (RAMP_DEN as int))
            by (nonlinear_arith)
            requires
                0 <= ramp_num_spec(r) <= RAMP_DEN,
        ;
        lemma_tz_div_le(force * ramp_num_spec(r), RAMP_DEN as int, abs(force));
    } else if 0 < r && r <= RAMP_START_FP {
        assert(abs(CLOSE_FORCE_FP * (r - RAMP_START_FP)) <= CLOSE_FORCE_FP * (
        RAMP_START_FP as int));
        lemma_tz_div_le(
            CLOSE_FORCE_FP * (r - RAMP_START_FP),
            RAMP_START_FP as int,
            CLOSE_FORCE_FP as int,
        );
    }
}

/// Each component of the kernel's contribution is bounded by the magnitude
/// bound: the direction vector never amplifies it.
pub proof fn lemma_kernel_dv_bound(dx: int, dy: int, action_radius: int, force: int)
    ensures
        abs(kernel_dv_spec(dx, dy, action_radius, force).0) <= CLOSE_FORCE_FP + abs(force),
        abs(kernel_dv_spec(dx, dy, action_radius, force).1) <= CLOSE_FORCE_FP + abs(force),
{
    let r = dist_fp(dx, dy);
    if r != 0 {
        let m = kernel_mag_spec(r, action_radius, force);
        lemma_kernel_mag_bound(r, action_radius, force);
        lemma_component_le_dist(dx, dy);
        let c = CLOSE_FORCE_FP + abs(force);
        assert(abs(dx * m) <= c * r && abs(dy * m) <= c * r) by (nonlinear_arith)
            requires
                abs(dx) <= r,
                abs(dy) <= r,
                abs(m) <= c,
                r > 0,
        ;
        lemma_tz_div_le(dx * m, r, c);
        lemma_tz_div_le(dy * m, r, c);
    }
}

/// No coordinate of a vector exceeds the vector's length.
pub proof fn lemma_component_le_dist(dx: int, dy: int)
    ensures
        dist_fp(dx, dy) >= 0,
        abs(dx) <= dist_fp(dx, dy),
        abs(dy) <= dist_fp(dx, dy),
{
    let s = (dx * dx + dy * dy) as nat;
    assert(dx * dx >= 0 && dy * dy >= 0 && dx * dx == abs(dx) * abs(dx) && dy * dy == abs(dy)
        * abs(dy)) by (nonlinear_arith);
    crate::math::lemma_isqrt_bounds(s);
    let r = isqrt_spec(s) as int;
    assert(abs(dx) <= r) by (nonlinear_arith)
        requires
            abs(dx) * abs(dx) <= s,
            s < (r + 1) * (r + 1),
            r >= 0,
            abs(dx) >= 0,
    ;
    assert(abs(dy) <= r) by (nonlinear_arith)
        requires
            abs(dy) * abs(dy) <= s,
            s < (r + 1) * (r + 1),
            r >= 0,
            abs(dy) >= 0,
    ;
}

/// The force kernel. `distance` points from the acted-upon particle toward
/// the acting one (fixed-point units), `action_radius` is in fixed-point
/// units, and `force` is the configured force already scaled by
/// `FORCE_FACTOR_FP` (and negated, so that a positive configured force
/// repels).
pub fn get_partial_velocity(distance: Vec2F, action_radius: i64, force: i64) -> (r: Vec2F)
    requires
        distance.bounded(2 * POS_LIMIT),
        abs(force as int) <= 1000,
    ensures
        r.x == kernel_dv_spec(
            distance.x as int,
            distance.y as int,
            action_radius as int,
            force as int,
        ).0,
        r.y == kernel_dv_spec(
            distance.x as int,
            distance.y as int,
            action_radius as int,
            force as int,
        ).1,
        abs(r.x as int) <= CLOSE_FORCE_FP + abs(force as int),
        abs(r.y as int) <= CLOSE_FORCE_FP + abs(force as int),
{
    proof {
        assert(distance.x * distance.x + distance.y * distance.y
            <= 8 * POS_LIMIT * POS_LIMIT) by (nonlinear_arith)
            requires
                -2 * POS_LIMIT <= distance.x <= 2 * POS_LIMIT,
                -2 * POS_LIMIT <= distance.y <= 2 * POS_LIMIT,
        ;
        assert(distance.x * distance.x >= 0 && distance.y * distance.y >= 0)
            by (nonlinear_arith);
    }
    let sq: u64 = (distance.x * distance.x + distance.y * distance.y) as u64;
    let rad: u64 = isqrt(sq);
    proof {
        assert(rad as int <= 3_000_000_000) by (nonlinear_arith)
            requires
                (rad as int) * (rad as int) <= 8 * POS_LIMIT * POS_LIMIT,
                POS_LIMIT == 1_000_000_000,
        ;
        lemma_component_le_dist(distance.x as int, distance.y as int);
        lemma_kernel_mag_bound(rad as int, action_radius as int, force as int);
        lemma_kernel_dv_bound(
            distance.x as int,
            distance.y as int,
            action_radius as int,
            force as int,
        );
    }
    let rad: i64 = rad as i64;
    if rad == 0 {
        Vec2F::zero()
    } else {
        let mag: i64 = if RAMP_START_FP < rad && rad < action_radius {
            let num: i64 = ramp_then_const(rad, RAMP_START_FP, RAMP_LENGTH_FP);
            proof {
                assert(abs(force * num) <= 20_000_000) by (nonlinear_arith)
                    requires
                        abs(force as int) <= 1000,
                        0 <= num <= 20_000,
                ;
            }
            div_tz(force * num, RAMP_DEN)
        } else if rad <= RAMP_START_FP {
            div_tz(CLOSE_FORCE_FP * (rad - RAMP_START_FP), RAMP_START_FP)
        } else {
            0
        };
        proof {
            assert(mag == kernel_mag_spec(rad as int, action_radius as int, force as int));
            assert(abs(mag as int) <= 1040);
            assert(abs(distance.x * mag) <= 2 * POS_LIMIT * 1040 && abs(distance.y * mag)
                <= 2 * POS_LIMIT * 1040) by (nonlinear_arith)
                requires
                    abs(distance.x as int) <= 2 * POS_LIMIT,
                    abs(distance.y as int) <= 2 * POS_LIMIT,
                    abs(mag as int) <= 1040,
        ;
        }
        Vec2F { x: div_tz(distance.x * mag, rad), y: div_tz(distance.y * mag, rad) }
    }
}

/// A zero distance vector yields a zero force, for every action radius and
/// every force.
pub proof fn lemma_zero_distance_gives_zero_force(action_radius: int, force: int)
    ensures
        kernel_dv_spec(0, 0, action_radius, force) == (0int, 0int),
{
    assert(dist_fp(0, 0) == 0);
}

/// The kernel magnitude is continuous at `r = RAMP_START_FP`: the
/// close-force arm reaches zero exactly there, and the mid-range formula,
/// taken at the same point, starts from zero too — for every force and
/// every action radius at least `RAMP_START_FP + RAMP_LENGTH_FP`.
pub proof fn lemma_force_continuous_at_ramp_start(action_radius: int, force: int)
    requires
        action_radius >= RAMP_START_FP + RAMP_LENGTH_FP,
    ensures
        kernel_mag_spec(RAMP_START_FP as int, action_radius, force) == 0,
        tz_div(force * ramp_num_spec(RAMP_START_FP as int), RAMP_DEN as int) == 0,
{
    assert(ramp_num_spec(RAMP_START_FP as int) == 0);
    assert(force * 0 == 0) by (nonlinear_arith);
    assert(kernel_mag_spec(RAMP_START_FP as int, action_radius, force) == tz_div(
        CLOSE_FORCE_FP * 0,
        RAMP_START_FP as int,
    ));
}

/// Beyond the action radius the kernel is zero, whatever the force and its
/// sign — provided the action radius is at least `RAMP_START_FP`, as every
/// radius in the configured range is.
pub proof fn lemma_out_of_range_gives_zero_force(dx: int, dy: int, action_radius: int, force: int)
    requires
        action_radius >= RAMP_START_FP,
        dist_fp(dx, dy) >= action_radius,
    ensures
        kernel_dv_spec(dx, dy, action_radius, force) == (0int, 0int),
{
    let r = dist_fp(dx, dy);
    if r != 0 {
        assert(kernel_mag_spec(r, action_radius, force) == 0);
        let m = kernel_mag_spec(r, action_radius, force);
        assert(dx * m == 0 && dy * m == 0) by (nonlinear_arith)
            requires
                m == 0,
        ;
    }
}

} // verus!
