//! The simulation engine: owns the configuration and the particle tables,
//! and advances the integrator one fixed tick at a time.
//!
//! One step reads a consistent snapshot: every particle's new velocity and
//! position are computed from last tick's positions of all classes, staged,
//! and only then committed. Per-particle updates are independent, which is
//! what lets them run in parallel.

use rayon::iter::{IndexedParallelIterator, IntoParallelIterator, ParallelIterator};
use vstd::prelude::*;

use crate::kernel::{dist_fp, get_partial_velocity, kernel_dv_spec, lemma_component_le_dist,
    lemma_kernel_dv_bound};
use crate::math::{abs, clamp_i64, div_tz, isqrt, lemma_tz_div_le, spec_clamp, tz_div};
use crate::rng::entropy_in;
use crate::state::{apply_config_event, apply_events_view, clamp_param_spec, events_quit,
    events_spawn, ConfigView, Param, ParamMatrix, SharedState, SimulationState, UiEvent,
    UpdateOutcome};
use crate::vec2::Vec2F;
use crate::{BORDER_FORCE_FP, CLOSE_FORCE_FP, DAMPING_DEN, DAMPING_NUM, DEFAULT_FORCE,
    DEFAULT_RADIUS, DEFAULT_WORLD_RADIUS, FORCE_FACTOR_FP, FP_SCALE, MAX_CLASSES,
    MAX_PARTICLE_COUNT, PARAM_MAX, PARAM_MIN, POS_FACTOR, POS_LIMIT, RAMP_START_FP,
    SPAWN_AREA_RADIUS_FP, UPDATE_INTERVAL_MS, VEL_LIMIT, WORLD_RADIUS_LIMIT};

verus! {

/// Milliseconds per second; converts the tick length into seconds.
pub const MS_PER_SECOND: i64 = 1000;

/// Bound on the magnitude of one kernel contribution, with parameters in
/// the byte range: `CLOSE_FORCE_FP + PARAM_MAX_ABS * FORCE_FACTOR_FP`.
pub const PAIR_TERM_BOUND: i64 = 296;

/// Bound on the sum of all kernel contributions to one particle:
/// `MAX_CLASSES * MAX_PARTICLE_COUNT * PAIR_TERM_BOUND`.
pub const PAIR_SUM_BOUND: i64 = 2_841_600;

/// Bound on one component of the boundary spring term.
pub const BORDER_BOUND: i64 = 28_290_000;

/// Index of particle `p` of class `c` in the flat particle tables.
pub open spec fn slot(c: int, p: int) -> int {
    c * (MAX_PARTICLE_COUNT as int) + p
}

/// The simulation engine's state: the shared configuration plus the dense
/// particle tables, `MAX_CLASSES * MAX_PARTICLE_COUNT` slots each, stored
/// row-major by class. Slots at or beyond a class's active count are inert:
/// they are never read by a step and never published.
pub struct Simulation {
    pub shared: SharedState,
    pub particle_positions: Vec<Vec2F>,
    pub particle_velocities: Vec<Vec2F>,
}

impl Simulation {
    pub open spec fn wf(self) -> bool {
        &&& self.shared.wf()
        &&& self.particle_positions@.len() == MAX_CLASSES * MAX_PARTICLE_COUNT
        &&& self.particle_velocities@.len() == MAX_CLASSES * MAX_PARTICLE_COUNT
        &&& forall|k: int|
            0 <= k < self.particle_positions@.len()
                ==> (#[trigger] self.particle_positions@[k]).bounded(POS_LIMIT as int)
        &&& forall|k: int|
            0 <= k < self.particle_velocities@.len()
                ==> (#[trigger] self.particle_velocities@[k]).bounded(VEL_LIMIT as int)
    }

    pub open spec fn pos_at(self, c: int, p: int) -> Vec2F {
        self.particle_positions@[slot(c, p)]
    }

    pub open spec fn vel_at(self, c: int, p: int) -> Vec2F {
        self.particle_velocities@[slot(c, p)]
    }

    pub open spec fn count_at(self, c: int) -> int {
        self.particle_counts_at(c)
    }

    pub open spec fn particle_counts_at(self, c: int) -> int {
        self.shared.particle_counts@[c] as int
    }
}

/// The force (already scaled and negated, so that a positive configured
/// force repels) that class `c2` exerts on a particle of class `c1`.
pub open spec fn pair_force(s: Simulation, c1: int, c2: int) -> int {
    -s.shared.param_matrix.at(c1, c2).force * (FORCE_FACTOR_FP as int)
}

/// The action radius for that pair, in fixed-point units.
pub open spec fn pair_radius_fp(s: Simulation, c1: int, c2: int) -> int {
    s.shared.param_matrix.at(c1, c2).radius * (FP_SCALE as int)
}

/// Sum of the kernel contributions of the first `n` particles of class `c2`
/// to particle `p1` of class `c1`, over last tick's positions.
pub open spec fn pair_dv(s: Simulation, c1: int, p1: int, c2: int, n: int) -> (int, int)
    decreases n,
{
    if n <= 0 {
        (0, 0)
    } else {
        let prev = pair_dv(s, c1, p1, c2, n - 1);
        let k = kernel_dv_spec(
            s.pos_at(c2, n - 1).x - s.pos_at(c1, p1).x,
            s.pos_at(c2, n - 1).y - s.pos_at(c1, p1).y,
            pair_radius_fp(s, c1, c2),
            pair_force(s, c1, c2),
        );
        (prev.0 + k.0, prev.1 + k.1)
    }
}

/// Sum of the contributions of the first `m` classes (each over its active
/// particles) to particle `p1` of class `c1`.
pub open spec fn class_dv(s: Simulation, c1: int, p1: int, m: int) -> (int, int)
    decreases m,
{
    if m <= 0 {
        (0, 0)
    } else {
        let prev = class_dv(s, c1, p1, m - 1);
        let pd = pair_dv(s, c1, p1, m - 1, s.count_at(m - 1));
        (prev.0 + pd.0, prev.1 + pd.1)
    }
}

/// The soft boundary: once a particle's distance from the origin exceeds
/// the world radius, an inward pull proportional to the excess distance.
pub open spec fn border_dv(s: Simulation, c1: int, p1: int) -> (int, int) {
    let pos = s.pos_at(c1, p1);
    let r = dist_fp(pos.x as int, pos.y as int);
    let wr = s.shared.world_radius * (FP_SCALE as int);
    if r >= wr && r > 0 {
        let mag = tz_div(BORDER_FORCE_FP * (r - wr), FP_SCALE as int);
        (tz_div(-pos.x * mag, r), tz_div(-pos.y * mag, r))
    } else {
        (0, 0)
    }
}

/// The total velocity change of particle `p1` of class `c1` in one tick:
/// every active class's contribution plus the boundary term.
pub open spec fn total_dv(s: Simulation, c1: int, p1: int) -> (int, int) {
    let cd = class_dv(s, c1, p1, s.shared.class_count as int);
    let bd = border_dv(s, c1, p1);
    (cd.0 + bd.0, cd.1 + bd.1)
}

/// The velocity after one tick: the old velocity plus the total velocity
/// change, damped by `DAMPING_NUM / DAMPING_DEN`.
pub open spec fn new_vel_spec(s: Simulation, c1: int, p1: int) -> (int, int) {
    let v = s.vel_at(c1, p1);
    let t = total_dv(s, c1, p1);
    (
        tz_div((v.x + t.0) * (DAMPING_NUM as int), DAMPING_DEN as int),
        tz_div((v.y + t.1) * (DAMPING_NUM as int), DAMPING_DEN as int),
    )
}

/// The position after one tick: the old position moved by the new velocity
/// scaled by `POS_FACTOR` and the tick length, clamped into the hard safety
/// box.
pub open spec fn new_pos_spec(s: Simulation, c1: int, p1: int, dt_ms: int) -> (int, int) {
    let p = s.pos_at(c1, p1);
    let nv = new_vel_spec(s, c1, p1);
    (
        spec_clamp(
            p.x + tz_div(nv.0 * (POS_FACTOR as int) * dt_ms, MS_PER_SECOND as int),
            -POS_LIMIT as int,
            POS_LIMIT as int,
        ),
        spec_clamp(
            p.y + tz_div(nv.1 * (POS_FACTOR as int) * dt_ms, MS_PER_SECOND as int),
            -POS_LIMIT as int,
            POS_LIMIT as int,
        ),
    )
}

/// The stepped position as a vector value.
pub open spec fn stepped_pos(s: Simulation, c1: int, p1: int, dt_ms: int) -> Vec2F {
    Vec2F {
        x: new_pos_spec(s, c1, p1, dt_ms).0 as i64,
        y: new_pos_spec(s, c1, p1, dt_ms).1 as i64,
    }
}

/// The stepped velocity as a vector value.
pub open spec fn stepped_vel(s: Simulation, c1: int, p1: int) -> Vec2F {
    Vec2F { x: new_vel_spec(s, c1, p1).0 as i64, y: new_vel_spec(s, c1, p1).1 as i64 }
}

/// One kernel term is bounded by `PAIR_TERM_BOUND` when the matrix entry is
/// in the byte range.
pub proof fn lemma_pair_term_bound(s: Simulation, c1: int, c2: int)
    requires
        s.wf(),
        0 <= c1 < MAX_CLASSES,
        0 <= c2 < MAX_CLASSES,
    ensures
        abs(pair_force(s, c1, c2)) <= 256,
        CLOSE_FORCE_FP + abs(pair_force(s, c1, c2)) <= PAIR_TERM_BOUND,
{
    assert(s.shared.param_matrix.params@[c1 * (MAX_CLASSES as int) + c2].wf());
}

/// The pair sum over `n` particles is bounded by `n` terms.
pub proof fn lemma_pair_dv_bound(s: Simulation, c1: int, p1: int, c2: int, n: int)
    requires
        s.wf(),
        0 <= c1 < MAX_CLASSES,
        0 <= c2 < MAX_CLASSES,
        0 <= n,
    ensures
        abs(pair_dv(s, c1, p1, c2, n).0) <= n * PAIR_TERM_BOUND,
        abs(pair_dv(s, c1, p1, c2, n).1) <= n * PAIR_TERM_BOUND,
    decreases n,
{
    if n > 0 {
        lemma_pair_dv_bound(s, c1, p1, c2, n - 1);
        lemma_pair_term_bound(s, c1, c2);
        lemma_kernel_dv_bound(
            s.pos_at(c2, n - 1).x - s.pos_at(c1, p1).x,
            s.pos_at(c2, n - 1).y - s.pos_at(c1, p1).y,
            pair_radius_fp(s, c1, c2),
            pair_force(s, c1, c2),
        );
        assert((n - 1) * PAIR_TERM_BOUND + PAIR_TERM_BOUND == n * PAIR_TERM_BOUND)
            by (nonlinear_arith);
    } else {
        assert(n * PAIR_TERM_BOUND == 0) by (nonlinear_arith)
            requires
                n == 0,
        ;
    }
}

/// The sum over `m` classes is bounded by `PAIR_SUM_BOUND`.
pub proof fn lemma_class_dv_bound(s: Simulation, c1: int, p1: int, m: int)
    requires
        s.wf(),
        0 <= c1 < MAX_CLASSES,
        0 <= m <= MAX_CLASSES,
    ensures
        abs(class_dv(s, c1, p1, m).0) <= m * (MAX_PARTICLE_COUNT as int) * PAIR_TERM_BOUND,
        abs(class_dv(s, c1, p1, m).1) <= m * (MAX_PARTICLE_COUNT as int) * PAIR_TERM_BOUND,
        abs(class_dv(s, c1, p1, m).0) <= PAIR_SUM_BOUND,
        abs(class_dv(s, c1, p1, m).1) <= PAIR_SUM_BOUND,
    decreases m,
{
    if m > 0 {
        lemma_class_dv_bound(s, c1, p1, m - 1);
        lemma_pair_dv_bound(s, c1, p1, m - 1, s.count_at(m - 1));
        assert(s.count_at(m - 1) <= MAX_PARTICLE_COUNT);
        assert(s.count_at(m - 1) * PAIR_TERM_BOUND <= (MAX_PARTICLE_COUNT as int)
            * PAIR_TERM_BOUND) by (nonlinear_arith)
            requires
                0 <= s.count_at(m - 1) <= MAX_PARTICLE_COUNT,
                PAIR_TERM_BOUND > 0,
        ;
        assert((m - 1) * (MAX_PARTICLE_COUNT as int) * PAIR_TERM_BOUND + (
        MAX_PARTICLE_COUNT as int) * PAIR_TERM_BOUND == m * (MAX_PARTICLE_COUNT as int)
            * PAIR_TERM_BOUND) by (nonlinear_arith);
        assert(m * (MAX_PARTICLE_COUNT as int) * PAIR_TERM_BOUND <= PAIR_SUM_BOUND)
            by (nonlinear_arith)
            requires
                0 < m <= 8,
                MAX_PARTICLE_COUNT == 1200,
                PAIR_TERM_BOUND == 296,
                PAIR_SUM_BOUND == 2_841_600,
        ;
    } else {
        assert(m * (MAX_PARTICLE_COUNT as int) * PAIR_TERM_BOUND == 0) by (nonlinear_arith)
            requires
                m == 0,
        ;
    }
}

/// A position inside the safety box is at distance at most `1_414_213_563`
/// from the origin.
pub proof fn lemma_dist_within_box(pos: Vec2F)
    requires
        pos.bounded(POS_LIMIT as int),
    ensures
        0 <= dist_fp(pos.x as int, pos.y as int) <= 1_414_213_563,
{
    let sq = (pos.x as int) * (pos.x as int) + (pos.y as int) * (pos.y as int);
    assert(0 <= sq && sq <= 2 * POS_LIMIT * POS_LIMIT) by (nonlinear_arith)
        requires
            -POS_LIMIT <= pos.x <= POS_LIMIT,
            -POS_LIMIT <= pos.y <= POS_LIMIT,
            POS_LIMIT == 1_000_000_000,
            sq == (pos.x as int) * (pos.x as int) + (pos.y as int) * (pos.y as int),
    ;
    crate::math::lemma_isqrt_bounds(sq as nat);
    let r = dist_fp(pos.x as int, pos.y as int);
    assert(r * r <= sq);
    assert(r <= 1_414_213_563) by (nonlinear_arith)
        requires
            r >= 0,
            r * r <= sq,
            sq <= 2_000_000_000_000_000_000,
    ;
}

/// Each component of the boundary term is bounded by `BORDER_BOUND`.
pub proof fn lemma_border_dv_bound(s: Simulation, c1: int, p1: int)
    requires
        s.wf(),
        0 <= c1 < MAX_CLASSES,
        0 <= p1 < MAX_PARTICLE_COUNT,
    ensures
        abs(border_dv(s, c1, p1).0) <= BORDER_BOUND,
        abs(border_dv(s, c1, p1).1) <= BORDER_BOUND,
{
    let pos = s.pos_at(c1, p1);
    let r = dist_fp(pos.x as int, pos.y as int);
    let wr = s.shared.world_radius * (FP_SCALE as int);
    lemma_component_le_dist(pos.x as int, pos.y as int);
    lemma_dist_within_box(pos);
    if r >= wr && r > 0 {
        assert(wr >= 0);
        let mag = tz_div(BORDER_FORCE_FP * (r - wr), FP_SCALE as int);
        lemma_tz_div_le(BORDER_FORCE_FP * (r - wr), FP_SCALE as int, 28_290_000);
        assert(abs(BORDER_FORCE_FP * (r - wr)) <= 28_290_000 * (FP_SCALE as int))
            by (nonlinear_arith)
            requires
                0 <= r - wr <= 1_414_213_563,
                BORDER_FORCE_FP == 20,
                FP_SCALE == 1000,
        ;
        assert(abs(mag) <= 28_290_000);
        assert(abs(-pos.x * mag) <= abs(mag) * r && abs(-pos.y * mag) <= abs(mag) * r)
            by (nonlinear_arith)
            requires
                abs(pos.x as int) <= r,
                abs(pos.y as int) <= r,
                r > 0,
        ;
        lemma_tz_div_le(-pos.x * mag, r, abs(mag));
        lemma_tz_div_le(-pos.y * mag, r, abs(mag));
    }
}

/// The stepped velocity stays within `VEL_LIMIT`: the damping contracts the
/// velocity faster than the bounded forces can grow it.
pub proof fn lemma_new_vel_bounded(s: Simulation, c1: int, p1: int)
    requires
        s.wf(),
        0 <= c1 < s.shared.class_count,
        0 <= p1 < MAX_PARTICLE_COUNT,
    ensures
        abs(new_vel_spec(s, c1, p1).0) <= VEL_LIMIT,
        abs(new_vel_spec(s, c1, p1).1) <= VEL_LIMIT,
{
    let v = s.vel_at(c1, p1);
    let t = total_dv(s, c1, p1);
    lemma_class_dv_bound(s, c1, p1, s.shared.class_count as int);
    lemma_border_dv_bound(s, c1, p1);
    assert(v.bounded(VEL_LIMIT as int));
    assert(abs(v.x + t.0) <= 56_131_600 && abs(v.y + t.1) <= 56_131_600);
    assert(abs((v.x + t.0) * (DAMPING_NUM as int)) <= VEL_LIMIT * (DAMPING_DEN as int))
        by (nonlinear_arith)
        requires
            abs(v.x + t.0) <= 56_131_600,
            DAMPING_NUM == 2,
            DAMPING_DEN == 5,
            VEL_LIMIT == 25_000_000,
    ;
    assert(abs((v.y + t.1) * (DAMPING_NUM as int)) <= VEL_LIMIT * (DAMPING_DEN as int))
        by (nonlinear_arith)
        requires
            abs(v.y + t.1) <= 56_131_600,
            DAMPING_NUM == 2,
            DAMPING_DEN == 5,
            VEL_LIMIT == 25_000_000,
    ;
    lemma_tz_div_le((v.x + t.0) * (DAMPING_NUM as int), DAMPING_DEN as int, VEL_LIMIT as int);
    lemma_tz_div_le((v.y + t.1) * (DAMPING_NUM as int), DAMPING_DEN as int, VEL_LIMIT as int);
}

/// Computes one particle's stepped position and velocity from last tick's
/// state. Pure with respect to `s`; independent across particles of one
/// class, which is what allows parallel evaluation.
pub fn update_particle(s: &Simulation, c1: usize, p1: usize, dt_ms: u64) -> (r: (Vec2F, Vec2F))
    requires
        s.wf(),
        c1 < s.shared.class_count,
        p1 < s.shared.particle_counts@[c1 as int],
        dt_ms <= 1000,
    ensures
        r.0 == stepped_pos(*s, c1 as int, p1 as int, dt_ms as int),
        r.1 == stepped_vel(*s, c1 as int, p1 as int),
        r.0.bounded(POS_LIMIT as int),
        r.1.bounded(VEL_LIMIT as int),
{
    let ghost c1i = c1 as int;
    let ghost p1i = p1 as int;
    let pos = s.particle_positions[c1 * MAX_PARTICLE_COUNT + p1];
    let vel = s.particle_velocities[c1 * MAX_PARTICLE_COUNT + p1];
    let mut accx: i64 = 0;
    let mut accy: i64 = 0;
    let class_count = s.shared.class_count;
    let mut c2: usize = 0;
    proof {
        assert(class_dv(*s, c1i, p1i, 0) == (0int, 0int));
    }
    while c2 < class_count
        invariant
            s.wf(),
            c1 < s.shared.class_count <= MAX_CLASSES,
            p1 < s.shared.particle_counts@[c1 as int],
            class_count == s.shared.class_count,
            c1i == c1 as int,
            p1i == p1 as int,
            c2 <= class_count,
            pos == s.pos_at(c1i, p1i),
            vel == s.vel_at(c1i, p1i),
            accx == class_dv(*s, c1i, p1i, c2 as int).0,
            accy == class_dv(*s, c1i, p1i, c2 as int).1,
            abs(accx as int) <= PAIR_SUM_BOUND,
            abs(accy as int) <= PAIR_SUM_BOUND,
        decreases class_count - c2,
    {
        let param = s.shared.param_matrix.get(c1, c2);
        let force: i64 = -param.force * FORCE_FACTOR_FP;
        let radius_fp: i64 = param.radius * FP_SCALE;
        proof {
            assert(s.shared.param_matrix.at(c1i, c2 as int).wf());
            lemma_pair_term_bound(*s, c1i, c2 as int);
            lemma_class_dv_bound(*s, c1i, p1i, c2 as int);
        }
        let count = s.shared.particle_counts[c2];
        let mut p2: usize = 0;
        let mut sx: i64 = 0;
        let mut sy: i64 = 0;
        proof {
            assert(pair_dv(*s, c1i, p1i, c2 as int, 0) == (0int, 0int));
        }
        while p2 < count
            invariant
                s.wf(),
                c1 < s.shared.class_count <= MAX_CLASSES,
                p1 < s.shared.particle_counts@[c1 as int],
                c2 < s.shared.class_count,
                c1i == c1 as int,
                p1i == p1 as int,
                count == s.shared.particle_counts@[c2 as int],
                p2 <= count,
                pos == s.pos_at(c1i, p1i),
                force == pair_force(*s, c1i, c2 as int),
                radius_fp == pair_radius_fp(*s, c1i, c2 as int),
                sx == pair_dv(*s, c1i, p1i, c2 as int, p2 as int).0,
                sy == pair_dv(*s, c1i, p1i, c2 as int, p2 as int).1,
                abs(sx as int) <= p2 * PAIR_TERM_BOUND,
                abs(sy as int) <= p2 * PAIR_TERM_BOUND,
            decreases count - p2,
        {
            let other = s.particle_positions[c2 * MAX_PARTICLE_COUNT + p2];
            proof {
                assert(other == s.pos_at(c2 as int, p2 as int));
                assert(other.bounded(POS_LIMIT as int));
                assert(pos.bounded(POS_LIMIT as int));
                lemma_pair_term_bound(*s, c1i, c2 as int);
            }
            let d = Vec2F { x: other.x - pos.x, y: other.y - pos.y };
            let k = get_partial_velocity(d, radius_fp, force);
            proof {
                assert((p2 + 1) * PAIR_TERM_BOUND == p2 * PAIR_TERM_BOUND + PAIR_TERM_BOUND)
                    by (nonlinear_arith);
                assert(p2 * PAIR_TERM_BOUND <= 1199 * PAIR_TERM_BOUND) by (nonlinear_arith)
                    requires
                        0 <= p2 <= 1199,
                        PAIR_TERM_BOUND > 0,
                ;
            }
            sx = sx + k.x;
            sy = sy + k.y;
            p2 = p2 + 1;
        }
        proof {
            lemma_pair_dv_bound(*s, c1i, p1i, c2 as int, count as int);
            lemma_class_dv_bound(*s, c1i, p1i, (c2 + 1) as int);
            assert(class_dv(*s, c1i, p1i, (c2 + 1) as int).0 == class_dv(
                *s,
                c1i,
                p1i,
                c2 as int,
            ).0 + pair_dv(*s, c1i, p1i, c2 as int, s.count_at(c2 as int)).0);
        }
        accx = accx + sx;
        accy = accy + sy;
        c2 = c2 + 1;
    }
    // Boundary spring.
    proof {
        assert(pos.x * pos.x >= 0 && pos.y * pos.y >= 0 && pos.x * pos.x + pos.y * pos.y <= 2
            * POS_LIMIT * POS_LIMIT) by (nonlinear_arith)
            requires
                abs(pos.x as int) <= POS_LIMIT,
                abs(pos.y as int) <= POS_LIMIT,
        ;
    }
    let sq: u64 = (pos.x * pos.x + pos.y * pos.y) as u64;
    let rad: u64 = isqrt(sq);
    proof {
        assert(rad as int <= 1_414_213_563) by (nonlinear_arith)
            requires
                (rad as int) * (rad as int) <= 2 * POS_LIMIT * POS_LIMIT,
                rad >= 0,
                POS_LIMIT == 1_000_000_000,
        ;
        lemma_component_le_dist(pos.x as int, pos.y as int);
        lemma_border_dv_bound(*s, c1i, p1i);
    }
    let rad: i64 = rad as i64;
    let wr_fp: i64 = s.shared.world_radius * FP_SCALE;
    let mut bx: i64 = 0;
    let mut by: i64 = 0;
    if rad >= wr_fp && rad > 0 {
        let mag: i64 = div_tz(BORDER_FORCE_FP * (rad - wr_fp), FP_SCALE);
        proof {
            lemma_tz_div_le(BORDER_FORCE_FP * (rad - wr_fp), FP_SCALE as int, 28_290_000);
            assert(abs(BORDER_FORCE_FP * (rad - wr_fp)) <= 28_290_000 * (FP_SCALE as int))
                by (nonlinear_arith)
                requires
                    0 <= rad - wr_fp <= 1_414_213_563,
                    BORDER_FORCE_FP == 20,
                    FP_SCALE == 1000,
            ;
            assert(abs(-pos.x * mag) <= 28_290_000 * 1_414_213_563 && abs(-pos.y * mag)
                <= 28_290_000 * 1_414_213_563) by (nonlinear_arith)
                requires
                    abs(pos.x as int) <= 1_414_213_563,
                    abs(pos.y as int) <= 1_414_213_563,
                    abs(mag as int) <= 28_290_000,
            ;
        }
        bx = div_tz(-pos.x * mag, rad);
        by = div_tz(-pos.y * mag, rad);
        proof {
            assert(bx == border_dv(*s, c1i, p1i).0 && by == border_dv(*s, c1i, p1i).1);
        }
    }
    proof {
        assert((bx as int, by as int) == border_dv(*s, c1i, p1i));
        lemma_class_dv_bound(*s, c1i, p1i, s.shared.class_count as int);
        lemma_new_vel_bounded(*s, c1i, p1i);
    }
    let tx: i64 = accx + bx;
    let ty: i64 = accy + by;
    let nvx: i64 = div_tz((vel.x + tx) * DAMPING_NUM, DAMPING_DEN);
    let nvy: i64 = div_tz((vel.y + ty) * DAMPING_NUM, DAMPING_DEN);
    proof {
        assert(abs((vel.x + tx) * (DAMPING_NUM as int)) <= 112_263_200 && abs((vel.y + ty) * (
        DAMPING_NUM as int)) <= 112_263_200) by (nonlinear_arith)
            requires
                abs((vel.x + tx) as int) <= 56_131_600,
                abs((vel.y + ty) as int) <= 56_131_600,
                DAMPING_NUM == 2,
        ;
        assert(nvx == new_vel_spec(*s, c1i, p1i).0 && nvy == new_vel_spec(*s, c1i, p1i).1);
        assert(abs(nvx as int) <= VEL_LIMIT && abs(nvy as int) <= VEL_LIMIT);
        assert(abs(nvx * POS_FACTOR * (dt_ms as i64)) <= 1_000_000_000_000 && abs(nvy
            * POS_FACTOR * (dt_ms as i64)) <= 1_000_000_000_000) by (nonlinear_arith)
            requires
                abs(nvx as int) <= 25_000_000,
                abs(nvy as int) <= 25_000_000,
                POS_FACTOR == 40,
                0 <= dt_ms <= 1000,
        ;
    }
    let dx: i64 = div_tz(nvx * POS_FACTOR * (dt_ms as i64), MS_PER_SECOND);
    let dy: i64 = div_tz(nvy * POS_FACTOR * (dt_ms as i64), MS_PER_SECOND);
    let npx: i64 = clamp_i64(pos.x + dx, -POS_LIMIT, POS_LIMIT);
    let npy: i64 = clamp_i64(pos.y + dy, -POS_LIMIT, POS_LIMIT);
    (Vec2F { x: npx, y: npy }, Vec2F { x: nvx, y: nvy })
}

/// Relies on rayon: a parallel iterator over the index range `0..n`, mapped
/// and collected into a `Vec`, yields the closure's per-index results in
/// index order; the closure only calls the verified `update_particle`.
#[verifier::external_body]
fn par_update_class(s: &Simulation, c1: usize, n: usize, dt_ms: u64) -> (r: Vec<(Vec2F, Vec2F)>)
    requires
        s.wf(),
        c1 < s.shared.class_count,
        n <= s.shared.particle_counts@[c1 as int],
        dt_ms <= 1000,
    ensures
        r@.len() == n,
        forall|p: int|
            0 <= p < n ==> (#[trigger] r@[p]).0 == stepped_pos(*s, c1 as int, p, dt_ms as int)
                && r@[p].1 == stepped_vel(*s, c1 as int, p) && r@[p].0.bounded(POS_LIMIT as int)
                && r@[p].1.bounded(VEL_LIMIT as int),
{
    (0..n).into_par_iter().map(|p1| update_particle(s, c1, p1, dt_ms)).collect()
}

impl Simulation {
    /// One tick of the integrator: for every active particle, accumulate
    /// every active class's kernel contributions and the boundary term over
    /// last tick's positions, damp the velocity, and move. All updates are
    /// computed from the pre-step snapshot, staged, and then committed, so
    /// no particle observes a partially updated position of the same step.
    /// Inert slots and the configuration are untouched.
    pub fn move_particles(&mut self, dt_ms: u64)
        requires
            old(self).wf(),
            dt_ms <= 1000,
        ensures
            final(self).wf(),
            final(self).shared == old(self).shared,
            final(self).particle_positions@.len() == old(self).particle_positions@.len(),
            final(self).particle_velocities@.len() == old(self).particle_velocities@.len(),
            forall|c: int, p: int|
                0 <= c < old(self).shared.class_count && 0 <= p < old(self).count_at(c)
                    ==> #[trigger] final(self).pos_at(c, p) == stepped_pos(
                    *old(self),
                    c,
                    p,
                    dt_ms as int,
                ),
            forall|c: int, p: int|
                0 <= c < old(self).shared.class_count && 0 <= p < old(self).count_at(c)
                    ==> #[trigger] final(self).vel_at(c, p) == stepped_vel(*old(self), c, p),
            forall|c: int, p: int|
                0 <= c < MAX_CLASSES && 0 <= p < MAX_PARTICLE_COUNT && !(c < old(
                    self,
                ).shared.class_count && p < old(self).count_at(c))
                    ==> #[trigger] final(self).pos_at(c, p) == old(self).pos_at(c, p),
            forall|c: int, p: int|
                0 <= c < MAX_CLASSES && 0 <= p < MAX_PARTICLE_COUNT && !(c < old(
                    self,
                ).shared.class_count && p < old(self).count_at(c))
                    ==> #[trigger] final(self).vel_at(c, p) == old(self).vel_at(c, p),
    {
        let ghost s0: Simulation = *self;
        let class_count = self.shared.class_count;
        let mut staged: Vec<Vec<(Vec2F, Vec2F)>> = Vec::new();
        let mut c1: usize = 0;
        while c1 < class_count
            invariant
                *self == s0,
                s0.wf(),
                dt_ms <= 1000,
                class_count == self.shared.class_count,
                c1 <= class_count,
                staged@.len() == c1,
                forall|c: int| 0 <= c < c1 ==> (#[trigger] staged@[c])@.len() == s0.count_at(c),
                forall|c: int, p: int|
                    0 <= c < c1 && 0 <= p < s0.count_at(c) ==> (#[trigger] staged@[c]@[p]).0
                        == stepped_pos(s0, c, p, dt_ms as int) && staged@[c]@[p].1
                        == stepped_vel(s0, c, p) && staged@[c]@[p].0.bounded(POS_LIMIT as int)
                        && staged@[c]@[p].1.bounded(VEL_LIMIT as int),
            decreases class_count - c1,
        {
            let n = self.shared.particle_counts[c1];
            let row = par_update_class(self, c1, n, dt_ms);
            staged.push(row);
            c1 = c1 + 1;
        }
        let mut c1: usize = 0;
        while c1 < class_count
            invariant
                s0.wf(),
                self.wf(),
                self.shared == s0.shared,
                class_count == self.shared.class_count,
                c1 <= class_count,
                staged@.len() == class_count,
                self.particle_positions@.len() == s0.particle_positions@.len(),
                self.particle_velocities@.len() == s0.particle_velocities@.len(),
                forall|c: int| 0 <= c < class_count ==> (#[trigger] staged@[c])@.len()
                    == s0.count_at(c),
                forall|c: int, p: int|
                    0 <= c < class_count && 0 <= p < s0.count_at(c) ==> (
                    #[trigger] staged@[c]@[p]).0 == stepped_pos(s0, c, p, dt_ms as int)
                        && staged@[c]@[p].1 == stepped_vel(s0, c, p)
                        && staged@[c]@[p].0.bounded(POS_LIMIT as int)
                        && staged@[c]@[p].1.bounded(VEL_LIMIT as int),
                forall|c: int, p: int|
                    0 <= c < c1 && 0 <= p < s0.count_at(c) ==> #[trigger] self.pos_at(c, p)
                        == stepped_pos(s0, c, p, dt_ms as int),
                forall|c: int, p: int|
                    0 <= c < c1 && 0 <= p < s0.count_at(c) ==> #[trigger] self.vel_at(c, p)
                        == stepped_vel(s0, c, p),
                forall|c: int, p: int|
                    0 <= c < MAX_CLASSES && 0 <= p < MAX_PARTICLE_COUNT && !(c < c1 && p
                        < s0.count_at(c)) ==> #[trigger] self.pos_at(c, p) == s0.pos_at(c, p),
                forall|c: int, p: int|
                    0 <= c < MAX_CLASSES && 0 <= p < MAX_PARTICLE_COUNT && !(c < c1 && p
                        < s0.count_at(c)) ==> #[trigger] self.vel_at(c, p) == s0.vel_at(c, p),
            decreases class_count - c1,
        {
            let row_len = staged[c1].len();
            let mut p1: usize = 0;
            while p1 < row_len
                invariant
                    s0.wf(),
                    self.wf(),
                    self.shared == s0.shared,
                    class_count == self.shared.class_count,
                    c1 < class_count,
                    staged@.len() == class_count,
                    row_len == s0.count_at(c1 as int),
                    p1 <= row_len,
                    self.particle_positions@.len() == s0.particle_positions@.len(),
                    self.particle_velocities@.len() == s0.particle_velocities@.len(),
                    forall|c: int| 0 <= c < class_count ==> (#[trigger] staged@[c])@.len()
                        == s0.count_at(c),
                    forall|c: int, p: int|
                        0 <= c < class_count && 0 <= p < s0.count_at(c) ==> (
                        #[trigger] staged@[c]@[p]).0 == stepped_pos(s0, c, p, dt_ms as int)
                            && staged@[c]@[p].1 == stepped_vel(s0, c, p)
                            && staged@[c]@[p].0.bounded(POS_LIMIT as int)
                            && staged@[c]@[p].1.bounded(VEL_LIMIT as int),
                    forall|c: int, p: int|
                        0 <= c < c1 && 0 <= p < s0.count_at(c) ==> #[trigger] self.pos_at(c, p)
                            == stepped_pos(s0, c, p, dt_ms as int),
                    forall|c: int, p: int|
                        0 <= c < c1 && 0 <= p < s0.count_at(c) ==> #[trigger] self.vel_at(c, p)
                            == stepped_vel(s0, c, p),
                    forall|p: int|
                        0 <= p < p1 ==> #[trigger] self.pos_at(c1 as int, p) == stepped_pos(
                            s0,
                            c1 as int,
                            p,
                            dt_ms as int,
                        ),
                    forall|p: int|
                        0 <= p < p1 ==> #[trigger] self.vel_at(c1 as int, p) == stepped_vel(
                            s0,
                            c1 as int,
                            p,
                        ),
                    forall|c: int, p: int|
                        0 <= c < MAX_CLASSES && 0 <= p < MAX_PARTICLE_COUNT && !(c < c1 && p
                            < s0.count_at(c)) && !(c == c1 && p < p1)
                            ==> #[trigger] self.pos_at(c, p) == s0.pos_at(c, p),
                    forall|c: int, p: int|
                        0 <= c < MAX_CLASSES && 0 <= p < MAX_PARTICLE_COUNT && !(c < c1 && p
                            < s0.count_at(c)) && !(c == c1 && p < p1)
                            ==> #[trigger] self.vel_at(c, p) == s0.vel_at(c, p),
                decreases row_len - p1,
            {
                let pair = staged[c1][p1];
                let idx: usize = c1 * MAX_PARTICLE_COUNT + p1;
                proof {
                    lemma_slot_injective();
                    assert(idx == slot(c1 as int, p1 as int));
                    assert(idx < self.particle_positions@.len());
                }
                let ghost sp: Simulation = *self;
                self.particle_positions[idx] = pair.0;
                self.particle_velocities[idx] = pair.1;
                proof {
                    assert forall|c: int, p: int|
                        0 <= c < MAX_CLASSES && 0 <= p < MAX_PARTICLE_COUNT && !(c == c1 && p
                            == p1) implies #[trigger] self.pos_at(c, p) == sp.pos_at(c, p)
                        && #[trigger] self.vel_at(c, p) == sp.vel_at(c, p) by {
                        assert(slot(c1 as int, p1 as int) == idx);
                        assert(slot(c, p) != idx);
                    }
                    assert(self.pos_at(c1 as int, p1 as int) == pair.0);
                    assert(self.vel_at(c1 as int, p1 as int) == pair.1);
                    assert forall|k: int| 0 <= k < self.particle_positions@.len()
                        implies (#[trigger] self.particle_positions@[k]).bounded(
                        POS_LIMIT as int,
                    ) by {
                        if k != idx {
                            assert(self.particle_positions@[k] == sp.particle_positions@[k]);
                        }
                    }
                    assert forall|k: int| 0 <= k < self.particle_velocities@.len()
                        implies (#[trigger] self.particle_velocities@[k]).bounded(
                        VEL_LIMIT as int,
                    ) by {
                        if k != idx {
                            assert(self.particle_velocities@[k] == sp.particle_velocities@[k]);
                        }
                    }
                    assert forall|c: int, p: int|
                        0 <= c < c1 && 0 <= p < s0.count_at(c)
                        implies #[trigger] self.pos_at(c, p) == stepped_pos(
                        s0,
                        c,
                        p,
                        dt_ms as int,
                    ) by {
                        assert(sp.pos_at(c, p) == stepped_pos(s0, c, p, dt_ms as int));
                    }
                    assert forall|c: int, p: int|
                        0 <= c < c1 && 0 <= p < s0.count_at(c)
                        implies #[trigger] self.vel_at(c, p) == stepped_vel(s0, c, p) by {
                        assert(sp.vel_at(c, p) == stepped_vel(s0, c, p));
                    }
                    assert forall|p: int|
                        0 <= p <= p1 implies #[trigger] self.pos_at(c1 as int, p)
                        == stepped_pos(s0, c1 as int, p, dt_ms as int) by {
                        if p < p1 {
                            assert(sp.pos_at(c1 as int, p) == stepped_pos(
                                s0,
                                c1 as int,
                                p,
                                dt_ms as int,
                            ));
                        }
                    }
                    assert forall|p: int|
                        0 <= p <= p1 implies #[trigger] self.vel_at(c1 as int, p)
                        == stepped_vel(s0, c1 as int, p) by {
                        if p < p1 {
                            assert(sp.vel_at(c1 as int, p) == stepped_vel(s0, c1 as int, p));
                        }
                    }
                    assert forall|c: int, p: int|
                        0 <= c < MAX_CLASSES && 0 <= p < MAX_PARTICLE_COUNT && !(c < c1 && p
                            < s0.count_at(c)) && !(c == c1 && p <= p1)
                        implies #[trigger] self.pos_at(c, p) == s0.pos_at(c, p) by {
                        assert(sp.pos_at(c, p) == s0.pos_at(c, p));
                    }
                    assert forall|c: int, p: int|
                        0 <= c < MAX_CLASSES && 0 <= p < MAX_PARTICLE_COUNT && !(c < c1 && p
                            < s0.count_at(c)) && !(c == c1 && p <= p1)
                        implies #[trigger] self.vel_at(c, p) == s0.vel_at(c, p) by {
                        assert(sp.vel_at(c, p) == s0.vel_at(c, p));
                    }
                }
                p1 = p1 + 1;
            }
            c1 = c1 + 1;
        }
    }
}

/// A position within the spawn disk around the origin.
pub open spec fn in_spawn_disk(v: Vec2F) -> bool {
    (v.x as int) * (v.x as int) + (v.y as int) * (v.y as int) <= (SPAWN_AREA_RADIUS_FP as int)
        * (SPAWN_AREA_RADIUS_FP as int)
}

/// What a spawn does: the configuration is untouched, every active particle
/// sits somewhere in the spawn disk with zero velocity, and inert slots are
/// unchanged.
pub open spec fn spawn_rel(a: Simulation, b: Simulation) -> bool {
    &&& b.shared == a.shared
    &&& b.particle_positions@.len() == a.particle_positions@.len()
    &&& b.particle_velocities@.len() == a.particle_velocities@.len()
    &&& forall|c: int, p: int|
        0 <= c < a.shared.class_count && 0 <= p < a.count_at(c) ==> in_spawn_disk(
            #[trigger] b.pos_at(c, p),
        )
    &&& forall|c: int, p: int|
        0 <= c < a.shared.class_count && 0 <= p < a.count_at(c) ==> #[trigger] b.vel_at(c, p)
            == (Vec2F { x: 0, y: 0 })
    &&& forall|c: int, p: int|
        0 <= c < MAX_CLASSES && 0 <= p < MAX_PARTICLE_COUNT && !(c < a.shared.class_count && p
            < a.count_at(c)) ==> #[trigger] b.pos_at(c, p) == a.pos_at(c, p)
    &&& forall|c: int, p: int|
        0 <= c < MAX_CLASSES && 0 <= p < MAX_PARTICLE_COUNT && !(c < a.shared.class_count && p
            < a.count_at(c)) ==> #[trigger] b.vel_at(c, p) == a.vel_at(c, p)
}

/// One random position in the spawn disk, from the system entropy source
/// (kept apart from the seed-driven derivation): points are drawn uniformly
/// in the enclosing square until one falls inside the disk.
fn draw_spawn_position() -> (r: Vec2F)
    ensures
        in_spawn_disk(r),
        r.bounded(POS_LIMIT as int),
{
    let mut x: i64 = 0;
    let mut y: i64 = 0;
    let mut found = false;
    let mut tries: usize = 0;
    while tries < 16
        invariant
            -SPAWN_AREA_RADIUS_FP <= x <= SPAWN_AREA_RADIUS_FP,
            -SPAWN_AREA_RADIUS_FP <= y <= SPAWN_AREA_RADIUS_FP,
            in_spawn_disk(Vec2F { x, y }),
        decreases 16 - tries,
    {
        if !found {
            let cx: i64 = (entropy_in(0, 80000) as i64) - SPAWN_AREA_RADIUS_FP;
            let cy: i64 = (entropy_in(0, 80000) as i64) - SPAWN_AREA_RADIUS_FP;
            proof {
                assert(-3_200_000_000 <= cx * cx && cx * cx <= 3_200_000_000
                    && -3_200_000_000 <= cy * cy && cy * cy <= 3_200_000_000)
                    by (nonlinear_arith)
                    requires
                        -40000 <= cx <= 40000,
                        -40000 <= cy <= 40000,
                ;
            }
            if cx * cx + cy * cy <= SPAWN_AREA_RADIUS_FP * SPAWN_AREA_RADIUS_FP {
                x = cx;
                y = cy;
                found = true;
            }
        }
        tries = tries + 1;
    }
    Vec2F { x, y }
}

impl Simulation {
    /// A fresh engine: the default configuration and all particle slots
    /// zeroed.
    pub fn new() -> (r: Simulation)
        ensures
            r.wf(),
            r.shared.is_default(),
            forall|k: int|
                0 <= k < r.particle_positions@.len() ==> #[trigger] r.particle_positions@[k]
                    == (Vec2F { x: 0, y: 0 }),
            forall|k: int|
                0 <= k < r.particle_velocities@.len() ==> #[trigger] r.particle_velocities@[k]
                    == (Vec2F { x: 0, y: 0 }),
    {
        let total: usize = MAX_CLASSES * MAX_PARTICLE_COUNT;
        let mut particle_positions: Vec<Vec2F> = Vec::new();
        let mut particle_velocities: Vec<Vec2F> = Vec::new();
        let mut k: usize = 0;
        while k < total
            invariant
                k <= total,
                particle_positions@.len() == k,
                particle_velocities@.len() == k,
                forall|m: int|
                    0 <= m < k ==> #[trigger] particle_positions@[m] == (Vec2F { x: 0, y: 0 }),
                forall|m: int|
                    0 <= m < k ==> #[trigger] particle_velocities@[m] == (Vec2F { x: 0, y: 0 }),
            decreases total - k,
        {
            particle_positions.push(Vec2F { x: 0, y: 0 });
            particle_velocities.push(Vec2F { x: 0, y: 0 });
            k = k + 1;
        }
        Simulation { shared: SharedState::new(), particle_positions, particle_velocities }
    }

    /// Start advancing the integrator.
    pub fn play(&mut self)
        requires
            old(self).wf(),
        ensures
            final(self).wf(),
            *final(self) == (Simulation {
                shared: (SharedState {
                    simulation_state: SimulationState::Running,
                    ..old(self).shared
                }),
                ..*old(self)
            }),
    {
        self.shared.simulation_state = SimulationState::Running;
    }

    /// Stop advancing the integrator, keeping everything else as it is.
    pub fn pause(&mut self)
        requires
            old(self).wf(),
        ensures
            final(self).wf(),
            *final(self) == (Simulation {
                shared: (SharedState {
                    simulation_state: SimulationState::Paused,
                    ..old(self).shared
                }),
                ..*old(self)
            }),
    {
        self.shared.simulation_state = SimulationState::Paused;
    }

    /// Zeroes the positions of all active particles.
    fn reset_particles(&mut self)
        requires
            old(self).wf(),
        ensures
            final(self).wf(),
            final(self).shared == old(self).shared,
            final(self).particle_positions@.len() == old(self).particle_positions@.len(),
            final(self).particle_velocities == old(self).particle_velocities,
            forall|c: int, p: int|
                0 <= c < old(self).shared.class_count && 0 <= p < old(self).count_at(c)
                    ==> #[trigger] final(self).pos_at(c, p) == (Vec2F { x: 0, y: 0 }),
            forall|c: int, p: int|
                0 <= c < MAX_CLASSES && 0 <= p < MAX_PARTICLE_COUNT && !(c < old(
                    self,
                ).shared.class_count && p < old(self).count_at(c))
                    ==> #[trigger] final(self).pos_at(c, p) == old(self).pos_at(c, p),
            (forall|a: int|
                0 <= a < old(self).shared.class_count ==> #[trigger] old(self).count_at(a)
                    == 0) ==> final(self).particle_positions == old(self).particle_positions,
    {
        let ghost s0: Simulation = *self;
        let class_count = self.shared.class_count;
        let mut c: usize = 0;
        while c < class_count
            invariant
                s0.wf(),
                self.wf(),
                self.shared == s0.shared,
                class_count == self.shared.class_count,
                c <= class_count,
                self.particle_positions@.len() == s0.particle_positions@.len(),
                self.particle_velocities == s0.particle_velocities,
                (forall|a: int|
                    0 <= a < s0.shared.class_count ==> #[trigger] s0.count_at(a) == 0)
                    ==> self.particle_positions == s0.particle_positions,
                forall|a: int, p: int|
                    0 <= a < c && 0 <= p < s0.count_at(a) ==> #[trigger] self.pos_at(a, p)
                        == (Vec2F { x: 0, y: 0 }),
                forall|a: int, p: int|
                    0 <= a < MAX_CLASSES && 0 <= p < MAX_PARTICLE_COUNT && !(a < c && p
                        < s0.count_at(a)) ==> #[trigger] self.pos_at(a, p) == s0.pos_at(a, p),
            decreases class_count - c,
        {
            let count = self.shared.particle_counts[c];
            let mut p: usize = 0;
            while p < count
                invariant
                    s0.wf(),
                    self.wf(),
                    self.shared == s0.shared,
                    class_count == self.shared.class_count,
                    c < class_count,
                    count == s0.count_at(c as int),
                    p <= count,
                    self.particle_positions@.len() == s0.particle_positions@.len(),
                    self.particle_velocities == s0.particle_velocities,
                    (forall|a: int|
                        0 <= a < s0.shared.class_count ==> #[trigger] s0.count_at(a) == 0)
                        ==> self.particle_positions == s0.particle_positions,
                    forall|a: int, q: int|
                        0 <= a < c && 0 <= q < s0.count_at(a) ==> #[trigger] self.pos_at(a, q)
                            == (Vec2F { x: 0, y: 0 }),
                    forall|q: int|
                        0 <= q < p ==> #[trigger] self.pos_at(c as int, q) == (Vec2F {
                            x: 0,
                            y: 0,
                        }),
                    forall|a: int, q: int|
                        0 <= a < MAX_CLASSES && 0 <= q < MAX_PARTICLE_COUNT && !(a < c && q
                            < s0.count_at(a)) && !(a == c && q < p) ==> #[trigger] self.pos_at(
                            a,
                            q,
                        ) == s0.pos_at(a, q),
                decreases count - p,
            {
                let idx: usize = c * MAX_PARTICLE_COUNT + p;
                proof {
                    lemma_slot_injective();
                    assert(idx == slot(c as int, p as int));
                    assert(idx < self.particle_positions@.len());
                }
                let ghost sp: Simulation = *self;
                self.particle_positions[idx] = Vec2F { x: 0, y: 0 };
                proof {
                    assert(self.pos_at(c as int, p as int) == (Vec2F { x: 0, y: 0 }));
                    assert forall|k: int| 0 <= k < self.particle_positions@.len()
                        implies (#[trigger] self.particle_positions@[k]).bounded(
                        POS_LIMIT as int,
                    ) by {
                        if k != idx {
                            assert(self.particle_positions@[k] == sp.particle_positions@[k]);
                        }
                    }
                    assert forall|a: int, q: int|
                        0 <= a < MAX_CLASSES && 0 <= q < MAX_PARTICLE_COUNT && !(a == c && q
                            == p) implies #[trigger] self.pos_at(a, q) == sp.pos_at(a, q) by {
                        assert(slot(c as int, p as int) == idx);
                        assert(slot(a, q) != idx);
                    }
                    assert forall|a: int, q: int|
                        0 <= a < c && 0 <= q < s0.count_at(a)
                        implies #[trigger] self.pos_at(a, q) == (Vec2F { x: 0, y: 0 }) by {
                        assert(sp.pos_at(a, q) == (Vec2F { x: 0, y: 0 }));
                    }
                    assert forall|q: int|
                        0 <= q <= p implies #[trigger] self.pos_at(c as int, q) == (Vec2F {
                            x: 0,
                            y: 0,
                        }) by {
                        if q < p {
                            assert(sp.pos_at(c as int, q) == (Vec2F { x: 0, y: 0 }));
                        }
                    }
                    assert forall|a: int, q: int|
                        0 <= a < MAX_CLASSES && 0 <= q < MAX_PARTICLE_COUNT && !(a < c && q
                            < s0.count_at(a)) && !(a == c && q <= p)
                        implies #[trigger] self.pos_at(a, q) == s0.pos_at(a, q) by {
                        assert(sp.pos_at(a, q) == s0.pos_at(a, q));
                    }
                }
                p = p + 1;
            }
            c = c + 1;
        }
    }

    /// Restores the documented default configuration: stopped, default
    /// world radius, all classes enabled, no active particles, and every
    /// matrix entry at the default force and radius. Particle slots keep
    /// their contents; with every count at zero they are all inert.
    pub fn reset(&mut self)
        requires
            old(self).wf(),
        ensures
            final(self).wf(),
            final(self).shared.is_default(),
            final(self).shared.cfg() == SharedState::default_cfg(),
            final(self).particle_positions == old(self).particle_positions,
            final(self).particle_velocities == old(self).particle_velocities,
    {
        self.shared.reset_to_defaults();
        self.reset_particles();
    }

    /// Zeroes all active slots, then draws a fresh random position in the
    /// spawn disk for each active particle and resets its velocity. The
    /// configuration, including the parameter matrix, is untouched.
    pub fn spawn(&mut self)
        requires
            old(self).wf(),
        ensures
            final(self).wf(),
            spawn_rel(*old(self), *final(self)),
    {
        let ghost s0: Simulation = *self;
        self.reset_particles();
        let class_count = self.shared.class_count;
        let mut c: usize = 0;
        while c < class_count
            invariant
                s0.wf(),
                self.wf(),
                self.shared == s0.shared,
                class_count == self.shared.class_count,
                c <= class_count,
                self.particle_positions@.len() == s0.particle_positions@.len(),
                self.particle_velocities@.len() == s0.particle_velocities@.len(),
                forall|a: int, q: int|
                    0 <= a < c && 0 <= q < s0.count_at(a) ==> in_spawn_disk(
                        #[trigger] self.pos_at(a, q),
                    ),
                forall|a: int, q: int|
                    0 <= a < c && 0 <= q < s0.count_at(a) ==> #[trigger] self.vel_at(a, q)
                        == (Vec2F { x: 0, y: 0 }),
                forall|a: int, q: int|
                    0 <= a < MAX_CLASSES && 0 <= q < MAX_PARTICLE_COUNT && !(a
                        < s0.shared.class_count && q < s0.count_at(a))
                        ==> #[trigger] self.pos_at(a, q) == s0.pos_at(a, q),
                forall|a: int, q: int|
                    0 <= a < MAX_CLASSES && 0 <= q < MAX_PARTICLE_COUNT && !(a < c && q
                        < s0.count_at(a)) ==> #[trigger] self.vel_at(a, q) == s0.vel_at(a, q),
            decreases class_count - c,
        {
            let count = self.shared.particle_counts[c];
            let mut p: usize = 0;
            while p < count
                invariant
                    s0.wf(),
                    self.wf(),
                    self.shared == s0.shared,
                    class_count == self.shared.class_count,
                    c < class_count,
                    count == s0.count_at(c as int),
                    p <= count,
                    self.particle_positions@.len() == s0.particle_positions@.len(),
                    self.particle_velocities@.len() == s0.particle_velocities@.len(),
                    forall|a: int, q: int|
                        0 <= a < c && 0 <= q < s0.count_at(a) ==> in_spawn_disk(
                            #[trigger] self.pos_at(a, q),
                        ),
                    forall|a: int, q: int|
                        0 <= a < c && 0 <= q < s0.count_at(a) ==> #[trigger] self.vel_at(a, q)
                            == (Vec2F { x: 0, y: 0 }),
                    forall|q: int|
                        0 <= q < p ==> in_spawn_disk(#[trigger] self.pos_at(c as int, q)),
                    forall|q: int|
                        0 <= q < p ==> #[trigger] self.vel_at(c as int, q) == (Vec2F {
                            x: 0,
                            y: 0,
                        }),
                    forall|a: int, q: int|
                        0 <= a < MAX_CLASSES && 0 <= q < MAX_PARTICLE_COUNT && !(a
                            < s0.shared.class_count && q < s0.count_at(a))
                            ==> #[trigger] self.pos_at(a, q) == s0.pos_at(a, q),
                    forall|a: int, q: int|
                        0 <= a < MAX_CLASSES && 0 <= q < MAX_PARTICLE_COUNT && !(a < c && q
                            < s0.count_at(a)) && !(a == c && q < p)
                            ==> #[trigger] self.vel_at(a, q) == s0.vel_at(a, q),
                decreases count - p,
            {
                let idx: usize = c * MAX_PARTICLE_COUNT + p;
                proof {
                    lemma_slot_injective();
                    assert(idx == slot(c as int, p as int));
                    assert(idx < self.particle_positions@.len());
                }
                let npos = draw_spawn_position();
                let ghost sp: Simulation = *self;
                self.particle_positions[idx] = npos;
                self.particle_velocities[idx] = Vec2F { x: 0, y: 0 };
                proof {
                    assert(self.pos_at(c as int, p as int) == npos);
                    assert(self.vel_at(c as int, p as int) == (Vec2F { x: 0, y: 0 }));
                    assert forall|a: int, q: int|
                        0 <= a < MAX_CLASSES && 0 <= q < MAX_PARTICLE_COUNT && !(a == c && q
                            == p) implies #[trigger] self.pos_at(a, q) == sp.pos_at(a, q)
                        && #[trigger] self.vel_at(a, q) == sp.vel_at(a, q) by {
                        assert(slot(c as int, p as int) == idx);
                        assert(slot(a, q) != idx);
                    }
                    assert forall|k: int| 0 <= k < self.particle_positions@.len()
                        implies (#[trigger] self.particle_positions@[k]).bounded(
                        POS_LIMIT as int,
                    ) by {
                        if k != idx {
                            assert(self.particle_positions@[k] == sp.particle_positions@[k]);
                        }
                    }
                    assert forall|k: int| 0 <= k < self.particle_velocities@.len()
                        implies (#[trigger] self.particle_velocities@[k]).bounded(
                        VEL_LIMIT as int,
                    ) by {
                        if k != idx {
                            assert(self.particle_velocities@[k] == sp.particle_velocities@[k]);
                        }
                    }
                    assert forall|a: int, q: int|
                        0 <= a < c && 0 <= q < s0.count_at(a) implies in_spawn_disk(
                        #[trigger] self.pos_at(a, q),
                    ) by {
                        assert(in_spawn_disk(sp.pos_at(a, q)));
                    }
                    assert forall|a: int, q: int|
                        0 <= a < c && 0 <= q < s0.count_at(a)
                        implies #[trigger] self.vel_at(a, q) == (Vec2F { x: 0, y: 0 }) by {
                        assert(sp.vel_at(a, q) == (Vec2F { x: 0, y: 0 }));
                    }
                    assert forall|q: int|
                        0 <= q <= p implies in_spawn_disk(#[trigger] self.pos_at(c as int, q)) by {
                        if q < p {
                            assert(in_spawn_disk(sp.pos_at(c as int, q)));
                        }
                    }
                    assert forall|q: int|
                        0 <= q <= p implies #[trigger] self.vel_at(c as int, q) == (Vec2F {
                            x: 0,
                            y: 0,
                        }) by {
                        if q < p {
                            assert(sp.vel_at(c as int, q) == (Vec2F { x: 0, y: 0 }));
                        }
                    }
                    assert forall|a: int, q: int|
                        0 <= a < MAX_CLASSES && 0 <= q < MAX_PARTICLE_COUNT && !(a
                            < s0.shared.class_count && q < s0.count_at(a))
                        implies #[trigger] self.pos_at(a, q) == s0.pos_at(a, q) by {
                        assert(sp.pos_at(a, q) == s0.pos_at(a, q));
                    }
                    assert forall|a: int, q: int|
                        0 <= a < MAX_CLASSES && 0 <= q < MAX_PARTICLE_COUNT && !(a < c && q
                            < s0.count_at(a)) && !(a == c && q <= p)
                        implies #[trigger] self.vel_at(a, q) == s0.vel_at(a, q) by {
                        assert(sp.vel_at(a, q) == s0.vel_at(a, q));
                    }
                }
                p = p + 1;
            }
            c = c + 1;
        }
    }
}

/// The state a step reads when commands have been applied first: the
/// updated configuration over the pre-update particle tables.
pub open spec fn mid_state(pre: Simulation, post: Simulation) -> Simulation {
    Simulation {
        shared: post.shared,
        particle_positions: pre.particle_positions,
        particle_velocities: pre.particle_velocities,
    }
}

impl Simulation {
    /// Applies one command to the engine state; returns whether it was the
    /// quit command.
    fn apply_event(&mut self, e: UiEvent) -> (quit: bool)
        requires
            old(self).wf(),
        ensures
            final(self).wf(),
            final(self).shared.cfg() == apply_config_event(old(self).shared.cfg(), e),
            quit == (e is Quit),
            final(self).particle_positions@.len() == old(self).particle_positions@.len(),
            final(self).particle_velocities@.len() == old(self).particle_velocities@.len(),
            !(e is Spawn) ==> final(self).particle_positions == old(self).particle_positions
                && final(self).particle_velocities == old(self).particle_velocities,
            e is Spawn ==> spawn_rel(*old(self), *final(self)),
    {
        let ghost ge: UiEvent = e;
        let ghost gcfg: ConfigView = self.shared.cfg();
        match e {
            UiEvent::Play => {
                self.play();
                proof {
                    assert(self.shared.cfg() =~= apply_config_event(gcfg, ge));
                }
                false
            },
            UiEvent::Pause => {
                self.pause();
                proof {
                    assert(self.shared.cfg() =~= apply_config_event(gcfg, ge));
                }
                false
            },
            UiEvent::Reset => {
                self.reset();
                proof {
                    assert(self.shared.cfg() =~= apply_config_event(gcfg, ge));
                }
                false
            },
            UiEvent::Spawn => {
                self.spawn();
                proof {
                    assert(self.shared.cfg() =~= apply_config_event(gcfg, ge));
                }
                false
            },
            UiEvent::Quit => true,
            UiEvent::ParamsUpdate(m) => {
                let mut np: Vec<Param> = Vec::new();
                let mut k: usize = 0;
                while k < MAX_CLASSES * MAX_CLASSES
                    invariant
                        k <= MAX_CLASSES * MAX_CLASSES,
                        np@.len() == k,
                        forall|i: int|
                            0 <= i < k ==> #[trigger] np@[i] == (if 0 <= i < m.params@.len() {
                                clamp_param_spec(m.params@[i])
                            } else {
                                (Param { force: DEFAULT_FORCE, radius: DEFAULT_RADIUS })
                            }),
                    decreases MAX_CLASSES * MAX_CLASSES - k,
                {
                    let v: Param = if k < m.params.len() {
                        let q = m.params[k];
                        Param {
                            force: clamp_i64(q.force, PARAM_MIN, PARAM_MAX),
                            radius: clamp_i64(q.radius, PARAM_MIN, PARAM_MAX),
                        }
                    } else {
                        Param::new(DEFAULT_FORCE, DEFAULT_RADIUS)
                    };
                    np.push(v);
                    k = k + 1;
                }
                self.shared.param_matrix = ParamMatrix { params: np };
                proof {
                    assert(self.shared.cfg().params =~= apply_config_event(gcfg, ge).params);
                    assert(self.shared.cfg() =~= apply_config_event(gcfg, ge));
                }
                false
            },
            UiEvent::ClassCountUpdate(n) => {
                self.shared.class_count = if n > MAX_CLASSES {
                    MAX_CLASSES
                } else {
                    n
                };
                proof {
                    assert(self.shared.cfg() =~= apply_config_event(gcfg, ge));
                }
                false
            },
            UiEvent::ParticleCountsUpdate(cs) => {
                let mut nc: Vec<usize> = Vec::new();
                let mut k: usize = 0;
                while k < MAX_CLASSES
                    invariant
                        k <= MAX_CLASSES,
                        nc@.len() == k,
                        forall|i: int|
                            0 <= i < k ==> #[trigger] nc@[i] as int == (if 0 <= i < cs@.len() {
                                crate::math::spec_min(cs@[i] as int, MAX_PARTICLE_COUNT as int)
                            } else {
                                0
                            }),
                    decreases MAX_CLASSES - k,
                {
                    let v: usize = if k < cs.len() {
                        let x = cs[k];
                        if x > MAX_PARTICLE_COUNT {
                            MAX_PARTICLE_COUNT
                        } else {
                            x
                        }
                    } else {
                        0
                    };
                    nc.push(v);
                    k = k + 1;
                }
                self.shared.particle_counts = nc;
                proof {
                    assert(self.shared.cfg().counts =~= apply_config_event(gcfg, ge).counts);
                    assert(self.shared.cfg() =~= apply_config_event(gcfg, ge));
                }
                false
            },
            UiEvent::WorldRadiusUpdate(w) => {
                self.shared.world_radius = clamp_i64(w, 0, WORLD_RADIUS_LIMIT);
                proof {
                    assert(self.shared.cfg() =~= apply_config_event(gcfg, ge));
                }
                false
            },
        }
    }

    /// One turn of the simulation thread's loop: apply the queued commands
    /// oldest-first (stopping at a quit command), then, if the simulation is
    /// running, advance the integrator by one fixed tick. The caller
    /// publishes a position snapshot when the outcome says particles were
    /// spawned or stepped, and sleeps out the rest of the tick.
    pub fn update(&mut self, events: Vec<UiEvent>) -> (r: UpdateOutcome)
        requires
            old(self).wf(),
        ensures
            final(self).wf(),
            final(self).shared.cfg() == apply_events_view(old(self).shared.cfg(), events@),
            r.quit == events_quit(events@),
            r.spawned == events_spawn(events@),
            r.stepped == (!events_quit(events@) && apply_events_view(
                old(self).shared.cfg(),
                events@,
            ).state is Running),
            !r.spawned && !r.stepped ==> final(self).particle_positions == old(
                self,
            ).particle_positions && final(self).particle_velocities == old(
                self,
            ).particle_velocities,
            !r.spawned && r.stepped ==> forall|c: int, p: int|
                0 <= c < final(self).shared.class_count && 0 <= p < final(self).count_at(c)
                    ==> #[trigger] final(self).pos_at(c, p) == stepped_pos(
                    mid_state(*old(self), *final(self)),
                    c,
                    p,
                    UPDATE_INTERVAL_MS as int,
                ),
            !r.spawned && r.stepped ==> forall|c: int, p: int|
                0 <= c < final(self).shared.class_count && 0 <= p < final(self).count_at(c)
                    ==> #[trigger] final(self).vel_at(c, p) == stepped_vel(
                    mid_state(*old(self), *final(self)),
                    c,
                    p,
                ),
    {
        let ghost cfg0: ConfigView = self.shared.cfg();
        let ghost evs0: Seq<UiEvent> = events@;
        let ghost pre: Simulation = *self;
        let mut events = events;
        let mut quit = false;
        let mut spawned = false;
        while events.len() > 0 && !quit
            invariant
                self.wf(),
                self.particle_positions@.len() == pre.particle_positions@.len(),
                self.particle_velocities@.len() == pre.particle_velocities@.len(),
                !quit ==> apply_events_view(self.shared.cfg(), events@) == apply_events_view(
                    cfg0,
                    evs0,
                ),
                !quit ==> events_quit(events@) == events_quit(evs0),
                !quit ==> (spawned || events_spawn(events@)) == events_spawn(evs0),
                quit ==> self.shared.cfg() == apply_events_view(cfg0, evs0),
                quit ==> events_quit(evs0),
                quit ==> spawned == events_spawn(evs0),
                !spawned ==> self.particle_positions == pre.particle_positions
                    && self.particle_velocities == pre.particle_velocities,
            decreases events@.len(),
        {
            let ghost before: Seq<UiEvent> = events@;
            let ghost gcfg: ConfigView = self.shared.cfg();
            let e = events.remove(0);
            proof {
                assert(events@ =~= before.drop_first());
                assert(e == before[0]);
            }
            let is_spawn = matches!(e, UiEvent::Spawn);
            let q = self.apply_event(e);
            if is_spawn {
                spawned = true;
            }
            if q {
                quit = true;
            }
        }
        let stepped = !quit && matches!(self.shared.simulation_state, SimulationState::Running);
        let ghost smid: Simulation = *self;
        if stepped {
            self.move_particles(UPDATE_INTERVAL_MS);
            proof {
                if !spawned {
                    assert(smid == mid_state(pre, *self));
                }
            }
        }
        UpdateOutcome { quit, spawned, stepped }
    }
}

/// Distinct class/particle index pairs occupy distinct slots of the flat
/// particle tables.
pub proof fn lemma_slot_injective()
    ensures
        forall|c: int, p: int, c2: int, p2: int|
            0 <= c < MAX_CLASSES && 0 <= p < MAX_PARTICLE_COUNT && 0 <= c2 < MAX_CLASSES && 0
                <= p2 < MAX_PARTICLE_COUNT && (c != c2 || p != p2) ==> #[trigger] slot(c, p)
                != #[trigger] slot(c2, p2),
{
    assert forall|c: int, p: int, c2: int, p2: int|
        0 <= c < MAX_CLASSES && 0 <= p < MAX_PARTICLE_COUNT && 0 <= c2 < MAX_CLASSES && 0 <= p2
            < MAX_PARTICLE_COUNT && (c != c2 || p != p2) implies #[trigger] slot(c, p)
        != #[trigger] slot(c2, p2) by {
        assert(slot(c, p) == c * 1200 + p && slot(c2, p2) == c2 * 1200 + p2);
        assert(c * 1200 + p != c2 * 1200 + p2) by (nonlinear_arith)
            requires
                0 <= c < 8,
                0 <= p < 1200,
                0 <= c2 < 8,
                0 <= p2 < 1200,
                c != c2 || p != p2,
        ;
    }
}

} // verus!

verus! {

/// Two particles either coincide or sit at least the close-force range
/// apart.
pub open spec fn close_separated(s: Simulation, c1: int, p1: int, c2: int, p2: int) -> bool {
    let d = dist_fp(
        s.pos_at(c2, p2).x - s.pos_at(c1, p1).x,
        s.pos_at(c2, p2).y - s.pos_at(c1, p1).y,
    );
    d == 0 || d >= RAMP_START_FP
}

/// One kernel term vanishes when the configured force is zero and the two
/// particles either coincide or are beyond the close-force range.
proof fn lemma_kernel_term_zero(dx: int, dy: int, radius: int)
    requires
        dist_fp(dx, dy) == 0 || dist_fp(dx, dy) >= RAMP_START_FP,
    ensures
        kernel_dv_spec(dx, dy, radius, 0) == (0int, 0int),
{
    let r = dist_fp(dx, dy);
    if r != 0 {
        assert(0 * crate::kernel::ramp_num_spec(r) == 0) by (nonlinear_arith);
        assert(tz_div(0, crate::RAMP_DEN as int) == 0);
        assert(crate::kernel::kernel_mag_spec(r, radius, 0) == 0);
        assert(dx * 0 == 0 && dy * 0 == 0) by (nonlinear_arith);
        assert(tz_div(0, r) == 0);
    }
}

proof fn lemma_pair_dv_zero(s: Simulation, c1: int, p1: int, c2: int, n: int)
    requires
        s.wf(),
        0 <= c1 < s.shared.class_count,
        0 <= p1 < s.count_at(c1),
        0 <= c2 < s.shared.class_count,
        0 <= n <= s.count_at(c2),
        pair_force(s, c1, c2) == 0,
        forall|p2: int|
            0 <= p2 < s.count_at(c2) ==> #[trigger] close_separated(s, c1, p1, c2, p2),
    ensures
        pair_dv(s, c1, p1, c2, n) == (0int, 0int),
    decreases n,
{
    if n > 0 {
        lemma_pair_dv_zero(s, c1, p1, c2, n - 1);
        assert(close_separated(s, c1, p1, c2, n - 1));
        lemma_kernel_term_zero(
            s.pos_at(c2, n - 1).x - s.pos_at(c1, p1).x,
            s.pos_at(c2, n - 1).y - s.pos_at(c1, p1).y,
            pair_radius_fp(s, c1, c2),
        );
    }
}

/// With every configured force on the particle's class zero, no other
/// active particle within the close-force range (coincident particles
/// exert nothing), and the particle inside the arena, one tick applies no
/// force at all: the velocity is only damped — it shrinks, never grows —
/// and the position moves by the damped velocity alone.
pub proof fn lemma_zero_forces_only_damp(s: Simulation, c1: int, p1: int)
    requires
        s.wf(),
        0 <= c1 < s.shared.class_count,
        0 <= p1 < s.count_at(c1),
        forall|c2: int|
            0 <= c2 < s.shared.class_count ==> (#[trigger] s.shared.param_matrix.at(
                c1,
                c2,
            )).force == 0,
        forall|c2: int, p2: int|
            0 <= c2 < s.shared.class_count && 0 <= p2 < s.count_at(c2)
                ==> #[trigger] close_separated(s, c1, p1, c2, p2),
        dist_fp(s.pos_at(c1, p1).x as int, s.pos_at(c1, p1).y as int) <= s.shared.world_radius
            * (FP_SCALE as int),
    ensures
        total_dv(s, c1, p1) == (0int, 0int),
        new_vel_spec(s, c1, p1).0 == tz_div(
            s.vel_at(c1, p1).x * (DAMPING_NUM as int),
            DAMPING_DEN as int,
        ),
        new_vel_spec(s, c1, p1).1 == tz_div(
            s.vel_at(c1, p1).y * (DAMPING_NUM as int),
            DAMPING_DEN as int,
        ),
        abs(new_vel_spec(s, c1, p1).0) <= abs(s.vel_at(c1, p1).x as int),
        abs(new_vel_spec(s, c1, p1).1) <= abs(s.vel_at(c1, p1).y as int),
{
    assert forall|m: int| 0 <= m <= s.shared.class_count implies class_dv(s, c1, p1, m) == (
    0int,
    0int,
    ) by {
        lemma_class_dv_zero_rec(s, c1, p1, m);
    }
    let pos = s.pos_at(c1, p1);
    let r = dist_fp(pos.x as int, pos.y as int);
    let wr = s.shared.world_radius * (FP_SCALE as int);
    if r >= wr && r > 0 {
        assert(r == wr);
        assert(BORDER_FORCE_FP * (r - wr) == 0) by (nonlinear_arith)
            requires
                r == wr,
        ;
        assert(tz_div(0, FP_SCALE as int) == 0);
        assert(-pos.x * 0 == 0 && -pos.y * 0 == 0) by (nonlinear_arith);
        assert(tz_div(0, r) == 0);
        assert(border_dv(s, c1, p1) == (0int, 0int));
    }
    let v = s.vel_at(c1, p1);
    crate::math::lemma_tz_div_le(v.x * (DAMPING_NUM as int), DAMPING_DEN as int, abs(
        v.x as int,
    ));
    crate::math::lemma_tz_div_le(v.y * (DAMPING_NUM as int), DAMPING_DEN as int, abs(
        v.y as int,
    ));
    assert(abs(v.x * (DAMPING_NUM as int)) <= abs(v.x as int) * (DAMPING_DEN as int)
        && abs(v.y * (DAMPING_NUM as int)) <= abs(v.y as int) * (DAMPING_DEN as int))
        by (nonlinear_arith)
        requires
            DAMPING_NUM == 2,
            DAMPING_DEN == 5,
    ;
}

proof fn lemma_class_dv_zero_rec(s: Simulation, c1: int, p1: int, m: int)
    requires
        s.wf(),
        0 <= c1 < s.shared.class_count,
        0 <= p1 < s.count_at(c1),
        0 <= m <= s.shared.class_count,
        forall|c2: int|
            0 <= c2 < s.shared.class_count ==> (#[trigger] s.shared.param_matrix.at(
                c1,
                c2,
            )).force == 0,
        forall|c2: int, p2: int|
            0 <= c2 < s.shared.class_count && 0 <= p2 < s.count_at(c2)
                ==> #[trigger] close_separated(s, c1, p1, c2, p2),
    ensures
        class_dv(s, c1, p1, m) == (0int, 0int),
    decreases m,
{
    if m > 0 {
        lemma_class_dv_zero_rec(s, c1, p1, m - 1);
        assert(s.shared.param_matrix.at(c1, m - 1).force == 0);
        assert(pair_force(s, c1, m - 1) == -0 * (FORCE_FACTOR_FP as int));
        assert(-0 * (FORCE_FACTOR_FP as int) == 0) by (nonlinear_arith);
        lemma_pair_dv_zero(s, c1, p1, m - 1, s.count_at(m - 1));
    }
}

proof fn lemma_pair_dv_congruent(
    s1: Simulation,
    s2: Simulation,
    c1: int,
    p1: int,
    c2: int,
    n: int,
)
    requires
        s1.particle_positions@ == s2.particle_positions@,
        pair_force(s1, c1, c2) == pair_force(s2, c1, c2),
        pair_radius_fp(s1, c1, c2) == pair_radius_fp(s2, c1, c2),
    ensures
        pair_dv(s1, c1, p1, c2, n) == pair_dv(s2, c1, p1, c2, n),
    decreases n,
{
    if n > 0 {
        lemma_pair_dv_congruent(s1, s2, c1, p1, c2, n - 1);
    }
}

/// A class with zero particles contributes zero force to every other
/// class: however its matrix row and column read, every particle of every
/// other class gets exactly the same velocity and position update — and
/// the empty class itself has no active slot for a step to touch.
pub proof fn lemma_empty_class_irrelevant(
    s1: Simulation,
    s2: Simulation,
    c0: int,
    c1: int,
    p1: int,
    dt: int,
)
    requires
        s1.wf(),
        s2.wf(),
        0 <= c0 < MAX_CLASSES,
        s1.count_at(c0) == 0,
        s2.shared.world_radius == s1.shared.world_radius,
        s2.shared.class_count == s1.shared.class_count,
        s2.shared.particle_counts@ == s1.shared.particle_counts@,
        s2.particle_positions@ == s1.particle_positions@,
        s2.particle_velocities@ == s1.particle_velocities@,
        forall|i: int, j: int|
            0 <= i < MAX_CLASSES && 0 <= j < MAX_CLASSES && i != c0 && j != c0
                ==> #[trigger] s2.shared.param_matrix.at(i, j) == s1.shared.param_matrix.at(
                i,
                j,
            ),
        0 <= c1 < s1.shared.class_count,
        c1 != c0,
        0 <= p1 < s1.count_at(c1),
    ensures
        new_vel_spec(s2, c1, p1) == new_vel_spec(s1, c1, p1),
        new_pos_spec(s2, c1, p1, dt) == new_pos_spec(s1, c1, p1, dt),
{
    assert forall|m: int| 0 <= m <= s1.shared.class_count implies class_dv(s2, c1, p1, m)
        == class_dv(s1, c1, p1, m) by {
        lemma_class_dv_congruent_rec(s1, s2, c0, c1, p1, m);
    }
    assert(border_dv(s2, c1, p1) == border_dv(s1, c1, p1));
    assert(s2.vel_at(c1, p1) == s1.vel_at(c1, p1));
    assert(s2.pos_at(c1, p1) == s1.pos_at(c1, p1));
}

proof fn lemma_class_dv_congruent_rec(
    s1: Simulation,
    s2: Simulation,
    c0: int,
    c1: int,
    p1: int,
    m: int,
)
    requires
        s1.wf(),
        s2.wf(),
        0 <= c0 < MAX_CLASSES,
        s1.count_at(c0) == 0,
        s2.shared.class_count == s1.shared.class_count,
        s2.shared.particle_counts@ == s1.shared.particle_counts@,
        s2.particle_positions@ == s1.particle_positions@,
        forall|i: int, j: int|
            0 <= i < MAX_CLASSES && 0 <= j < MAX_CLASSES && i != c0 && j != c0
                ==> #[trigger] s2.shared.param_matrix.at(i, j) == s1.shared.param_matrix.at(
                i,
                j,
            ),
        0 <= c1 < s1.shared.class_count,
        c1 != c0,
        0 <= m <= s1.shared.class_count,
    ensures
        class_dv(s2, c1, p1, m) == class_dv(s1, c1, p1, m),
    decreases m,
{
    if m > 0 {
        lemma_class_dv_congruent_rec(s1, s2, c0, c1, p1, m - 1);
        if m - 1 == c0 {
            assert(s1.count_at(c0) == 0 && s2.count_at(c0) == 0);
            assert(pair_dv(s1, c1, p1, c0, 0) == (0int, 0int));
            assert(pair_dv(s2, c1, p1, c0, 0) == (0int, 0int));
        } else {
            assert(s2.shared.param_matrix.at(c1, m - 1) == s1.shared.param_matrix.at(
                c1,
                m - 1,
            ));
            lemma_pair_dv_congruent(s1, s2, c1, p1, m - 1, s1.count_at(m - 1));
            assert(s2.count_at(m - 1) == s1.count_at(m - 1));
        }
    }
}

} // verus!

verus! {

/// How one step moves a single coordinate of a resting particle under the
/// boundary spring alone: the move is toward zero, never overshoots, and —
/// when this coordinate is the dominant one and the spring is engaged — is
/// at least one fixed-point unit.
proof fn lemma_component_step(a: int, mag: int, r: int, dt: int)
    requires
        r > 0,
        mag >= 0,
        50 * mag <= r,
        10 <= dt <= 1000,
    ensures
        ({
            let da = tz_div(-a * mag, r);
            let nv = tz_div(da * (DAMPING_NUM as int), DAMPING_DEN as int);
            let de = tz_div(nv * (POS_FACTOR as int) * dt, MS_PER_SECOND as int);
            &&& abs(de) <= abs(a)
            &&& a > 0 ==> de <= 0
            &&& a < 0 ==> de >= 0
            &&& a == 0 ==> de == 0
            &&& (a + de) * (a + de) <= a * a - abs(de) * abs(a)
            &&& (2 * abs(a) >= r && mag >= 20) ==> abs(de) >= 1
        }),
{
    let da = tz_div(-a * mag, r);
    let nv = tz_div(da * (DAMPING_NUM as int), DAMPING_DEN as int);
    let de = tz_div(nv * (POS_FACTOR as int) * dt, MS_PER_SECOND as int);
    crate::math::lemma_tz_abs(-a * mag, r);
    crate::math::lemma_tz_abs(da * 2, 5);
    crate::math::lemma_tz_abs(nv * 40 * dt, 1000);
    // Signs: each stage keeps the inward direction.
    assert((a > 0 ==> -a * mag <= 0) && (a < 0 ==> -a * mag >= 0) && (a == 0 ==> -a * mag
        == 0)) by (nonlinear_arith)
        requires
            mag >= 0,
    ;
    assert((da > 0 ==> da * 2 > 0) && (da < 0 ==> da * 2 < 0) && (da == 0 ==> da * 2 == 0))
        by (nonlinear_arith);
    assert((nv > 0 ==> nv * 40 * dt >= 0) && (nv < 0 ==> nv * 40 * dt <= 0) && (nv == 0
        ==> nv * 40 * dt == 0)) by (nonlinear_arith)
        requires
            dt >= 10,
    ;
    assert(a > 0 ==> de <= 0);
    assert(a < 0 ==> de >= 0);
    assert(a == 0 ==> de == 0);
    // Magnitudes through the divisions.
    let q1 = abs(da);
    let q2 = abs(nv);
    let q3 = abs(de);
    assert(abs(-a * mag) == abs(a) * mag) by (nonlinear_arith)
        requires
            mag >= 0,
    ;
    assert(abs(da * 2) == 2 * abs(da)) by (nonlinear_arith);
    assert(abs(nv * 40 * dt) == abs(nv) * 40 * dt) by (nonlinear_arith)
        requires
            dt >= 10,
    ;
    vstd::arithmetic::div_mod::lemma_fundamental_div_mod(abs(a) * mag, r);
    vstd::arithmetic::div_mod::lemma_mod_bound(abs(a) * mag, r);
    vstd::arithmetic::div_mod::lemma_fundamental_div_mod(2 * q1, 5);
    vstd::arithmetic::div_mod::lemma_mod_bound(2 * q1, 5);
    vstd::arithmetic::div_mod::lemma_fundamental_div_mod(q2 * 40 * dt, 1000);
    vstd::arithmetic::div_mod::lemma_mod_bound(q2 * 40 * dt, 1000);
    assert(q1 == (abs(a) * mag) / r);
    assert(q2 == (2 * q1) / 5);
    assert(q3 == (q2 * 40 * dt) / 1000);
    // 50 * q1 <= abs(a)
    assert(r * q1 <= abs(a) * mag);
    assert(50 * (abs(a) * mag) <= abs(a) * r) by (nonlinear_arith)
        requires
            50 * mag <= r,
            abs(a) >= 0,
    ;
    assert(50 * q1 <= abs(a)) by (nonlinear_arith)
        requires
            r > 0,
            r * q1 <= abs(a) * mag,
            50 * (abs(a) * mag) <= abs(a) * r,
    ;
    // q2 <= q1, q3 <= 40 * q2
    assert(5 * q2 <= 2 * q1);
    assert(1000 * q3 <= q2 * 40 * dt);
    assert(q2 * 40 * dt <= 40000 * q2) by (nonlinear_arith)
        requires
            dt <= 1000,
            q2 >= 0,
    ;
    assert(q3 <= 40 * q2);
    assert(q2 <= q1);
    assert(50 * q3 <= 2000 * q2 && 2000 * q2 <= 2000 * q1);
    assert(50 * q3 <= 40 * abs(a));
    assert(q3 <= abs(a));
    // the move never increases the square
    assert((a + de) * (a + de) <= a * a - abs(de) * abs(a)) by (nonlinear_arith)
        requires
            abs(de) <= abs(a),
            a > 0 ==> de <= 0,
            a < 0 ==> de >= 0,
            a == 0 ==> de == 0,
    ;
    // strict move for the dominant coordinate
    if 2 * abs(a) >= r && mag >= 20 {
        assert(abs(a) * mag >= 10 * r) by (nonlinear_arith)
            requires
                2 * abs(a) >= r,
                mag >= 20,
                abs(a) >= 0,
                r > 0,
        ;
        assert(r * (q1 + 1) == r * q1 + r) by (nonlinear_arith);
        assert(r * (q1 + 1) > abs(a) * mag);
        assert(q1 + 1 > 10) by (nonlinear_arith)
            requires
                r > 0,
                r * (q1 + 1) > abs(a) * mag,
                abs(a) * mag >= 10 * r,
        ;
        assert(q1 >= 10);
        assert(5 * (q2 + 1) == 5 * q2 + 5) by (nonlinear_arith);
        assert(5 * (q2 + 1) > 2 * q1);
        assert(q2 >= 4);
        assert(q2 * 40 * dt >= 1600) by (nonlinear_arith)
            requires
                q2 >= 4,
                dt >= 10,
        ;
        assert(1000 * (q3 + 1) == 1000 * q3 + 1000) by (nonlinear_arith);
        assert(1000 * (q3 + 1) > q2 * 40 * dt);
        assert(q3 >= 1);
    }
}

/// The boundary policy (a soft spring): a lone particle at rest, at least
/// one world unit beyond the world radius, is strictly closer to the center
/// (in squared distance) after one tick.
pub proof fn lemma_boundary_pulls_inward(s: Simulation, c1: int, p1: int, dt: int)
    requires
        s.wf(),
        0 <= c1 < s.shared.class_count,
        0 <= p1 < s.count_at(c1),
        s.vel_at(c1, p1) == (Vec2F { x: 0, y: 0 }),
        class_dv(s, c1, p1, s.shared.class_count as int) == (0int, 0int),
        dist_fp(s.pos_at(c1, p1).x as int, s.pos_at(c1, p1).y as int) >= s.shared.world_radius
            * (FP_SCALE as int) + FP_SCALE,
        10 <= dt <= 1000,
    ensures
        ({
            let np = new_pos_spec(s, c1, p1, dt);
            let pos = s.pos_at(c1, p1);
            np.0 * np.0 + np.1 * np.1 < pos.x * pos.x + pos.y * pos.y
        }),
{
    let pos = s.pos_at(c1, p1);
    let x = pos.x as int;
    let y = pos.y as int;
    let r = dist_fp(x, y);
    let wr = s.shared.world_radius * (FP_SCALE as int);
    assert(s.shared.world_radius * (FP_SCALE as int) >= 0) by (nonlinear_arith)
        requires
            s.shared.world_radius >= 0,
            FP_SCALE == 1000,
    ;
    assert(wr >= 0);
    assert(r >= 1000);
    let e = r - wr;
    assert(e >= 1000);
    lemma_dist_within_box(pos);
    let mag = tz_div(BORDER_FORCE_FP * e, FP_SCALE as int);
    crate::math::lemma_tz_abs(20 * e, 1000);
    vstd::arithmetic::div_mod::lemma_fundamental_div_mod(20 * e, 1000);
    vstd::arithmetic::div_mod::lemma_mod_bound(20 * e, 1000);
    assert(mag == (20 * e) / 1000);
    assert(mag >= 0);
    assert(1000 * mag <= 20 * e);
    assert(50 * mag <= e);
    assert(e <= r);
    assert(mag >= 20) by {
        assert(1000 * (mag + 1) > 20 * e);
        assert(20 * e >= 20000);
    }
    assert(border_dv(s, c1, p1) == (tz_div(-pos.x * mag, r), tz_div(-pos.y * mag, r)));
    let bx = tz_div(-x * mag, r);
    let by = tz_div(-y * mag, r);
    assert(total_dv(s, c1, p1) == (bx, by));
    assert(new_vel_spec(s, c1, p1) == (
        tz_div(bx * (DAMPING_NUM as int), DAMPING_DEN as int),
        tz_div(by * (DAMPING_NUM as int), DAMPING_DEN as int),
    ));
    let nvx = tz_div(bx * (DAMPING_NUM as int), DAMPING_DEN as int);
    let nvy = tz_div(by * (DAMPING_NUM as int), DAMPING_DEN as int);
    let dex = tz_div(nvx * (POS_FACTOR as int) * dt, MS_PER_SECOND as int);
    let dey = tz_div(nvy * (POS_FACTOR as int) * dt, MS_PER_SECOND as int);
    lemma_component_step(x, mag, r, dt);
    lemma_component_step(y, mag, r, dt);
    // the clamp is the identity: the move shrinks each coordinate
    assert(abs(x + dex) <= abs(x) && abs(y + dey) <= abs(y)) by (nonlinear_arith)
        requires
            abs(dex) <= abs(x),
            abs(dey) <= abs(y),
            x > 0 ==> dex <= 0,
            x < 0 ==> dex >= 0,
            x == 0 ==> dex == 0,
            y > 0 ==> dey <= 0,
            y < 0 ==> dey >= 0,
            y == 0 ==> dey == 0,
    ;
    assert(new_pos_spec(s, c1, p1, dt) == (x + dex, y + dey));
    // one of the two coordinates dominates and moves strictly
    assert(x * x >= 0 && y * y >= 0 && x * x == abs(x) * abs(x) && y * y == abs(y) * abs(
        y,
    )) by (nonlinear_arith);
    crate::math::lemma_isqrt_bounds((x * x + y * y) as nat);
    assert(r * r <= x * x + y * y);
    if abs(x) >= abs(y) {
        assert(2 * abs(x) >= r) by (nonlinear_arith)
            requires
                abs(x) >= abs(y),
                r >= 0,
                r * r <= x * x + y * y,
                x * x == abs(x) * abs(x),
                y * y == abs(y) * abs(y),
        ;
        assert(abs(dex) >= 1);
        assert(abs(x) >= 500);
        assert((x + dex) * (x + dex) + (y + dey) * (y + dey) < x * x + y * y) by (
        nonlinear_arith)
            requires
                (x + dex) * (x + dex) <= x * x - abs(dex) * abs(x),
                (y + dey) * (y + dey) <= y * y - abs(dey) * abs(y),
                abs(dex) >= 1,
                abs(x) >= 500,
                abs(dey) * abs(y) >= 0,
        ;
    } else {
        assert(2 * abs(y) >= r) by (nonlinear_arith)
            requires
                abs(y) >= abs(x),
                r >= 0,
                r * r <= x * x + y * y,
                x * x == abs(x) * abs(x),
                y * y == abs(y) * abs(y),
        ;
        assert(abs(dey) >= 1);
        assert(abs(y) >= 500);
        assert((x + dex) * (x + dex) + (y + dey) * (y + dey) < x * x + y * y) by (
        nonlinear_arith)
            requires
                (x + dex) * (x + dex) <= x * x - abs(dex) * abs(x),
                (y + dey) * (y + dey) <= y * y - abs(dey) * abs(y),
                abs(dey) >= 1,
                abs(y) >= 500,
                abs(dex) * abs(x) >= 0,
        ;
    }
}

} // verus!
