//! The simulation's data model: per-pair parameters, the parameter matrix,
//! the shared configuration that both sides of the command channel agree on,
//! and the message types exchanged with the presentation layer.

use vstd::prelude::*;

use crate::math::{spec_clamp, spec_min};
use crate::vec2::Vec2F;
use crate::{
    DEFAULT_FORCE, DEFAULT_RADIUS, DEFAULT_WORLD_RADIUS, MAX_CLASSES, MAX_PARTICLE_COUNT,
    PARAM_MAX, PARAM_MIN, WORLD_RADIUS_LIMIT,
};

verus! {

/// The run state of the simulation. Only `Running` advances the integrator;
/// `Paused` and `Stopped` still accept configuration and spawn commands.
#[derive(PartialEq, Eq, Structural, Clone, Copy, Debug)]
pub enum SimulationState {
    Stopped,
    Paused,
    Running,
}

/// The influence one class exerts on another: a signed force (positive
/// repels, negative attracts) and the action radius (world units) within
/// which it applies.
#[derive(PartialEq, Eq, Structural, Clone, Copy, Debug)]
pub struct Param {
    pub force: i64,
    pub radius: i64,
}

impl Param {
    /// Both fields fit in one signed byte of the save format.
    pub open spec fn wf(self) -> bool {
        &&& PARAM_MIN <= self.force <= PARAM_MAX
        &&& PARAM_MIN <= self.radius <= PARAM_MAX
    }

    pub fn new(force: i64, radius: i64) -> (r: Param)
        ensures
            r.force == force,
            r.radius == radius,
    {
        Param { force, radius }
    }
}

/// Dense `MAX_CLASSES x MAX_CLASSES` table of `Param`, stored row-major.
/// Entry `(i, j)` is the influence class `j` exerts on a particle of class
/// `i` (the row is the affected class).
#[derive(Clone, Debug)]
pub struct ParamMatrix {
    pub params: Vec<Param>,
}

impl ParamMatrix {
    pub open spec fn wf(self) -> bool {
        &&& self.params@.len() == MAX_CLASSES * MAX_CLASSES
        &&& forall|k: int| 0 <= k < self.params@.len() ==> (#[trigger] self.params@[k]).wf()
    }

    /// The entry in row `i`, column `j`.
    pub open spec fn at(self, i: int, j: int) -> Param {
        self.params@[i * (MAX_CLASSES as int) + j]
    }

    /// A matrix with every entry equal to `p`.
    pub fn filled(p: Param) -> (r: ParamMatrix)
        ensures
            r.params@.len() == MAX_CLASSES * MAX_CLASSES,
            forall|m: int| 0 <= m < r.params@.len() ==> #[trigger] r.params@[m] == p,
    {
        let mut params: Vec<Param> = Vec::new();
        let mut k: usize = 0;
        while k < MAX_CLASSES * MAX_CLASSES
            invariant
                k <= MAX_CLASSES * MAX_CLASSES,
                params@.len() == k,
                forall|m: int| 0 <= m < k ==> params@[m] == p,
            decreases MAX_CLASSES * MAX_CLASSES - k,
        {
            params.push(p);
            k = k + 1;
        }
        ParamMatrix { params }
    }

    pub fn get(&self, i: usize, j: usize) -> (r: Param)
        requires
            i < MAX_CLASSES,
            j < MAX_CLASSES,
            self.params@.len() == MAX_CLASSES * MAX_CLASSES,
        ensures
            r == self.at(i as int, j as int),
    {
        self.params[i * MAX_CLASSES + j]
    }

    pub fn set(&mut self, i: usize, j: usize, p: Param)
        requires
            i < MAX_CLASSES,
            j < MAX_CLASSES,
            old(self).params@.len() == MAX_CLASSES * MAX_CLASSES,
        ensures
            final(self).params@ == old(self).params@.update(
                i * (MAX_CLASSES as int) + j,
                p,
            ),
            final(self).at(i as int, j as int) == p,
            forall|a: int, b: int|
                0 <= a < MAX_CLASSES && 0 <= b < MAX_CLASSES && !(a == i && b == j)
                    ==> final(self).at(a, b) == old(self).at(a, b),
    {
        self.params[i * MAX_CLASSES + j] = p;
        proof {
            assert forall|a: int, b: int|
                0 <= a < MAX_CLASSES && 0 <= b < MAX_CLASSES && !(a == i && b == j)
                implies self.at(a, b) == old(self).at(a, b) by {
                assert(a * (MAX_CLASSES as int) + b != i * (MAX_CLASSES as int) + j)
                    by (nonlinear_arith)
                    requires
                        0 <= a < 8,
                        0 <= b < 8,
                        0 <= i < 8,
                        0 <= j < 8,
                        !(a == i && b == j),
                        MAX_CLASSES == 8,
                ;
            }
        }
    }
}

/// The configuration that the presentation layer edits and the simulation
/// thread runs: run state, world radius, how many classes are active, how
/// many particles each class has, and the full parameter matrix.
#[derive(Clone, Debug)]
pub struct SharedState {
    pub simulation_state: SimulationState,
    pub world_radius: i64,
    pub class_count: usize,
    pub particle_counts: Vec<usize>,
    pub param_matrix: ParamMatrix,
}

impl SharedState {
    pub open spec fn wf(self) -> bool {
        &&& 0 <= self.world_radius <= WORLD_RADIUS_LIMIT
        &&& self.class_count <= MAX_CLASSES
        &&& self.particle_counts@.len() == MAX_CLASSES
        &&& forall|c: int|
            0 <= c < MAX_CLASSES ==> #[trigger] self.particle_counts@[c] <= MAX_PARTICLE_COUNT
        &&& self.param_matrix.wf()
    }

    /// The documented default configuration: stopped, default world radius,
    /// all classes enabled, no particles, and every matrix entry at the
    /// default force and radius.
    pub open spec fn is_default(self) -> bool {
        &&& self.simulation_state == SimulationState::Stopped
        &&& self.world_radius == DEFAULT_WORLD_RADIUS
        &&& self.class_count == MAX_CLASSES
        &&& self.particle_counts@.len() == MAX_CLASSES
        &&& forall|c: int| 0 <= c < MAX_CLASSES ==> #[trigger] self.particle_counts@[c] == 0
        &&& self.param_matrix.params@.len() == MAX_CLASSES * MAX_CLASSES
        &&& forall|k: int|
            0 <= k < MAX_CLASSES * MAX_CLASSES ==> #[trigger] self.param_matrix.params@[k]
                == (Param { force: DEFAULT_FORCE, radius: DEFAULT_RADIUS })
    }

    pub fn new() -> (r: SharedState)
        ensures
            r.is_default(),
            r.wf(),
    {
        let mut particle_counts: Vec<usize> = Vec::new();
        let mut c: usize = 0;
        while c < MAX_CLASSES
            invariant
                c <= MAX_CLASSES,
                particle_counts@.len() == c,
                forall|m: int| 0 <= m < c ==> #[trigger] particle_counts@[m] == 0,
            decreases MAX_CLASSES - c,
        {
            particle_counts.push(0);
            c = c + 1;
        }
        SharedState {
            simulation_state: SimulationState::Stopped,
            world_radius: DEFAULT_WORLD_RADIUS,
            class_count: MAX_CLASSES,
            particle_counts,
            param_matrix: ParamMatrix::filled(Param::new(DEFAULT_FORCE, DEFAULT_RADIUS)),
        }
    }

    /// Puts every configuration field back to its documented default.
    pub fn reset_to_defaults(&mut self)
        requires
            old(self).wf(),
        ensures
            final(self).wf(),
            final(self).is_default(),
            final(self).cfg() == SharedState::default_cfg(),
    {
        self.simulation_state = SimulationState::Stopped;
        self.world_radius = DEFAULT_WORLD_RADIUS;
        self.class_count = MAX_CLASSES;
        let mut c: usize = 0;
        while c < MAX_CLASSES
            invariant
                c <= MAX_CLASSES,
                self.particle_counts@.len() == MAX_CLASSES,
                forall|a: int| 0 <= a < c ==> #[trigger] self.particle_counts@[a] == 0,
                self.simulation_state == SimulationState::Stopped,
                self.world_radius == DEFAULT_WORLD_RADIUS,
                self.class_count == MAX_CLASSES,
                self.param_matrix == old(self).param_matrix,
            decreases MAX_CLASSES - c,
        {
            self.particle_counts[c] = 0;
            c = c + 1;
        }
        self.param_matrix = ParamMatrix::filled(Param::new(DEFAULT_FORCE, DEFAULT_RADIUS));
        proof {
            assert(self.cfg() =~= SharedState::default_cfg());
        }
    }
}

/// The mathematical view of a `SharedState`: the run state, the scalars as
/// unbounded integers, and the counts and matrix entries as sequences.
/// Contracts about configuration changes are stated over this view.
#[verifier::ext_equal]
pub struct ConfigView {
    pub state: SimulationState,
    pub world_radius: int,
    pub class_count: int,
    pub counts: Seq<int>,
    pub params: Seq<Param>,
}

impl SharedState {
    /// The configuration this state holds, as a mathematical value.
    pub open spec fn cfg(self) -> ConfigView {
        ConfigView {
            state: self.simulation_state,
            world_radius: self.world_radius as int,
            class_count: self.class_count as int,
            counts: Seq::new(MAX_CLASSES as nat, |c: int| self.particle_counts@[c] as int),
            params: self.param_matrix.params@,
        }
    }

    /// The documented default configuration as a view value.
    pub open spec fn default_cfg() -> ConfigView {
        ConfigView {
            state: SimulationState::Stopped,
            world_radius: DEFAULT_WORLD_RADIUS as int,
            class_count: MAX_CLASSES as int,
            counts: Seq::new(MAX_CLASSES as nat, |c: int| 0),
            params: Seq::new(
                (MAX_CLASSES * MAX_CLASSES) as nat,
                |k: int| (Param { force: DEFAULT_FORCE, radius: DEFAULT_RADIUS }),
            ),
        }
    }
}

/// A parameter clamped into the byte range the engine stores.
pub open spec fn clamp_param_spec(p: Param) -> Param {
    Param {
        force: spec_clamp(p.force as int, PARAM_MIN as int, PARAM_MAX as int) as i64,
        radius: spec_clamp(p.radius as int, PARAM_MIN as int, PARAM_MAX as int) as i64,
    }
}

/// What one command does to the configuration. Values arriving from outside
/// are defensively clamped into the engine's legal ranges, so that a step
/// can never index out of bounds or overflow.
pub open spec fn apply_config_event(v: ConfigView, e: UiEvent) -> ConfigView {
    match e {
        UiEvent::Play => ConfigView { state: SimulationState::Running, ..v },
        UiEvent::Pause => ConfigView { state: SimulationState::Paused, ..v },
        UiEvent::Reset => SharedState::default_cfg(),
        UiEvent::Spawn => v,
        UiEvent::Quit => v,
        UiEvent::ParamsUpdate(m) => ConfigView {
            params: Seq::new(
                (MAX_CLASSES * MAX_CLASSES) as nat,
                |k: int|
                    if 0 <= k < m.params@.len() {
                        clamp_param_spec(m.params@[k])
                    } else {
                        (Param { force: DEFAULT_FORCE, radius: DEFAULT_RADIUS })
                    },
            ),
            ..v
        },
        UiEvent::ClassCountUpdate(n) => ConfigView {
            class_count: spec_min(n as int, MAX_CLASSES as int),
            ..v
        },
        UiEvent::ParticleCountsUpdate(cs) => ConfigView {
            counts: Seq::new(
                MAX_CLASSES as nat,
                |c: int|
                    if 0 <= c < cs@.len() {
                        spec_min(cs@[c] as int, MAX_PARTICLE_COUNT as int)
                    } else {
                        0
                    },
            ),
            ..v
        },
        UiEvent::WorldRadiusUpdate(w) => ConfigView {
            world_radius: spec_clamp(w as int, 0, WORLD_RADIUS_LIMIT as int),
            ..v
        },
    }
}

/// The configuration after a batch of commands, applied oldest-first; a
/// `Quit` command ends processing, as the simulation thread does.
pub open spec fn apply_events_view(v: ConfigView, evs: Seq<UiEvent>) -> ConfigView
    decreases evs.len(),
{
    if evs.len() == 0 {
        v
    } else {
        let v1 = apply_config_event(v, evs[0]);
        if evs[0] is Quit {
            v1
        } else {
            apply_events_view(v1, evs.drop_first())
        }
    }
}

/// Whether a batch of commands asks the simulation thread to quit.
pub open spec fn events_quit(evs: Seq<UiEvent>) -> bool
    decreases evs.len(),
{
    if evs.len() == 0 {
        false
    } else if evs[0] is Quit {
        true
    } else {
        events_quit(evs.drop_first())
    }
}

/// Whether a batch of commands spawns particles before any `Quit`.
pub open spec fn events_spawn(evs: Seq<UiEvent>) -> bool
    decreases evs.len(),
{
    if evs.len() == 0 {
        false
    } else if evs[0] is Quit {
        false
    } else if evs[0] is Spawn {
        true
    } else {
        events_spawn(evs.drop_first())
    }
}

/// Commands the presentation layer sends to the simulation thread.
#[derive(Clone, Debug)]
pub enum UiEvent {
    Play,
    Pause,
    Reset,
    Spawn,
    Quit,
    ParamsUpdate(ParamMatrix),
    ClassCountUpdate(usize),
    ParticleCountsUpdate(Vec<usize>),
    WorldRadiusUpdate(i64),
}

/// What one call to `Simulation::update` did; the caller publishes a
/// position snapshot when `spawned` or `stepped` is set, and leaves its
/// loop when `quit` is set.
#[derive(PartialEq, Eq, Structural, Clone, Copy, Debug)]
pub struct UpdateOutcome {
    pub quit: bool,
    pub spawned: bool,
    pub stepped: bool,
}

/// One published frame: the wall-clock duration of the step that produced
/// it, in milliseconds (absent for a spawn-triggered publish), and a full
/// snapshot of the position table.
#[derive(Clone, Debug)]
pub struct SimResults(pub Option<u64>, pub Vec<Vec2F>);

} // verus!
