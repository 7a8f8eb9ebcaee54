use smarticles::engine::Simulation;
use smarticles::state::{Param, SimulationState, UiEvent};
use smarticles::vec2::Vec2F;
use smarticles::{
    DEFAULT_RADIUS, DEFAULT_WORLD_RADIUS, MAX_CLASSES, MAX_PARTICLE_COUNT,
    SPAWN_AREA_RADIUS_FP, UPDATE_INTERVAL_MS,
};

fn slot(c: usize, p: usize) -> usize {
    c * MAX_PARTICLE_COUNT + p
}

#[test]
fn new_engine_is_default() {
    let sim = Simulation::new();
    assert_eq!(sim.shared.simulation_state, SimulationState::Stopped);
    assert_eq!(sim.shared.world_radius, DEFAULT_WORLD_RADIUS);
    assert_eq!(sim.shared.class_count, MAX_CLASSES);
    for c in 0..MAX_CLASSES {
        assert_eq!(sim.shared.particle_counts[c], 0);
    }
    for k in 0..MAX_CLASSES * MAX_CLASSES {
        let p = sim.shared.param_matrix.params[k];
        assert_eq!(p.force, 0);
        assert_eq!(p.radius, DEFAULT_RADIUS);
    }
    assert_eq!(sim.particle_positions.len(), MAX_CLASSES * MAX_PARTICLE_COUNT);
    assert_eq!(sim.particle_velocities.len(), MAX_CLASSES * MAX_PARTICLE_COUNT);
}

#[test]
fn zero_forces_only_damp_velocity() {
    let mut sim = Simulation::new();
    sim.shared.particle_counts[0] = 1;
    sim.particle_positions[slot(0, 0)] = Vec2F { x: 100000, y: 0 };
    sim.particle_velocities[slot(0, 0)] = Vec2F { x: 5000, y: 0 };
    sim.move_particles(UPDATE_INTERVAL_MS);
    // with all forces zero, the velocity only decays: 5000 * 2 / 5 = 2000,
    // and the position moves by 2000 * 40 * 30 / 1000 = 2400
    assert_eq!(sim.particle_velocities[slot(0, 0)], Vec2F { x: 2000, y: 0 });
    assert_eq!(sim.particle_positions[slot(0, 0)], Vec2F { x: 102400, y: 0 });
    sim.move_particles(UPDATE_INTERVAL_MS);
    assert_eq!(sim.particle_velocities[slot(0, 0)], Vec2F { x: 800, y: 0 });
    assert_eq!(sim.particle_positions[slot(0, 0)], Vec2F { x: 103360, y: 0 });
}

#[test]
fn particle_at_rest_inside_world_stays_put() {
    let mut sim = Simulation::new();
    sim.shared.particle_counts[2] = 1;
    sim.particle_positions[slot(2, 0)] = Vec2F { x: 100000, y: -200000 };
    sim.move_particles(UPDATE_INTERVAL_MS);
    assert_eq!(sim.particle_positions[slot(2, 0)], Vec2F { x: 100000, y: -200000 });
    assert_eq!(sim.particle_velocities[slot(2, 0)], Vec2F { x: 0, y: 0 });
}

#[test]
fn boundary_spring_pulls_strictly_inward() {
    let mut sim = Simulation::new();
    sim.shared.particle_counts[0] = 1;
    // 950 world units from the center, 50 beyond the default world radius
    sim.particle_positions[slot(0, 0)] = Vec2F { x: 950000, y: 0 };
    sim.move_particles(UPDATE_INTERVAL_MS);
    // spring: mag = 20 * 50000 / 1000 = 1000; dv = -1000; vel = -400;
    // move = -400 * 40 * 30 / 1000 = -480
    assert_eq!(sim.particle_velocities[slot(0, 0)], Vec2F { x: -400, y: 0 });
    assert_eq!(sim.particle_positions[slot(0, 0)], Vec2F { x: 949520, y: 0 });
    assert!(949520i64 < 950000);
}

#[test]
fn empty_class_contributes_no_force() {
    let mut a = Simulation::new();
    a.shared.particle_counts[0] = 1;
    a.particle_positions[slot(0, 0)] = Vec2F { x: 50000, y: 20000 };
    a.particle_velocities[slot(0, 0)] = Vec2F { x: 3000, y: -1000 };
    let mut b = Simulation::new();
    b.shared.particle_counts[0] = 1;
    b.particle_positions[slot(0, 0)] = Vec2F { x: 50000, y: 20000 };
    b.particle_velocities[slot(0, 0)] = Vec2F { x: 3000, y: -1000 };
    // class 1 has no particles; give it wild matrix entries in b only
    for k in 0..MAX_CLASSES {
        b.shared.param_matrix.set(1, k, Param::new(100, 100));
        b.shared.param_matrix.set(k, 1, Param::new(-100, 100));
    }
    a.move_particles(UPDATE_INTERVAL_MS);
    b.move_particles(UPDATE_INTERVAL_MS);
    assert_eq!(a.particle_positions[slot(0, 0)], b.particle_positions[slot(0, 0)]);
    assert_eq!(a.particle_velocities[slot(0, 0)], b.particle_velocities[slot(0, 0)]);
}

#[test]
fn close_force_pushes_particles_apart() {
    let mut sim = Simulation::new();
    sim.shared.particle_counts[0] = 2;
    sim.particle_positions[slot(0, 0)] = Vec2F { x: 0, y: 0 };
    sim.particle_positions[slot(0, 1)] = Vec2F { x: 10000, y: 0 };
    sim.move_particles(UPDATE_INTERVAL_MS);
    // close force at 10 world units: 40 * (10000 - 30000) / 30000 = -26;
    // velocity -26 * 2 / 5 = -10; move -10 * 1200 / 1000 = -12
    assert_eq!(sim.particle_positions[slot(0, 0)], Vec2F { x: -12, y: 0 });
    assert_eq!(sim.particle_positions[slot(0, 1)], Vec2F { x: 10012, y: 0 });
}

#[test]
fn inert_slots_are_never_stepped() {
    let mut sim = Simulation::new();
    sim.shared.particle_counts[0] = 1;
    // a slot beyond the active count keeps whatever it holds
    sim.particle_positions[slot(0, 5)] = Vec2F { x: 77, y: 88 };
    sim.particle_velocities[slot(0, 5)] = Vec2F { x: 9, y: 9 };
    sim.move_particles(UPDATE_INTERVAL_MS);
    assert_eq!(sim.particle_positions[slot(0, 5)], Vec2F { x: 77, y: 88 });
    assert_eq!(sim.particle_velocities[slot(0, 5)], Vec2F { x: 9, y: 9 });
}

#[test]
fn spawn_places_active_particles_in_disk_with_zero_velocity() {
    let mut sim = Simulation::new();
    sim.shared.particle_counts[0] = 50;
    sim.shared.particle_counts[3] = 20;
    for p in 0..50 {
        sim.particle_velocities[slot(0, p)] = Vec2F { x: 123, y: -456 };
    }
    sim.spawn();
    for p in 0..50 {
        let pos = sim.particle_positions[slot(0, p)];
        assert!(pos.x * pos.x + pos.y * pos.y <= SPAWN_AREA_RADIUS_FP * SPAWN_AREA_RADIUS_FP);
        assert_eq!(sim.particle_velocities[slot(0, p)], Vec2F { x: 0, y: 0 });
    }
    for p in 0..20 {
        let pos = sim.particle_positions[slot(3, p)];
        assert!(pos.x * pos.x + pos.y * pos.y <= SPAWN_AREA_RADIUS_FP * SPAWN_AREA_RADIUS_FP);
    }
}

#[test]
fn update_play_steps_and_pause_idles() {
    let mut sim = Simulation::new();
    let outcome = sim.update(vec![UiEvent::Play]);
    assert!(!outcome.quit);
    assert!(!outcome.spawned);
    assert!(outcome.stepped);
    assert_eq!(sim.shared.simulation_state, SimulationState::Running);
    let outcome = sim.update(vec![UiEvent::Pause]);
    assert!(!outcome.stepped);
    assert_eq!(sim.shared.simulation_state, SimulationState::Paused);
    let outcome = sim.update(vec![]);
    assert!(!outcome.stepped);
}

#[test]
fn update_stops_at_quit() {
    let mut sim = Simulation::new();
    let outcome = sim.update(vec![UiEvent::Quit, UiEvent::Play]);
    assert!(outcome.quit);
    assert!(!outcome.stepped);
    // the command after the quit was never applied
    assert_eq!(sim.shared.simulation_state, SimulationState::Stopped);
}

#[test]
fn update_reports_spawn() {
    let mut sim = Simulation::new();
    sim.shared.particle_counts[0] = 3;
    let outcome = sim.update(vec![UiEvent::Spawn]);
    assert!(outcome.spawned);
    assert!(!outcome.quit);
}

#[test]
fn update_clamps_configuration_values() {
    let mut sim = Simulation::new();
    sim.update(vec![
        UiEvent::ClassCountUpdate(99),
        UiEvent::WorldRadiusUpdate(999999),
        UiEvent::ParticleCountsUpdate(vec![5000; MAX_CLASSES]),
    ]);
    assert_eq!(sim.shared.class_count, MAX_CLASSES);
    assert_eq!(sim.shared.world_radius, 65535);
    for c in 0..MAX_CLASSES {
        assert_eq!(sim.shared.particle_counts[c], MAX_PARTICLE_COUNT);
    }
}

#[test]
fn update_applies_params_and_counts() {
    let mut sim = Simulation::new();
    let mut m = sim.shared.param_matrix.clone();
    m.set(2, 3, Param::new(-55, 44));
    sim.update(vec![
        UiEvent::ParamsUpdate(m),
        UiEvent::ParticleCountsUpdate(vec![1, 2, 3, 4, 5, 6, 7, 8]),
        UiEvent::WorldRadiusUpdate(700),
    ]);
    let p = sim.shared.param_matrix.get(2, 3);
    assert_eq!((p.force, p.radius), (-55, 44));
    assert_eq!(sim.shared.particle_counts[4], 5);
    assert_eq!(sim.shared.world_radius, 700);
}

#[test]
fn reset_restores_defaults() {
    let mut sim = Simulation::new();
    sim.update(vec![
        UiEvent::Play,
        UiEvent::WorldRadiusUpdate(500),
        UiEvent::ClassCountUpdate(4),
        UiEvent::ParticleCountsUpdate(vec![10; MAX_CLASSES]),
    ]);
    sim.update(vec![UiEvent::Reset]);
    assert_eq!(sim.shared.simulation_state, SimulationState::Stopped);
    assert_eq!(sim.shared.world_radius, DEFAULT_WORLD_RADIUS);
    assert_eq!(sim.shared.class_count, MAX_CLASSES);
    for c in 0..MAX_CLASSES {
        assert_eq!(sim.shared.particle_counts[c], 0);
    }
    for k in 0..MAX_CLASSES * MAX_CLASSES {
        let p = sim.shared.param_matrix.params[k];
        assert_eq!((p.force, p.radius), (0, DEFAULT_RADIUS));
    }
}

#[test]
fn play_and_pause_set_the_state() {
    let mut sim = Simulation::new();
    sim.play();
    assert_eq!(sim.shared.simulation_state, SimulationState::Running);
    sim.pause();
    assert_eq!(sim.shared.simulation_state, SimulationState::Paused);
}
