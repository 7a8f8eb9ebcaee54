use smarticles::codec::{Smarticles, MAX_HISTORY_LEN};
use smarticles::state::{Param, SimulationState, UiEvent};
use smarticles::{DEFAULT_RADIUS, DEFAULT_WORLD_RADIUS, MAX_CLASSES};

const DEFAULT_EXPORT: &str = "@hAMIAAAAAAAAAAAAAAAAAAAAAABQAFAAUABQAFAAUABQAFAAUABQAFAAUABQAFAAUABQAFAAUABQAFAAUABQAFAAUABQAFAAUABQAFAAUABQAFAAUABQAFAAUABQAFAAUABQAFAAUABQAFAAUABQAFAAUABQAFAAUABQAFAAUABQAFAAUABQAFAAUABQAFAAUABQ";

#[test]
fn export_of_default_configuration_is_the_documented_blob() {
    let sm = Smarticles::new();
    assert_eq!(sm.export(), DEFAULT_EXPORT);
}

#[test]
fn export_starts_with_at_sign() {
    let sm = Smarticles::new();
    let s = sm.export();
    assert!(s.starts_with('@'));
}

#[test]
fn reset_then_export_is_always_the_default_blob() {
    let mut sm = Smarticles::new();
    sm.shared.world_radius = 431;
    sm.shared.class_count = 4;
    sm.shared.particle_counts[2] = 999;
    sm.shared.param_matrix.set(1, 1, Param::new(-77, 66));
    sm.reset();
    assert_eq!(sm.export(), DEFAULT_EXPORT);
    assert_eq!(sm.shared.simulation_state, SimulationState::Stopped);
}

#[test]
fn export_import_round_trip_restores_the_configuration() {
    let mut sm = Smarticles::new();
    sm.shared.world_radius = 500;
    sm.shared.class_count = 5;
    let counts = [100usize, 200, 300, 1200, 0, 7, 8, 9];
    for c in 0..MAX_CLASSES {
        sm.shared.particle_counts[c] = counts[c];
    }
    sm.shared.param_matrix.set(0, 0, Param::new(-100, 30));
    sm.shared.param_matrix.set(1, 2, Param::new(100, 100));
    sm.shared.param_matrix.set(7, 7, Param::new(-128, 127));
    let exported = sm.export();

    let mut other = Smarticles::new();
    other.shared.simulation_state = SimulationState::Running;
    other.seed = exported;
    other.apply_seed();
    assert_eq!(other.shared.world_radius, 500);
    assert_eq!(other.shared.class_count, 5);
    for c in 0..MAX_CLASSES {
        assert_eq!(other.shared.particle_counts[c], counts[c]);
    }
    let p = other.shared.param_matrix.get(0, 0);
    assert_eq!((p.force, p.radius), (-100, 30));
    let p = other.shared.param_matrix.get(1, 2);
    assert_eq!((p.force, p.radius), (100, 100));
    let p = other.shared.param_matrix.get(7, 7);
    assert_eq!((p.force, p.radius), (-128, 127));
    // the run state of the importing side is untouched
    assert_eq!(other.shared.simulation_state, SimulationState::Running);
}

#[test]
fn import_of_truncated_blob_falls_back_to_defaults() {
    let mut sm = Smarticles::new();
    sm.shared.world_radius = 250;
    sm.shared.class_count = 3;
    sm.shared.particle_counts[0] = 55;
    sm.shared.param_matrix.set(0, 0, Param::new(9, 9));
    // only the world radius field is present
    sm.import(&vec![0x84u8, 0x03]);
    assert_eq!(sm.shared.world_radius, 900);
    assert_eq!(sm.shared.class_count, MAX_CLASSES);
    for c in 0..MAX_CLASSES {
        assert_eq!(sm.shared.particle_counts[c], 0);
    }
    for k in 0..MAX_CLASSES * MAX_CLASSES {
        let p = sm.shared.param_matrix.params[k];
        assert_eq!((p.force, p.radius), (0, 0));
    }
}

#[test]
fn import_of_empty_blob_keeps_all_defaults() {
    let mut sm = Smarticles::new();
    sm.import(&Vec::new());
    assert_eq!(sm.shared.world_radius, DEFAULT_WORLD_RADIUS);
    assert_eq!(sm.shared.class_count, MAX_CLASSES);
}

#[test]
fn import_clamps_out_of_range_fields() {
    let mut sm = Smarticles::new();
    // world 0, class count byte 200, first particle count 65535
    let blob = vec![0u8, 0, 200, 0xFF, 0xFF];
    sm.import(&blob);
    assert_eq!(sm.shared.world_radius, 0);
    assert_eq!(sm.shared.class_count, MAX_CLASSES);
    assert_eq!(sm.shared.particle_counts[0], 1200);
}

#[test]
fn same_seed_text_yields_identical_configurations() {
    let mut a = Smarticles::new();
    a.seed = String::from("alpha");
    a.apply_seed();
    let mut b = Smarticles::new();
    b.seed = String::from("alpha");
    b.apply_seed();
    for c in 0..MAX_CLASSES {
        assert_eq!(a.shared.particle_counts[c], b.shared.particle_counts[c]);
    }
    for k in 0..MAX_CLASSES * MAX_CLASSES {
        assert_eq!(a.shared.param_matrix.params[k], b.shared.param_matrix.params[k]);
    }
}

#[test]
fn seed_derivation_exact_values() {
    let mut sm = Smarticles::new();
    sm.seed = String::from("alpha");
    sm.apply_seed();
    let expected_counts = [249usize, 932, 752, 918, 476, 345, 294, 945];
    for c in 0..MAX_CLASSES {
        assert_eq!(sm.shared.particle_counts[c], expected_counts[c]);
    }
    let expected_row0 = [(13i64, 36i64), (-25, 43), (31, 53), (38, 45)];
    for j in 0..4 {
        let p = sm.shared.param_matrix.get(0, j);
        assert_eq!((p.force, p.radius), expected_row0[j]);
    }
    let p = sm.shared.param_matrix.get(7, 7);
    assert_eq!((p.force, p.radius), (31, 47));
}

#[test]
fn different_seed_texts_yield_different_configurations() {
    let mut a = Smarticles::new();
    a.seed = String::from("alpha");
    a.apply_seed();
    let mut b = Smarticles::new();
    b.seed = String::from("beta");
    b.apply_seed();
    assert_eq!(a.shared.particle_counts[0], 249);
    assert_eq!(b.shared.particle_counts[0], 729);
}

#[test]
fn malformed_base64_falls_back_to_text_hashing() {
    let mut a = Smarticles::new();
    a.seed = String::from("@!!!");
    a.apply_seed();
    let mut b = Smarticles::new();
    b.seed = String::from("@!!!");
    b.apply_seed();
    // deterministic fallback: both derive the same configuration,
    // and the derivation really ran (counts left the default zero)
    assert!(a.shared.particle_counts[0] >= 200);
    for c in 0..MAX_CLASSES {
        assert_eq!(a.shared.particle_counts[c], b.shared.particle_counts[c]);
    }
    for k in 0..MAX_CLASSES * MAX_CLASSES {
        assert_eq!(a.shared.param_matrix.params[k], b.shared.param_matrix.params[k]);
    }
}

#[test]
fn empty_seed_randomizes_within_the_documented_ranges() {
    let mut sm = Smarticles::new();
    sm.apply_seed();
    for c in 0..MAX_CLASSES {
        let n = sm.shared.particle_counts[c];
        assert!((200..1000).contains(&n));
    }
    for k in 0..MAX_CLASSES * MAX_CLASSES {
        let p = sm.shared.param_matrix.params[k];
        assert!(p.force.abs() <= 41);
        assert!((0..128).contains(&p.radius));
    }
}

#[test]
fn reshaping_biases_forces_away_from_the_uniform_range() {
    // derived forces are compressed into [-39, 39] by the root reshaping
    let mut sm = Smarticles::new();
    sm.seed = String::from("alpha");
    sm.apply_seed();
    for k in 0..MAX_CLASSES * MAX_CLASSES {
        let p = sm.shared.param_matrix.params[k];
        assert!(p.force.abs() <= 39);
        assert!((22..=65).contains(&p.radius));
    }
}

#[test]
fn history_keeps_the_last_ten_seeds() {
    let mut sm = Smarticles::new();
    for i in 0..12 {
        sm.seed = format!("seed-{}", i);
        sm.update_history();
    }
    assert_eq!(sm.history.len(), MAX_HISTORY_LEN);
    assert_eq!(sm.selected_history_entry, MAX_HISTORY_LEN - 1);
    assert_eq!(sm.history[0], "seed-2");
    assert_eq!(sm.history[MAX_HISTORY_LEN - 1], "seed-11");
}

#[test]
fn play_pause_spawn_produce_their_commands() {
    let mut sm = Smarticles::new();
    assert!(matches!(sm.play(), UiEvent::Play));
    assert_eq!(sm.shared.simulation_state, SimulationState::Running);
    assert!(matches!(sm.pause(), UiEvent::Pause));
    assert_eq!(sm.shared.simulation_state, SimulationState::Paused);
    assert!(matches!(sm.spawn(), UiEvent::Spawn));
    assert!(matches!(sm.reset(), UiEvent::Reset));
    assert_eq!(sm.shared.world_radius, DEFAULT_WORLD_RADIUS);
}

#[test]
fn default_matrix_entry_is_the_documented_default() {
    let sm = Smarticles::new();
    let p = sm.shared.param_matrix.get(3, 4);
    assert_eq!((p.force, p.radius), (0, DEFAULT_RADIUS));
}
