use teemlab::experiment::{LabMode, LabSetup, SweepParams, EXPERIMENTS_DIR};

#[test]
fn mode_flags() {
    assert!(LabMode::Breed.has_breed() && !LabMode::Breed.has_sweep());
    assert!(LabMode::Sweep.has_sweep() && !LabMode::Sweep.has_breed());
    assert!(LabMode::Both.has_sweep() && LabMode::Both.has_breed());
}

#[test]
fn default_mode_is_breeding() {
    assert_eq!(LabMode::default(), LabMode::Breed);
}

#[test]
fn every_mode_sweeps_or_breeds_and_only_both_does_both() {
    for m in [LabMode::Breed, LabMode::Sweep, LabMode::Both] {
        assert!(m.has_sweep() || m.has_breed());
        assert_eq!(m.has_sweep() && m.has_breed(), m == LabMode::Both);
    }
}

#[test]
fn setup_snapshot_trims_the_name_and_copies_the_search() {
    let sweep = SweepParams { parameter: "nutrient decay".to_string(), min: 0.0f32, max: 0.1f32, steps: 5 };
    let mut setup = LabSetup::new(sweep);
    assert_eq!(setup.mode, LabMode::Breed);
    assert!(setup.run_record);
    assert_eq!(setup.experiment_name, "");
    setup.mode = LabMode::Both;
    setup.experiment_name = "  decay ladder \t".to_string();
    let exp = setup.to_experiment("reef".to_string(), 12648430);
    assert_eq!(exp.name, "decay ladder");
    assert_eq!(exp.scenario, "reef");
    assert_eq!(exp.seed, 12648430);
    assert_eq!(exp.mode, LabMode::Both);
    assert_eq!(exp.sweep.parameter, "nutrient decay");
    assert_eq!(exp.sweep.min, 0.0);
    assert_eq!(exp.sweep.max, 0.1);
    assert_eq!(exp.sweep.steps, 5);
    assert_eq!(exp.notes, "");
    assert_eq!(EXPERIMENTS_DIR, "experiments/saved");
}

#[test]
fn snapshot_trims_unicode_white_space_but_keeps_inner_and_other_marks() {
    let sweep = SweepParams { parameter: "p".to_string(), min: 0.0f32, max: 1.0f32, steps: 2 };
    let mut setup = LabSetup::new(sweep);
    setup.experiment_name = "\u{3000}\u{2003}\u{85}tide\u{a0}pool\u{2029}\n".to_string();
    assert_eq!(setup.to_experiment("s".to_string(), 1).name, "tide\u{a0}pool");
    // A zero-width space is not white space, so it stays.
    setup.experiment_name = "\u{200b}reef ".to_string();
    assert_eq!(setup.to_experiment("s".to_string(), 1).name, "\u{200b}reef");
}
